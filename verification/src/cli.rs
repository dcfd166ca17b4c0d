//! The command line, and the search path that a login shell reports.

use vstd::prelude::*;

use crate::config::{Config, ConfigView};
use crate::path::{path_opt, FsPath};
use crate::text::outside::{lossy_text, text_lossy};
use crate::text::seqs::{split_at_sub, split_sub, views};
use crate::text::strings::{cat2, cat4, chars_of, same_str, str_starts_with, string_of, text_opt, texts};

verus! {

pub const USAGE: &'static str = "usage: ubergit [--no-fetch] [WORKDIR]

Shows every git repository under WORKDIR (default: `workdir` from
~/.config/ubergit/config.toml, else a folder picker).

  --no-fetch   don't fetch in the background (manual f/F still work)";

/// What the arguments ask for.
pub enum Invocation {
    Run {
        /// The last argument that is no option.
        workdir: Option<String>,
        no_fetch: bool,
    },
    Help,
    Version,
    /// An option that there isn't.
    Unknown(String),
}

#[verifier::ext_equal]
pub ghost enum InvocationView {
    Run { workdir: Option<Seq<char>>, no_fetch: bool },
    Help,
    Version,
    Unknown(Seq<char>),
}

impl View for Invocation {
    type V = InvocationView;

    open spec fn view(&self) -> InvocationView {
        match self {
            Invocation::Run { workdir, no_fetch } => InvocationView::Run {
                workdir: text_opt(*workdir),
                no_fetch: *no_fetch,
            },
            Invocation::Help => InvocationView::Help,
            Invocation::Version => InvocationView::Version,
            Invocation::Unknown(arg) => InvocationView::Unknown(arg@),
        }
    }
}

/// What one more argument asks for.
pub open spec fn with_arg(workdir: Option<Seq<char>>, no_fetch: bool, arg: Seq<char>) -> InvocationView {
    if arg == "--no-fetch"@ {
        InvocationView::Run { workdir, no_fetch: true }
    } else if arg == "-h"@ || arg == "--help"@ {
        InvocationView::Help
    } else if arg == "-V"@ || arg == "--version"@ {
        InvocationView::Version
    } else if "-"@.is_prefix_of(arg) {
        InvocationView::Unknown(arg)
    } else {
        InvocationView::Run { workdir: Some(arg), no_fetch }
    }
}

/// What some arguments ask for: the first that settles it does, whatever follows.
pub open spec fn invocation(args: Seq<Seq<char>>) -> InvocationView
    decreases args.len(),
{
    if args.len() == 0 {
        InvocationView::Run { workdir: None, no_fetch: false }
    } else {
        match invocation(args.drop_last()) {
            InvocationView::Run { workdir, no_fetch } => with_arg(workdir, no_fetch, args.last()),
            settled => settled,
        }
    }
}

/// An argument that settles it settles it for any that follow.
proof fn lemma_settled(args: Seq<Seq<char>>, n: int)
    requires
        0 <= n <= args.len(),
        !(invocation(args.take(n)) is Run),
    ensures
        invocation(args) == invocation(args.take(n)),
    decreases args.len(),
{
    if n == args.len() {
        assert(args.take(n) =~= args);
    } else {
        assert(args.drop_last().take(n) =~= args.take(n));
        lemma_settled(args.drop_last(), n);
    }
}

/// Reads the arguments after the program's name.
pub fn parse_args(args: &Vec<String>) -> (r: Invocation)
    ensures
        r@ == invocation(texts(args@)),
{
    let ghost all = texts(args@);
    let mut workdir: Option<String> = None;
    let mut no_fetch = false;
    let mut i: usize = 0;
    assert(all.take(0) =~= Seq::<Seq<char>>::empty());
    while i < args.len()
        invariant
            i <= args@.len(),
            all == texts(args@),
            invocation(all.take(i as int)) == (InvocationView::Run { workdir: text_opt(workdir), no_fetch }),
        decreases args@.len() - i,
    {
        let ghost next = all.take(i + 1);
        assert(next.drop_last() =~= all.take(i as int));
        assert(next.last() == args@[i as int]@);
        let arg = args[i].as_str();
        if same_str(arg, "--no-fetch") {
            no_fetch = true;
        } else if same_str(arg, "-h") || same_str(arg, "--help") {
            proof {
                lemma_settled(all, i + 1);
            }
            return Invocation::Help;
        } else if same_str(arg, "-V") || same_str(arg, "--version") {
            proof {
                lemma_settled(all, i + 1);
            }
            return Invocation::Version;
        } else if str_starts_with(arg, "-") {
            proof {
                lemma_settled(all, i + 1);
            }
            return Invocation::Unknown(arg.to_owned());
        } else {
            workdir = Some(arg.to_owned());
        }
        i = i + 1;
    }
    assert(all.take(all.len() as int) =~= all);
    Invocation::Run { workdir, no_fetch }
}

/// Asking for help or the version is answered, whatever follows.
pub proof fn law_later_arguments_change_nothing(args: Seq<Seq<char>>, more: Seq<Seq<char>>)
    requires
        !(invocation(args) is Run),
    ensures
        invocation(args + more) == invocation(args),
{
    assert((args + more).take(args.len() as int) =~= args);
    lemma_settled(args + more, args.len() as int);
}

/// What an unknown option is answered.
pub fn unknown_option(arg: &str) -> (r: String)
    ensures
        r@ == "unknown option "@ + arg@ + "\n\n"@ + USAGE@,
{
    cat4("unknown option ", arg, "\n\n", USAGE)
}

/// What `--version` is answered.
pub fn version_text(version: &str) -> (r: String)
    ensures
        r@ == "ubergit "@ + version@,
{
    cat2("ubergit ", version)
}

/// The window's title.
pub fn window_title(workdir: &str) -> (r: String)
    ensures
        r@ == "ubergit — "@ + workdir@,
{
    cat2("ubergit — ", workdir)
}

/// The settings with what the arguments say: `--no-fetch` turns off background fetches, and a
/// workdir replaces the configured one.
pub fn configured(config: Config, workdir: Option<FsPath>, no_fetch: bool) -> (r: Config)
    ensures
        r@ == (ConfigView {
            auto_fetch: config@.auto_fetch && !no_fetch,
            workdir: if workdir is Some {
                path_opt(workdir)
            } else {
                config@.workdir
            },
            ..config@
        }),
{
    let mut config = config;
    if no_fetch {
        config.auto_fetch = false;
    }
    if let Some(dir) = workdir {
        config.workdir = Some(dir);
    }
    config
}

/// What the login shell is asked to run.
pub const PRINT_PATH: &'static str = "printf '__PATH__%s__PATH__' \"$PATH\"";

/// The text after the first marker, up to the next; none if it is empty.
pub open spec fn between_markers(text: Seq<char>) -> Option<Seq<char>> {
    let pieces = split_sub(text, "__PATH__"@);
    if pieces.len() > 1 && pieces[1].len() > 0 {
        Some(pieces[1])
    } else {
        None
    }
}

/// The text after the first marker, up to the next; none if it is empty.
pub fn marked_path(text: &str) -> (r: Option<String>)
    ensures
        text_opt(r) == between_markers(text@),
{
    proof {
        reveal_strlit("__PATH__");
    }
    let chars = chars_of(text);
    let marker = chars_of("__PATH__");
    let pieces = split_at_sub(chars.as_slice(), marker.as_slice());
    assert(views(pieces@).len() == pieces@.len());
    if pieces.len() > 1 && pieces[1].len() > 0 {
        assert(views(pieces@)[1] == pieces@[1]@);
        Some(string_of(pieces[1]))
    } else {
        None
    }
}

/// The search path in what the login shell printed. Its profile may print other things too.
pub fn login_path(stdout: &[u8]) -> (r: Option<String>)
    ensures
        text_opt(r) == between_markers(lossy_text(stdout@)),
{
    let text = text_lossy(stdout);
    marked_path(text.as_str())
}

} // verus!
