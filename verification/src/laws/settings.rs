//! The command line and the settings.

use vstd::prelude::*;

use crate::cli::{invocation, with_arg, InvocationView};
use crate::config::{expanded, lazygit_command, quoted};
use crate::path::{join_path, rest_of, within};
use crate::text::seqs::replace_sub;
use crate::text::strings::utf8;

verus! {

/// Arguments are taken from left to right, until one asks for help, for the version, or isn't
/// known.
pub proof fn law_arguments_are_taken_in_order(args: Seq<Seq<char>>, arg: Seq<char>)
    ensures
        invocation(Seq::empty()) == (InvocationView::Run { workdir: None, no_fetch: false }),
        invocation(args) matches InvocationView::Run { workdir, no_fetch } ==> invocation(args.push(arg)) == with_arg(
            workdir,
            no_fetch,
            arg,
        ),
        !(invocation(args) is Run) ==> invocation(args.push(arg)) == invocation(args),
{
    assert(args.push(arg).drop_last() =~= args);
}

/// What each argument means. One that doesn't look like an option is the workdir, the last
/// one if there are several; what was said before stays.
pub proof fn law_arguments_mean(workdir: Option<Seq<char>>, no_fetch: bool, arg: Seq<char>)
    ensures
        with_arg(workdir, no_fetch, "--no-fetch"@) == (InvocationView::Run { workdir, no_fetch: true }),
        with_arg(workdir, no_fetch, "-h"@) is Help && with_arg(workdir, no_fetch, "--help"@) is Help,
        with_arg(workdir, no_fetch, "-V"@) is Version && with_arg(workdir, no_fetch, "--version"@) is Version,
        !"-"@.is_prefix_of(arg) ==> with_arg(workdir, no_fetch, arg) == (InvocationView::Run {
            workdir: Some(arg),
            no_fetch,
        }),
        "-"@.is_prefix_of(arg) && arg != "--no-fetch"@ && arg != "-h"@ && arg != "--help"@ && arg != "-V"@ && arg
            != "--version"@ ==> with_arg(workdir, no_fetch, arg) == InvocationView::Unknown(arg),
{
    reveal_strlit("--no-fetch");
    assert("--no-fetch"@.len() == 10);
    reveal_strlit("-h");
    assert("-h"@.len() == 2);
    reveal_strlit("--help");
    assert("--help"@.len() == 6);
    reveal_strlit("-V");
    assert("-V"@.len() == 2);
    reveal_strlit("--version");
    assert("--version"@.len() == 9);
    reveal_strlit("-");
    assert("-"@.len() == 1);
    assert("-h"@[1] != "-V"@[1]);
    assert("-"@[0] == '-');
    assert("--no-fetch"@[0] == '-' && "-h"@[0] == '-' && "--help"@[0] == '-' && "-V"@[0] == '-' && "--version"@[0]
        == '-');
    assert("--no-fetch"@.len() != "--version"@.len());
}

/// A path below `~` is one below the home directory; any other stays, and so does every path
/// if no home is known.
pub proof fn law_tilde_is_home(path: Seq<u8>, home: Seq<u8>)
    ensures
        within(path, utf8("~")) ==> expanded(path, Some(home)) == join_path(home, rest_of(path, utf8("~"))),
        !within(path, utf8("~")) ==> expanded(path, Some(home)) == path,
        expanded(path, None) == path,
{
}

/// The user's command opens the repo: its place holder becomes the repo's path, quoted for
/// the shell.
pub proof fn law_user_commands_get_the_path(template: Seq<char>, repo: Seq<char>)
    ensures
        lazygit_command(Some(template), repo) == replace_sub(template, "{path}"@, quoted(repo)),
        quoted(repo).len() >= 2 && quoted(repo)[0] == '\'' && quoted(repo).last() == '\'',
{
    reveal_strlit("'");
    assert("'"@.len() == 1);
}

/// Joining goes below a path, with one slash between; an absolute path replaces it.
pub proof fn law_paths_are_joined(path: Seq<u8>, more: Seq<u8>)
    ensures
        more.len() > 0 && more[0] == 0x2f ==> join_path(path, more) == more,
        (more.len() == 0 || more[0] != 0x2f) && path.len() > 0 && path.last() != 0x2f ==> join_path(path, more) == path
            + seq![0x2fu8] + more,
        (more.len() == 0 || more[0] != 0x2f) && (path.len() == 0 || path.last() == 0x2f) ==> join_path(path, more)
            == path + more,
{
    if !(more.len() > 0 && more[0] == 0x2f) && path.len() > 0 && path.last() != 0x2f {
        assert(path.push(0x2fu8) + more =~= path + seq![0x2fu8] + more);
    }
}

} // verus!
