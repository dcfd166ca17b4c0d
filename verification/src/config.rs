//! `~/.config/ubergit/config.toml`

use vstd::prelude::*;

use crate::path::{join_path, path_opt, rest_of, within, FsPath};
use crate::text::outside::{lossy_text, text_lossy};
use crate::text::seqs::{lemma_replace_cons, replace, replace_sub};
use crate::text::strings::{cat3, replaced_char, replaced_text, text_opt, utf8};

verus! {

/// The user's settings.
#[derive(Debug, PartialEq, Eq)]
pub struct Config {
    /// Directory scanned for repositories. The CLI argument overrides it.
    pub workdir: Option<FsPath>,
    /// How deep below the workdir to look for repositories.
    pub max_depth: usize,
    /// Fetch all repos in the background.
    pub auto_fetch: bool,
    pub fetch_interval_secs: u64,
    /// Safety-net refresh of every repo's status, in case file events were missed.
    pub poll_interval_secs: u64,
    /// Shell command run by `o` to open lazygit on the selected repo; `{path}` is
    /// replaced by the repo path. Defaults to a new Terminal.app window.
    pub lazygit_command: Option<String>,
    /// Ask before `q` quits. It always asks while git is still running.
    pub confirm_quit: bool,
    /// Whether the staging view selects hunks first (else lines).
    pub staging_hunk_mode: bool,
}

#[verifier::ext_equal]
pub ghost struct ConfigView {
    pub workdir: Option<Seq<u8>>,
    pub max_depth: nat,
    pub auto_fetch: bool,
    pub fetch_interval_secs: u64,
    pub poll_interval_secs: u64,
    pub lazygit_command: Option<Seq<char>>,
    pub confirm_quit: bool,
    pub staging_hunk_mode: bool,
}

impl View for Config {
    type V = ConfigView;

    open spec fn view(&self) -> ConfigView {
        ConfigView {
            workdir: path_opt(self.workdir),
            max_depth: self.max_depth as nat,
            auto_fetch: self.auto_fetch,
            fetch_interval_secs: self.fetch_interval_secs,
            poll_interval_secs: self.poll_interval_secs,
            lazygit_command: text_opt(self.lazygit_command),
            confirm_quit: self.confirm_quit,
            staging_hunk_mode: self.staging_hunk_mode,
        }
    }
}

/// The settings without a config file.
pub open spec fn default_config() -> ConfigView {
    ConfigView {
        workdir: None,
        max_depth: 3,
        auto_fetch: true,
        fetch_interval_secs: 300,
        poll_interval_secs: 60,
        lazygit_command: None,
        confirm_quit: true,
        staging_hunk_mode: true,
    }
}

impl Default for Config {
    fn default() -> (r: Self)
        ensures
            r@ == default_config(),
    {
        Config {
            workdir: None,
            max_depth: 3,
            auto_fetch: true,
            fetch_interval_secs: 300,
            poll_interval_secs: 60,
            lazygit_command: None,
            confirm_quit: true,
            staging_hunk_mode: true,
        }
    }
}

/// Where the config file is.
pub fn config_path(home: Option<&FsPath>) -> (r: Option<FsPath>)
    ensures
        path_opt(r) == (match home {
            Some(h) => Some(join_path(h@, utf8(".config/ubergit/config.toml"))),
            None => None,
        }),
{
    match home {
        Some(h) => Some(h.child(".config/ubergit/config.toml")),
        None => None,
    }
}

/// A path with a leading `~` replaced by the home directory.
pub open spec fn expanded(path: Seq<u8>, home: Option<Seq<u8>>) -> Seq<u8> {
    match home {
        Some(h) if within(path, utf8("~")) => join_path(h, rest_of(path, utf8("~"))),
        _ => path,
    }
}

/// Replaces a leading `~` by the home directory.
pub fn expand_home(path: &FsPath, home: Option<&FsPath>) -> (r: FsPath)
    ensures
        r@ == expanded(
            path@,
            match home {
                Some(h) => Some(h@),
                None => None,
            },
        ),
{
    match home {
        Some(h) => match path.strip_prefix(&FsPath::new("~")) {
            Some(rest) => h.join(&rest),
            None => path.clone(),
        },
        None => path.clone(),
    }
}

/// A text in single quotes for the shell.
pub open spec fn quoted(s: Seq<char>) -> Seq<char> {
    "'"@ + replace(s, '\'', "'\\''"@) + "'"@
}

/// Quotes a text for the shell.
pub fn shell_quote(s: &str) -> (r: String)
    ensures
        r@ == quoted(s@),
{
    let inner = replaced_char(s, '\'', "'\\''");
    cat3("'", inner.as_str(), "'")
}

/// How a shell reads one word: what stands in single quotes as it is, and outside them
/// what a backslash protects.
pub open spec fn shell_word(text: Seq<char>, in_quotes: bool) -> Seq<char>
    decreases text.len(),
{
    if text.len() == 0 {
        Seq::empty()
    } else if in_quotes {
        if text[0] == '\'' {
            shell_word(text.drop_first(), false)
        } else {
            seq![text[0]] + shell_word(text.drop_first(), true)
        }
    } else if text[0] == '\'' {
        shell_word(text.drop_first(), true)
    } else if text[0] == '\\' && text.len() > 1 {
        seq![text[1]] + shell_word(text.skip(2), false)
    } else {
        seq![text[0]] + shell_word(text.drop_first(), false)
    }
}

/// Quoting is safe: whatever a text holds, the shell reads the quoted text back as one
/// word that is the text.
pub proof fn law_shell_reads_back_what_was_quoted(s: Seq<char>)
    ensures
        shell_word(quoted(s), false) == s,
{
    reveal_strlit("'");
    let inner = replace(s, '\'', "'\\''"@);
    let rest = inner + "'"@;
    assert("'"@ =~= seq!['\'']);
    assert(quoted(s) =~= seq!['\''] + rest);
    assert(quoted(s).drop_first() =~= rest);
    lemma_shell_word_inner(s, "'"@);
    assert("'"@.drop_first() =~= Seq::<char>::empty());
    assert(shell_word(Seq::<char>::empty(), false) =~= Seq::<char>::empty());
    assert("'"@[0] == '\'');
    assert(shell_word("'"@, true) =~= Seq::<char>::empty());
    assert(shell_word(quoted(s), false) =~= s);
}

proof fn lemma_shell_word_inner(s: Seq<char>, tail: Seq<char>)
    ensures
        shell_word(replace(s, '\'', "'\\''"@) + tail, true) == s + shell_word(tail, true),
    decreases s.len(),
{
    let q = "'\\''"@;
    reveal_strlit("'\\''");
    assert(q =~= seq!['\'', '\\', '\'', '\'']);
    if s.len() == 0 {
        assert(replace(s, '\'', q) + tail =~= tail);
        assert(s + shell_word(tail, true) =~= shell_word(tail, true));
    } else {
        let c = s[0];
        let rest = s.drop_first();
        assert(s =~= seq![c] + rest);
        lemma_replace_cons(c, rest, '\'', q);
        lemma_shell_word_inner(rest, tail);
        let after = replace(rest, '\'', q) + tail;
        let text = replace(s, '\'', q) + tail;
        if c == '\'' {
            assert(text =~= q + after);
            let t1 = text.drop_first();
            let t2 = t1.skip(2);
            let t3 = t2.drop_first();
            assert(t1[0] == '\\' && t1[1] == '\'');
            assert(t2[0] == '\'');
            assert(t3 =~= after);
            assert(shell_word(t2, false) == shell_word(t3, true));
            assert(shell_word(t1, false) == seq!['\''] + shell_word(t2, false));
            assert(shell_word(text, true) == shell_word(t1, false));
        } else {
            assert(text =~= seq![c] + after);
            assert(text.drop_first() =~= after);
        }
        assert(shell_word(text, true) =~= s + shell_word(tail, true));
    }
}

/// A path inside an AppleScript string inside single quotes.
pub open spec fn script_escaped(s: Seq<char>) -> Seq<char> {
    replace(replace(replace(s, '\\', "\\\\"@), '"', "\\\""@), '\'', "'\\''"@)
}

/// The command that opens lazygit on a repo.
pub open spec fn lazygit_command(template: Option<Seq<char>>, repo: Seq<char>) -> Seq<char> {
    match template {
        Some(t) => replace_sub(t, "{path}"@, quoted(repo)),
        None =>
            "osascript -e 'tell application \"Terminal\" to do script \"cd \" & quoted form of \""@
            + script_escaped(repo)
            + "\" & \" && lazygit\"' -e 'tell application \"Terminal\" to activate'"@,
    }
}

impl Config {
    /// The settings in a config file, with its workdir's `~` expanded; a missing file
    /// yields defaults.
    pub fn load(file: Option<Config>, home: Option<&FsPath>) -> (r: Config)
        ensures
            r@ == (match file {
                Some(c) => ConfigView {
                    workdir: match c@.workdir {
                        Some(w) => Some(
                            expanded(
                                w,
                                match home {
                                    Some(h) => Some(h@),
                                    None => None,
                                },
                            ),
                        ),
                        None => None,
                    },
                    ..c@
                },
                None => default_config(),
            }),
    {
        match file {
            Some(c) => {
                let mut config = c;
                config.workdir = match &config.workdir {
                    Some(w) => Some(expand_home(w, home)),
                    None => None,
                };
                config
            },
            None => Config::default(),
        }
    }

    /// The shell command that opens lazygit on a repo whose path reads `repo`.
    pub fn lazygit_command_text(&self, repo: &str) -> (r: String)
        ensures
            r@ == lazygit_command(self@.lazygit_command, repo@),
    {
        match &self.lazygit_command {
            Some(template) => {
                let path = shell_quote(repo);
                proof {
                    reveal_strlit("{path}");
                    assert("{path}"@.len() == 6);
                }
                replaced_text(template.as_str(), "{path}", path.as_str())
            },
            None => {
                let one = replaced_char(repo, '\\', "\\\\");
                let two = replaced_char(one.as_str(), '"', "\\\"");
                let three = replaced_char(two.as_str(), '\'', "'\\''");
                cat3(
                    "osascript -e 'tell application \"Terminal\" to do script \"cd \" & quoted form of \"",
                    three.as_str(),
                    "\" & \" && lazygit\"' -e 'tell application \"Terminal\" to activate'",
                )
            },
        }
    }

    /// The shell command that opens lazygit on a repo.
    pub fn lazygit_command_for(&self, repo: &FsPath) -> (r: String)
        ensures
            r@ == lazygit_command(self@.lazygit_command, lossy_text(repo@)),
    {
        let text = text_lossy(repo.bytes.as_slice());
        self.lazygit_command_text(text.as_str())
    }
}

} // verus!
