//! What the main view shows, and how that is loaded.

use vstd::prelude::*;
use vstd::utf8::{decode_utf8, valid_utf8};

use crate::detail::{
    self, command_opt, error_in, file_at, file_diff_commands, file_opt, finish_file_diff, printed, show_lines, shown_lines, to_lines, untabbed,
    MAX_MAIN_LINES,
};
use crate::git::parse::status_in;
use crate::git::{reply_view, CommandView, ErrorView, GitCommand, GitError, GitOutput, OutputView};
use crate::model::{FileEntry, FileKind, FileView, RepoLocation};
use crate::patch::diff::{patch_of, PatchView};
use crate::patch::shown::{diff_texts, ended_line, is_ended, read_lines, text_of_line};
use crate::patch::Patch;
use crate::path::{same_path, FsPath};
use crate::text::outside::{lossy_text, text_lossy};
use crate::text::seqs::views;
use crate::text::strings::{chars_of, is_blank, lines, push_string, same_str, split_lines, string_of, texts, trim};

verus! {

/// What the main view is about.
#[derive(Debug, PartialEq, Eq)]
pub enum MainKey {
    Overview,
    Status,
    Diff { root: FsPath, path: String },
    Show { root: FsPath, rev: String },
    Stash { root: FsPath, index: usize },
    Log { root: FsPath, rev: String },
    Message(String),
}

#[verifier::ext_equal]
pub ghost enum KeyView {
    Overview,
    Status,
    Diff { root: Seq<u8>, path: Seq<char> },
    Show { root: Seq<u8>, rev: Seq<char> },
    Stash { root: Seq<u8>, index: nat },
    Log { root: Seq<u8>, rev: Seq<char> },
    Message(Seq<char>),
}

impl View for MainKey {
    type V = KeyView;

    open spec fn view(&self) -> KeyView {
        match self {
            MainKey::Overview => KeyView::Overview,
            MainKey::Status => KeyView::Status,
            MainKey::Diff { root, path } => KeyView::Diff { root: root@, path: path@ },
            MainKey::Show { root, rev } => KeyView::Show { root: root@, rev: rev@ },
            MainKey::Stash { root, index } => KeyView::Stash { root: root@, index: *index as nat },
            MainKey::Log { root, rev } => KeyView::Log { root: root@, rev: rev@ },
            MainKey::Message(text) => KeyView::Message(text@),
        }
    }
}

/// The view of a key that may be missing.
pub open spec fn key_opt(key: Option<MainKey>) -> Option<KeyView> {
    match key {
        Some(key) => Some(key@),
        None => None,
    }
}

impl KeyView {
    /// Whether two keys are the same.
    pub open spec fn same(self, other: KeyView) -> bool {
        match (self, other) {
            (KeyView::Overview, KeyView::Overview) => true,
            (KeyView::Status, KeyView::Status) => true,
            (KeyView::Diff { root: a, path: x }, KeyView::Diff { root: b, path: y }) => same_path(a, b) && x == y,
            (KeyView::Show { root: a, rev: x }, KeyView::Show { root: b, rev: y }) => same_path(a, b) && x == y,
            (KeyView::Stash { root: a, index: x }, KeyView::Stash { root: b, index: y }) => same_path(a, b)
                && x == y,
            (KeyView::Log { root: a, rev: x }, KeyView::Log { root: b, rev: y }) => same_path(a, b) && x == y,
            (KeyView::Message(x), KeyView::Message(y)) => x == y,
            _ => false,
        }
    }

    /// Content that must be reloaded when the repo's detail changes.
    pub open spec fn repo_state(self) -> bool {
        self is Diff || self is Stash || self is Log
    }

    /// Content that git is asked for.
    pub open spec fn loads(self) -> bool {
        self is Diff || self is Show || self is Stash || self is Log
    }
}

/// Whether two keys that may be missing are the same.
pub open spec fn same_key_opt(a: Option<KeyView>, b: Option<KeyView>) -> bool {
    match (a, b) {
        (Some(a), Some(b)) => a.same(b),
        (None, None) => true,
        _ => false,
    }
}

impl Clone for MainKey {
    fn clone(&self) -> (r: Self)
        ensures
            r@ == self@,
    {
        match self {
            MainKey::Overview => MainKey::Overview,
            MainKey::Status => MainKey::Status,
            MainKey::Diff { root, path } => MainKey::Diff { root: root.clone(), path: path.clone() },
            MainKey::Show { root, rev } => MainKey::Show { root: root.clone(), rev: rev.clone() },
            MainKey::Stash { root, index } => MainKey::Stash { root: root.clone(), index: *index },
            MainKey::Log { root, rev } => MainKey::Log { root: root.clone(), rev: rev.clone() },
            MainKey::Message(text) => MainKey::Message(text.clone()),
        }
    }
}

impl MainKey {
    /// Whether two keys are the same.
    pub fn same(&self, other: &MainKey) -> (r: bool)
        ensures
            r == self@.same(other@),
    {
        match (self, other) {
            (MainKey::Overview, MainKey::Overview) => true,
            (MainKey::Status, MainKey::Status) => true,
            (MainKey::Diff { root: a, path: x }, MainKey::Diff { root: b, path: y }) => a.same(b) && same_str(
                x.as_str(),
                y.as_str(),
            ),
            (MainKey::Show { root: a, rev: x }, MainKey::Show { root: b, rev: y }) => a.same(b) && same_str(
                x.as_str(),
                y.as_str(),
            ),
            (MainKey::Stash { root: a, index: x }, MainKey::Stash { root: b, index: y }) => a.same(b) && *x == *y,
            (MainKey::Log { root: a, rev: x }, MainKey::Log { root: b, rev: y }) => a.same(b) && same_str(
                x.as_str(),
                y.as_str(),
            ),
            (MainKey::Message(x), MainKey::Message(y)) => same_str(x.as_str(), y.as_str()),
            _ => false,
        }
    }

    /// Content that must be reloaded when the repo's detail changes.
    pub fn is_repo_state(&self) -> (r: bool)
        ensures
            r == self@.repo_state(),
    {
        match self {
            MainKey::Diff { .. } => true,
            MainKey::Stash { .. } => true,
            MainKey::Log { .. } => true,
            _ => false,
        }
    }

    /// Content that git is asked for.
    pub fn is_loaded(&self) -> (r: bool)
        ensures
            r == self@.loads(),
    {
        match self {
            MainKey::Show { .. } => true,
            _ => self.is_repo_state(),
        }
    }
}

/// Whether two keys that may be missing are the same.
pub fn is_same_key(a: &Option<MainKey>, b: &Option<MainKey>) -> (r: bool)
    ensures
        r == same_key_opt(key_opt(*a), key_opt(*b)),
{
    match (a, b) {
        (Some(a), Some(b)) => a.same(b),
        (None, None) => true,
        _ => false,
    }
}

/// How a text is coloured.
#[derive(Clone, Copy, Debug, PartialEq, Eq, Structural)]
pub enum TextKind {
    Diff,
    Log,
    Plain,
}

/// One half of a file's diff in the main view: its unstaged or its staged changes.
pub struct DiffHalf {
    pub lines: Vec<String>,
    pub patch: Patch,
}

#[verifier::ext_equal]
pub ghost struct HalfView {
    pub lines: Seq<Seq<char>>,
    pub patch: PatchView,
}

impl View for DiffHalf {
    type V = HalfView;

    open spec fn view(&self) -> HalfView {
        HalfView { lines: texts(self.lines@), patch: self.patch@ }
    }
}

/// The view of a half that may be missing.
pub open spec fn half_opt(half: Option<DiffHalf>) -> Option<HalfView> {
    match half {
        Some(half) => Some(half@),
        None => None,
    }
}

/// How a diff is shown.
pub open spec fn half_of(diff: Seq<u8>) -> HalfView {
    HalfView {
        lines: shown_lines(diff_texts(diff), MAX_MAIN_LINES as nat),
        patch: patch_of(diff),
    }
}

impl DiffHalf {
    /// How a diff is shown. The line numbers of the patch are those of the lines, unless the
    /// diff has too many to show.
    pub fn new(diff: &[u8]) -> (r: DiffHalf)
        ensures
            r@ == half_of(diff@),
            r.patch@.lines.len() <= MAX_MAIN_LINES ==> r.lines@.len() == r.patch@.lines.len(),
            valid_utf8(diff@) ==> texts(r.lines@) == shown_lines(
                lines(decode_utf8(diff@)),
                MAX_MAIN_LINES as nat,
            ),
    {
        let list = read_lines(diff);
        let r = DiffHalf { lines: show_lines(&list), patch: Patch::parse(diff) };
        assert(r@.lines.len() == r.lines@.len());
        r
    }
}

/// The line numbers of a patch are those of the lines that are shown: unless the diff has too
/// many, one is shown for each, with its text.
pub proof fn law_patch_lines_are_the_shown_lines(diff: Seq<u8>)
    requires
        patch_of(diff).lines.len() <= MAX_MAIN_LINES,
    ensures
        half_of(diff).lines.len() == patch_of(diff).lines.len(),
        forall|i: int|
            0 <= i < half_of(diff).lines.len() ==> #[trigger] half_of(diff).lines[i] == untabbed(
                ended_line(text_of_line(patch_of(diff).lines[i]), is_ended(diff, i)),
            ),
{
}

/// What the main view shows.
pub enum MainContent {
    Overview,
    Status,
    Text { lines: Vec<String>, kind: TextKind },
    /// A changed file: its unstaged and staged changes, whichever it has.
    File { unstaged: Option<DiffHalf>, staged: Option<DiffHalf> },
}

#[verifier::ext_equal]
pub ghost enum ContentView {
    Overview,
    Status,
    Text { lines: Seq<Seq<char>>, kind: TextKind },
    File { unstaged: Option<HalfView>, staged: Option<HalfView> },
}

impl View for MainContent {
    type V = ContentView;

    open spec fn view(&self) -> ContentView {
        match self {
            MainContent::Overview => ContentView::Overview,
            MainContent::Status => ContentView::Status,
            MainContent::Text { lines, kind } => ContentView::Text { lines: texts(lines@), kind: *kind },
            MainContent::File { unstaged, staged } => ContentView::File {
                unstaged: half_opt(*unstaged),
                staged: half_opt(*staged),
            },
        }
    }
}

impl PatchView {
    /// Whether there is anything to stage.
    pub open spec fn any_change(self) -> bool {
        exists|i: int| self.change(i)
    }
}

impl ContentView {
    /// The unstaged or the staged changes.
    pub open spec fn half(self, in_index: bool) -> Option<HalfView> {
        match self {
            ContentView::File { unstaged, staged } => if in_index {
                staged
            } else {
                unstaged
            },
            _ => None,
        }
    }

    /// Whether there is anything to stage, or to unstage.
    pub open spec fn has_changes(self, in_index: bool) -> bool {
        match self.half(in_index) {
            Some(half) => half.patch.any_change(),
            None => false,
        }
    }
}

impl MainContent {
    /// The unstaged or the staged changes.
    pub fn half(&self, in_index: bool) -> (r: Option<&DiffHalf>)
        ensures
            match r {
                Some(half) => self@.half(in_index) == Some(half@),
                None => self@.half(in_index) is None,
            },
    {
        match self {
            MainContent::File { unstaged, staged } => if in_index {
                staged.as_ref()
            } else {
                unstaged.as_ref()
            },
            _ => None,
        }
    }

    /// Whether there is anything to stage, or to unstage.
    pub fn has_changes(&self, in_index: bool) -> (r: bool)
        ensures
            r == self@.has_changes(in_index),
    {
        match self.half(in_index) {
            Some(half) => half.patch.has_changes(),
            None => false,
        }
    }
}

/// A text, line by line.
pub open spec fn plain_content(text: Seq<char>) -> ContentView {
    ContentView::Text { lines: lines(text), kind: TextKind::Plain }
}

/// A text, line by line.
pub fn plain_text(text: &str) -> (r: MainContent)
    ensures
        r@ == plain_content(text@),
{
    let chars = chars_of(text);
    let ls = split_lines(chars.as_slice());
    let ghost all = lines(text@);
    let mut out: Vec<String> = Vec::new();
    let mut i: usize = 0;
    assert(texts(out@) =~= all.take(0));
    while i < ls.len()
        invariant
            i <= ls@.len(),
            all == views(ls@),
            texts(out@) == all.take(i as int),
        decreases ls@.len() - i,
    {
        push_string(&mut out, string_of(ls[i]));
        assert(all.take(i + 1) =~= all.take(i as int).push(all[i as int]));
        i = i + 1;
    }
    assert(all.take(all.len() as int) =~= all);
    MainContent::Text { lines: out, kind: TextKind::Plain }
}

/// How what git printed is shown.
pub open spec fn shown(text: Seq<char>, kind: TextKind) -> ContentView {
    if trim(text).len() == 0 {
        no_changes_content()
    } else {
        ContentView::Text { lines: shown_lines(lines(text), MAX_MAIN_LINES as nat), kind }
    }
}

/// What is shown if there is nothing to show.
pub open spec fn no_changes_content() -> ContentView {
    ContentView::Text { lines: seq!["(no changes)"@], kind: TextKind::Plain }
}

/// What is shown if there is nothing to show.
fn no_changes() -> (r: MainContent)
    ensures
        r@ == no_changes_content(),
{
    let mut list: Vec<String> = Vec::new();
    push_string(&mut list, "(no changes)".to_owned());
    assert(texts(list@) =~= seq!["(no changes)"@]);
    MainContent::Text { lines: list, kind: TextKind::Plain }
}

/// How what git printed is shown.
fn show_text(text: &str, kind: TextKind) -> (r: MainContent)
    ensures
        r@ == shown(text@, kind),
{
    if is_blank(text) {
        no_changes()
    } else {
        MainContent::Text { lines: to_lines(text), kind }
    }
}

/// How git's reply is shown.
pub open spec fn shown_reply(reply: Result<OutputView, ErrorView>, kind: TextKind) -> ContentView {
    match reply {
        Ok(out) => shown(out.text(), kind),
        Err(error) => plain_content(error.with_cause()),
    }
}

/// How git's reply is shown.
pub fn finish_text(kind: TextKind, reply: &Result<GitOutput, GitError>) -> (r: MainContent)
    ensures
        r@ == shown_reply(reply_view(*reply), kind),
{
    match reply {
        Ok(out) => {
            let text = out.stdout_str();
            show_text(text.as_str(), kind)
        },
        Err(error) => {
            let message = error.with_cause();
            plain_text(message.as_str())
        },
    }
}

/// What to run to load the main view's content.
pub enum LoadStep {
    /// Ask how git sees the file now.
    Status { file: FileEntry, command: GitCommand },
    /// Get the file's diffs.
    Diff { file: FileEntry, unstaged: Option<GitCommand>, staged: Option<GitCommand> },
    /// Get a text.
    Text { kind: TextKind, command: GitCommand },
    Done(MainContent),
}

#[verifier::ext_equal]
pub ghost enum LoadStepView {
    Status { file: FileView, command: CommandView },
    Diff { file: FileView, unstaged: Option<CommandView>, staged: Option<CommandView> },
    Text { kind: TextKind, command: CommandView },
    Done(ContentView),
}

impl View for LoadStep {
    type V = LoadStepView;

    open spec fn view(&self) -> LoadStepView {
        match self {
            LoadStep::Status { file, command } => LoadStepView::Status { file: file@, command: command@ },
            LoadStep::Diff { file, unstaged, staged } => LoadStepView::Diff {
                file: file@,
                unstaged: command_opt(*unstaged),
                staged: command_opt(*staged),
            },
            LoadStep::Text { kind, command } => LoadStepView::Text { kind: *kind, command: command@ },
            LoadStep::Done(content) => LoadStepView::Done(content@),
        }
    }
}

/// The diffs of a file.
pub open spec fn diff_step(cwd: Seq<u8>, file: FileView) -> LoadStepView {
    LoadStepView::Diff {
        file,
        unstaged: file_diff_commands(cwd, file).0,
        staged: file_diff_commands(cwd, file).1,
    }
}

/// The first step to load a key's content. `file` is the file that a diff is of, if it is
/// still listed.
pub open spec fn load_step(cwd: Seq<u8>, key: KeyView, file: Option<FileView>) -> LoadStepView {
    match key {
        KeyView::Diff { .. } => match file {
            Some(file) => LoadStepView::Status {
                file,
                command: crate::git::read_command(
                    cwd,
                    seq!["status"@, "--porcelain=v2"@, "-z"@, "--untracked-files=all"@, "--"@]
                        + detail::paths_of(file),
                ),
            },
            None => LoadStepView::Done(no_changes_content()),
        },
        KeyView::Show { root, rev } => LoadStepView::Text {
            kind: TextKind::Diff,
            command: crate::git::read_command(
                cwd,
                seq!["show"@, "--no-show-signature"@, "--stat"@, "--patch"@, "--format=fuller"@]
                    + detail::diff_flags() + seq![rev, "--"@],
            ),
        },
        KeyView::Stash { root, index } => LoadStepView::Text {
            kind: TextKind::Diff,
            command: crate::git::read_command(
                cwd,
                seq!["stash"@, "show"@, "--stat"@, "--patch"@, "--include-untracked"@] + detail::diff_flags()
                    + seq![crate::ops::stash_selector(index)],
            ),
        },
        KeyView::Log { root, rev } => LoadStepView::Text {
            kind: TextKind::Log,
            command: crate::git::read_command(
                cwd,
                seq![
                    "log"@,
                    "--graph"@,
                    "--no-show-signature"@,
                    "--decorate"@,
                    "--date=relative"@,
                    "--format=%h %ad %an%d%n%s"@,
                    "-200"@,
                    rev,
                    "--"@,
                ],
            ),
        },
        _ => LoadStepView::Done(ContentView::Overview),
    }
}

/// The first step to load a key's content. `file` is the file that a diff is of, if it is
/// still listed.
pub fn load_main(repo: &RepoLocation, key: &MainKey, file: Option<FileEntry>) -> (r: LoadStep)
    ensures
        r@ == load_step(repo@.root, key@, file_opt(file)),
{
    match key {
        MainKey::Diff { .. } => match file {
            Some(file) => {
                let command = detail::file_status(repo, &file);
                LoadStep::Status { file, command }
            },
            None => LoadStep::Done(no_changes()),
        },
        MainKey::Show { root: _, rev } => LoadStep::Text {
            kind: TextKind::Diff,
            command: detail::show(repo, rev.as_str()),
        },
        MainKey::Stash { root: _, index } => LoadStep::Text {
            kind: TextKind::Diff,
            command: detail::stash_show(repo, *index),
        },
        MainKey::Log { root: _, rev } => LoadStep::Text {
            kind: TextKind::Log,
            command: detail::graph_log(repo, rev.as_str()),
        },
        _ => LoadStep::Done(MainContent::Overview),
    }
}

/// The step after asking how git sees a file. The file list may be a moment behind (e.g.
/// just after staging a line); if git can't say, it has to do.
pub open spec fn status_step(
    cwd: Seq<u8>,
    file: FileView,
    reply: Result<OutputView, ErrorView>,
) -> LoadStepView {
    match reply {
        Ok(out) => match file_at(status_in(out.stdout).files, file.path) {
            Some(fresh) => diff_step(cwd, fresh),
            None => LoadStepView::Done(no_changes_content()),
        },
        Err(_) => diff_step(cwd, file),
    }
}

/// The step after asking how git sees a file.
pub fn load_main_next(repo: &RepoLocation, file: FileEntry, reply: &Result<GitOutput, GitError>) -> (r: LoadStep)
    ensures
        r@ == status_step(repo@.root, file@, reply_view(*reply)),
{
    let file = match reply {
        Ok(out) => match detail::file_status_in(out.stdout.as_slice(), &file) {
            Some(fresh) => fresh,
            None => {
                return LoadStep::Done(no_changes());
            },
        },
        Err(_) => file,
    };
    let (unstaged, staged) = detail::file_diff(repo, &file);
    LoadStep::Diff { file, unstaged, staged }
}

/// The bytes, or none.
pub open spec fn or_empty(bytes: Option<Seq<u8>>) -> Seq<u8> {
    match bytes {
        Some(bytes) => bytes,
        None => Seq::empty(),
    }
}

/// How a diff that may be missing is shown.
pub open spec fn half_of_opt(diff: Option<Seq<u8>>) -> Option<HalfView> {
    match diff {
        Some(diff) => Some(half_of(diff)),
        None => None,
    }
}

/// A file's content from its diffs. A combined diff, of a file with conflicts, is only
/// text: nothing in it can be staged line by line.
pub open spec fn file_content(
    file: FileView,
    unstaged: Option<Result<GitOutput, GitError>>,
    staged: Option<Result<GitOutput, GitError>>,
) -> ContentView {
    let error = if error_in(unstaged) is Some {
        error_in(unstaged)
    } else {
        error_in(staged)
    };
    match error {
        Some(error) => plain_content(error.with_cause()),
        None => if file.kind == FileKind::Unmerged {
            shown(lossy_text(or_empty(printed(unstaged))), TextKind::Diff)
        } else if printed(unstaged) is None && printed(staged) is None {
            no_changes_content()
        } else {
            ContentView::File {
                unstaged: half_of_opt(printed(unstaged)),
                staged: half_of_opt(printed(staged)),
            }
        },
    }
}

/// A half of the view, of a diff that may be missing.
fn half_from(diff: &Option<Vec<u8>>) -> (r: Option<DiffHalf>)
    ensures
        half_opt(r) == half_of_opt(crate::git::bytes_opt(*diff)),
{
    match diff {
        Some(diff) => Some(DiffHalf::new(diff.as_slice())),
        None => None,
    }
}

/// A file's content from its diffs.
pub fn finish_diff(
    file: &FileEntry,
    unstaged: Option<Result<GitOutput, GitError>>,
    staged: Option<Result<GitOutput, GitError>>,
) -> (r: MainContent)
    ensures
        r@ == file_content(file@, unstaged, staged),
{
    let diff = match finish_file_diff(unstaged, staged) {
        Ok(diff) => diff,
        Err(error) => {
            let message = error.with_cause();
            return plain_text(message.as_str());
        },
    };
    if file.kind == FileKind::Unmerged {
        let text = match &diff.unstaged {
            Some(bytes) => text_lossy(bytes.as_slice()),
            None => {
                let none: Vec<u8> = Vec::new();
                assert(none@ =~= Seq::<u8>::empty());
                text_lossy(none.as_slice())
            },
        };
        return show_text(text.as_str(), TextKind::Diff);
    }
    if diff.unstaged.is_none() && diff.staged.is_none() {
        return no_changes();
    }
    MainContent::File { unstaged: half_from(&diff.unstaged), staged: half_from(&diff.staged) }
}

/// Loading the main view only reads.
pub proof fn law_main_view_only_reads(
    cwd: Seq<u8>,
    key: KeyView,
    file: Option<FileView>,
    reply: Result<OutputView, ErrorView>,
)
    ensures
        match load_step(cwd, key, file) {
            LoadStepView::Status { command, .. } => command.kind == crate::git::CmdKind::Read,
            LoadStepView::Text { command, .. } => command.kind == crate::git::CmdKind::Read,
            LoadStepView::Diff { .. } => false,
            LoadStepView::Done(_) => true,
        },
        file is Some ==> match status_step(cwd, file->0, reply) {
            LoadStepView::Diff { file, unstaged, staged } => (unstaged matches Some(c) ==> c.kind
                == crate::git::CmdKind::Read) && (staged matches Some(c) ==> c.kind
                == crate::git::CmdKind::Read),
            LoadStepView::Done(_) => true,
            _ => false,
        },
{
}

} // verus!
