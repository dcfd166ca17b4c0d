//! Finds git repositories under a workdir.

use vstd::prelude::*;

use crate::git::{read_command, GitCommand};
use crate::model::{LocationView, RepoLocation};
use crate::path::{below, last_name, within, FsPath};
use crate::text::ascii::DOT;
use crate::text::outside::{debug_text, lossy_text, show_quoted, text_lossy};
use crate::text::seqs::{join, same_slice, views};
use crate::text::strings::{
    bytes_of, cat2, chars_of, is_text, joined, lines, push_string, split_lines, str_views, string_of, texts, trim,
    trimmed, utf8,
};

verus! {

/// Directories never worth descending into when looking for repos.
pub open spec fn skip_dir_names() -> Seq<&'static str> {
    seq![
        "node_modules",
        "target",
        "vendor",
        "dist",
        "build",
        ".build",
        ".venv",
        "venv",
        "__pycache__",
        ".gradle",
        ".next",
        "Pods",
        "DerivedData",
    ]
}

/// Whether a name is one of those.
pub open spec fn skip_dir(name: Seq<u8>) -> bool {
    exists|i: int| 0 <= i < skip_dir_names().len() && utf8(#[trigger] skip_dir_names()[i]) == name
}

/// Whether a name is among some texts.
pub fn is_one_of(name: &[u8], list: &Vec<&str>) -> (r: bool)
    ensures
        r == (exists|i: int| 0 <= i < list@.len() && utf8(#[trigger] list@[i]) == name@),
{
    let mut i: usize = 0;
    while i < list.len()
        invariant
            i <= list@.len(),
            forall|j: int| 0 <= j < i ==> utf8(#[trigger] list@[j]) != name@,
        decreases list@.len() - i,
    {
        if same_slice(name, bytes_of(list[i])) {
            assert(utf8(list@[i as int]) == name@);
            return true;
        }
        i = i + 1;
    }
    false
}

/// Whether a directory is never worth descending into.
pub fn is_skip_dir(name: &[u8]) -> (r: bool)
    ensures
        r == skip_dir(name@),
{
    let list = vec![
        "node_modules",
        "target",
        "vendor",
        "dist",
        "build",
        ".build",
        ".venv",
        "venv",
        "__pycache__",
        ".gradle",
        ".next",
        "Pods",
        "DerivedData",
    ];
    assert(list@ =~= skip_dir_names());
    is_one_of(name, &list)
}

/// A directory that looks like a repository.
#[derive(Debug, PartialEq, Eq)]
pub struct Candidate {
    pub root: FsPath,
    pub bare: bool,
}

/// What is known of an entry that the walk comes to, in order of depth and name. What
/// concerns its content is asked of directories only.
#[derive(Clone, Copy, Debug, PartialEq, Eq, Structural)]
pub struct EntryFacts {
    pub is_dir: bool,
    /// 0 for the workdir itself.
    pub depth: usize,
    /// It has a `.git`.
    pub has_git: bool,
    /// It has a file `HEAD`, and directories `objects` and `refs`.
    pub head_file: bool,
    pub objects_dir: bool,
    pub refs_dir: bool,
}

/// What the walk does at an entry.
#[derive(Clone, Copy, Debug, PartialEq, Eq, Structural)]
pub enum Visit {
    /// Goes on (into it, if it is a directory).
    Descend,
    /// Doesn't look inside.
    Skip,
    /// It is a repository: notes it, and doesn't look inside, so that submodules and
    /// nested repos are not listed separately.
    Found { bare: bool },
}

/// Whether a directory has the parts of a bare repository.
pub open spec fn bare_parts(facts: EntryFacts) -> bool {
    facts.head_file && facts.objects_dir && facts.refs_dir
}

/// What the walk does at an entry. Hidden directories and those of dependencies and build
/// outputs don't count, but for the workdir itself.
pub open spec fn visit_of(name: Seq<u8>, facts: EntryFacts) -> Visit {
    if !facts.is_dir {
        Visit::Descend
    } else if facts.depth > 0 && (name.len() > 0 && name[0] == DOT || skip_dir(name)) {
        Visit::Skip
    } else if facts.has_git {
        Visit::Found { bare: false }
    } else if bare_parts(facts) {
        Visit::Found { bare: true }
    } else {
        Visit::Descend
    }
}

/// Whether a directory looks like a bare repository.
pub fn looks_bare(facts: &EntryFacts) -> (r: bool)
    ensures
        r == bare_parts(*facts),
{
    facts.head_file && facts.objects_dir && facts.refs_dir
}

/// Whether the content of an entry matters to the walk.
pub fn is_candidate_dir(name: &[u8], is_dir: bool, depth: usize) -> (r: bool)
    ensures
        r == (is_dir && !(depth > 0 && (name@.len() > 0 && name@[0] == DOT || skip_dir(name@)))),
{
    is_dir && !(depth > 0 && ((name.len() > 0 && name[0] == DOT) || is_skip_dir(name)))
}

/// What the walk does at an entry.
pub fn visit(name: &[u8], facts: &EntryFacts) -> (r: Visit)
    ensures
        r == visit_of(name@, *facts),
{
    if !facts.is_dir {
        Visit::Descend
    } else if !is_candidate_dir(name, facts.is_dir, facts.depth) {
        Visit::Skip
    } else if facts.has_git {
        Visit::Found { bare: false }
    } else if looks_bare(facts) {
        Visit::Found { bare: true }
    } else {
        Visit::Descend
    }
}

/// The arguments that ask git for a repository's git dirs.
pub open spec fn resolve_args() -> Seq<Seq<char>> {
    seq![
        "rev-parse"@,
        "--path-format=absolute"@,
        "--git-dir"@,
        "--git-common-dir"@,
        "--is-bare-repository"@,
    ]
}

/// Asks git to confirm a candidate and resolve its git dirs.
pub fn resolve(candidate: &Candidate) -> (r: GitCommand)
    ensures
        r@ == read_command(candidate.root@, resolve_args()),
{
    let args = vec![
        "rev-parse",
        "--path-format=absolute",
        "--git-dir",
        "--git-common-dir",
        "--is-bare-repository",
    ];
    assert(str_views(args@) =~= resolve_args());
    GitCommand::read(&candidate.root, args)
}

/// The repository that git confirmed.
pub open spec fn location_of(workdir: Seq<u8>, root: Seq<u8>, ls: Seq<Seq<char>>) -> LocationView {
    LocationView {
        name: name_of(workdir, root),
        root,
        git_dir: vstd::utf8::encode_utf8(ls[0]),
        common_dir: vstd::utf8::encode_utf8(ls[1]),
        bare: trim(ls[2]) == "true"@,
    }
}

/// The repository in what [`resolve`] printed, or a message if lines are missing.
pub fn resolved(workdir: &FsPath, candidate: &Candidate, text: &str) -> (r: Result<RepoLocation, String>)
    ensures
        match r {
            Ok(repo) => lines(text@).len() >= 3 && repo@ == location_of(
                workdir@,
                candidate.root@,
                lines(text@),
            ),
            Err(message) => lines(text@).len() < 3 && message@ == "unexpected rev-parse output: "@
                + debug_text(text@),
        },
{
    let chars = chars_of(text);
    let all = split_lines(chars.as_slice());
    let ghost ls = views(all@);
    if all.len() < 3 {
        let quoted = show_quoted(text);
        return Err(cat2("unexpected rev-parse output: ", quoted.as_str()));
    }
    assert(ls[0] == all@[0]@ && ls[1] == all@[1]@ && ls[2] == all@[2]@);
    let git_dir = string_of(all[0]);
    let common_dir = string_of(all[1]);
    Ok(
        RepoLocation {
            name: display_name(workdir, &candidate.root),
            root: candidate.root.clone(),
            git_dir: FsPath::new(git_dir.as_str()),
            common_dir: FsPath::new(common_dir.as_str()),
            bare: is_text(trimmed(all[2]), "true"),
        },
    )
}

/// The texts of some names.
pub open spec fn lossy_texts(parts: Seq<Seq<u8>>) -> Seq<Seq<char>> {
    parts.map_values(|p: Seq<u8>| lossy_text(p))
}

/// A repository's name: its path below the workdir, else its last name, else its path.
pub open spec fn name_of(workdir: Seq<u8>, root: Seq<u8>) -> Seq<char> {
    if within(root, workdir) && below(root, workdir).len() > 0 {
        join(lossy_texts(below(root, workdir)), "/"@)
    } else {
        match last_name(root) {
            Some(name) => lossy_text(name),
            None => lossy_text(root),
        }
    }
}

/// A repository's name: its path below the workdir, `/`-separated.
pub fn display_name(workdir: &FsPath, root: &FsPath) -> (r: String)
    ensures
        r@ == name_of(workdir@, root@),
{
    if root.starts_with(workdir) {
        let parts = root.parts();
        let base = workdir.parts();
        let n: usize = base.len();
        let ghost all = views(parts@);
        if n < parts.len() {
            let mut names: Vec<String> = Vec::new();
            let mut i: usize = n;
            while i < parts.len()
                invariant
                    n <= i <= parts@.len(),
                    all == views(parts@),
                    texts(names@) == lossy_texts(all.subrange(n as int, i as int)),
                decreases parts@.len() - i,
            {
                push_string(&mut names, text_lossy(parts[i]));
                assert(lossy_texts(all.subrange(n as int, i + 1)) =~= lossy_texts(
                    all.subrange(n as int, i as int),
                ).push(lossy_text(all[i as int])));
                i = i + 1;
            }
            assert(all.subrange(n as int, all.len() as int) =~= below(root@, workdir@));
            return joined(&names, "/");
        }
    }
    match root.file_name() {
        Some(name) => text_lossy(name.as_slice()),
        None => text_lossy(root.bytes.as_slice()),
    }
}

} // verus!
