//! Line and hunk staging against repos in memory: diffs in git's format, patches from
//! `Patch::build`, applied line by line with nothing tolerated. Each test has its own repo.

use std::collections::BTreeMap;
use std::ops::Range;

use ubergit::git::parse::status_v2;
use ubergit::model::{FileEntry, FileKind, RepoLocation};
use ubergit::ops::{self, PatchAction};
use ubergit::patch::Patch;
use ubergit::path::FsPath;

type Files = BTreeMap<String, Vec<u8>>;

/// The lines of a file, each with its newline if it has one.
fn lines_of(content: &[u8]) -> Vec<Vec<u8>> {
    content.split_inclusive(|&b| b == b'\n').map(<[u8]>::to_vec).collect()
}

/// `(' ' | '-' | '+', line)`: how to get from one file to another.
fn script(old: &[Vec<u8>], new: &[Vec<u8>]) -> Vec<(u8, Vec<u8>)> {
    let (n, m) = (old.len(), new.len());
    let mut common = vec![vec![0usize; m + 1]; n + 1];
    for i in (0..n).rev() {
        for j in (0..m).rev() {
            common[i][j] = if old[i] == new[j] {
                common[i + 1][j + 1] + 1
            } else {
                common[i + 1][j].max(common[i][j + 1])
            };
        }
    }
    let (mut i, mut j) = (0, 0);
    let mut out = Vec::new();
    while i < n || j < m {
        if i < n && j < m && old[i] == new[j] {
            out.push((b' ', old[i].clone()));
            i += 1;
            j += 1;
        } else if i < n && (j == m || common[i + 1][j] >= common[i][j + 1]) {
            out.push((b'-', old[i].clone()));
            i += 1;
        } else {
            out.push((b'+', new[j].clone()));
            j += 1;
        }
    }
    out
}

/// What `git diff` prints for a file.
fn diff(name: &str, was: &str, old: Option<&[u8]>, new: Option<&[u8]>) -> Vec<u8> {
    let mut out = format!("diff --git a/{was} b/{name}\n").into_bytes();
    let side = |prefix: &str, path: &str, content: Option<&[u8]>| match content {
        Some(_) => format!("{prefix}/{path}"),
        None => "/dev/null".to_string(),
    };
    if old.is_none() {
        out.extend(b"new file mode 100644\n");
    }
    if new.is_none() {
        out.extend(b"deleted file mode 100644\n");
    }
    if was != name {
        out.extend(format!("similarity index 80%\nrename from {was}\nrename to {name}\n").into_bytes());
    }
    out.extend(b"index 1111111..2222222\n");
    let (old_text, new_text) = (old.unwrap_or_default(), new.unwrap_or_default());
    if old_text.contains(&0) || new_text.contains(&0) {
        out.extend(format!("Binary files a/{was} and b/{name} differ\n").into_bytes());
        return out;
    }
    let tab = if name.contains(' ') { "\t" } else { "" };
    out.extend(format!("--- {}{tab}\n+++ {}{tab}\n", side("a", was, old), side("b", name, new)).into_bytes());
    let steps = script(&lines_of(old_text), &lines_of(new_text));
    let changed: Vec<usize> = (0..steps.len()).filter(|&k| steps[k].0 != b' ').collect();
    let mut groups: Vec<Range<usize>> = Vec::new();
    for k in changed {
        let (from, to) = (k.saturating_sub(3), (k + 4).min(steps.len()));
        match groups.last_mut() {
            Some(last) if from <= last.end => last.end = to,
            _ => groups.push(from..to),
        }
    }
    for group in groups {
        let count = |range: &[(u8, Vec<u8>)], skip: u8| range.iter().filter(|(c, _)| *c != skip).count();
        let (before, within) = (&steps[..group.start], &steps[group.clone()]);
        let (old_count, new_count) = (count(within, b'+'), count(within, b'-'));
        let start = |before: usize, count: usize| if count == 0 { before } else { before + 1 };
        let old_start = start(count(before, b'+'), old_count);
        let new_start = start(count(before, b'-'), new_count);
        out.extend(format!("@@ -{old_start},{old_count} +{new_start},{new_count} @@\n").into_bytes());
        for (c, line) in within {
            out.push(*c);
            out.extend(line);
            if line.last() != Some(&b'\n') {
                out.extend(b"\n\\ No newline at end of file\n");
            }
        }
    }
    out
}

/// The numbers in `@@ -1,2 +3,4 @@`.
fn header(line: &[u8]) -> (usize, usize, usize, usize) {
    let text = String::from_utf8_lossy(line).into_owned();
    let side = |part: &str| {
        let (start, count) = part[1..].split_once(',').unwrap_or((&part[1..], "1"));
        (start.parse::<usize>().unwrap(), count.parse::<usize>().unwrap())
    };
    let parts: Vec<&str> = text.split(' ').collect();
    let ((a, b), (c, d)) = (side(parts[1]), side(parts[2]));
    (a, b, c, d)
}

/// `git apply`, without fuzz: every context and removed line has to be where the hunk says.
fn apply(patch: &[u8], files: &mut Files, reverse: bool) {
    let lines = lines_of(patch);
    let named = |prefix: &str| {
        let line = lines.iter().find(|l| l.starts_with(prefix.as_bytes())).expect("a file name");
        let name = String::from_utf8_lossy(&line[prefix.len()..]).trim_end().to_string();
        (name != "/dev/null").then(|| name[2..].to_string())
    };
    let (mut from, mut to) = (named("--- "), named("+++ "));
    if reverse {
        std::mem::swap(&mut from, &mut to);
    }
    let old = match &from {
        Some(name) => lines_of(files.get(name).expect("the file is there")),
        None => {
            assert!(!files.contains_key(to.as_ref().unwrap()), "the file is there already");
            Vec::new()
        }
    };
    let mut new: Vec<Vec<u8>> = Vec::new();
    let mut at = 0;
    let mut k = lines.iter().position(|l| l.starts_with(b"@@")).expect("a hunk");
    while k < lines.len() {
        let (a, b, c, d) = header(&lines[k]);
        let (old_start, old_count, new_start, new_count) = if reverse { (c, d, a, b) } else { (a, b, c, d) };
        let target = if old_count == 0 { old_start } else { old_start - 1 };
        assert!(target >= at, "hunks in order");
        new.extend_from_slice(&old[at..target]);
        at = target;
        assert_eq!(new.len(), if new_count == 0 { new_start } else { new_start - 1 }, "where the hunk lands");
        k += 1;
        let (mut seen_old, mut seen_new) = (0, 0);
        while seen_old < old_count || seen_new < new_count {
            let mut sign = lines[k][0];
            let mut text = lines[k][1..].to_vec();
            k += 1;
            if k < lines.len() && lines[k].starts_with(b"\\") {
                text.pop();
                k += 1;
            }
            if reverse {
                sign = match sign {
                    b'+' => b'-',
                    b'-' => b'+',
                    other => other,
                };
            }
            if sign != b'+' {
                assert_eq!(old[at], text, "the hunk fits");
                at += 1;
                seen_old += 1;
            }
            if sign != b'-' {
                new.push(text);
                seen_new += 1;
            }
        }
        assert!(k == lines.len() || lines[k].starts_with(b"@@"), "counts match the lines");
    }
    new.extend_from_slice(&old[at..]);
    if let Some(from) = &from {
        files.remove(from);
    }
    match to {
        Some(to) => {
            files.insert(to, new.concat());
        }
        None => assert!(new.is_empty(), "a deleted file has nothing left"),
    }
}

/// A repo: what is committed, staged, and in the worktree.
#[derive(Default)]
struct Repo {
    head: Files,
    index: Files,
    worktree: Files,
    /// Where a staged rename came from.
    renamed: BTreeMap<String, String>,
    /// `core.autocrlf`: lines end in CRLF in the worktree, in LF elsewhere.
    autocrlf: bool,
}

fn without_cr(content: &[u8]) -> Vec<u8> {
    content.iter().copied().filter(|&b| b != b'\r').collect()
}

fn with_cr(content: &[u8]) -> Vec<u8> {
    content.iter().flat_map(|&b| if b == b'\n' { vec![b'\r', b'\n'] } else { vec![b] }).collect()
}

impl Repo {
    fn new(files: &[(&str, &[u8])]) -> Repo {
        let files: Files = files.iter().map(|(p, c)| (p.to_string(), c.to_vec())).collect();
        Repo { head: files.clone(), index: files.clone(), worktree: files, ..Repo::default() }
    }

    fn write(&mut self, path: &str, content: &[u8]) {
        self.worktree.insert(path.into(), content.to_vec());
    }

    fn unstaged(&self, path: &str) -> Vec<u8> {
        let index = self.index.get(path).cloned();
        let worktree = self.worktree.get(path).map(|c| if self.autocrlf { without_cr(c) } else { c.clone() });
        diff(path, path, index.as_deref(), worktree.as_deref())
    }

    fn staged(&self, path: &str) -> Vec<u8> {
        let was = self.renamed.get(path).map_or(path, String::as_str);
        diff(path, was, self.head.get(was).map(Vec::as_slice), self.index.get(path).map(Vec::as_slice))
    }

    /// Stages (or unstages, or discards) the changed lines of `path` whose text is in
    /// `lines`, which must be adjacent in the diff.
    fn apply(&mut self, path: &str, action: PatchAction, lines: &[&str]) {
        let text = match action {
            PatchAction::Unstage => self.staged(path),
            PatchAction::Stage | PatchAction::Discard => self.unstaged(path),
        };
        let built = Patch::parse(&text)
            .build(select(&text, lines), action != PatchAction::Stage)
            .unwrap()
            .expect("something selected");
        self.run(built, action);
    }

    /// Runs the command that `ops::apply_patch` makes.
    fn run(&mut self, patch: Vec<u8>, action: PatchAction) {
        let root = FsPath::new("/r");
        let repo = RepoLocation {
            root: root.clone(),
            name: "repo".into(),
            git_dir: root.child(".git"),
            common_dir: root.child(".git"),
            bare: false,
        };
        let cmd = ops::apply_patch(&repo, patch, action);
        let has = |arg: &str| cmd.args.iter().any(|a| a == arg);
        let (cached, reverse) = (has("--cached"), has("--reverse"));
        let patch = cmd.stdin.as_deref().unwrap();
        if cached {
            apply(patch, &mut self.index, reverse);
        } else if self.autocrlf {
            let mut plain: Files = self.worktree.iter().map(|(p, c)| (p.clone(), without_cr(c))).collect();
            apply(patch, &mut plain, reverse);
            self.worktree = plain.iter().map(|(p, c)| (p.clone(), with_cr(c))).collect();
        } else {
            apply(patch, &mut self.worktree, reverse);
        }
    }
}

/// The lines of `diff` from the first to the last of `lines` (whole lines, e.g. `+new`).
fn select(diff: &[u8], lines: &[&str]) -> Range<usize> {
    let all: Vec<&[u8]> = diff.split(|&b| b == b'\n').collect();
    let position = |line: &str| {
        all.iter()
            .position(|l| *l == line.as_bytes())
            .unwrap_or_else(|| panic!("{line:?} not in\n{}", String::from_utf8_lossy(diff)))
    };
    let first = position(lines[0]);
    let last = position(lines[lines.len() - 1]);
    first..last + 1
}

fn numbered(n: usize) -> String {
    (1..=n).map(|i| format!("line {i}\n")).collect()
}

#[test]
fn stages_and_unstages_single_lines() {
    let mut repo = Repo::new(&[("f.txt", b"a\nb\nc\n")]);
    repo.write("f.txt", b"a\nB\nc\nd\n");
    repo.apply("f.txt", PatchAction::Stage, &["+d"]);
    assert_eq!(repo.index["f.txt"], b"a\nb\nc\nd\n");
    repo.apply("f.txt", PatchAction::Stage, &["-b"]);
    assert_eq!(repo.index["f.txt"], b"a\nc\nd\n");

    repo.apply("f.txt", PatchAction::Unstage, &["+d"]);
    assert_eq!(repo.index["f.txt"], b"a\nc\n");
    assert_eq!(repo.worktree["f.txt"], b"a\nB\nc\nd\n", "worktree untouched");
}

#[test]
fn discards_a_block_from_the_worktree_only() {
    let mut repo = Repo::new(&[("f.txt", b"a\nb\nc\n")]);
    repo.write("f.txt", b"a\nB\nc\nd\n");
    repo.apply("f.txt", PatchAction::Stage, &["+d"]);
    repo.apply("f.txt", PatchAction::Discard, &["-b", "+B"]);
    assert_eq!(repo.worktree["f.txt"], b"a\nb\nc\nd\n");
    assert_eq!(repo.index["f.txt"], b"a\nb\nc\nd\n", "index untouched");
}

#[test]
fn hunks_after_a_partly_staged_one_land_in_the_right_place() {
    let original = numbered(30);
    let mut repo = Repo::new(&[("f.txt", original.as_bytes())]);
    let changed = original
        .replace("line 2\n", "line 2\nnew A\nnew B\n")
        .replace("line 25\n", "line twenty-five\n");
    repo.write("f.txt", changed.as_bytes());

    // Only the second hunk, then one line of the first.
    repo.apply("f.txt", PatchAction::Stage, &["-line 25", "+line twenty-five"]);
    assert_eq!(repo.index["f.txt"], original.replace("line 25\n", "line twenty-five\n").as_bytes());
    repo.apply("f.txt", PatchAction::Stage, &["+new B"]);
    let staged = original.replace("line 2\n", "line 2\nnew B\n").replace("line 25\n", "line twenty-five\n");
    assert_eq!(repo.index["f.txt"], staged.as_bytes());

    // Unstage the second hunk while the first stays staged, then discard `+new A`.
    repo.apply("f.txt", PatchAction::Unstage, &["-line 25", "+line twenty-five"]);
    assert_eq!(repo.index["f.txt"], original.replace("line 2\n", "line 2\nnew B\n").as_bytes());
    repo.apply("f.txt", PatchAction::Discard, &["+new A"]);
    assert_eq!(
        repo.worktree["f.txt"],
        original.replace("line 2\n", "line 2\nnew B\n").replace("line 25\n", "line twenty-five\n").as_bytes()
    );
}

#[test]
fn stages_part_of_an_untracked_file() {
    let mut repo = Repo::new(&[]);
    repo.write("new file.txt", b"x\ny\nz\n");
    repo.apply("new file.txt", PatchAction::Stage, &["+y"]);
    assert_eq!(repo.index["new file.txt"], b"y\n");
    let status = status_v2(b"1 AM N... 000000 100644 100644 000 111 new file.txt\0");
    assert_eq!(status.files[0].short_status(), "AM");

    // The rest is now an ordinary unstaged change.
    repo.apply("new file.txt", PatchAction::Discard, &["+x"]);
    assert_eq!(repo.worktree["new file.txt"], b"y\nz\n");
    repo.apply("new file.txt", PatchAction::Unstage, &["+y"]);
    assert_eq!(repo.index.get("new file.txt"), None, "unstaging every line removes it from the index");
}

#[test]
fn discards_part_or_all_of_an_untracked_file() {
    let mut repo = Repo::new(&[]);
    repo.write("u.txt", b"x\ny\nz\n");
    repo.apply("u.txt", PatchAction::Discard, &["+y"]);
    assert_eq!(repo.worktree["u.txt"], b"x\nz\n");
    repo.apply("u.txt", PatchAction::Discard, &["+x", "+z"]);
    assert_eq!(repo.worktree.get("u.txt"), None, "discarding every line deletes the file");
}

#[test]
fn stages_part_of_a_deleted_file() {
    let mut repo = Repo::new(&[("gone.txt", b"a\nb\nc\n")]);
    repo.worktree.remove("gone.txt");
    repo.apply("gone.txt", PatchAction::Stage, &["-b"]);
    assert_eq!(repo.index["gone.txt"], b"a\nc\n");
    repo.apply("gone.txt", PatchAction::Stage, &["-a", "-c"]);
    assert_eq!(repo.index.get("gone.txt"), None, "staging every line stages the deletion");
}

#[test]
fn unstages_a_staged_deletion_line_by_line() {
    let mut repo = Repo::new(&[("gone.txt", b"a\nb\nc\n")]);
    repo.worktree.remove("gone.txt");
    repo.index.remove("gone.txt");
    repo.apply("gone.txt", PatchAction::Unstage, &["-b"]);
    assert_eq!(repo.index["gone.txt"], b"b\n");
}

#[test]
fn unstaging_lines_of_a_rename_keeps_the_rename() {
    let mut repo = Repo::new(&[("old.txt", b"keep 1\nkeep 2\nkeep 3\nkeep 4\nx\n")]);
    repo.worktree.remove("old.txt");
    repo.index.remove("old.txt");
    repo.write("new.txt", b"keep 1\nkeep 2\nkeep 3\nkeep 4\ny\n");
    repo.index.insert("new.txt".into(), repo.worktree["new.txt"].clone());
    repo.renamed.insert("new.txt".into(), "old.txt".into());
    let status = status_v2(b"2 R. N... 100644 100644 100644 aaa bbb R80 new.txt\0old.txt\0");
    assert_eq!(status.files[0].kind, FileKind::Renamed);
    repo.apply("new.txt", PatchAction::Unstage, &["+y"]);
    assert_eq!(repo.index["new.txt"], b"keep 1\nkeep 2\nkeep 3\nkeep 4\n");
    assert_eq!(repo.index.get("old.txt"), None);
}

#[test]
fn files_without_a_final_newline() {
    let mut repo = Repo::new(&[("f", b"a\nb")]);
    repo.write("f", b"a\nB");
    repo.apply("f", PatchAction::Stage, &["-b", "+B"]);
    assert_eq!(repo.index["f"], b"a\nB");

    // Adding a line after `B` also adds B's newline, which is a change to `B`.
    repo.write("f", b"a\nB\nC\n");
    let diff = repo.unstaged("f");
    let range = select(&diff, &["+C"]);
    assert!(Patch::parse(&diff).build(range, false).is_err());
    repo.apply("f", PatchAction::Stage, &["-B", "+C"]);
    assert_eq!(repo.index["f"], b"a\nB\nC\n");
}

#[test]
fn keeps_crlf_and_bytes_that_arent_utf8() {
    let mut repo = Repo::new(&[("w.txt", b"a\r\nb\r\n"), ("bin.txt", b"a\n\xff\n")]);
    repo.write("w.txt", b"a\r\nB\r\nc\r\n");
    repo.apply("w.txt", PatchAction::Stage, &["+c\r"]);
    assert_eq!(repo.index["w.txt"], b"a\r\nb\r\nc\r\n");

    repo.write("bin.txt", b"a\n\xfe\n");
    let diff = repo.unstaged("bin.txt");
    let patch = Patch::parse(&diff);
    let first = patch.first_change().unwrap();
    let built = patch.build(patch.block(first).unwrap(), false).unwrap().unwrap();
    repo.run(built, PatchAction::Stage);
    assert_eq!(repo.index["bin.txt"], b"a\n\xfe\n");
}

#[test]
fn discards_lines_with_autocrlf() {
    // The diff shows the normalized LF content; the worktree keeps its CRLF.
    let mut repo = Repo::new(&[("w.txt", b"a\nb\n")]);
    repo.autocrlf = true;
    repo.write("w.txt", b"a\r\nB\r\nc\r\n");
    repo.apply("w.txt", PatchAction::Stage, &["+c"]);
    assert_eq!(repo.index["w.txt"], b"a\nb\nc\n");
    repo.apply("w.txt", PatchAction::Discard, &["-b", "+B"]);
    assert_eq!(repo.worktree["w.txt"], b"a\r\nb\r\nc\r\n");
}

#[test]
fn binary_files_have_no_lines_to_stage() {
    let mut repo = Repo::new(&[("img.bin", b"\x00\x01\x02")]);
    repo.write("img.bin", b"\x00\x01\x03");
    let diff = repo.unstaged("img.bin");
    assert!(!Patch::parse(&diff).has_changes(), "{}", String::from_utf8_lossy(&diff));
}

#[test]
fn stages_lines_in_a_repo_without_commits() {
    let mut repo = Repo::default();
    repo.write("f", b"1\n2\n");
    repo.apply("f", PatchAction::Stage, &["+2"]);
    assert_eq!(repo.index["f"], b"2\n");
    repo.apply("f", PatchAction::Unstage, &["+2"]);
    assert_eq!(repo.index.get("f"), None);
    assert!(repo.worktree.contains_key("f"));
}

#[test]
fn any_selection_applies() {
    let old = b"a\nb\nc\nd\ne\nf\ng\nh\ni\nj\nk\nl\n";
    let new = b"a\nB\nc\nd\nx\ne\nf\ng\nh\ni\nK\nL\nl\n";
    for from in 0..30 {
        for to in from + 1..30 {
            for action in [PatchAction::Stage, PatchAction::Discard] {
                let mut repo = Repo::new(&[("f", old)]);
                repo.write("f", new);
                let patch = Patch::parse(&repo.unstaged("f"));
                let selected = from.min(patch.len())..to.min(patch.len());
                if let Some(built) = patch.build(selected, action != PatchAction::Stage).unwrap() {
                    repo.run(built, action);
                }
            }
        }
    }
}

#[test]
fn file_statuses() {
    let file = |index, worktree, kind| FileEntry { path: "f".into(), orig_path: None, index, worktree, kind };
    assert_eq!(file('.', 'M', FileKind::Ordinary).short_status(), " M");
    assert_eq!(file('?', '?', FileKind::Untracked).short_status(), "??");
    assert!(file('M', '.', FileKind::Ordinary).has_staged());
    assert!(!file('M', '.', FileKind::Ordinary).has_unstaged());
}
