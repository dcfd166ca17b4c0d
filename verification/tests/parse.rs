use ubergit::git::parse::{branches, log, stashes, status_v2, upstream_track, worktrees};
use ubergit::model::{ChangeCounts, FileKind, Head, Upstream};
use ubergit::path::FsPath;

#[test]
fn status_with_upstream_rename_untracked_and_conflict() {
    let out = b"# branch.oid e68950e7\0# branch.head feat\0# branch.upstream origin/main\0\
# branch.ab +1 -2\0# stash 3\0\
1 .M N... 100644 100644 100644 aaa bbb src/a b.rs\0\
2 RM N... 100644 100644 100644 aaa bbb R66 g\0f\0\
u UU N... 100644 100644 100644 100644 a b c conflict.txt\0\
? new file.txt\0";
    let report = status_v2(out);
    assert_eq!(report.oid.as_deref(), Some("e68950e7"));
    assert_eq!(report.head(), Head::Branch("feat".into()));
    assert_eq!(
        report.upstream(),
        Upstream::Tracking { name: "origin/main".into(), ahead: 1, behind: 2 }
    );
    assert_eq!(report.stash_count, 3);
    assert_eq!(report.files.len(), 4);
    assert_eq!(report.files[0].path, "src/a b.rs");
    assert!(!report.files[0].has_staged() && report.files[0].has_unstaged());
    assert_eq!(report.files[1].path, "g");
    assert_eq!(report.files[1].orig_path.as_deref(), Some("f"));
    assert!(report.files[1].has_staged() && report.files[1].has_unstaged());
    assert_eq!(report.files[2].kind, FileKind::Unmerged);
    assert_eq!(report.files[3].path, "new file.txt");
    assert_eq!(
        report.change_counts(),
        ChangeCounts { files: 4, staged: 1, unstaged: 2, untracked: 1, conflicted: 1 }
    );
}

#[test]
fn status_detached_unborn_gone() {
    let detached = status_v2(b"# branch.oid abc\0# branch.head (detached)\0");
    assert_eq!(detached.head(), Head::Detached("abc".into()));
    let unborn = status_v2(b"# branch.oid (initial)\0# branch.head main\0");
    assert_eq!(unborn.head(), Head::Unborn("main".into()));
    let gone = status_v2(b"# branch.oid abc\0# branch.head x\0# branch.upstream origin/x\0");
    assert_eq!(gone.upstream(), Upstream::Gone { name: "origin/x".into() });
}

#[test]
fn track() {
    assert_eq!(upstream_track("", ""), Upstream::Unset);
    assert_eq!(upstream_track("o/x", "gone"), Upstream::Gone { name: "o/x".into() });
    assert_eq!(
        upstream_track("o/x", "ahead 3, behind 4"),
        Upstream::Tracking { name: "o/x".into(), ahead: 3, behind: 4 }
    );
    assert_eq!(
        upstream_track("o/x", "behind 4"),
        Upstream::Tracking { name: "o/x".into(), ahead: 0, behind: 4 }
    );
}

#[test]
fn branch_records() {
    let out = "*\x1fmain\x1fabc\x1forigin/main\x1f\x1f1700000000\x1finit\x1f0 0\x1f/r\x1e\n \
\x1ffeat\x1fdef\x1f\x1f\x1f1700000001\x1fwip: a, b\x1f2 5\x1f/other\x1e\n";
    let branches = branches(out, Some(&FsPath::new("/r")));
    assert_eq!(branches.len(), 2);
    assert!(branches[0].is_head);
    assert_eq!(branches[0].worktree, None);
    assert_eq!(branches[1].base, Some((2, 5)));
    assert_eq!(branches[1].subject, "wip: a, b");
    assert_eq!(branches[1].worktree, Some(FsPath::new("/other")));
}

#[test]
fn stash_and_log() {
    let stashes = stashes("stash@{0}\x1f1700000000\x1fWIP on main: abc x\x1e\nstash@{1}\x1f1\x1fOn b: y\x1e\n");
    assert_eq!(stashes.len(), 2);
    assert_eq!(stashes[1].index, 1);
    let log = log("abcdef\x1fabc\x1fMe\x1f1700000000\x1fHEAD -> main\x1fsubject\x1e\n");
    assert_eq!(log[0].refs, "HEAD -> main");
}

#[test]
fn worktree_list() {
    let out = b"worktree /a\0HEAD abc\0branch refs/heads/main\0\0worktree /b\0HEAD def\0detached\0\0";
    let wts = worktrees(out, &FsPath::new("/b"));
    assert_eq!(wts.len(), 2);
    assert_eq!(wts[0].branch.as_deref(), Some("main"));
    assert!(wts[1].is_current && wts[1].branch.is_none());
}

#[test]
fn records_are_read_one_after_another() {
    let records: [&[u8]; 6] = [
        b"1 .M N... 100644 100644 100644 a b f\xff.txt\0",
        b"2 R. N... 100644 100644 100644 a b R80 2 new.txt\0? old.txt\0",
        b"u UU N... 1 2 3 4 a b c d\0",
        b"? new\n\xc3\0",
        b"! ignored\0\0",
        b"# stash 1\x001 too few\0",
    ];
    for a in 0..records.len() {
        for b in 0..records.len() {
            let joined = [records[a], records[b]].concat();
            let mut files = status_v2(records[a]).files;
            files.extend(status_v2(records[b]).files);
            assert_eq!(status_v2(&joined).files, files);
        }
    }
    // Records are read as the text of the whole output is.
    let all = records.concat();
    assert_eq!(status_v2(&all), status_v2(String::from_utf8_lossy(&all).as_bytes()));
    assert_eq!(status_v2(&all).files.len(), 4);
}
