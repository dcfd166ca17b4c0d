use std::ops::Range;

use ubergit::patch::{with_side, NoNewlineConflict, Patch};

fn build(diff: &str, selected: Range<usize>, reverse: bool) -> String {
    let patch = Patch::parse(diff.as_bytes());
    let out = patch.build(selected, reverse).unwrap().expect("a patch");
    String::from_utf8(out).unwrap()
}

const MODIFIED: &str = "\
diff --git a/f.txt b/f.txt
index 1111111..2222222 100644
--- a/f.txt
+++ b/f.txt
@@ -1,6 +1,6 @@ fn top()
 one
-two
+TWO
 three
 four
-five
+FIVE
 six
@@ -20,3 +20,4 @@
 twenty
+new
 twenty-one
 twenty-two
";

#[test]
fn finds_changes_and_blocks() {
    let patch = Patch::parse(MODIFIED.as_bytes());
    assert_eq!(patch.len(), 18);
    let changes: Vec<usize> = (0..patch.len()).filter(|&i| patch.is_change(i)).collect();
    assert_eq!(changes, [6, 7, 10, 11, 15]);
    assert_eq!(patch.first_change(), Some(6));
    assert_eq!(patch.nearest_change(8), Some(10));
    assert_eq!(patch.nearest_change(17), Some(15));
    assert_eq!(patch.block(7), Some(6..8));
    assert_eq!(patch.block(8), None);
    assert_eq!(patch.adjacent_block(6, true), Some(10));
    assert_eq!(patch.adjacent_block(15, false), Some(10));
    assert_eq!(patch.adjacent_block(11, false), Some(6));
    assert_eq!(patch.adjacent_block(15, true), None);
    assert_eq!(patch.adjacent_change(7, true), Some(10));
    assert_eq!(patch.adjacent_change(6, false), None);
}

#[test]
fn stages_one_added_line() {
    // The unselected `-two` and `-five` stay as context; `+FIVE` stays out.
    let expected = "\
diff --git a/f.txt b/f.txt
index 1111111..2222222 100644
--- a/f.txt
+++ b/f.txt
@@ -1,6 +1,7 @@ fn top()
 one
 two
+TWO
 three
 four
 five
 six
";
    assert_eq!(build(MODIFIED, 7..8, false), expected);
}

#[test]
fn later_hunks_move_by_what_earlier_ones_changed() {
    let removed = build(MODIFIED, 6..7, false);
    assert!(removed.ends_with("@@ -1,6 +1,5 @@ fn top()\n one\n-two\n three\n four\n five\n six\n"), "{removed}");
    // `+TWO` adds a line (its `-two` stays), so the second hunk starts a line later.
    let out = build(MODIFIED, 7..16, false);
    assert!(out.contains("@@ -1,6 +1,7 @@ fn top()\n one\n two\n+TWO\n three\n four\n-five\n+FIVE\n six\n"), "{out}");
    assert!(out.ends_with("@@ -20,3 +21,4 @@\n twenty\n+new\n twenty-one\n twenty-two\n"), "{out}");
}

#[test]
fn unstages_one_line_in_reverse() {
    // Reversed: the unselected `+TWO` stays as context, the unselected `-two` and
    // `-five` go.
    let out = build(MODIFIED, 11..12, true);
    assert!(out.ends_with("@@ -1,5 +1,6 @@ fn top()\n one\n TWO\n three\n four\n+FIVE\n six\n"), "{out}");
}

#[test]
fn reverse_hunks_keep_their_new_side_and_move_the_old_side() {
    let all = build(MODIFIED, 6..16, true);
    assert!(all.contains("@@ -1,6 +1,6 @@ fn top()\n one\n-two\n+TWO\n"), "{all}");
    assert!(all.contains("@@ -20,3 +20,4 @@\n twenty\n+new\n"), "{all}");
    // Without `-two`, the first hunk's old side is a line shorter, and so the second
    // hunk's old side starts a line earlier.
    let out = build(MODIFIED, 7..16, true);
    assert!(out.contains("@@ -1,5 +1,6 @@ fn top()\n one\n+TWO\n three\n"), "{out}");
    assert!(out.contains("@@ -19,3 +20,4 @@\n"), "{out}");
    // The second hunk alone: nothing before it moves.
    let second = build(MODIFIED, 15..16, true);
    assert!(second.contains("@@ -20,3 +20,4 @@\n"), "{second}");
}

#[test]
fn nothing_selected_is_no_patch() {
    let patch = Patch::parse(MODIFIED.as_bytes());
    assert_eq!(patch.build(8..10, false), Ok(None));
    assert_eq!(patch.build(0..5, true), Ok(None));
}

const NEW_FILE: &str = "\
diff --git a/my file.txt b/my file.txt
new file mode 100755
index 0000000..3333333
--- /dev/null
+++ b/my file.txt\t
@@ -0,0 +1,3 @@
+a
+b
+c
";

#[test]
fn stages_part_of_a_new_file_as_a_new_file() {
    let out = build(NEW_FILE, 7..8, false);
    assert_eq!(
        out,
        "diff --git a/my file.txt b/my file.txt\nnew file mode 100755\nindex 0000000..3333333\n--- /dev/null\n+++ b/my file.txt\t\n@@ -0,0 +1,1 @@\n+b\n"
    );
}

#[test]
fn discarding_part_of_a_new_file_becomes_a_plain_change() {
    let out = build(NEW_FILE, 7..8, true);
    assert_eq!(
        out,
        "diff --git a/my file.txt b/my file.txt\n--- a/my file.txt\t\n+++ b/my file.txt\t\n@@ -1,2 +1,3 @@\n a\n+b\n c\n"
    );
    // All of it: still a new file, so reversing it removes the file.
    assert!(build(NEW_FILE, 6..9, true).contains("new file mode 100755\n"));
}

#[test]
fn staging_part_of_a_deletion_becomes_a_plain_change() {
    let diff = "\
diff --git a/gone.txt b/gone.txt
deleted file mode 100644
index 3333333..0000000
--- a/gone.txt
+++ /dev/null
@@ -1,3 +0,0 @@
-a
-b
-c
";
    let out = build(diff, 7..8, false);
    assert_eq!(out, "diff --git a/gone.txt b/gone.txt\n--- a/gone.txt\n+++ b/gone.txt\n@@ -1,3 +1,2 @@\n a\n-b\n c\n");
    assert!(build(diff, 0..9, false).contains("deleted file mode 100644\n"));
}

#[test]
fn unstaging_part_of_a_rename_keeps_the_rename() {
    let diff = "\
diff --git a/old.txt b/new.txt
similarity index 80%
rename from old.txt
rename to new.txt
index 1111111..2222222 100644
--- a/old.txt
+++ b/new.txt
@@ -1,2 +1,2 @@
 keep
-x
+y
";
    let out = build(diff, 10..11, true);
    assert_eq!(out, "diff --git a/new.txt b/new.txt\n--- a/new.txt\n+++ b/new.txt\n@@ -1,1 +1,2 @@\n keep\n+y\n");
}

#[test]
fn quoted_names_keep_their_quotes() {
    assert_eq!(with_side(b"\"b/tab\\tname\"", b'a'), b"\"a/tab\\tname\"");
    assert_eq!(with_side(b"b/x", b'a'), b"a/x");
    assert_eq!(with_side(b"/dev/null", b'a'), b"/dev/null");
}

const NO_NEWLINE: &str = "\
diff --git a/f b/f
index 1111111..2222222 100644
--- a/f
+++ b/f
@@ -1,2 +1,3 @@
 first
-last
\\ No newline at end of file
+last
+more
\\ No newline at end of file
";

#[test]
fn no_newline_markers_follow_their_line() {
    // The whole block: markers kept after their lines.
    let all = build(NO_NEWLINE, 6..11, false);
    assert!(all.ends_with("@@ -1,2 +1,3 @@\n first\n-last\n\\ No newline at end of file\n+last\n+more\n\\ No newline at end of file\n"), "{all}");
    // Just `-last`: `+last` and `+more` are dropped, and so is the marker after `+more`.
    let removed = build(NO_NEWLINE, 6..7, false);
    assert!(removed.ends_with("@@ -1,2 +1,1 @@\n first\n-last\n\\ No newline at end of file\n"), "{removed}");
}

#[test]
fn a_line_after_a_last_line_without_newline_cant_be_split_off() {
    let patch = Patch::parse(NO_NEWLINE.as_bytes());
    assert_eq!(patch.build(9..10, false), Err(NoNewlineConflict));
}

#[test]
fn keeps_carriage_returns_and_invalid_utf8() {
    let diff = b"diff --git a/w b/w\n--- a/w\n+++ b/w\n@@ -1,2 +1,2 @@\n a\r\n-b\xff\r\n+c\r\n";
    let patch = Patch::parse(diff);
    let out = patch.build(5..6, false).unwrap().unwrap();
    assert!(out.ends_with(b"@@ -1,2 +1,1 @@\n a\r\n-b\xff\r\n"), "{}", String::from_utf8_lossy(&out));
}

#[test]
fn empty_context_lines_count_as_context() {
    let diff = "diff --git a/f b/f\n--- a/f\n+++ b/f\n@@ -1,3 +1,3 @@\n a\n\n-b\n+c\n";
    let out = build(diff, 7..8, false);
    assert!(out.ends_with("@@ -1,3 +1,4 @@\n a\n \n b\n+c\n"), "{out}");
}

#[test]
fn submodules_binaries_and_conflicts_have_nothing_to_stage() {
    let submodule = "diff --git a/sub b/sub\nindex 1111111..2222222 160000\n--- a/sub\n+++ b/sub\n@@ -1 +1 @@\n-Subproject commit 1111111\n+Subproject commit 2222222\n";
    let binary = "diff --git a/i.png b/i.png\nindex 1111111..2222222 100644\nBinary files a/i.png and b/i.png differ\n";
    let conflict = "diff --cc f\nindex 1111111,2222222..0000000\n--- a/f\n+++ b/f\n@@@ -1,1 -1,1 +1,5 @@@\n++<<<<<<< HEAD\n";
    for diff in [submodule, binary, conflict] {
        assert!(!Patch::parse(diff.as_bytes()).has_changes(), "{diff}");
    }
}

#[test]
fn a_truncated_hunk_is_not_stageable() {
    let diff = "diff --git a/f b/f\n--- a/f\n+++ b/f\n@@ -1,3 +1,3 @@\n a\n-b\n";
    assert!(!Patch::parse(diff.as_bytes()).has_changes());
}

#[test]
fn a_built_patch_is_a_diff() {
    let renamed = MODIFIED.replace("index 1111111..2222222 100644\n", "similarity index 80%\nrename from g.txt\nrename to f.txt\nold mode 100644\nnew mode 100755\n");
    let deleted = MODIFIED.replace("+++ b/f.txt", "+++ /dev/null").replace("index", "deleted file mode 100644\nindex");
    for diff in [MODIFIED, &renamed, &deleted] {
        let patch = Patch::parse(diff.as_bytes());
        for from in 0..patch.len() {
            for to in from..=patch.len() {
                for reverse in [false, true] {
                    let selected = (from..to).filter(|&i| patch.is_change(i)).count();
                    let Some(out) = patch.build(from..to, reverse).unwrap() else {
                        assert_eq!(selected, 0);
                        continue;
                    };
                    let again = Patch::parse(&out);
                    assert_eq!((0..again.len()).filter(|&i| again.is_change(i)).count(), selected);
                    assert_eq!(again.build(0..again.len(), reverse), Ok(Some(out)));
                }
            }
        }
    }
}

#[test]
fn a_patch_changes_the_selected_lines_in_order() {
    let patch = Patch::parse(MODIFIED.as_bytes());
    let lines: Vec<&str> = MODIFIED.lines().collect();
    let changed = |text: &str| -> Vec<String> {
        let body = text.lines().skip_while(|l| !l.starts_with("@@"));
        body.filter(|l| l.starts_with('+') || l.starts_with('-')).map(str::to_string).collect()
    };
    for from in 0..patch.len() {
        for to in from..=patch.len() {
            let selected: Vec<String> = (from..to).filter(|&i| patch.is_change(i)).map(|i| lines[i].to_string()).collect();
            for reverse in [false, true] {
                if !selected.is_empty() {
                    assert_eq!(changed(&build(MODIFIED, from..to, reverse)), selected);
                }
            }
        }
    }
}
