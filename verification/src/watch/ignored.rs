//! Gitignore rules, matched by the `ignore` crate.

use ignore::gitignore::{Gitignore, GitignoreBuilder};
use vstd::prelude::*;

use crate::text::seqs::{filter_map, lemma_filter_map_step, skip_leading, skipped_leading, strip_prefix};
use crate::text::strings::{after_text, chars_of, copied, string_of, texts, trim_end};

verus! {

/// A matcher for the rules of some gitignore files.
#[verifier::external_type_specification]
#[verifier::external_body]
pub struct ExGitignore(Gitignore);

/// Collects rules for a matcher.
#[verifier::external_type_specification]
#[verifier::external_body]
pub struct ExGitignoreBuilder(GitignoreBuilder);

/// The directory that a matcher's rules are relative to; a matcher without rules has none.
pub uninterp spec fn matcher_root(g: Gitignore) -> Seq<char>;

/// The rules of a matcher, as they are written.
pub uninterp spec fn matcher_rules(g: Gitignore) -> Seq<Seq<char>>;

/// The directory that a builder was made with.
pub uninterp spec fn builder_root(b: GitignoreBuilder) -> Seq<char>;

/// The rules of a builder, as they are written.
pub uninterp spec fn builder_rules(b: GitignoreBuilder) -> Seq<Seq<char>>;

/// Whether `GitignoreBuilder::add_line` takes a line for a rule.
pub uninterp spec fn is_rule(line: Seq<char>) -> bool;

/// Whether `GitignoreBuilder::build` can compile some rules together.
pub uninterp spec fn rules_build(rules: Seq<Seq<char>>) -> bool;

/// Whether the rules of a directory ignore a path below it, or a directory above it
/// (`Gitignore::matched_path_or_any_parents`).
pub uninterp spec fn rules_ignore(root: Seq<char>, rules: Seq<Seq<char>>, rel: Seq<char>) -> bool;

/// A path without a leading `./`.
pub open spec fn without_dot(path: Seq<char>) -> Seq<char> {
    match strip_prefix(path, "./"@) {
        Some(rest) => rest,
        None => path,
    }
}

/// A rule as it is written: its line without the white space at the end, unless a
/// backslash keeps it.
pub open spec fn rule_text(line: Seq<char>) -> Seq<char> {
    if "\\ "@.is_suffix_of(line) {
        line
    } else {
        trim_end(line)
    }
}

/// `GitignoreBuilder::new`: a builder for that directory, without rules.
#[verifier::external_body]
fn new_builder(root: &str) -> (b: GitignoreBuilder)
    ensures
        builder_root(b) == without_dot(root@),
        builder_rules(b) == Seq::<Seq<char>>::empty(),
{
    GitignoreBuilder::new(root)
}

/// `GitignoreBuilder::add_line`: a line that is a rule is added to the rules; a comment, a
/// blank line, or one that is no glob leaves them as they are.
#[verifier::external_body]
fn add_rule(b: &mut GitignoreBuilder, line: &str)
    ensures
        builder_root(*final(b)) == builder_root(*old(b)),
        builder_rules(*final(b)) == (if is_rule(line@) {
            builder_rules(*old(b)).push(rule_text(line@))
        } else {
            builder_rules(*old(b))
        }),
        "#"@.is_prefix_of(line@) || rule_text(line@).len() == 0 ==> builder_rules(*final(b))
            == builder_rules(*old(b)),
{
    let _ = b.add_line(None, line);
}

/// `GitignoreBuilder::build`: a matcher with the builder's rules and directory, unless the
/// rules can't be compiled together, which depends on them alone. No rules always build, to
/// a matcher without a directory.
#[verifier::external_body]
fn build_matcher(b: &GitignoreBuilder) -> (r: Option<Gitignore>)
    ensures
        r is Some == (builder_rules(*b).len() == 0 || rules_build(builder_rules(*b))),
        r matches Some(g) ==> matcher_rules(g) == builder_rules(*b),
        r matches Some(g) ==> matcher_root(g) == (if builder_rules(*b).len() == 0 {
            Seq::<char>::empty()
        } else {
            builder_root(*b)
        }),
{
    b.build().ok()
}

/// `Gitignore::empty`: a matcher without rules.
#[verifier::external_body]
fn empty_matcher() -> (g: Gitignore)
    ensures
        matcher_rules(g) == Seq::<Seq<char>>::empty(),
        matcher_root(g) == Seq::<char>::empty(),
{
    Gitignore::empty()
}

/// Whether a path is one below a directory: it is not absolute, nor is what is left of it
/// once the directory's own path and a slash are taken from its start.
pub open spec fn is_below(root: Seq<char>, rel: Seq<char>) -> bool {
    !"/"@.is_prefix_of(without_dot(rel)) && !(root + "//"@).is_prefix_of(without_dot(rel))
}

/// `Gitignore::path`: the directory that a matcher's rules are relative to.
#[verifier::external_body]
fn matcher_path(g: &Gitignore) -> (r: String)
    ensures
        r@ == matcher_root(*g),
{
    g.path().to_string_lossy().into_owned()
}

/// `Gitignore::matched_path_or_any_parents`, for something that may be a file: whether the
/// last rule that matches the path, or else a directory above it, ignores it. Without
/// rules nothing is ignored. With rules, a path that is absolute once the matcher's
/// directory is stripped from it panics, so `rel` has to be one below it.
#[verifier::external_body]
fn match_path(g: &Gitignore, rel: &str) -> (r: bool)
    requires
        matcher_rules(*g).len() > 0 ==> is_below(matcher_root(*g), rel@),
    ensures
        r == rules_ignore(matcher_root(*g), matcher_rules(*g), rel@),
        matcher_rules(*g).len() == 0 ==> !r,
{
    g.matched_path_or_any_parents(rel, false).is_ignore()
}

/// The rules among some lines.
pub open spec fn rules_among(lines: Seq<Seq<char>>) -> Seq<Seq<char>> {
    filter_map(
        lines,
        |l: Seq<char>|
            if is_rule(l) {
                Some(rule_text(l))
            } else {
                None
            },
    )
}

/// The directory and the rules that count: none if the rules can't be compiled.
pub open spec fn compiled(root: Seq<char>, lines: Seq<Seq<char>>) -> (Seq<char>, Seq<Seq<char>>) {
    let rules = rules_among(lines);
    if rules.len() > 0 && rules_build(rules) {
        (without_dot(root), rules)
    } else {
        (Seq::empty(), Seq::empty())
    }
}

/// Compiles the lines of a directory's gitignore files.
pub fn compile_rules(root: &str, lines: &Vec<String>) -> (g: Gitignore)
    ensures
        (matcher_root(g), matcher_rules(g)) == compiled(root@, texts(lines@)),
{
    let mut b = new_builder(root);
    let ghost all = texts(lines@);
    let ghost f = |l: Seq<char>|
        if is_rule(l) {
            Some(rule_text(l))
        } else {
            None
        };
    let mut i: usize = 0;
    assert(all.take(0) =~= Seq::<Seq<char>>::empty());
    while i < lines.len()
        invariant
            i <= lines@.len(),
            all == texts(lines@),
            f == (|l: Seq<char>|
                if is_rule(l) {
                    Some(rule_text(l))
                } else {
                    None
                }),
            builder_root(b) == without_dot(root@),
            builder_rules(b) == filter_map(all.take(i as int), f),
        decreases lines@.len() - i,
    {
        proof {
            lemma_filter_map_step(all, f, i as int);
        }
        add_rule(&mut b, lines[i].as_str());
        i = i + 1;
    }
    assert(all.take(all.len() as int) =~= all);
    assert(builder_rules(b) == rules_among(all));
    match build_matcher(&b) {
        Some(g) => {
            assert(builder_rules(b).len() == 0 ==> builder_rules(b) =~= Seq::<Seq<char>>::empty());
            g
        },
        None => empty_matcher(),
    }
}

/// Whether a matcher ignores a path below its directory.
pub open spec fn ignored_by(g: Gitignore, rel: Seq<char>) -> bool {
    &&& matcher_rules(g).len() > 0
    &&& is_below(matcher_root(g), rel)
    &&& rules_ignore(matcher_root(g), matcher_rules(g), rel)
}

/// Whether a matcher ignores a path below its directory.
pub fn is_ignored(g: &Gitignore, rel: &str) -> (r: bool)
    ensures
        r == ignored_by(*g, rel@),
{
    let mut above = matcher_path(g);
    above.push_str("//");
    let chars = chars_of(rel);
    let plain = match after_text(chars.as_slice(), "./") {
        Some(rest) => rest,
        None => chars.as_slice(),
    };
    if after_text(plain, "/").is_some() || after_text(plain, above.as_str()).is_some() {
        return false;
    }
    match_path(g, rel)
}

/// The rules in the lines of a gitignore file: the first line may start with a byte order
/// mark.
pub open spec fn file_rules(lines: Seq<Seq<char>>) -> Seq<Seq<char>> {
    if lines.len() == 0 {
        lines
    } else {
        lines.update(0, skip_leading(lines[0], '\u{feff}'))
    }
}

/// The rules in the lines of a gitignore file.
pub fn rules_in(lines: &Vec<String>) -> (r: Vec<String>)
    ensures
        texts(r@) == file_rules(texts(lines@)),
{
    let mut out = copied(lines);
    if out.len() > 0 {
        let chars = chars_of(out[0].as_str());
        let ghost before = out@;
        let first = string_of(skipped_leading(chars.as_slice(), '\u{feff}'));
        out.set(0, first);
        assert(texts(out@) =~= texts(before).update(0, first@));
    }
    out
}

} // verus!
