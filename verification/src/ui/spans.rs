//! Parts of rows: markers, short names, and the colours of diffs and logs.

use vstd::prelude::*;
use vstd::slice::slice_subrange;

use crate::model::{RepoSummary, SummaryView, Upstream, UpstreamView};
use crate::text::number::{decimal, push_decimal};
use crate::text::outside::{to_upper, uppercase};
use crate::text::seqs::{
    filter_map, find, find_sub, index_of, join, lemma_filter_map_step, lemma_index_of, lemma_sub_index, split_at_sub,
    split_first, split_first_sub, split_once, split_once_sub, split_sub, sub_index, views,
};
use crate::text::strings::{
    after_text, bytes_of, cat2, chars_end_with, chars_of, chars_start_with, is_text, joined, push_string, split_words,
    str_starts_with, string_of, texts, utf8, words,
};
use crate::ui::actions::is_hex;
use crate::ui::line::{blank, bold, color, line_text, plain, with, Line, SpanView, Style};
use crate::ui::theme::{Color, ACTIVE_BORDER, BLUE, CYAN, DIM, FG, GREEN, INACTIVE_BORDER, MAGENTA, RED, YELLOW};

verus! {

/// How far a branch is behind and ahead, e.g. `↓2↑1`.
pub open spec fn arrows_text(ahead: u32, behind: u32) -> Seq<char> {
    (if behind > 0 {
        "↓"@ + decimal(behind as nat)
    } else {
        Seq::empty()
    }) + (if ahead > 0 {
        "↑"@ + decimal(ahead as nat)
    } else {
        Seq::empty()
    })
}

/// How far a branch is behind and ahead, e.g. `↓2↑1`.
pub fn arrows(ahead: u32, behind: u32) -> (r: String)
    ensures
        r@ == arrows_text(ahead, behind),
{
    let mut s = String::new();
    if behind > 0 {
        s.push_str("↓");
        push_decimal(&mut s, behind as u64);
    }
    if ahead > 0 {
        s.push_str("↑");
        push_decimal(&mut s, ahead as u64);
    }
    assert(s@ =~= arrows_text(ahead, behind));
    s
}

/// lazygit's upstream marker: `✓`, `↓2↑1` (yellow), `gone` (red), nothing without upstream.
pub open spec fn with_upstream(line: Seq<SpanView>, upstream: UpstreamView) -> Seq<SpanView> {
    match upstream {
        UpstreamView::Unset => line,
        UpstreamView::Gone { .. } => color(line, " gone"@, RED),
        UpstreamView::Tracking { name, ahead, behind } => if ahead == 0 && behind == 0 {
            color(line, " ✓"@, GREEN)
        } else {
            color(line, " "@ + arrows_text(ahead, behind), YELLOW)
        },
    }
}

/// lazygit's upstream marker.
pub fn upstream_spans(line: &mut Line, upstream: &Upstream)
    ensures
        final(line)@ == with_upstream(old(line)@, upstream@),
{
    match upstream {
        Upstream::Unset => {},
        Upstream::Gone { .. } => {
            line.color(" gone", RED);
        },
        Upstream::Tracking { name: _, ahead, behind } => {
            if *ahead == 0 && *behind == 0 {
                line.color(" ✓", GREEN);
            } else {
                let marker = arrows(*ahead, *behind);
                let text = cat2(" ", marker.as_str());
                line.color(text.as_str(), YELLOW);
            }
        },
    }
}

/// Row glyph: green clean & synced, yellow needs attention, red conflicts/failures.
pub open spec fn health_of(s: SummaryView, fetch_failed: bool) -> (Seq<char>, Color) {
    if s.changes.conflicted > 0 || fetch_failed || s.upstream is Gone {
        ("●"@, RED)
    } else if s.settled() && (s.base matches Some(b) ==> b.behind == 0) {
        ("●"@, GREEN)
    } else if s.changes != crate::model::no_changes() || s.op is Some {
        ("●"@, YELLOW)
    } else if s.upstream matches UpstreamView::Tracking { name, ahead, behind } && behind > 0 {
        ("●"@, BLUE)
    } else {
        ("○"@, DIM)
    }
}

/// Row glyph: green clean & synced, yellow needs attention, red conflicts/failures.
pub fn health(s: &RepoSummary, fetch_failed: bool) -> (r: (&'static str, Color))
    ensures
        (r.0@, r.1) == health_of(s@, fetch_failed),
{
    let gone = match &s.upstream {
        Upstream::Gone { .. } => true,
        _ => false,
    };
    let behind = match &s.upstream {
        Upstream::Tracking { name: _, ahead: _, behind } => *behind > 0,
        _ => false,
    };
    let base_behind = match &s.base {
        Some(base) => base.behind > 0,
        None => false,
    };
    if s.changes.conflicted > 0 || fetch_failed || gone {
        ("●", RED)
    } else if s.is_settled() && !base_behind {
        ("●", GREEN)
    } else if !s.changes.is_clean() || s.op.is_some() {
        ("●", YELLOW)
    } else if behind {
        ("●", BLUE)
    } else {
        ("○", DIM)
    }
}

/// `✓ ` before a marked repo, blank before the others, while any repo is marked.
pub open spec fn with_mark(line: Seq<SpanView>, marked: bool) -> Seq<SpanView> {
    if marked {
        bold(line, "✓ "@, CYAN)
    } else {
        plain(line, "  "@)
    }
}

/// `✓ ` before a marked repo, blank before the others, while any repo is marked.
pub fn mark_column(line: &mut Line, marked: bool)
    ensures
        final(line)@ == with_mark(old(line)@, marked),
{
    if marked {
        line.bold("✓ ", CYAN);
    } else {
        line.push("  ");
    }
}

/// What follows the last slash of a name.
pub open spec fn last_part(name: Seq<char>) -> Seq<char>
    decreases name.len(),
{
    if name.len() == 0 {
        Seq::empty()
    } else if name.last() == '/' {
        Seq::empty()
    } else {
        last_part(name.drop_last()).push(name.last())
    }
}

/// A branch's name without its remote, e.g. `main` for `origin/main`.
pub fn short_base(base: &str) -> (r: String)
    ensures
        r@ == last_part(base@),
{
    let chars = chars_of(base);
    let n: usize = chars.len();
    let mut i: usize = n;
    assert(chars@.take(n as int) =~= chars@);
    assert(chars@.skip(n as int) =~= Seq::<char>::empty());
    while i > 0 && chars[i - 1] != '/'
        invariant
            i <= n,
            n == chars@.len(),
            last_part(chars@) == last_part(chars@.take(i as int)) + chars@.skip(i as int),
        decreases i,
    {
        assert(chars@.take(i as int).drop_last() =~= chars@.take(i - 1));
        assert(last_part(chars@.take(i as int)) + chars@.skip(i as int) =~= last_part(chars@.take(i - 1))
            + chars@.skip(i - 1));
        i = i - 1;
    }
    let tail = slice_subrange(chars.as_slice(), i, n);
    assert(tail@ =~= chars@.skip(i as int));
    assert(last_part(chars@.take(i as int)) =~= Seq::<char>::empty());
    assert(last_part(chars@) =~= tail@);
    string_of(tail)
}

/// How many bytes a character takes.
pub open spec fn char_bytes(c: char) -> int {
    if (c as u32) < 0x80 {
        1
    } else if (c as u32) < 0x800 {
        2
    } else if (c as u32) < 0x10000 {
        3
    } else {
        4
    }
}

/// How many characters take that many bytes.
pub open spec fn chars_in(s: Seq<char>, bytes: int) -> Option<int>
    decreases s.len(),
{
    if bytes == 0 {
        Some(0)
    } else if s.len() == 0 || bytes < 0 {
        None
    } else {
        match chars_in(s.drop_first(), bytes - char_bytes(s[0])) {
            Some(k) => Some(k + 1),
            None => None,
        }
    }
}

/// The start of a text, that many bytes long; all of it if it can't be cut there.
pub open spec fn first_bytes(s: Seq<char>, bytes: int) -> Seq<char> {
    match chars_in(s, bytes) {
        Some(k) => s.take(k),
        None => s,
    }
}

/// The start of a text, that many bytes long; all of it if it can't be cut there.
pub fn cut_bytes(s: &str, bytes: usize) -> (r: String)
    ensures
        r@ == first_bytes(s@, bytes as int),
{
    let chars = chars_of(s);
    let n: usize = chars.len();
    let mut left: usize = bytes;
    let mut i: usize = 0;
    assert(chars@.skip(0) =~= chars@);
    while i < n && left > 0
        invariant
            i <= n,
            n == chars@.len(),
            chars@ == s@,
            left <= bytes,
            chars_in(s@, bytes as int) == (match chars_in(s@.skip(i as int), left as int) {
                Some(k) => Some(k + i),
                None => None,
            }),
        decreases n - i,
    {
        assert(s@.skip(i as int)[0] == chars@[i as int]);
        assert(s@.skip(i as int).drop_first() =~= s@.skip(i + 1));
        let code: u32 = chars[i] as u32;
        let width: usize = if code < 0x80 {
            1
        } else if code < 0x800 {
            2
        } else if code < 0x10000 {
            3
        } else {
            4
        };
        if width > left {
            assert(chars_in(s@.skip(i + 1), left - width) is None);
            return s.to_owned();
        }
        left = left - width;
        i = i + 1;
    }
    if left > 0 {
        return s.to_owned();
    }
    let start = slice_subrange(chars.as_slice(), 0, i);
    assert(start@ =~= s@.take(i as int));
    string_of(start)
}

/// The main view's title.
pub open spec fn main_title_of(title: Seq<char>, active: bool) -> Seq<SpanView> {
    let start = color(
        color(blank(), "[0]"@, DIM),
        "─"@,
        if active {
            ACTIVE_BORDER
        } else {
            INACTIVE_BORDER
        },
    );
    if active {
        bold(start, title, ACTIVE_BORDER)
    } else {
        plain(start, title)
    }
}

/// The main view's title.
pub fn main_title(title: &str, active: bool) -> (r: Line)
    ensures
        r@ == main_title_of(title@, active),
{
    let mut line = Line::new();
    line.color("[0]", DIM);
    line.color(
        "─",
        if active {
            ACTIVE_BORDER
        } else {
            INACTIVE_BORDER
        },
    );
    if active {
        line.bold(title, ACTIVE_BORDER);
    } else {
        line.push(title);
    }
    line
}

/// Whether a text starts with another one.
pub open spec fn starts(s: Seq<char>, prefix: &str) -> bool {
    prefix@.is_prefix_of(s)
}

/// Whether a line of a diff is about the file, not its content.
pub open spec fn is_file_line(s: Seq<char>) -> bool {
    ||| starts(s, "index ")
    ||| starts(s, "new file")
    ||| starts(s, "deleted file")
    ||| starts(s, "similarity")
    ||| starts(s, "rename ")
    ||| starts(s, "old mode")
    ||| starts(s, "new mode")
    ||| starts(s, "Binary files")
}

/// Whether a word is one that starts a line of a commit's header.
pub open spec fn is_header_key(key: Seq<char>) -> bool {
    ||| key == "Author"@
    ||| key == "AuthorDate"@
    ||| key == "Commit"@
    ||| key == "CommitDate"@
    ||| key == "Merge"@
    ||| key == "Tagger"@
    ||| key == "Date"@
}

/// The pluses and minuses of a stat, in their colours.
pub open spec fn with_stat(line: Seq<SpanView>, stat: Seq<char>) -> Seq<SpanView>
    decreases stat.len(),
{
    if stat.len() == 0 {
        line
    } else {
        let before = with_stat(line, stat.drop_last());
        if stat.last() == '+' {
            color(before, "+"@, GREEN)
        } else if stat.last() == '-' {
            color(before, "-"@, RED)
        } else {
            plain(before, seq![stat.last()])
        }
    }
}

/// A line of a diff in its colours.
pub open spec fn diff_spans(s: Seq<char>) -> Seq<SpanView> {
    if starts(s, "+++") || starts(s, "---") || starts(s, "diff --git") {
        bold(blank(), s, FG)
    } else if starts(s, "+") {
        color(blank(), s, GREEN)
    } else if starts(s, "-") {
        color(blank(), s, RED)
    } else if starts(s, "@@") {
        color(blank(), s, CYAN)
    } else if starts(s, "commit ") || starts(s, "tag ") {
        color(blank(), s, YELLOW)
    } else if is_file_line(s) {
        color(blank(), s, DIM)
    } else {
        match split_once(s, ':') {
            Some((key, rest)) if is_header_key(key) => plain(color(blank(), key + ":"@, DIM), rest),
            _ => match split_once_sub(s, " | "@) {
                Some((file, stat)) => with_stat(plain(plain(blank(), file), " | "@), stat),
                None => plain(blank(), s),
            },
        }
    }
}

/// Whether a line of a diff is about the file, not its content.
fn about_file(s: &str) -> (r: bool)
    ensures
        r == is_file_line(s@),
{
    str_starts_with(s, "index ") || str_starts_with(s, "new file") || str_starts_with(s, "deleted file")
        || str_starts_with(s, "similarity") || str_starts_with(s, "rename ") || str_starts_with(s, "old mode")
        || str_starts_with(s, "new mode") || str_starts_with(s, "Binary files")
}

/// Whether a word is one that starts a line of a commit's header.
fn header_key(key: &[char]) -> (r: bool)
    ensures
        r == is_header_key(key@),
{
    is_text(key, "Author") || is_text(key, "AuthorDate") || is_text(key, "Commit") || is_text(key, "CommitDate")
        || is_text(key, "Merge") || is_text(key, "Tagger") || is_text(key, "Date")
}

/// Adds the pluses and minuses of a stat, in their colours.
fn push_stat(line: &mut Line, stat: &[char])
    ensures
        final(line)@ == with_stat(old(line)@, stat@),
{
    let ghost start = line@;
    let mut i: usize = 0;
    assert(stat@.take(0) =~= Seq::<char>::empty());
    while i < stat.len()
        invariant
            i <= stat@.len(),
            line@ == with_stat(start, stat@.take(i as int)),
        decreases stat@.len() - i,
    {
        let ghost next = stat@.take(i + 1);
        assert(next.drop_last() =~= stat@.take(i as int));
        assert(next.last() == stat@[i as int]);
        let c = stat[i];
        if c == '+' {
            line.color("+", GREEN);
        } else if c == '-' {
            line.color("-", RED);
        } else {
            let mut text = String::new();
            text.push(c);
            assert(text@ =~= seq![c]);
            line.push(text.as_str());
        }
        i = i + 1;
    }
    assert(stat@.take(stat@.len() as int) =~= stat@);
}

/// A line of a diff in its colours.
pub fn diff_line(s: &str) -> (r: Line)
    ensures
        r@ == diff_spans(s@),
{
    let mut line = Line::new();
    if str_starts_with(s, "+++") || str_starts_with(s, "---") || str_starts_with(s, "diff --git") {
        line.bold(s, FG);
    } else if str_starts_with(s, "+") {
        line.color(s, GREEN);
    } else if str_starts_with(s, "-") {
        line.color(s, RED);
    } else if str_starts_with(s, "@@") {
        line.color(s, CYAN);
    } else if str_starts_with(s, "commit ") || str_starts_with(s, "tag ") {
        line.color(s, YELLOW);
    } else if about_file(s) {
        line.color(s, DIM);
    } else {
        let chars = chars_of(s);
        if let Some((key, rest)) = split_first(chars.as_slice(), ':') {
            if header_key(key) {
                let name = string_of(key);
                let label = cat2(name.as_str(), ":");
                let value = string_of(rest);
                line.color(label.as_str(), DIM);
                line.push(value.as_str());
                return line;
            }
        }
        let bar = chars_of(" | ");
        match split_first_sub(chars.as_slice(), bar.as_slice()) {
            Some((file, stat)) => {
                let name = string_of(file);
                line.push(name.as_str());
                line.push(" | ");
                push_stat(&mut line, stat);
            },
            None => {
                line.push(s);
            },
        }
    }
    line
}

/// Whether a character is an ASCII letter or digit.
pub open spec fn is_alphanumeric(c: char) -> bool {
    '0' <= c <= '9' || 'a' <= c <= 'z' || 'A' <= c <= 'Z'
}

/// How many characters come before the first ASCII letter or digit.
pub open spec fn graph_len(s: Seq<char>) -> int
    decreases s.len(),
{
    if s.len() == 0 || is_alphanumeric(s[0]) {
        0
    } else {
        1 + graph_len(s.drop_first())
    }
}

/// Whether some characters are all hexadecimal digits.
pub open spec fn all_hex(s: Seq<char>) -> bool {
    forall|i: int| 0 <= i < s.len() ==> is_hex(#[trigger] s[i])
}

/// The part of a commit's line after its hash: the names of refs stand out.
pub open spec fn with_log_tail(line: Seq<SpanView>, tail: Seq<char>) -> Seq<SpanView> {
    match sub_index(tail, " ("@) {
        Some(ix) if ")"@.is_suffix_of(tail) => bold(color(line, tail.take(ix), DIM), tail.skip(ix), CYAN),
        _ => color(line, tail, DIM),
    }
}

/// A line of a graph log in its colours.
pub open spec fn log_spans(s: Seq<char>) -> Seq<SpanView> {
    let split = graph_len(s);
    let rest = s.skip(split);
    let line = color(blank(), s.take(split), MAGENTA);
    let hash = index_of(rest, ' ');
    if hash >= 7 && all_hex(rest.take(hash)) {
        with_log_tail(color(line, rest.take(hash), YELLOW), rest.skip(hash))
    } else {
        plain(line, rest)
    }
}

proof fn lemma_graph_len(s: Seq<char>)
    ensures
        0 <= graph_len(s) <= s.len(),
    decreases s.len(),
{
    if s.len() > 0 && !is_alphanumeric(s[0]) {
        lemma_graph_len(s.drop_first());
    }
}

/// How many characters come before the first ASCII letter or digit.
fn find_graph_end(s: &[char]) -> (r: usize)
    ensures
        r == graph_len(s@),
        r <= s@.len(),
{
    let mut i: usize = 0;
    assert(s@.skip(0) =~= s@);
    while i < s.len()
        invariant
            i <= s@.len(),
            graph_len(s@) == i + graph_len(s@.skip(i as int)),
        decreases s@.len() - i,
    {
        let c = s[i];
        assert(s@.skip(i as int)[0] == c);
        if ('0' <= c && c <= '9') || ('a' <= c && c <= 'z') || ('A' <= c && c <= 'Z') {
            return i;
        }
        assert(s@.skip(i as int).drop_first() =~= s@.skip(i + 1));
        i = i + 1;
    }
    i
}

/// Whether some characters are all hexadecimal digits.
fn is_all_hex(s: &[char]) -> (r: bool)
    ensures
        r == all_hex(s@),
{
    let mut i: usize = 0;
    while i < s.len()
        invariant
            i <= s@.len(),
            forall|j: int| 0 <= j < i ==> is_hex(#[trigger] s@[j]),
        decreases s@.len() - i,
    {
        let c = s[i];
        if !(('0' <= c && c <= '9') || ('a' <= c && c <= 'f') || ('A' <= c && c <= 'F')) {
            assert(!is_hex(s@[i as int]));
            return false;
        }
        i = i + 1;
    }
    true
}

/// Adds the part of a commit's line after its hash.
fn push_log_tail(line: &mut Line, tail: &[char])
    ensures
        final(line)@ == with_log_tail(old(line)@, tail@),
{
    let open = chars_of(" (");
    proof {
        lemma_sub_index(tail@, " ("@);
    }
    if let Some(ix) = find_sub(tail, open.as_slice()) {
        if chars_end_with(tail, ")") {
            let front = slice_subrange(tail, 0, ix);
            let back = slice_subrange(tail, ix, tail.len());
            assert(front@ =~= tail@.take(ix as int));
            assert(back@ =~= tail@.skip(ix as int));
            let date = string_of(front);
            let refs = string_of(back);
            line.color(date.as_str(), DIM);
            line.bold(refs.as_str(), CYAN);
            return;
        }
    }
    let text = string_of(tail);
    line.color(text.as_str(), DIM);
}

/// A line of a graph log in its colours.
pub fn log_line(s: &str) -> (r: Line)
    ensures
        r@ == log_spans(s@),
{
    let chars = chars_of(s);
    let n: usize = chars.len();
    let split: usize = find_graph_end(chars.as_slice());
    let graph = slice_subrange(chars.as_slice(), 0, split);
    let rest = slice_subrange(chars.as_slice(), split, n);
    assert(graph@ =~= s@.take(split as int));
    assert(rest@ =~= s@.skip(split as int));
    let mut line = Line::new();
    let text = string_of(graph);
    line.color(text.as_str(), MAGENTA);
    proof {
        lemma_index_of(rest@, ' ');
    }
    let hash: usize = match find(rest, ' ') {
        Some(i) => i,
        None => rest.len(),
    };
    if hash >= 7 {
        let id = slice_subrange(rest, 0, hash);
        assert(id@ =~= rest@.take(hash as int));
        if is_all_hex(id) {
            let tail = slice_subrange(rest, hash, rest.len());
            assert(tail@ =~= rest@.skip(hash as int));
            let text = string_of(id);
            line.color(text.as_str(), YELLOW);
            push_log_tail(&mut line, tail);
            return line;
        }
    }
    let text = string_of(rest);
    line.push(text.as_str());
    line
}

/// Whether a ref is one of a remote.
pub open spec fn of_remote(name: Seq<char>, remotes: Seq<Seq<char>>) -> bool {
    exists|i: int| 0 <= i < remotes.len() && (#[trigger] remotes[i] + "/"@).is_prefix_of(name)
}

/// How a ref of a commit is shown, if it is.
pub open spec fn shown_ref(name: Seq<char>, remotes: Seq<Seq<char>>) -> Option<Seq<char>> {
    if starts(name, "HEAD") {
        None
    } else {
        match crate::text::seqs::strip_prefix(name, "tag: "@) {
            Some(tag) => Some(tag),
            None => if of_remote(name, remotes) {
                None
            } else {
                Some(name)
            },
        }
    }
}

/// A commit's tags, and the other local branches there.
pub open spec fn refs_text(refs: Seq<char>, remotes: Seq<Seq<char>>) -> Seq<char> {
    join(filter_map(split_sub(refs, ", "@), |r: Seq<char>| shown_ref(r, remotes)), " "@)
}

/// Whether a ref is one of a remote.
fn is_of_remote(name: &[char], remotes: &Vec<String>) -> (r: bool)
    ensures
        r == of_remote(name@, texts(remotes@)),
{
    let ghost all = texts(remotes@);
    let mut i: usize = 0;
    while i < remotes.len()
        invariant
            i <= remotes@.len(),
            all == texts(remotes@),
            forall|j: int| 0 <= j < i ==> !(#[trigger] all[j] + "/"@).is_prefix_of(name@),
        decreases remotes@.len() - i,
    {
        assert(all[i as int] == remotes@[i as int]@);
        let prefix = cat2(remotes[i].as_str(), "/");
        if chars_start_with(name, prefix.as_str()) {
            return true;
        }
        i = i + 1;
    }
    false
}

/// `HEAD -> main, origin/main, tag: v1` → `v1` plus other local branch heads, like lazygit's
/// commit list (the checked-out branch and remote refs are left out).
pub fn compact_refs(refs: &str, remotes: &Vec<String>) -> (r: String)
    ensures
        r@ == refs_text(refs@, texts(remotes@)),
{
    let chars = chars_of(refs);
    let comma = chars_of(", ");
    proof {
        reveal_strlit(", ");
    }
    let parts = split_at_sub(chars.as_slice(), comma.as_slice());
    let ghost all = split_sub(refs@, ", "@);
    let ghost names = texts(remotes@);
    let ghost f = |r: Seq<char>| shown_ref(r, names);
    let mut out: Vec<String> = Vec::new();
    let mut i: usize = 0;
    assert(all.take(0) =~= Seq::<Seq<char>>::empty());
    assert(texts(out@) =~= Seq::<Seq<char>>::empty());
    while i < parts.len()
        invariant
            i <= parts@.len(),
            all == views(parts@),
            names == texts(remotes@),
            f == (|r: Seq<char>| shown_ref(r, names)),
            texts(out@) == filter_map(all.take(i as int), f),
        decreases parts@.len() - i,
    {
        proof {
            lemma_filter_map_step(all, f, i as int);
            assert(all[i as int] == parts@[i as int]@);
        }
        let part = parts[i];
        if !chars_start_with(part, "HEAD") {
            match after_text(part, "tag: ") {
                Some(tag) => {
                    push_string(&mut out, string_of(tag));
                },
                None => {
                    if !is_of_remote(part, remotes) {
                        push_string(&mut out, string_of(part));
                    }
                },
            }
        }
        i = i + 1;
    }
    assert(all.take(all.len() as int) =~= all);
    joined(&out, " ")
}

/// The first character of a word.
pub open spec fn first_char(word: Seq<char>) -> char {
    if word.len() > 0 {
        word[0]
    } else {
        ' '
    }
}

/// The first letters of an author's first and last names; of a single name, its first two.
pub open spec fn initial_chars(author: Seq<char>) -> (char, char) {
    let ws = words(author);
    (
        if ws.len() > 0 {
            first_char(ws[0])
        } else {
            ' '
        },
        if ws.len() > 1 {
            first_char(ws.last())
        } else if author.len() > 1 {
            author[1]
        } else {
            ' '
        },
    )
}

/// The first letters of an author's first and last names; of a single name, its first two.
pub fn initial_letters(author: &str) -> (r: (char, char))
    ensures
        r == initial_chars(author@),
{
    let chars = chars_of(author);
    let ws = split_words(chars.as_slice());
    let n: usize = ws.len();
    assert(views(ws@).len() == ws@.len());
    let first = if n > 0 {
        assert(views(ws@)[0] == ws@[0]@);
        if ws[0].len() > 0 {
            ws[0][0]
        } else {
            ' '
        }
    } else {
        ' '
    };
    let second = if n > 1 {
        assert(views(ws@).last() == ws@[n - 1]@);
        if ws[n - 1].len() > 0 {
            ws[n - 1][0]
        } else {
            ' '
        }
    } else if chars.len() > 1 {
        chars[1]
    } else {
        ' '
    };
    (first, second)
}

/// An author's initials.
pub open spec fn initials_text(author: Seq<char>) -> Seq<char> {
    uppercase(seq![initial_chars(author).0, initial_chars(author).1])
}

/// An author's initials.
pub fn initials(author: &str) -> (r: String)
    ensures
        r@ == initials_text(author@),
{
    let (first, second) = initial_letters(author);
    let mut text = String::new();
    text.push(first);
    text.push(second);
    assert(text@ =~= seq![first, second]);
    to_upper(text.as_str())
}

/// A number made of some bytes.
pub open spec fn hash_of(bytes: Seq<u8>) -> nat
    decreases bytes.len(),
{
    if bytes.len() == 0 {
        0
    } else {
        (hash_of(bytes.drop_last()) * 31 + bytes.last() as nat) % 0x1_0000_0000
    }
}

/// The colour that an author has.
pub open spec fn color_of_author(author: Seq<char>) -> Color {
    let k = hash_of(vstd::utf8::encode_utf8(author)) % 5;
    if k == 0 {
        CYAN
    } else if k == 1 {
        MAGENTA
    } else if k == 2 {
        YELLOW
    } else if k == 3 {
        BLUE
    } else {
        GREEN
    }
}

/// The colour that an author has: always the same one.
pub fn author_color(author: &str) -> (r: Color)
    ensures
        r == color_of_author(author@),
{
    let bytes = bytes_of(author);
    let mut hash: u64 = 0;
    let mut i: usize = 0;
    assert(bytes@.take(0) =~= Seq::<u8>::empty());
    while i < bytes.len()
        invariant
            i <= bytes@.len(),
            hash < 0x1_0000_0000,
            hash == hash_of(bytes@.take(i as int)),
        decreases bytes@.len() - i,
    {
        let ghost next = bytes@.take(i + 1);
        assert(next.drop_last() =~= bytes@.take(i as int));
        assert(next.last() == bytes@[i as int]);
        hash = (hash * 31 + bytes[i] as u64) % 0x1_0000_0000;
        i = i + 1;
    }
    assert(bytes@.take(bytes@.len() as int) =~= bytes@);
    let k: u64 = hash % 5;
    if k == 0 {
        CYAN
    } else if k == 1 {
        MAGENTA
    } else if k == 2 {
        YELLOW
    } else if k == 3 {
        BLUE
    } else {
        GREEN
    }
}

proof fn lemma_with_text(line: Seq<SpanView>, text: Seq<char>, style: Style)
    ensures
        line_text(with(line, text, style)) == line_text(line) + text,
{
    let next = with(line, text, style);
    if text.len() == 0 {
        assert(line_text(line) + text =~= line_text(line));
    } else {
        assert(next.drop_last() =~= line);
    }
}

proof fn lemma_stat_text(line: Seq<SpanView>, stat: Seq<char>)
    ensures
        line_text(with_stat(line, stat)) == line_text(line) + stat,
    decreases stat.len(),
{
    if stat.len() == 0 {
        assert(line_text(line) + stat =~= line_text(line));
    } else {
        let before = with_stat(line, stat.drop_last());
        lemma_stat_text(line, stat.drop_last());
        reveal_strlit("+");
        reveal_strlit("-");
        assert("+"@ =~= seq!['+']);
        assert("-"@ =~= seq!['-']);
        lemma_with_text(before, "+"@, Style::Color(GREEN));
        lemma_with_text(before, "-"@, Style::Color(RED));
        lemma_with_text(before, seq![stat.last()], Style::Plain);
        assert(line_text(line) + stat.drop_last() + seq![stat.last()] =~= line_text(line) + stat);
    }
}

proof fn lemma_header_text(s: Seq<char>)
    requires
        split_once(s, ':') is Some,
    ensures
        ({
            let (key, rest) = split_once(s, ':')->0;
            line_text(plain(color(blank(), key + ":"@, DIM), rest)) == s
        }),
{
    let (key, rest) = split_once(s, ':')->0;
    lemma_index_of(s, ':');
    reveal_strlit(":");
    lemma_with_text(blank(), key + ":"@, Style::Color(DIM));
    lemma_with_text(color(blank(), key + ":"@, DIM), rest, Style::Plain);
    assert(Seq::<char>::empty() + (key + ":"@) + rest =~= s);
}

proof fn lemma_file_stat_text(s: Seq<char>)
    requires
        split_once_sub(s, " | "@) is Some,
    ensures
        ({
            let (file, stat) = split_once_sub(s, " | "@)->0;
            line_text(with_stat(plain(plain(blank(), file), " | "@), stat)) == s
        }),
{
    let (file, stat) = split_once_sub(s, " | "@)->0;
    lemma_sub_index(s, " | "@);
    lemma_with_text(blank(), file, Style::Plain);
    lemma_with_text(plain(blank(), file), " | "@, Style::Plain);
    lemma_stat_text(plain(plain(blank(), file), " | "@), stat);
    assert(Seq::<char>::empty() + file + " | "@ + stat =~= s);
}

/// A line of one span has that span's text.
proof fn lemma_one_span(s: Seq<char>, style: Style)
    ensures
        line_text(with(blank(), s, style)) == s,
{
    lemma_with_text(blank(), s, style);
    assert(Seq::<char>::empty() + s =~= s);
}

/// Colouring a line of a diff doesn't change its text.
pub proof fn law_diff_colours_keep_the_text(s: Seq<char>)
    ensures
        line_text(diff_spans(s)) == s,
{
    lemma_one_span(s, Style::Bold(FG));
    lemma_one_span(s, Style::Color(GREEN));
    lemma_one_span(s, Style::Color(RED));
    lemma_one_span(s, Style::Color(CYAN));
    lemma_one_span(s, Style::Color(YELLOW));
    lemma_one_span(s, Style::Color(DIM));
    lemma_one_span(s, Style::Plain);
    if split_once(s, ':') is Some {
        lemma_header_text(s);
    }
    if split_once_sub(s, " | "@) is Some {
        lemma_file_stat_text(s);
    }
}

/// Colouring a line of a log doesn't change its text.
pub proof fn law_log_colours_keep_the_text(s: Seq<char>)
    ensures
        line_text(log_spans(s)) == s,
{
    let split = graph_len(s);
    lemma_graph_len(s);
    let graph = s.take(split);
    let rest = s.skip(split);
    let line = color(blank(), graph, MAGENTA);
    assert(line_text(blank()) =~= Seq::<char>::empty());
    lemma_with_text(blank(), graph, Style::Color(MAGENTA));
    let hash = index_of(rest, ' ');
    lemma_index_of(rest, ' ');
    let id = rest.take(hash);
    let tail = rest.skip(hash);
    let named = color(line, id, YELLOW);
    lemma_with_text(line, id, Style::Color(YELLOW));
    lemma_with_text(named, tail, Style::Color(DIM));
    lemma_with_text(line, rest, Style::Plain);
    lemma_sub_index(tail, " ("@);
    if let Some(ix) = sub_index(tail, " ("@) {
        lemma_with_text(named, tail.take(ix), Style::Color(DIM));
        lemma_with_text(color(named, tail.take(ix), DIM), tail.skip(ix), Style::Bold(CYAN));
        assert(Seq::<char>::empty() + graph + id + tail.take(ix) + tail.skip(ix) =~= s);
    }
    assert(Seq::<char>::empty() + graph + id + tail =~= s);
    assert(Seq::<char>::empty() + graph + rest =~= s);
}

} // verus!
