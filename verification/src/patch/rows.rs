//! A patch line by line, and how its text is read again.

use vstd::prelude::*;
use vstd::utf8::is_ascii_chars_encode_utf8;

use crate::patch::diff::{begins, diff_lines, hunk_body_end, hunk_header, is_marker, markers_end, range_of};
use crate::patch::selection::{at_line, lemma_push, new_side, old_side, range_text, render_all, start_of, Written};
use crate::text::ascii::{AT, BACKSLASH, COMMA, MINUS, NEWLINE, PLUS, SPACE};
use crate::text::number::{decimal_bytes, is_digit, law_read_of_written_bytes, lemma_decimal_bytes_value};
use crate::text::seqs::{lemma_index_of_is, lemma_sub_index_is, occurs_at, split, split_once_sub};
use crate::text::strings::utf8;

verus! {

/// A line as it is written, without its line ending.
pub open spec fn row(w: Written) -> Seq<u8> {
    seq![w.kind] + w.text
}

/// Lines as they are written, without their line endings.
pub open spec fn rows(ws: Seq<Written>) -> Seq<Seq<u8>> {
    ws.map_values(|w: Written| row(w))
}

/// Lines with their line endings.
pub open spec fn text_of(ls: Seq<Seq<u8>>) -> Seq<u8>
    decreases ls.len(),
{
    if ls.len() == 0 {
        Seq::empty()
    } else {
        text_of(ls.drop_last()) + ls.last().push(NEWLINE)
    }
}

/// Whether no line holds a line feed.
pub open spec fn one_line_each(ls: Seq<Seq<u8>>) -> bool {
    forall|i: int| 0 <= i < ls.len() ==> !(#[trigger] ls[i]).contains(NEWLINE)
}

pub proof fn lemma_text_of_add(a: Seq<Seq<u8>>, b: Seq<Seq<u8>>)
    ensures
        text_of(a + b) == text_of(a) + text_of(b),
    decreases b.len(),
{
    if b.len() == 0 {
        assert(a + b =~= a);
    } else {
        lemma_text_of_add(a, b.drop_last());
        assert((a + b).drop_last() =~= a + b.drop_last());
        assert((a + b).last() == b.last());
        assert(text_of(a + b) =~= text_of(a) + text_of(b));
    }
}

pub proof fn lemma_text_of_one(l: Seq<u8>)
    ensures
        text_of(seq![l]) == l.push(NEWLINE),
{
    assert(seq![l].drop_last() =~= Seq::<Seq<u8>>::empty());
    assert(text_of(Seq::<Seq<u8>>::empty()) =~= Seq::<u8>::empty());
    assert(text_of(seq![l]) =~= l.push(NEWLINE));
}

/// Lines that were written are read again.
pub proof fn lemma_lines_of_text(ls: Seq<Seq<u8>>)
    requires
        one_line_each(ls),
    ensures
        diff_lines(text_of(ls)) == ls,
{
    lemma_split_of_text(ls);
    assert(ls.push(Seq::<u8>::empty()).drop_last() =~= ls);
}

proof fn lemma_split_of_text(ls: Seq<Seq<u8>>)
    requires
        one_line_each(ls),
    ensures
        split(text_of(ls), NEWLINE) == ls.push(Seq::<u8>::empty()),
    decreases ls.len(),
{
    let text = text_of(ls);
    if ls.len() == 0 {
        lemma_index_of_is(text, NEWLINE, 0);
        assert(split(text, NEWLINE) =~= ls.push(Seq::<u8>::empty()));
    } else {
        let first = ls[0];
        let rest = ls.drop_first();
        assert(ls =~= seq![first] + rest);
        lemma_text_of_add(seq![first], rest);
        lemma_text_of_one(first);
        assert(!first.contains(NEWLINE));
        assert forall|i: int| 0 <= i < first.len() implies text[i] != NEWLINE by {
            assert(text[i] == first[i]);
        }
        assert(text[first.len() as int] == NEWLINE);
        lemma_index_of_is(text, NEWLINE, first.len() as int);
        assert(text.take(first.len() as int) =~= first);
        assert(text.skip(first.len() as int + 1) =~= text_of(rest));
        assert forall|i: int| 0 <= i < rest.len() implies !(#[trigger] rest[i]).contains(NEWLINE) by {
            assert(rest[i] == ls[i + 1]);
        }
        lemma_split_of_text(rest);
        assert(split(text, NEWLINE) =~= ls.push(Seq::<u8>::empty()));
    }
}

pub proof fn lemma_render_all(ws: Seq<Written>)
    ensures
        render_all(ws) == text_of(rows(ws)),
    decreases ws.len(),
{
    if ws.len() > 0 {
        lemma_render_all(ws.drop_last());
        assert(rows(ws).drop_last() =~= rows(ws.drop_last()));
        assert(rows(ws).last() == row(ws.last()));
        assert(ws.last().render() =~= row(ws.last()).push(NEWLINE));
    } else {
        assert(rows(ws) =~= Seq::<Seq<u8>>::empty());
    }
}

/// The bytes that hunk headers are made of.
pub proof fn lemma_at_bytes()
    ensures
        utf8("@@ -") == seq![AT, AT, SPACE, MINUS],
        utf8(" @@") == seq![SPACE, AT, AT],
        utf8(" +") == seq![SPACE, PLUS],
        utf8("@@ ") == seq![AT, AT, SPACE],
{
    reveal_strlit("@@ -");
    reveal_strlit(" @@");
    reveal_strlit(" +");
    reveal_strlit("@@ ");
    is_ascii_chars_encode_utf8("@@ -"@);
    is_ascii_chars_encode_utf8(" @@"@);
    is_ascii_chars_encode_utf8(" +"@);
    is_ascii_chars_encode_utf8("@@ "@);
    assert(utf8("@@ -") =~= seq![AT, AT, SPACE, MINUS]);
    assert(utf8(" @@") =~= seq![SPACE, AT, AT]);
    assert(utf8(" +") =~= seq![SPACE, PLUS]);
    assert(utf8("@@ ") =~= seq![AT, AT, SPACE]);
}

/// Whether a number is one that a hunk's header can give.
pub open spec fn header_number(n: int) -> bool {
    0 <= n <= u32::MAX
}

/// A byte of a range in a hunk's header.
spec fn range_byte(b: u8) -> bool {
    is_digit(b) || b == COMMA
}

proof fn lemma_range_text(first: int, count: int)
    requires
        header_number(start_of(first, count)),
        header_number(count),
    ensures
        range_of(range_text(first, count)) == Some((start_of(first, count) as nat, count as nat)),
        forall|i: int|
            0 <= i < range_text(first, count).len() ==> range_byte(#[trigger] range_text(first, count)[i]),
{
    let start = decimal_bytes(start_of(first, count) as nat);
    let number = decimal_bytes(count as nat);
    let text = range_text(first, count);
    lemma_decimal_bytes_value(start_of(first, count) as nat);
    lemma_decimal_bytes_value(count as nat);
    assert(text =~= start + seq![COMMA] + number);
    assert forall|i: int| 0 <= i < text.len() implies range_byte(#[trigger] text[i]) by {
        if i < start.len() {
            assert(text[i] == start[i]);
            assert(is_digit(start[i]));
        } else if i > start.len() {
            assert(text[i] == number[i - start.len() - 1]);
            assert(is_digit(number[i - start.len() - 1]));
        }
    }
    assert forall|i: int| 0 <= i < start.len() implies text[i] != COMMA by {
        assert(is_digit(start[i]));
    }
    lemma_index_of_is(text, COMMA, start.len() as int);
    assert(text.take(start.len() as int) =~= start);
    assert(text.skip(start.len() as int + 1) =~= number);
    law_read_of_written_bytes(start_of(first, count) as nat, u32::MAX as nat);
    law_read_of_written_bytes(count as nat, u32::MAX as nat);
}

/// Whether a text is made of the bytes of a range.
spec fn range_bytes(s: Seq<u8>) -> bool {
    forall|i: int| 0 <= i < s.len() ==> range_byte(#[trigger] s[i])
}

/// Where two ranges part.
proof fn lemma_ranges_part(o: Seq<u8>, n: Seq<u8>)
    requires
        range_bytes(o),
    ensures
        split_once_sub(o + seq![SPACE, PLUS] + n, seq![SPACE, PLUS]) == Some((o, n)),
{
    let plus = seq![SPACE, PLUS];
    let ranges = o + plus + n;
    let cut = o.len() as int;
    assert(ranges.subrange(cut, cut + 2) =~= plus);
    assert forall|j: int| 0 <= j < cut implies !occurs_at(ranges, plus, j) by {
        if occurs_at(ranges, plus, j) {
            assert(ranges.subrange(j, j + 2)[0] == ranges[j]);
            assert(ranges[j] == o[j]);
            assert(range_byte(o[j]));
        }
    }
    lemma_sub_index_is(ranges, plus, cut);
    assert(ranges.take(cut) =~= o);
    assert(ranges.skip(cut + 2) =~= n);
}

/// Where the ranges end.
proof fn lemma_ranges_end(o: Seq<u8>, n: Seq<u8>, heading: Seq<u8>)
    requires
        range_bytes(o),
        range_bytes(n),
    ensures
        split_once_sub(o + seq![SPACE, PLUS] + n + seq![SPACE, AT, AT] + heading, seq![SPACE, AT, AT])
            == Some((o + seq![SPACE, PLUS] + n, heading)),
{
    let ranges = o + seq![SPACE, PLUS] + n;
    let stop = seq![SPACE, AT, AT];
    let rest = ranges + stop + heading;
    let close = ranges.len() as int;
    assert(rest.subrange(close, close + 3) =~= stop);
    assert forall|j: int| 0 <= j < close implies !occurs_at(rest, stop, j) by {
        if occurs_at(rest, stop, j) {
            let found = rest.subrange(j, j + 3);
            assert(found[0] == rest[j]);
            assert(found[1] == rest[j + 1]);
            assert(rest[j] == ranges[j]);
            if j < o.len() {
                assert(ranges[j] == o[j]);
                assert(range_byte(o[j]));
            } else if j == o.len() {
                assert(rest[j + 1] == ranges[j + 1]);
                assert(ranges[j + 1] == PLUS);
            } else if j == o.len() + 1 {
                assert(ranges[j] == PLUS);
            } else {
                assert(ranges[j] == n[j - o.len() - 2]);
                assert(range_byte(n[j - o.len() - 2]));
            }
        }
    }
    lemma_sub_index_is(rest, stop, close);
    assert(rest.take(close) =~= ranges);
    assert(rest.skip(close + 3) =~= heading);
}

/// Nothing that a header is made of holds a line feed, unless its heading does.
proof fn lemma_header_is_one_line(o: Seq<u8>, n: Seq<u8>, heading: Seq<u8>)
    requires
        range_bytes(o),
        range_bytes(n),
        !heading.contains(NEWLINE),
    ensures
        !(seq![AT, AT, SPACE, MINUS] + o + seq![SPACE, PLUS] + n + seq![SPACE, AT, AT] + heading).contains(NEWLINE),
{
    let start = seq![AT, AT, SPACE, MINUS];
    let a = start + o;
    let b = a + seq![SPACE, PLUS];
    let c = b + n;
    let d = c + seq![SPACE, AT, AT];
    let line = d + heading;
    assert forall|i: int| 0 <= i < line.len() implies line[i] != NEWLINE by {
        if i < a.len() {
            assert(line[i] == a[i]);
            if i >= start.len() {
                assert(a[i] == o[i - 4]);
                assert(range_byte(o[i - 4]));
            }
        } else if i < b.len() {
            assert(line[i] == b[i]);
        } else if i < c.len() {
            assert(line[i] == c[i]);
            assert(c[i] == n[i - b.len()]);
            assert(range_byte(n[i - b.len()]));
        } else if i < d.len() {
            assert(line[i] == d[i]);
        } else {
            assert(line[i] == heading[i - d.len()]);
        }
    }
}

/// A hunk's header that was written is read again.
pub proof fn lemma_header_is_read(old_first: int, old: int, new_first: int, new: int, heading: Seq<u8>)
    requires
        header_number(start_of(old_first, old)),
        header_number(old),
        header_number(start_of(new_first, new)),
        header_number(new),
    ensures
        ({
            let line = at_line(old_first, old, new_first, new, heading).drop_last();
            &&& hunk_header(line) == Some(
                (
                    (start_of(old_first, old) as nat, old as nat),
                    (start_of(new_first, new) as nat, new as nat),
                    heading,
                ),
            )
            &&& line.len() > 0 && line[0] == AT
            &&& begins(line, "@@ ")
            &&& line.push(NEWLINE) == at_line(old_first, old, new_first, new, heading)
            &&& !heading.contains(NEWLINE) ==> !line.contains(NEWLINE)
        }),
{
    lemma_at_bytes();
    lemma_range_text(old_first, old);
    lemma_range_text(new_first, new);
    let o = range_text(old_first, old);
    let n = range_text(new_first, new);
    let line = at_line(old_first, old, new_first, new, heading).drop_last();
    let rest = o + seq![SPACE, PLUS] + n + seq![SPACE, AT, AT] + heading;
    assert(line =~= seq![AT, AT, SPACE, MINUS] + rest);
    assert(line.push(NEWLINE) =~= at_line(old_first, old, new_first, new, heading));
    assert(line.skip(4) =~= rest);
    assert(seq![AT, AT, SPACE, MINUS].is_prefix_of(line));
    assert(seq![AT, AT, SPACE].is_prefix_of(line));
    lemma_ranges_end(o, n, heading);
    lemma_ranges_part(o, n);
    if !heading.contains(NEWLINE) {
        lemma_header_is_one_line(o, n, heading);
        assert(line =~= seq![AT, AT, SPACE, MINUS] + o + seq![SPACE, PLUS] + n + seq![SPACE, AT, AT] + heading);
    }
}

/// Whether lines are written as those of a hunk are.
pub open spec fn plain_kinds(ws: Seq<Written>) -> bool {
    forall|i: int|
        0 <= i < ws.len() ==> {
            ||| (#[trigger] ws[i]).kind == SPACE
            ||| ws[i].kind == PLUS
            ||| ws[i].kind == MINUS
            ||| ws[i].kind == BACKSLASH
        }
}

/// A hunk's lines that were written are read again, to the last.
pub proof fn lemma_body_is_read(lines: Seq<Seq<u8>>, at: int, ws: Seq<Written>, i: int)
    requires
        0 <= at,
        0 <= i <= ws.len(),
        at + ws.len() <= lines.len(),
        forall|j: int| 0 <= j < ws.len() ==> #[trigger] lines[at + j] == row(ws[j]),
        plain_kinds(ws),
        at + ws.len() < lines.len() ==> !is_marker(lines[at + ws.len()]),
    ensures
        ({
            let old = old_side(ws).len() - old_side(ws.take(i)).len();
            let new = new_side(ws).len() - new_side(ws.take(i)).len();
            &&& 0 <= old
            &&& 0 <= new
            &&& hunk_body_end(lines, at + i, old as nat, new as nat) matches Some(e) && markers_end(lines, e)
                == at + ws.len()
        }),
    decreases ws.len() - i,
{
    if i == ws.len() {
        assert(ws.take(i) =~= ws);
    } else {
        lemma_body_is_read(lines, at, ws, i + 1);
        let w = ws[i];
        assert(ws.take(i + 1) =~= ws.take(i).push(w));
        lemma_push(ws.take(i), w);
        let line = lines[at + i];
        assert(line == row(w));
        assert(line[0] == w.kind);
    }
}

} // verus!
