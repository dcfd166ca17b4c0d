//! The lines of a diff and the lines that are shown for it.

use vstd::prelude::*;
use vstd::slice::slice_subrange;
use vstd::utf8::{decode_utf8, valid_utf8};

use crate::patch::diff::diff_lines;
use crate::text::ascii::NEWLINE;
use crate::text::decode::{decoded, law_split_of_decoded};
use crate::text::outside::{lossy_text, text_lossy};
use crate::text::seqs::{index_of, lemma_index_of, lemma_split_not_empty, split, split_at, views};
use crate::text::strings::{chars_of, lines, push_string, string_of, strip_cr, texts};

verus! {

/// A line without the carriage return of its line ending, if it has one.
pub open spec fn ended_line(line: Seq<char>, ended: bool) -> Seq<char> {
    if ended {
        strip_cr(line)
    } else {
        line
    }
}

/// The text of a line of a diff.
pub open spec fn text_of_line(line: Seq<u8>) -> Seq<char> {
    if line.len() == 0 {
        Seq::empty()
    } else {
        lossy_text(line)
    }
}

/// Whether a line of a diff has a line ending: only the last may have none.
pub open spec fn is_ended(diff: Seq<u8>, i: int) -> bool {
    i + 1 < split(diff, NEWLINE).len()
}

/// The texts of the lines of a diff: one for each.
pub open spec fn diff_texts(diff: Seq<u8>) -> Seq<Seq<char>> {
    Seq::new(
        diff_lines(diff).len(),
        |i: int| ended_line(text_of_line(diff_lines(diff)[i]), is_ended(diff, i)),
    )
}

/// The lines of a text by its pieces between line feeds.
proof fn lemma_lines_by_pieces(s: Seq<char>)
    ensures
        ({
            let pieces = split(s, '\n');
            let n = if pieces.last().len() == 0 {
                pieces.len() - 1
            } else {
                pieces.len() as int
            };
            &&& pieces.len() >= 1
            &&& lines(s).len() == n
            &&& forall|i: int| 0 <= i < n ==> #[trigger] lines(s)[i] == ended_line(pieces[i], i + 1 < pieces.len())
        }),
    decreases s.len(),
{
    let at = index_of(s, '\n');
    lemma_index_of(s, '\n');
    lemma_split_not_empty(s, '\n');
    if s.len() > 0 && at < s.len() {
        let rest = s.skip(at + 1);
        lemma_lines_by_pieces(rest);
        lemma_split_not_empty(rest, '\n');
        let pieces = split(s, '\n');
        let more = split(rest, '\n');
        assert(pieces =~= seq![s.take(at)] + more);
        assert(pieces.last() == more.last());
        assert(lines(s) =~= seq![strip_cr(s.take(at))] + lines(rest));
        assert forall|i: int| 0 <= i < lines(s).len() implies #[trigger] lines(s)[i] == ended_line(
            pieces[i],
            i + 1 < pieces.len(),
        ) by {
            if i > 0 {
                assert(lines(s)[i] == lines(rest)[i - 1]);
                assert(pieces[i] == more[i - 1]);
            }
        }
    }
}

/// The line numbers of a diff that is UTF-8 are those of its text: it has as many lines as
/// the text, and each is the line of the text at the same place, but for the carriage return
/// of a line ending.
pub proof fn law_patch_lines_are_the_text_lines(diff: Seq<u8>)
    requires
        valid_utf8(diff),
    ensures
        diff_lines(diff).len() == lines(decode_utf8(diff)).len(),
        forall|i: int|
            0 <= i < diff_lines(diff).len() ==> valid_utf8(#[trigger] diff_lines(diff)[i]) && lines(decode_utf8(diff))[i]
                == ended_line(decode_utf8(diff_lines(diff)[i]), is_ended(diff, i)),
{
    let pieces = split(diff, NEWLINE);
    let text = decode_utf8(diff);
    law_split_of_decoded(diff, NEWLINE);
    lemma_split_not_empty(diff, NEWLINE);
    lemma_lines_by_pieces(text);
    assert(split(text, '\n') == decoded(pieces));
    assert(decoded(pieces).last() == decode_utf8(pieces.last()));
    assert(valid_utf8(pieces[pieces.len() - 1]));
    assert((decode_utf8(pieces.last()).len() == 0) == (pieces.last().len() == 0));
    assert forall|i: int| 0 <= i < diff_lines(diff).len() implies valid_utf8(#[trigger] diff_lines(diff)[i]) && lines(
        text,
    )[i] == ended_line(decode_utf8(diff_lines(diff)[i]), is_ended(diff, i)) by {
        assert(diff_lines(diff)[i] == pieces[i]);
        assert(decoded(pieces)[i] == decode_utf8(pieces[i]));
        assert(lines(text)[i] == ended_line(split(text, '\n')[i], i + 1 < split(text, '\n').len()));
    }
}

/// The text of a line of a diff, without the carriage return of its line ending.
fn read_line(line: &[u8], ended: bool) -> (r: String)
    ensures
        r@ == ended_line(text_of_line(line@), ended),
        valid_utf8(line@) ==> r@ == ended_line(decode_utf8(line@), ended),
{
    if line.len() == 0 {
        let none = String::new();
        assert(none@ =~= Seq::<char>::empty());
        return none;
    }
    let text = text_lossy(line);
    let chars = chars_of(text.as_str());
    let n: usize = chars.len();
    if ended && n > 0 && chars[n - 1] == '\r' {
        let kept = slice_subrange(chars.as_slice(), 0, n - 1);
        assert(kept@ =~= text@.drop_last());
        string_of(kept)
    } else {
        text
    }
}

/// The texts of the lines of a diff. Those of UTF-8 are the lines of its text.
pub fn read_lines(diff: &[u8]) -> (r: Vec<String>)
    ensures
        texts(r@) == diff_texts(diff@),
        valid_utf8(diff@) ==> texts(r@) == lines(decode_utf8(diff@)),
{
    let pieces = split_at(diff, NEWLINE);
    let ghost all = split(diff@, NEWLINE);
    let ghost want = diff_texts(diff@);
    proof {
        lemma_split_not_empty(diff@, NEWLINE);
        if valid_utf8(diff@) {
            law_patch_lines_are_the_text_lines(diff@);
        }
    }
    let total: usize = pieces.len();
    assert(all.last() == pieces@[total - 1]@);
    let n: usize = if pieces[total - 1].len() == 0 {
        total - 1
    } else {
        total
    };
    assert(want.len() == n);
    let mut out: Vec<String> = Vec::new();
    assert(texts(out@) =~= want.take(0));
    let mut i: usize = 0;
    while i < n
        invariant
            i <= n <= total,
            total == pieces@.len(),
            n == diff_lines(diff@).len(),
            all == views(pieces@),
            all == split(diff@, NEWLINE),
            want == diff_texts(diff@),
            texts(out@) == want.take(i as int),
            valid_utf8(diff@) ==> diff_lines(diff@).len() == lines(decode_utf8(diff@)).len() && forall|k: int|
                0 <= k < n ==> valid_utf8(#[trigger] diff_lines(diff@)[k]) && lines(decode_utf8(diff@))[k] == ended_line(
                    decode_utf8(diff_lines(diff@)[k]),
                    is_ended(diff@, k),
                ),
            valid_utf8(diff@) ==> texts(out@) == lines(decode_utf8(diff@)).take(i as int),
        decreases n - i,
    {
        assert(all[i as int] == pieces@[i as int]@);
        assert(diff_lines(diff@)[i as int] == all[i as int]);
        let line = read_line(pieces[i], i + 1 < total);
        assert(want.take(i + 1) =~= want.take(i as int).push(line@));
        assert(valid_utf8(diff@) ==> lines(decode_utf8(diff@)).take(i + 1) =~= lines(decode_utf8(diff@)).take(
            i as int,
        ).push(line@));
        push_string(&mut out, line);
        i = i + 1;
    }
    assert(want.take(n as int) =~= want);
    assert(valid_utf8(diff@) ==> lines(decode_utf8(diff@)).take(n as int) =~= lines(decode_utf8(diff@)));
    out
}

} // verus!
