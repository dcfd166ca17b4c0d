//! How texts are taken apart: into lines, words, pieces and numbers.

use vstd::prelude::*;

use crate::text::number::{
    decimal, is_digit, law_read_of_written_number, lemma_decimal_value, parse_u32, parse_u64,
};
use crate::text::seqs::{
    filter_map, index_of, join, law_split_of_joined, lemma_index_of, lemma_index_of_is, lemma_join_cons, split,
    split_once,
};
use crate::text::strings::{is_space, lines, pad_left, pad_right, strip_cr, trim, trim_end, trim_start, word_len, words};

verus! {

/// Whether a text is nothing but white space.
pub open spec fn all_space(s: Seq<char>) -> bool {
    forall|i: int| 0 <= i < s.len() ==> is_space(#[trigger] s[i])
}

/// Whether a text has no white space in it.
pub open spec fn no_space(s: Seq<char>) -> bool {
    forall|i: int| 0 <= i < s.len() ==> !is_space(#[trigger] s[i])
}

proof fn lemma_trim_start(s: Seq<char>)
    ensures
        trim_start(s).len() <= s.len(),
        all_space(s.take(s.len() - trim_start(s).len())),
        s.skip(s.len() - trim_start(s).len()) == trim_start(s),
        trim_start(s).len() > 0 ==> !is_space(trim_start(s)[0]),
    decreases s.len(),
{
    if s.len() > 0 && is_space(s[0]) {
        let rest = s.drop_first();
        lemma_trim_start(rest);
        let n = s.len() - trim_start(s).len();
        assert(s.skip(n) =~= rest.skip(n - 1));
        assert forall|i: int| 0 <= i < s.take(n).len() implies is_space(#[trigger] s.take(n)[i]) by {
            if i > 0 {
                assert(rest.take(n - 1)[i - 1] == s.take(n)[i]);
            }
        }
    } else {
        assert(s.skip(0) =~= s);
    }
}

proof fn lemma_trim_end(s: Seq<char>)
    ensures
        trim_end(s).len() <= s.len(),
        s.take(trim_end(s).len() as int) == trim_end(s),
        all_space(s.skip(trim_end(s).len() as int)),
        trim_end(s).len() > 0 ==> !is_space(trim_end(s).last()),
    decreases s.len(),
{
    if s.len() > 0 && is_space(s.last()) {
        let rest = s.drop_last();
        lemma_trim_end(rest);
        let n = trim_end(s).len() as int;
        assert(s.take(n) =~= rest.take(n));
        assert forall|i: int| 0 <= i < s.skip(n).len() implies is_space(#[trigger] s.skip(n)[i]) by {
            if n + i < rest.len() {
                assert(rest.skip(n)[i] == s.skip(n)[i]);
            }
        }
    } else {
        assert(s.take(s.len() as int) =~= s);
    }
}

/// Trimming takes white space off both ends, all of it and nothing else.
pub proof fn law_trimming_takes_white_space(s: Seq<char>)
    ensures
        exists|a: Seq<char>, b: Seq<char>|
            s == #[trigger] (a + trim(s) + b) && all_space(a) && all_space(b),
        trim(s).len() > 0 ==> !is_space(trim(s)[0]) && !is_space(trim(s).last()),
        trim(s).len() == 0 ==> all_space(s),
{
    lemma_trim_start(s);
    let t = trim_start(s);
    lemma_trim_end(t);
    let a = s.take(s.len() - t.len());
    let b = t.skip(trim(s).len() as int);
    assert(t =~= trim(s) + b);
    assert(s =~= a + t);
    assert(s =~= a + trim(s) + b);
    if trim(s).len() == 0 {
        assert forall|i: int| 0 <= i < s.len() implies is_space(#[trigger] s[i]) by {
            if i < a.len() {
                assert(a[i] == s[i]);
            } else {
                assert(b[i - a.len()] == s[i]);
            }
        }
    }
}

/// A text without white space at its ends is left as it is.
pub proof fn law_tidy_texts_stay(s: Seq<char>)
    requires
        s.len() == 0 || !is_space(s[0]) && !is_space(s.last()),
    ensures
        trim(s) == s,
{
}

/// No digit is white space.
pub proof fn lemma_decimal_has_no_space(n: nat)
    ensures
        decimal(n).len() > 0,
        no_space(decimal(n)),
        trim(decimal(n)) == decimal(n),
        decimal(n)[0] != '+' && decimal(n)[0] != '-',
{
    lemma_decimal_value(n);
    assert forall|i: int| 0 <= i < decimal(n).len() implies !is_space(#[trigger] decimal(n)[i]) by {
        assert(is_digit(decimal(n)[i]));
    }
    assert(is_digit(decimal(n)[0]));
    law_tidy_texts_stay(decimal(n));
}

/// Numbers are read back as they were written.
pub proof fn law_numbers_are_read_back(a: u32, b: u64)
    ensures
        parse_u32(decimal(a as nat)) == Some(a),
        parse_u64(decimal(b as nat)) == Some(b),
        parse_u32(trim(decimal(a as nat))) == Some(a),
        parse_u64(trim(decimal(b as nat))) == Some(b),
{
    law_read_of_written_number(a as nat, u32::MAX as nat);
    law_read_of_written_number(b as nat, u64::MAX as nat);
    lemma_decimal_has_no_space(a as nat);
    lemma_decimal_has_no_space(b as nat);
}

proof fn lemma_word_len_is(w: Seq<char>, rest: Seq<char>)
    requires
        no_space(w),
        rest.len() == 0 || is_space(rest[0]),
    ensures
        word_len(w + rest) == w.len(),
    decreases w.len(),
{
    if w.len() > 0 {
        let s = w + rest;
        assert(s[0] == w[0]);
        assert(s.drop_first() =~= w.drop_first() + rest);
        assert forall|i: int| 0 <= i < w.drop_first().len() implies !is_space(#[trigger] w.drop_first()[i]) by {
            assert(w[i + 1] == w.drop_first()[i]);
        }
        lemma_word_len_is(w.drop_first(), rest);
    } else {
        assert(w + rest =~= rest);
    }
}

/// A word at the start of a text is its first word.
pub proof fn law_words_are_read_one_by_one(w: Seq<char>, rest: Seq<char>)
    requires
        w.len() > 0,
        no_space(w),
        rest.len() == 0 || is_space(rest[0]),
    ensures
        words(w + rest) == seq![w] + words(rest),
{
    let s = w + rest;
    assert(s[0] == w[0]);
    assert(!is_space(s[0]));
    assert(trim_start(s) == s);
    lemma_word_len_is(w, rest);
    assert(s.take(w.len() as int) =~= w);
    assert(s.skip(w.len() as int) =~= rest);
}

/// White space before a text makes no words.
pub proof fn law_white_space_makes_no_words(c: char, s: Seq<char>)
    requires
        is_space(c),
    ensures
        words(seq![c] + s) == words(s),
        words(Seq::<char>::empty()) == Seq::<Seq<char>>::empty(),
{
    let t = seq![c] + s;
    assert(t[0] == c);
    assert(t.drop_first() =~= s);
    assert(trim_start(t) == trim_start(s));
}

/// Two words with white space between are the two words.
pub proof fn law_two_words(a: Seq<char>, c: char, b: Seq<char>)
    requires
        a.len() > 0,
        no_space(a),
        is_space(c),
        b.len() > 0,
        no_space(b),
    ensures
        words(a + seq![c] + b) == seq![a, b],
{
    let rest = seq![c] + b;
    assert(a + seq![c] + b =~= a + rest);
    assert(rest[0] == c);
    law_words_are_read_one_by_one(a, rest);
    law_white_space_makes_no_words(c, b);
    law_words_are_read_one_by_one(b, Seq::empty());
    assert(b + Seq::<char>::empty() =~= b);
    assert(seq![a] + (seq![b] + Seq::<Seq<char>>::empty()) =~= seq![a, b]);
}

/// Pieces without the separator are read back from what joins them.
pub proof fn law_split_of_join<T>(parts: Seq<Seq<T>>, sep: T)
    requires
        parts.len() > 0,
        forall|i: int| 0 <= i < parts.len() ==> !(#[trigger] parts[i]).contains(sep),
    ensures
        split(join(parts, seq![sep]), sep) == parts,
    decreases parts.len(),
{
    let first = parts[0];
    assert(!first.contains(sep));
    lemma_index_of(first, sep);
    if index_of(first, sep) < first.len() {
        assert(first.contains(first[index_of(first, sep)]));
    }
    assert(split(first, sep) =~= seq![first]);
    if parts.len() == 1 {
        assert(parts =~= seq![first]);
    } else {
        let rest = parts.drop_first();
        assert forall|i: int| 0 <= i < rest.len() implies !(#[trigger] rest[i]).contains(sep) by {
            assert(rest[i] == parts[i + 1]);
        }
        law_split_of_join(rest, sep);
        lemma_join_cons(first, rest, seq![sep]);
        assert(parts =~= seq![first] + rest);
        law_split_of_joined(first, sep, join(rest, seq![sep]));
    }
}

/// A text is taken apart at the first separator.
pub proof fn law_split_once(a: Seq<char>, sep: char, b: Seq<char>)
    requires
        !a.contains(sep),
    ensures
        split_once(a + seq![sep] + b, sep) == Some((a, b)),
{
    let s = a + seq![sep] + b;
    assert forall|i: int| 0 <= i < a.len() implies s[i] != sep by {
        assert(s[i] == a[i]);
        assert(a.contains(a[i]));
    }
    lemma_index_of_is(s, sep, a.len() as int);
    assert(s.take(a.len() as int) =~= a);
    assert(s.skip(a.len() as int + 1) =~= b);
}

/// The lines of a text are what stands before each line feed.
pub proof fn law_lines_are_read_one_by_one(line: Seq<char>, rest: Seq<char>)
    requires
        !line.contains('\n'),
    ensures
        lines(line + seq!['\n'] + rest) == seq![strip_cr(line)] + lines(rest),
        lines(Seq::<char>::empty()).len() == 0,
        line.len() > 0 ==> lines(line) == seq![line],
        line.len() == 0 || line.last() != '\r' ==> strip_cr(line) == line,
        strip_cr(line.push('\r')) == line,
{
    let s = line + seq!['\n'] + rest;
    assert forall|i: int| 0 <= i < line.len() implies s[i] != '\n' by {
        assert(s[i] == line[i]);
        assert(line.contains(line[i]));
    }
    lemma_index_of_is(s, '\n', line.len() as int);
    assert(s.take(line.len() as int) =~= line);
    assert(s.skip(line.len() as int + 1) =~= rest);
    assert forall|i: int| 0 <= i < line.len() implies line[i] != '\n' by {
        assert(line.contains(line[i]));
    }
    lemma_index_of_is(line, '\n', line.len() as int);
    assert(line.push('\r').drop_last() =~= line);
}

/// What is made of each of a list, if something is made of all.
pub proof fn lemma_filter_map_all<A, B>(s: Seq<A>, f: spec_fn(A) -> Option<B>, out: Seq<B>)
    requires
        s.len() == out.len(),
        forall|i: int| 0 <= i < s.len() ==> f(#[trigger] s[i]) == Some(out[i]),
    ensures
        filter_map(s, f) == out,
    decreases s.len(),
{
    if s.len() > 0 {
        let n = s.len() - 1;
        assert forall|i: int| 0 <= i < s.drop_last().len() implies f(#[trigger] s.drop_last()[i]) == Some(
            out.drop_last()[i],
        ) by {
            assert(s.drop_last()[i] == s[i]);
        }
        lemma_filter_map_all(s.drop_last(), f, out.drop_last());
        assert(f(s[n]) == Some(out[n]));
        assert(out.drop_last().push(out[n]) =~= out);
    } else {
        assert(out =~= Seq::<B>::empty());
    }
}

/// One more in front of a list.
pub proof fn lemma_filter_map_cons<A, B>(x: A, s: Seq<A>, f: spec_fn(A) -> Option<B>)
    ensures
        filter_map(seq![x] + s, f) == (match f(x) {
            Some(b) => seq![b] + filter_map(s, f),
            None => filter_map(s, f),
        }),
    decreases s.len(),
{
    let all = seq![x] + s;
    if s.len() == 0 {
        assert(all.drop_last() =~= Seq::<A>::empty());
        assert(filter_map(all.drop_last(), f) =~= Seq::<B>::empty());
        assert(filter_map(s, f) =~= Seq::<B>::empty());
        match f(x) {
            Some(b) => {
                assert(Seq::<B>::empty().push(b) =~= seq![b] + Seq::<B>::empty());
            },
            None => {},
        }
    } else {
        lemma_filter_map_cons(x, s.drop_last(), f);
        assert(all.drop_last() =~= seq![x] + s.drop_last());
        assert(all.last() == s.last());
        match (f(x), f(s.last())) {
            (Some(b), Some(c)) => {
                assert((seq![b] + filter_map(s.drop_last(), f)).push(c) =~= seq![b] + filter_map(
                    s.drop_last(),
                    f,
                ).push(c));
            },
            _ => {},
        }
    }
}

/// Padding keeps the text, at the start or at the end, and adds blanks up to the width.
pub proof fn law_padding_keeps_the_text(s: Seq<char>, width: int)
    ensures
        s.is_prefix_of(pad_right(s, width)),
        s.is_suffix_of(pad_left(s, width)),
        pad_right(s, width).len() == (if s.len() >= width {
            s.len() as int
        } else {
            width
        }),
        pad_left(s, width).len() == pad_right(s, width).len(),
        forall|i: int| s.len() <= i < width ==> pad_right(s, width)[i] == ' ',
        forall|i: int| 0 <= i < width - s.len() ==> pad_left(s, width)[i] == ' ',
{
    assert(pad_right(s, width).take(s.len() as int) =~= s);
    let l = pad_left(s, width);
    assert(l.skip(l.len() - s.len()) =~= s);
}

} // verus!
