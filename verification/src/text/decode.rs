//! UTF-8 that is split at an ASCII byte.

use vstd::prelude::*;
use vstd::utf8::{
    decode_first_scalar, decode_utf8, decode_utf8_first_scalar, decode_utf8_split, encode_scalar,
    is_char_boundary_iff_not_is_continuation_byte, leading_byte_width_1, pop_first_scalar, take_first_scalar,
    valid_utf8, valid_utf8_split,
};

use crate::text::seqs::{index_of, lemma_index_of, lemma_index_of_is, split};

verus! {

/// The texts of some UTF-8.
pub open spec fn decoded(pieces: Seq<Seq<u8>>) -> Seq<Seq<char>> {
    pieces.map_values(|piece: Seq<u8>| decode_utf8(piece))
}

/// Splitting UTF-8 at an ASCII byte is splitting its text at that character.
pub proof fn law_split_of_decoded(bytes: Seq<u8>, sep: u8)
    requires
        valid_utf8(bytes),
        sep < 128,
    ensures
        forall|i: int| 0 <= i < split(bytes, sep).len() ==> valid_utf8(#[trigger] split(bytes, sep)[i]),
        split(decode_utf8(bytes), sep as char) == decoded(split(bytes, sep)),
    decreases bytes.len(),
{
    let text = decode_utf8(bytes);
    let c = sep as char;
    let at = index_of(bytes, sep);
    lemma_index_of(bytes, sep);
    if at >= bytes.len() {
        lemma_no_such_char(bytes, sep);
        lemma_index_of_is(text, c, text.len() as int);
        assert(split(bytes, sep) =~= seq![bytes]);
        assert(split(text, c) =~= decoded(split(bytes, sep)));
    } else {
        let piece = bytes.take(at);
        let from = bytes.skip(at);
        let rest = bytes.skip(at + 1);
        is_char_boundary_iff_not_is_continuation_byte(bytes, at);
        valid_utf8_split(bytes, at);
        decode_utf8_split(bytes, at);
        assert(bytes.subrange(0, at) =~= piece);
        assert(bytes.subrange(at, bytes.len() as int) =~= from);
        assert(pop_first_scalar(from) =~= rest);
        assert(sep & 0x7F == sep) by (bit_vector)
            requires
                sep < 128,
        ;
        assert(decode_first_scalar(from) as char == c);
        assert(decode_utf8(from) == seq![c] + decode_utf8(rest));
        lemma_no_such_char(piece, sep);
        let first = decode_utf8(piece);
        assert(text =~= first + (seq![c] + decode_utf8(rest)));
        assert forall|i: int| 0 <= i < first.len() implies text[i] != c by {
            assert(text[i] == first[i]);
        }
        lemma_index_of_is(text, c, first.len() as int);
        assert(text.take(first.len() as int) =~= first);
        assert(text.skip(first.len() as int + 1) =~= decode_utf8(rest));
        law_split_of_decoded(rest, sep);
        let all = split(bytes, sep);
        assert(all =~= seq![piece] + split(rest, sep));
        assert forall|i: int| 0 <= i < all.len() implies valid_utf8(#[trigger] all[i]) by {
            if i > 0 {
                assert(all[i] == split(rest, sep)[i - 1]);
            }
        }
        assert(split(text, c) =~= decoded(all));
    }
}

/// An ASCII character in a text is a byte of it.
proof fn lemma_no_such_char(bytes: Seq<u8>, sep: u8)
    requires
        valid_utf8(bytes),
        sep < 128,
        forall|i: int| 0 <= i < bytes.len() ==> bytes[i] != sep,
    ensures
        forall|i: int| 0 <= i < decode_utf8(bytes).len() ==> decode_utf8(bytes)[i] != sep as char,
    decreases bytes.len(),
{
    if bytes.len() > 0 {
        let rest = pop_first_scalar(bytes);
        assert forall|i: int| 0 <= i < rest.len() implies rest[i] != sep by {
            assert(rest[i] == bytes[i + bytes.len() - rest.len()]);
        }
        lemma_no_such_char(rest, sep);
        let first = decode_first_scalar(bytes) as char;
        if first == sep as char {
            decode_utf8_first_scalar(bytes);
            let code = sep as u32;
            assert(code & 0x7F == code) by (bit_vector)
                requires
                    code < 128,
            ;
            assert(first as u32 == code);
            assert(leading_byte_width_1(code) == sep);
            assert(encode_scalar(code)[0] == sep);
            assert(take_first_scalar(bytes)[0] == bytes[0]);
        }
        let text = decode_utf8(bytes);
        assert forall|i: int| 0 <= i < text.len() implies text[i] != sep as char by {
            if i > 0 {
                assert(text[i] == decode_utf8(rest)[i - 1]);
            }
        }
    }
}

} // verus!
