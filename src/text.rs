use vstd::prelude::*;
use vstd::utf8::{
    codepoint_width_1, decode_first_codepoint, is_leading_byte_width_1, leading_bits_width_1,
    pop_first_scalar, decode_utf8, valid_utf8,
};

verus! {

/// Relies on `std::str::from_utf8`: it succeeds exactly on well-formed UTF-8,
/// and the resulting text holds the characters that the bytes encode.
#[verifier::external_body]
pub(crate) fn utf8_str(b: &[u8]) -> (r: Option<&str>)
    ensures
        r is Some <==> valid_utf8(b@),
        r matches Some(s) ==> s@ == decode_utf8(b@),
{
    match std::str::from_utf8(b) {
        Ok(s) => Some(s),
        Err(_) => None,
    }
}

/// The characters whose codes are the given bytes, one for one.
pub open spec fn ascii_chars(b: Seq<u8>) -> Seq<char> {
    b.map_values(|x: u8| x as char)
}

/// Bytes below 0x80 form valid UTF-8: each is a character of its own.
pub proof fn lemma_ascii_valid_utf8(b: Seq<u8>)
    requires
        forall|i: int| 0 <= i < b.len() ==> #[trigger] b[i] < 0x80,
    ensures
        valid_utf8(b),
        decode_utf8(b) == ascii_chars(b),
    decreases b.len(),
{
    if b.len() != 0 {
        let x = b[0];
        assert(is_leading_byte_width_1(x));
        assert(leading_bits_width_1(x) == (x & 0x7f) as u32);
        assert((x & 0x7f) as u32 <= 0x7f) by (bit_vector);
        assert(decode_first_codepoint(b) == codepoint_width_1(x));
        let rest = pop_first_scalar(b);
        assert(rest =~= b.subrange(1, b.len() as int));
        assert forall|i: int| 0 <= i < rest.len() implies #[trigger] rest[i] < 0x80 by {
            assert(rest[i] == b[i + 1]);
        }
        lemma_ascii_valid_utf8(rest);
        assert((x & 0x7f) as u32 == x as u32) by (bit_vector)
            requires
                x < 0x80,
        ;
        assert(decode_utf8(b) =~= ascii_chars(b));
    } else {
        assert(decode_utf8(b) =~= ascii_chars(b));
    }
}

/// Decodes `b` as UTF-8 into an owned string, or `None` where it is not well-formed.
pub(crate) fn utf8_string(b: &[u8]) -> (r: Option<String>)
    ensures
        r is Some <==> valid_utf8(b@),
        r matches Some(s) ==> s@ == decode_utf8(b@),
{
    match utf8_str(b) {
        Some(s) => Some(s.to_owned()),
        None => None,
    }
}

} // verus!
