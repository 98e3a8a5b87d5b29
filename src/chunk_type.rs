use vstd::prelude::*;
use vstd::string::StringSliceAdditionalSpecFns;
use vstd::utf8::{decode_utf8, valid_utf8};

use crate::error::FormatError;
use crate::text::{ascii_chars, lemma_ascii_valid_utf8, utf8_string};

verus! {

/// An ASCII letter: `A`-`Z` (65..=90) or `a`-`z` (97..=122).
pub open spec fn is_letter(b: u8) -> bool {
    (65 <= b <= 90) || (97 <= b <= 122)
}

/// Every byte of `s` is an ASCII letter.
pub open spec fn all_letters(s: Seq<u8>) -> bool {
    forall|i: int| 0 <= i < s.len() ==> is_letter(#[trigger] s[i])
}

/// The property bit (bit 5, value 0x20) of a type byte is clear.
pub open spec fn bit5_clear(b: u8) -> bool {
    b & 0x20 == 0
}

/// A tag conforms to the format: four letters, with the reserved bit of
/// the third byte clear.
pub open spec fn tag_is_valid(t: Seq<u8>) -> bool {
    all_letters(t) && bit5_clear(t[2])
}

/// The 4-byte type code of a chunk.
///
/// Any four bytes can be held, so that a tag read off the wire round-trips
/// unchanged; whether they conform is asked separately (`is_valid`).
#[derive(Debug, Clone, Copy)]
pub struct ChunkType {
    bytes: [u8; 4],
}

impl View for ChunkType {
    type V = Seq<u8>;

    closed spec fn view(&self) -> Seq<u8> {
        self.bytes@
    }
}

fn fifth_bit_is_zero(byte: u8) -> (r: bool)
    ensures
        r == bit5_clear(byte),
{
    let fifth_bit_selector: u8 = 0b0010_0000;
    let and_comparison = byte & fifth_bit_selector;
    and_comparison == 0
}

fn is_letter_byte(x: u8) -> (r: bool)
    ensures
        r == is_letter(x),
{
    (x >= 65 && x <= 90) || (x >= 97 && x <= 122)
}

impl ChunkType {
    /// Holds the four bytes as they are, whatever they are.
    pub fn from_bytes(bytes: [u8; 4]) -> (r: Self)
        ensures
            r@ == bytes@,
    {
        ChunkType { bytes }
    }

    /// Reads a type code from text: exactly four bytes, each an ASCII letter.
    pub fn parse(text: &str) -> (r: Result<Self, FormatError>)
        ensures
            r is Ok <==> (text.spec_bytes().len() == 4 && all_letters(text.spec_bytes())),
            r matches Ok(t) ==> t@ == text.spec_bytes(),
            r matches Err(e) ==> e == FormatError::InvalidTag,
    {
        let b = text.as_bytes();
        if b.len() != 4 {
            return Err(FormatError::InvalidTag);
        }
        let mut i: usize = 0;
        while i < 4
            invariant
                b@ == text.spec_bytes(),
                b@.len() == 4,
                0 <= i <= 4,
                forall|j: int| 0 <= j < i ==> is_letter(#[trigger] b@[j]),
            decreases 4 - i,
        {
            if !is_letter_byte(b[i]) {
                assert(!is_letter(b@[i as int]));
                return Err(FormatError::InvalidTag);
            }
            i = i + 1;
        }
        let t = ChunkType { bytes: [b[0], b[1], b[2], b[3]] };
        assert(t@ =~= b@);
        Ok(t)
    }

    /// The four raw bytes.
    pub fn bytes(&self) -> (r: [u8; 4])
        ensures
            r@ == self@,
    {
        self.bytes
    }

    /// All four bytes are ASCII letters.
    pub fn is_letter_valid(&self) -> (r: bool)
        ensures
            r == all_letters(self@),
    {
        let mut i: usize = 0;
        while i < 4
            invariant
                self@.len() == 4,
                0 <= i <= 4,
                forall|j: int| 0 <= j < i ==> is_letter(#[trigger] self@[j]),
            decreases 4 - i,
        {
            if !is_letter_byte(self.bytes[i]) {
                assert(!is_letter(self@[i as int]));
                return false;
            }
            i = i + 1;
        }
        true
    }

    /// Four letters, and the reserved bit clear.
    pub fn is_valid(&self) -> (r: bool)
        ensures
            r == tag_is_valid(self@),
    {
        self.is_letter_valid() && self.is_reserved_bit_valid()
    }

    /// Bit 5 of the first byte is clear.
    pub fn is_critical(&self) -> (r: bool)
        ensures
            r == bit5_clear(self@[0]),
    {
        fifth_bit_is_zero(self.bytes[0])
    }

    /// Bit 5 of the second byte is clear.
    pub fn is_public(&self) -> (r: bool)
        ensures
            r == bit5_clear(self@[1]),
    {
        fifth_bit_is_zero(self.bytes[1])
    }

    /// Bit 5 of the third byte is clear.
    pub fn is_reserved_bit_valid(&self) -> (r: bool)
        ensures
            r == bit5_clear(self@[2]),
    {
        fifth_bit_is_zero(self.bytes[2])
    }

    /// Bit 5 of the fourth byte is set.
    pub fn is_safe_to_copy(&self) -> (r: bool)
        ensures
            r == !bit5_clear(self@[3]),
    {
        !fifth_bit_is_zero(self.bytes[3])
    }

    /// The four bytes as text, where they are valid UTF-8.
    pub fn to_text(&self) -> (r: Result<String, FormatError>)
        ensures
            r is Ok <==> valid_utf8(self@),
            r matches Ok(s) ==> s@ == decode_utf8(self@),
            r matches Err(e) ==> e == FormatError::NotUtf8,
            all_letters(self@) ==> (r matches Ok(s) && s@ == ascii_chars(self@)),
    {
        proof {
            if all_letters(self@) {
                assert forall|i: int| 0 <= i < self@.len() implies #[trigger] self@[i] < 0x80 by {
                    assert(is_letter(self@[i]));
                }
                lemma_ascii_valid_utf8(self@);
            }
        }
        match utf8_string(self.bytes.as_slice()) {
            Some(s) => Ok(s),
            None => Err(FormatError::NotUtf8),
        }
    }
}

/// Two type codes are equal when their four bytes are.
impl PartialEq for ChunkType {
    fn eq(&self, other: &ChunkType) -> (r: bool) {
        let r = self.bytes[0] == other.bytes[0] && self.bytes[1] == other.bytes[1] && self.bytes[2]
            == other.bytes[2] && self.bytes[3] == other.bytes[3];
        proof {
            if r {
                assert(self@ =~= other@);
            }
        }
        r
    }
}

impl vstd::std_specs::cmp::PartialEqSpecImpl for ChunkType {
    open spec fn obeys_eq_spec() -> bool {
        true
    }

    open spec fn eq_spec(&self, other: &ChunkType) -> bool {
        self@ == other@
    }
}

impl Eq for ChunkType {

}

impl TryFrom<[u8; 4]> for ChunkType {
    type Error = FormatError;

    fn try_from(value: [u8; 4]) -> (r: Result<Self, FormatError>)
        ensures
            r matches Ok(t) && t@ == value@,
    {
        Ok(ChunkType { bytes: value })
    }
}

impl vstd::std_specs::convert::TryFromSpecImpl<[u8; 4]> for ChunkType {
    open spec fn obeys_try_from_spec() -> bool {
        true
    }

    closed spec fn try_from_spec(v: [u8; 4]) -> Result<Self, FormatError> {
        Ok(ChunkType { bytes: v })
    }
}

impl std::str::FromStr for ChunkType {
    type Err = FormatError;

    fn from_str(s: &str) -> (r: Result<Self, FormatError>)
        ensures
            r is Ok <==> (s.spec_bytes().len() == 4 && all_letters(s.spec_bytes())),
            r matches Ok(t) ==> t@ == s.spec_bytes(),
            r matches Err(e) ==> e == FormatError::InvalidTag,
    {
        ChunkType::parse(s)
    }
}

} // verus!
