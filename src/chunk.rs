use vstd::prelude::*;
use vstd::utf8::{decode_utf8, valid_utf8};

use crate::chunk_type::{all_letters, ChunkType};
use crate::error::FormatError;
use crate::text::utf8_string;
use crate::wire::{
    be_bytes, be_u32, bytes_to_number, lemma_be_bytes_of_be_u32, lemma_be_u32_of_be_bytes,
    push_be_u32,
};

verus! {

/// The CRC-32 with the IEEE polynomial of a byte sequence.
pub uninterp spec fn crc32_ieee(data: Seq<u8>) -> u32;

/// Relies on `crc::crc32::checksum_ieee`: the CRC-32/IEEE of the bytes, a
/// function of the bytes alone.
#[verifier::external_body]
fn checksum_ieee(bytes: &[u8]) -> (r: u32)
    ensures
        r == crc32_ieee(bytes@),
{
    crc::crc32::checksum_ieee(bytes)
}

/// The four fields of a chunk as mathematical values.
pub struct ChunkView {
    pub length: u32,
    pub tag: Seq<u8>,
    pub data: Seq<u8>,
    pub crc: u32,
}

/// The chunk that carries `data` under `tag`, with its length and checksum computed.
pub open spec fn chunk_of(tag: Seq<u8>, data: Seq<u8>) -> ChunkView {
    ChunkView { length: data.len() as u32, tag, data, crc: crc32_ieee(tag + data) }
}

/// The wire form: length, tag, payload and checksum, integers big-endian.
pub open spec fn encode(c: ChunkView) -> Seq<u8> {
    be_bytes(c.length) + c.tag + c.data + be_bytes(c.crc)
}

/// The fields that a buffer declares, or the first structural fault in it.
///
/// A tag that is not four letters rejects the buffer before its length is
/// looked at.
pub open spec fn frame_spec(b: Seq<u8>) -> Result<ChunkView, FormatError> {
    if b.len() < 12 {
        Err(FormatError::Truncated)
    } else {
        let declared = be_u32(b.subrange(0, 4));
        let tag = b.subrange(4, 8);
        if !all_letters(tag) {
            Err(FormatError::InvalidTag)
        } else if b.len() < 12 + declared {
            Err(FormatError::Truncated)
        } else if b.len() > 12 + declared {
            Err(FormatError::LengthMismatch)
        } else {
            Ok(
                ChunkView {
                    length: declared,
                    tag,
                    data: b.subrange(8, b.len() - 4),
                    crc: be_u32(b.subrange(b.len() - 4, b.len() as int)),
                },
            )
        }
    }
}

/// The chunk that a buffer encodes, or the first fault found in it.
pub open spec fn parse_spec(b: Seq<u8>) -> Result<ChunkView, FormatError> {
    match frame_spec(b) {
        Ok(f) => if crc32_ieee(f.tag + f.data) == f.crc {
            Ok(chunk_of(f.tag, f.data))
        } else {
            Err(FormatError::CrcMismatch)
        },
        Err(e) => Err(e),
    }
}

/// The fields of a chunk as the wire declares them, before the checksum is checked.
pub struct Frame {
    pub declared_length: u32,
    pub tag: ChunkType,
    pub data: Vec<u8>,
    pub declared_crc: u32,
}

impl View for Frame {
    type V = ChunkView;

    open spec fn view(&self) -> ChunkView {
        ChunkView {
            length: self.declared_length,
            tag: self.tag@,
            data: self.data@,
            crc: self.declared_crc,
        }
    }
}

/// Reads the fields of a chunk off the wire and checks its structure: the
/// tag's letters and the declared length. The checksum is left to the caller.
pub fn read_frame(bytes: &[u8]) -> (r: Result<Frame, FormatError>)
    ensures
        match r {
            Ok(f) => frame_spec(bytes@) == Ok::<ChunkView, FormatError>(f@),
            Err(e) => frame_spec(bytes@) == Err::<ChunkView, FormatError>(e),
        },
{
    let n = bytes.len();
    if n < 12 {
        return Err(FormatError::Truncated);
    }
    let length_bytes: [u8; 4] = [bytes[0], bytes[1], bytes[2], bytes[3]];
    assert(length_bytes@ =~= bytes@.subrange(0, 4));
    let declared = bytes_to_number(&length_bytes);
    let tag = ChunkType::from_bytes([bytes[4], bytes[5], bytes[6], bytes[7]]);
    assert(tag@ =~= bytes@.subrange(4, 8));
    if !tag.is_letter_valid() {
        return Err(FormatError::InvalidTag);
    }
    let payload_span = n - 12;
    if payload_span < declared as usize {
        return Err(FormatError::Truncated);
    }
    if payload_span > declared as usize {
        return Err(FormatError::LengthMismatch);
    }
    let mut data: Vec<u8> = Vec::new();
    let mut i: usize = 8;
    while i < n - 4
        invariant
            n == bytes@.len(),
            8 <= i <= n - 4,
            data@ == bytes@.subrange(8, i as int),
        decreases n - 4 - i,
    {
        data.push(bytes[i]);
        i = i + 1;
        assert(data@ =~= bytes@.subrange(8, i as int));
    }
    let crc_bytes: [u8; 4] = [bytes[n - 4], bytes[n - 3], bytes[n - 2], bytes[n - 1]];
    assert(crc_bytes@ =~= bytes@.subrange(n - 4, n as int));
    let declared_crc = bytes_to_number(&crc_bytes);
    Ok(Frame { declared_length: declared, tag, data, declared_crc })
}

/// A chunk: a payload under a type code, with its length and checksum.
///
/// Its length is always that of its payload and its checksum always that of
/// its tag followed by its payload.
pub struct Chunk {
    length: u32,
    chunk_type: ChunkType,
    chunk_data: Vec<u8>,
    crc: u32,
}

impl View for Chunk {
    type V = ChunkView;

    closed spec fn view(&self) -> ChunkView {
        ChunkView {
            length: self.length,
            tag: self.chunk_type@,
            data: self.chunk_data@,
            crc: self.crc,
        }
    }
}

impl Chunk {
    #[verifier::type_invariant]
    spec fn consistent(&self) -> bool {
        &&& self.chunk_type@.len() == 4
        &&& self.chunk_data@.len() <= u32::MAX
        &&& self@ == chunk_of(self.chunk_type@, self.chunk_data@)
    }

    /// Builds the chunk of `data` under `chunk_type`, computing its checksum
    /// over the tag bytes followed by the payload.
    pub fn new(chunk_type: ChunkType, data: Vec<u8>) -> (r: Chunk)
        requires
            data@.len() <= u32::MAX,
        ensures
            r@ == chunk_of(chunk_type@, data@),
    {
        let tag = chunk_type.bytes();
        let mut checked: Vec<u8> = Vec::new();
        let mut k: usize = 0;
        while k < 4
            invariant
                tag@.len() == 4,
                0 <= k <= 4,
                checked@ == tag@.subrange(0, k as int),
            decreases 4 - k,
        {
            checked.push(tag[k]);
            k = k + 1;
            assert(checked@ =~= tag@.subrange(0, k as int));
        }
        let mut i: usize = 0;
        while i < data.len()
            invariant
                tag@.len() == 4,
                0 <= i <= data@.len(),
                checked@ == tag@ + data@.subrange(0, i as int),
            decreases data@.len() - i,
        {
            checked.push(data[i]);
            i = i + 1;
            assert(checked@ =~= tag@ + data@.subrange(0, i as int));
        }
        assert(data@.subrange(0, data@.len() as int) =~= data@);
        let crc = checksum_ieee(checked.as_slice());
        let size = data.len() as u32;
        Chunk { length: size, chunk_type, chunk_data: data, crc }
    }

    /// Reads a chunk off the wire, checking its tag letters, its declared
    /// length and its checksum, in that order. The checksum kept is the one
    /// computed from the tag and payload.
    pub fn parse(bytes: &[u8]) -> (r: Result<Chunk, FormatError>)
        ensures
            match r {
                Ok(c) => parse_spec(bytes@) == Ok::<ChunkView, FormatError>(c@),
                Err(e) => parse_spec(bytes@) == Err::<ChunkView, FormatError>(e),
            },
    {
        let frame = match read_frame(bytes) {
            Ok(f) => f,
            Err(e) => return Err(e),
        };
        let declared_crc = frame.declared_crc;
        let chunk = Chunk::new(frame.tag, frame.data);
        if chunk.crc() != declared_crc {
            return Err(FormatError::CrcMismatch);
        }
        Ok(chunk)
    }

    /// The payload length.
    pub fn length(&self) -> (r: u32)
        ensures
            r == self@.length,
            r == self@.data.len(),
    {
        proof {
            use_type_invariant(self);
        }
        self.length
    }

    /// The type code.
    pub fn chunk_type(&self) -> (r: &ChunkType)
        ensures
            r@ == self@.tag,
    {
        &self.chunk_type
    }

    /// The payload bytes.
    pub fn data(&self) -> (r: &[u8])
        ensures
            r@ == self@.data,
    {
        self.chunk_data.as_slice()
    }

    /// The checksum: CRC-32/IEEE of the tag bytes followed by the payload.
    pub fn crc(&self) -> (r: u32)
        ensures
            r == self@.crc,
            r == crc32_ieee(self@.tag + self@.data),
    {
        proof {
            use_type_invariant(self);
        }
        self.crc
    }

    /// The payload as text, where it is valid UTF-8.
    pub fn data_as_string(&self) -> (r: Result<String, FormatError>)
        ensures
            r is Ok <==> valid_utf8(self@.data),
            r matches Ok(s) ==> s@ == decode_utf8(self@.data),
            r matches Err(e) ==> e == FormatError::NotUtf8,
    {
        match utf8_string(self.chunk_data.as_slice()) {
            Some(s) => Ok(s),
            None => Err(FormatError::NotUtf8),
        }
    }

    /// The payload as text, or `Invalid chunk` where it is not valid UTF-8.
    pub fn to_text(&self) -> (r: String)
        ensures
            valid_utf8(self@.data) ==> r@ == decode_utf8(self@.data),
            !valid_utf8(self@.data) ==> r@ == "Invalid chunk"@,
    {
        match self.data_as_string() {
            Ok(s) => s,
            Err(_) => "Invalid chunk".to_owned(),
        }
    }

    /// The wire form: length and tag, payload, checksum.
    pub fn as_bytes(&self) -> (r: Vec<u8>)
        ensures
            r@ == encode(self@),
    {
        let mut out: Vec<u8> = Vec::new();
        push_be_u32(&mut out, self.length);
        let tag = self.chunk_type.bytes();
        let mut k: usize = 0;
        while k < 4
            invariant
                tag@.len() == 4,
                tag@ == self@.tag,
                0 <= k <= 4,
                out@ == be_bytes(self@.length) + tag@.subrange(0, k as int),
            decreases 4 - k,
        {
            out.push(tag[k]);
            k = k + 1;
            assert(out@ =~= be_bytes(self@.length) + tag@.subrange(0, k as int));
        }
        assert(tag@.subrange(0, 4) =~= tag@);
        let mut i: usize = 0;
        while i < self.chunk_data.len()
            invariant
                0 <= i <= self@.data.len(),
                out@ == be_bytes(self@.length) + self@.tag + self@.data.subrange(0, i as int),
            decreases self@.data.len() - i,
        {
            out.push(self.chunk_data[i]);
            i = i + 1;
            assert(out@ =~= be_bytes(self@.length) + self@.tag + self@.data.subrange(
                0,
                i as int,
            ));
        }
        assert(self@.data.subrange(0, self@.data.len() as int) =~= self@.data);
        push_be_u32(&mut out, self.crc);
        out
    }
}

/// The fields of `tag`, `data` and a trailer, laid out on the wire behind the
/// length `declared`, read back unchanged.
proof fn lemma_frame_fields(declared: u32, tag: Seq<u8>, data: Seq<u8>, trailer: Seq<u8>)
    requires
        tag.len() == 4,
        trailer.len() == 4,
    ensures
        ({
            let b = be_bytes(declared) + tag + data + trailer;
            &&& b.len() == 12 + data.len()
            &&& be_u32(b.subrange(0, 4)) == declared
            &&& b.subrange(4, 8) == tag
            &&& b.subrange(8, b.len() - 4) == data
            &&& be_u32(b.subrange(b.len() - 4, b.len() as int)) == be_u32(trailer)
        }),
{
    let b = be_bytes(declared) + tag + data + trailer;
    lemma_be_u32_of_be_bytes(declared);
    assert(b.subrange(0, 4) =~= be_bytes(declared));
    assert(b.subrange(4, 8) =~= tag);
    assert(b.subrange(8, b.len() - 4) =~= data);
    assert(b.subrange(b.len() - 4, b.len() as int) =~= trailer);
}

/// Parsing the wire form of the chunk that `Chunk::new` builds from a tag of
/// four letters and a payload gives that same chunk back.
pub proof fn lemma_parse_encode(tag: Seq<u8>, data: Seq<u8>)
    requires
        tag.len() == 4,
        all_letters(tag),
        data.len() <= u32::MAX,
    ensures
        parse_spec(encode(chunk_of(tag, data))) == Ok::<ChunkView, FormatError>(
            chunk_of(tag, data),
        ),
{
    let c = chunk_of(tag, data);
    lemma_be_u32_of_be_bytes(c.crc);
    lemma_frame_fields(c.length, tag, data, be_bytes(c.crc));
}

/// Replacing the checksum trailer of an encoded chunk by any four bytes other
/// than the checksum's makes parsing fail with `CrcMismatch`.
pub proof fn lemma_other_trailer_rejected(tag: Seq<u8>, data: Seq<u8>, trailer: Seq<u8>)
    requires
        tag.len() == 4,
        all_letters(tag),
        data.len() <= u32::MAX,
        trailer.len() == 4,
        trailer != be_bytes(crc32_ieee(tag + data)),
    ensures
        parse_spec(be_bytes(data.len() as u32) + tag + data + trailer) == Err::<
            ChunkView,
            FormatError,
        >(FormatError::CrcMismatch),
{
    lemma_frame_fields(data.len() as u32, tag, data, trailer);
    lemma_be_bytes_of_be_u32(trailer);
}

/// Flipping any one bit of the checksum trailer of an encoded chunk makes
/// parsing fail with `CrcMismatch`.
pub proof fn lemma_flipped_crc_bit_rejected(tag: Seq<u8>, data: Seq<u8>, k: int, bit: u8)
    requires
        tag.len() == 4,
        all_letters(tag),
        data.len() <= u32::MAX,
        0 <= k < 4,
        bit < 8,
    ensures
        ({
            let e = encode(chunk_of(tag, data));
            let j = e.len() - 4 + k;
            parse_spec(e.update(j, e[j] ^ (1u8 << bit))) == Err::<ChunkView, FormatError>(
                FormatError::CrcMismatch,
            )
        }),
{
    let c = chunk_of(tag, data);
    let e = encode(c);
    let j = e.len() - 4 + k;
    let x = e[j];
    let trailer = be_bytes(c.crc).update(k, x ^ (1u8 << bit));
    assert(x ^ (1u8 << bit) != x) by (bit_vector)
        requires
            bit < 8,
    ;
    assert(e.update(j, x ^ (1u8 << bit)) =~= be_bytes(c.length) + tag + data + trailer);
    assert(trailer[k] != be_bytes(c.crc)[k]);
    lemma_other_trailer_rejected(tag, data, trailer);
}

/// Declaring a length other than the payload's makes parsing fail: with
/// `Truncated` where it is larger, with `LengthMismatch` where it is smaller.
pub proof fn lemma_other_length_rejected(tag: Seq<u8>, data: Seq<u8>, declared: u32)
    requires
        tag.len() == 4,
        all_letters(tag),
        data.len() <= u32::MAX,
        declared != data.len(),
    ensures
        declared > data.len() ==> parse_spec(
            be_bytes(declared) + tag + data + be_bytes(crc32_ieee(tag + data)),
        ) == Err::<ChunkView, FormatError>(FormatError::Truncated),
        declared < data.len() ==> parse_spec(
            be_bytes(declared) + tag + data + be_bytes(crc32_ieee(tag + data)),
        ) == Err::<ChunkView, FormatError>(FormatError::LengthMismatch),
{
    let trailer = be_bytes(crc32_ieee(tag + data));
    lemma_be_u32_of_be_bytes(crc32_ieee(tag + data));
    lemma_frame_fields(declared, tag, data, trailer);
}

impl<'a> TryFrom<&'a Vec<u8>> for Chunk {
    type Error = FormatError;

    /// Reads a chunk off the wire, as `Chunk::parse` does.
    fn try_from(value: &'a Vec<u8>) -> (r: Result<Chunk, FormatError>)
        ensures
            match r {
                Ok(c) => parse_spec(value@) == Ok::<ChunkView, FormatError>(c@),
                Err(e) => parse_spec(value@) == Err::<ChunkView, FormatError>(e),
            },
    {
        Chunk::parse(value.as_slice())
    }
}

impl<'a> vstd::std_specs::convert::TryFromSpecImpl<&'a Vec<u8>> for Chunk {
    open spec fn obeys_try_from_spec() -> bool {
        false
    }

    /// Left unstated here: a chunk is not built in specifications, and what
    /// `try_from` returns is what `Chunk::parse` states.
    open spec fn try_from_spec(v: &'a Vec<u8>) -> Result<Chunk, FormatError> {
        arbitrary()
    }
}

} // verus!
