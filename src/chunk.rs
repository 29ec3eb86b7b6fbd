use crate::chunk_type::{is_valid_tag, lemma_tag_len, tag_text, ChunkType};
use crate::error::ChunkError;
use crate::text::{string_from_chars, string_from_utf8};
use vstd::prelude::*;
use vstd::slice::slice_to_vec;
use vstd::utf8::{
    encode_utf8, encode_utf8_decode_utf8, encode_utf8_valid_utf8, is_ascii_chars,
    is_ascii_chars_encode_utf8, valid_utf8,
};

verus! {

/// The CRC-32 (the PNG and zlib variant) of a byte sequence.
pub uninterp spec fn crc32_of(bytes: Seq<u8>) -> u32;

/// Relies on `crc::Crc::<u32>::checksum` with `crc::CRC_32_ISO_HDLC`: a
/// table-driven CRC whose result depends on the bytes alone.
#[verifier::external_body]
fn crc32(bytes: &[u8]) -> (r: u32)
    ensures
        r == crc32_of(bytes@),
{
    crc::Crc::<u32>::new(&crc::CRC_32_ISO_HDLC).checksum(bytes)
}

/// The unsigned number that four bytes spell, most significant first.
pub open spec fn be_u32(b: Seq<u8>) -> int {
    b[0] * 0x100_0000 + b[1] * 0x1_0000 + b[2] * 0x100 + b[3]
}

/// The four bytes of `x`, most significant first.
pub open spec fn be_bytes(x: u32) -> Seq<u8> {
    seq![
        (x / 0x100_0000) as u8,
        (x / 0x1_0000 % 0x100) as u8,
        (x / 0x100 % 0x100) as u8,
        (x % 0x100) as u8,
    ]
}

/// What a chunk holds: its declared length, its tag's bytes, its payload and
/// its checksum.
pub struct ChunkView {
    pub length: u32,
    pub tag: Seq<u8>,
    pub data: Seq<u8>,
    pub crc: u32,
}

/// The checksum of a chunk: the CRC-32 of its tag bytes followed by its payload.
pub open spec fn chunk_crc(tag: Seq<u8>, data: Seq<u8>) -> u32 {
    crc32_of(tag + data)
}

/// The chunk with the given tag and payload, its length and checksum computed.
pub open spec fn new_view(tag: Seq<u8>, data: Seq<u8>) -> ChunkView {
    ChunkView { length: data.len() as u32, tag, data, crc: chunk_crc(tag, data) }
}

impl ChunkView {
    /// Four tag bytes, a length that counts the payload, and a checksum that
    /// matches tag and payload.
    pub open spec fn wf(self) -> bool {
        &&& self.tag.len() == 4
        &&& self.data.len() == self.length
        &&& self.crc == chunk_crc(self.tag, self.data)
    }
}

/// The wire form of a chunk: length, tag, payload, checksum.
pub open spec fn encoding(c: ChunkView) -> Seq<u8> {
    be_bytes(c.length) + c.tag + c.data + be_bytes(c.crc)
}

/// What checking a buffer's fixed fields gives, where `body_crc` is the CRC-32
/// of the bytes between the length and the trailing checksum: the first failed
/// check in the order length present, tag letters, length agrees, checksum
/// agrees; else the declared length.
pub open spec fn frame_check(b: Seq<u8>, body_crc: u32) -> Result<u32, ChunkError> {
    if b.len() < 12 {
        Err(ChunkError::TruncatedInput)
    } else if !is_valid_tag(b.subrange(4, 8)) {
        Err(ChunkError::InvalidTag)
    } else if b.len() - 12 != be_u32(b.subrange(0, 4)) {
        Err(ChunkError::LengthMismatch)
    } else if be_u32(b.subrange(b.len() - 4, b.len() as int)) != body_crc {
        Err(ChunkError::ChecksumMismatch)
    } else {
        Ok(be_u32(b.subrange(0, 4)) as u32)
    }
}

/// What decoding a buffer gives: the checks of `frame_check` against the
/// CRC-32 of tag and payload; where all pass, the chunk that the buffer spells.
pub open spec fn decoded(b: Seq<u8>) -> Result<ChunkView, ChunkError> {
    if b.len() < 12 {
        Err(ChunkError::TruncatedInput)
    } else {
        match frame_check(b, crc32_of(b.subrange(4, b.len() - 4))) {
            Err(e) => Err(e),
            Ok(length) => Ok(
                ChunkView {
                    length,
                    tag: b.subrange(4, 8),
                    data: b.subrange(8, b.len() - 4),
                    crc: be_u32(b.subrange(b.len() - 4, b.len() as int)) as u32,
                },
            ),
        }
    }
}

/// Checks a buffer's fixed fields against `body_crc`, the CRC-32 of the bytes
/// between its length and its trailing checksum; returns the declared length.
pub fn check_frame(bytes: &[u8], body_crc: u32) -> (r: Result<u32, ChunkError>)
    ensures
        r == frame_check(bytes@, body_crc),
{
    let n = bytes.len();
    if n < 12 {
        return Err(ChunkError::TruncatedInput);
    }
    let tag = ChunkType::from_bytes([bytes[4], bytes[5], bytes[6], bytes[7]]);
    assert(tag@ =~= bytes@.subrange(4, 8));
    if !tag.is_valid() {
        return Err(ChunkError::InvalidTag);
    }
    let length = read_be_u32(bytes, 0);
    if (n - 12) as u64 != length as u64 {
        return Err(ChunkError::LengthMismatch);
    }
    if read_be_u32(bytes, n - 4) != body_crc {
        return Err(ChunkError::ChecksumMismatch);
    }
    Ok(length)
}

/// The decimal digit character for `d`, below ten.
pub open spec fn digit_char(d: u32) -> char {
    ((d + 48) as u8) as char
}

/// The decimal numeral of `n`, without leading zeros.
pub open spec fn decimal(n: u32) -> Seq<char>
    decreases n,
{
    if n < 10 {
        seq![digit_char(n)]
    } else {
        decimal(n / 10).push(digit_char(n % 10))
    }
}

/// A one-line summary of a chunk: its tag, then `length=` and `crc=` with
/// their decimal values.
pub open spec fn summary(c: ChunkView) -> Seq<char> {
    tag_text(c.tag) + seq![' ', 'l', 'e', 'n', 'g', 't', 'h', '='] + decimal(c.length) + seq![
        ' ',
        'c',
        'r',
        'c',
        '=',
    ] + decimal(c.crc)
}

/// Spelling a number in four bytes and reading them back gives the number.
pub proof fn lemma_be_round_trip(x: u32)
    ensures
        be_u32(be_bytes(x)) == x,
{
    let b = be_bytes(x);
    assert(b[0] == x / 0x100_0000);
    assert(b[1] == x / 0x1_0000 % 0x100);
    assert(b[2] == x / 0x100 % 0x100);
    assert(b[3] == x % 0x100);
    assert(be_u32(b) == x) by (nonlinear_arith)
        requires
            b[0] == x / 0x100_0000,
            b[1] == x / 0x1_0000 % 0x100,
            b[2] == x / 0x100 % 0x100,
            b[3] == x % 0x100,
    ;
}

/// Decoding the wire form of a well-formed chunk whose tag is all letters
/// gives that chunk back.
pub proof fn lemma_encoding_decodes(c: ChunkView)
    requires
        c.wf(),
        is_valid_tag(c.tag),
    ensures
        decoded(encoding(c)) == Ok::<ChunkView, ChunkError>(c),
{
    let b = encoding(c);
    lemma_be_round_trip(c.length);
    lemma_be_round_trip(c.crc);
    assert(b.subrange(0, 4) =~= be_bytes(c.length));
    assert(b.subrange(4, 8) =~= c.tag);
    assert(b.subrange(8, b.len() - 4) =~= c.data);
    assert(b.subrange(b.len() - 4, b.len() as int) =~= be_bytes(c.crc));
    assert(b.subrange(4, b.len() - 4) =~= c.tag + c.data);
}

/// For every tag of letters and every payload that a length can count, the
/// chunk that `new` builds, written out by `as_bytes` and read by `decode`,
/// comes back with the same length, tag, payload and checksum.
pub proof fn lemma_round_trip(tag: ChunkType, payload: Seq<u8>)
    requires
        is_valid_tag(tag@),
        payload.len() <= u32::MAX,
    ensures
        decoded(encoding(new_view(tag@, payload))) == Ok::<ChunkView, ChunkError>(
            new_view(tag@, payload),
        ),
{
    lemma_tag_len(tag);
    lemma_encoding_decodes(new_view(tag@, payload));
}

/// The checksum of a new chunk depends on its tag and payload alone: the same
/// tag and payload give the same checksum, the CRC-32 of tag then payload.
pub proof fn lemma_crc_deterministic(
    tag1: ChunkType,
    payload1: Seq<u8>,
    tag2: ChunkType,
    payload2: Seq<u8>,
)
    requires
        tag1@ == tag2@,
        payload1 == payload2,
    ensures
        new_view(tag1@, payload1).crc == new_view(tag2@, payload2).crc,
        new_view(tag1@, payload1).crc == crc32_of(tag1@ + payload1),
{
}

/// A payload of ASCII bytes is valid UTF-8, and the one text that it encodes
/// has a character for each byte, in order: reading it as text drops nothing.
pub proof fn lemma_ascii_text(payload: Seq<u8>, text: Seq<char>)
    requires
        forall|i: int| 0 <= i < payload.len() ==> payload[i] < 128,
    ensures
        valid_utf8(payload),
        encode_utf8(text) == payload ==> text == payload.map_values(|b: u8| b as char),
{
    let chars = payload.map_values(|b: u8| b as char);
    assert(is_ascii_chars(chars));
    is_ascii_chars_encode_utf8(chars);
    assert(encode_utf8(chars) =~= payload);
    encode_utf8_valid_utf8(chars);
    encode_utf8_decode_utf8(chars);
    encode_utf8_decode_utf8(text);
}

fn read_be_u32(b: &[u8], at: usize) -> (r: u32)
    requires
        at + 4 <= b@.len(),
    ensures
        r == be_u32(b@.subrange(at as int, at + 4)),
{
    let r = (b[at] as u32) * 0x100_0000 + (b[at + 1] as u32) * 0x1_0000 + (b[at + 2] as u32)
        * 0x100 + (b[at + 3] as u32);
    r
}

fn push_be_u32(out: &mut Vec<u8>, x: u32)
    ensures
        final(out)@ == old(out)@ + be_bytes(x),
{
    out.push((x / 0x100_0000) as u8);
    out.push((x / 0x1_0000 % 0x100) as u8);
    out.push((x / 0x100 % 0x100) as u8);
    out.push((x % 0x100) as u8);
    assert(final(out)@ =~= old(out)@ + be_bytes(x));
}

fn push_decimal(out: &mut Vec<char>, n: u32)
    ensures
        final(out)@ == old(out)@ + decimal(n),
    decreases n,
{
    if n >= 10 {
        push_decimal(out, n / 10);
    }
    out.push(((n % 10 + 48) as u8) as char);
    assert(final(out)@ =~= old(out)@ + decimal(n));
}

fn push_chars(out: &mut Vec<char>, src: &[char])
    ensures
        final(out)@ == old(out)@ + src@,
{
    let mut i: usize = 0;
    while i < src.len()
        invariant
            i <= src@.len(),
            out@ == old(out)@ + src@.take(i as int),
        decreases src@.len() - i,
    {
        out.push(src[i]);
        i = i + 1;
        assert(src@.take(i as int) =~= src@.take(i - 1) + seq![src@[i - 1]]);
    }
    assert(src@.take(i as int) =~= src@);
}

fn push_bytes(out: &mut Vec<u8>, src: &[u8])
    ensures
        final(out)@ == old(out)@ + src@,
{
    let mut i: usize = 0;
    while i < src.len()
        invariant
            i <= src@.len(),
            out@ == old(out)@ + src@.take(i as int),
        decreases src@.len() - i,
    {
        out.push(src[i]);
        i = i + 1;
        assert(src@.take(i as int) =~= src@.take(i - 1) + seq![src@[i - 1]]);
    }
    assert(src@.take(i as int) =~= src@);
}

/// A chunk: a type tag, a payload, the payload's length and the checksum of
/// tag and payload. Built only by `new` and `decode`, so the three always agree.
#[derive(Debug)]
pub struct Chunk {
    length: u32,
    chunk_type: ChunkType,
    data: Vec<u8>,
    crc: u32,
}

impl View for Chunk {
    type V = ChunkView;

    closed spec fn view(&self) -> ChunkView {
        ChunkView {
            length: self.length,
            tag: self.chunk_type@,
            data: self.data@,
            crc: self.crc,
        }
    }
}

impl Chunk {
    /// The chunk with this tag and payload; the payload is kept as given.
    pub fn new(chunk_type: ChunkType, data: Vec<u8>) -> (r: Chunk)
        requires
            data@.len() <= u32::MAX,
        ensures
            r@ == new_view(chunk_type@, data@),
            r@.wf(),
    {
        proof {
            lemma_tag_len(chunk_type);
        }
        let tag = chunk_type.bytes();
        let mut covered: Vec<u8> = Vec::new();
        push_bytes(&mut covered, &tag);
        push_bytes(&mut covered, data.as_slice());
        let crc = crc32(covered.as_slice());
        Chunk { length: data.len() as u32, chunk_type, data, crc }
    }

    /// Reads a chunk from its wire form, checking its tag, its length and its
    /// checksum.
    pub fn decode(bytes: &[u8]) -> (r: Result<Chunk, ChunkError>)
        ensures
            match decoded(bytes@) {
                Ok(v) => r is Ok && r->Ok_0@ == v,
                Err(e) => r == Err::<Chunk, ChunkError>(e),
            },
            r is Ok ==> r->Ok_0@.wf(),
    {
        let n = bytes.len();
        if n < 12 {
            return Err(ChunkError::TruncatedInput);
        }
        let length = match check_frame(bytes, crc32(&bytes[4..n - 4])) {
            Ok(length) => length,
            Err(e) => {
                return Err(e);
            },
        };
        let chunk_type = ChunkType::from_bytes([bytes[4], bytes[5], bytes[6], bytes[7]]);
        assert(chunk_type@ =~= bytes@.subrange(4, 8));
        let crc = read_be_u32(bytes, n - 4);
        let data = slice_to_vec(&bytes[8..n - 4]);
        assert(bytes@.subrange(4, n - 4) =~= bytes@.subrange(4, 8) + bytes@.subrange(8, n - 4));
        Ok(Chunk { length, chunk_type, data, crc })
    }

    /// The chunk's wire form: length and checksum as big-endian numbers
    /// around the tag and the payload.
    pub fn as_bytes(&self) -> (r: Vec<u8>)
        ensures
            r@ == encoding(self@),
    {
        let mut out: Vec<u8> = Vec::new();
        push_be_u32(&mut out, self.length);
        let tag = self.chunk_type.bytes();
        push_bytes(&mut out, &tag);
        push_bytes(&mut out, self.data.as_slice());
        push_be_u32(&mut out, self.crc);
        out
    }

    /// The number of payload bytes.
    pub fn length(&self) -> (r: u32)
        ensures
            r == self@.length,
    {
        self.length
    }

    /// The chunk's type tag.
    pub fn chunk_type(&self) -> (r: &ChunkType)
        ensures
            r@ == self@.tag,
    {
        &self.chunk_type
    }

    /// The payload.
    pub fn data(&self) -> (r: &[u8])
        ensures
            r@ == self@.data,
    {
        self.data.as_slice()
    }

    /// The payload as text: every byte kept, or `NotUtf8Text` where the
    /// payload is not valid UTF-8.
    pub fn data_as_string(&self) -> (r: Result<String, ChunkError>)
        ensures
            r is Ok <==> valid_utf8(self@.data),
            r is Ok ==> encode_utf8(r->Ok_0@) == self@.data,
            r is Err ==> r == Err::<String, ChunkError>(ChunkError::NotUtf8Text),
    {
        match string_from_utf8(slice_to_vec(self.data.as_slice())) {
            Some(s) => Ok(s),
            None => Err(ChunkError::NotUtf8Text),
        }
    }

    /// A one-line human-readable summary: tag, length and checksum, such as
    /// `RuSt length=42 crc=2882656334`.
    pub fn to_text(&self) -> (r: String)
        ensures
            r@ == summary(self@),
    {
        let tag = self.chunk_type.bytes();
        let mut out: Vec<char> = Vec::new();
        out.push(tag[0] as char);
        out.push(tag[1] as char);
        out.push(tag[2] as char);
        out.push(tag[3] as char);
        proof {
            lemma_tag_len(self.chunk_type);
        }
        assert(out@ =~= tag_text(self@.tag));
        let length_label: [char; 8] = [' ', 'l', 'e', 'n', 'g', 't', 'h', '='];
        push_chars(&mut out, &length_label);
        push_decimal(&mut out, self.length);
        let crc_label: [char; 5] = [' ', 'c', 'r', 'c', '='];
        push_chars(&mut out, &crc_label);
        push_decimal(&mut out, self.crc);
        assert(length_label@ =~= seq![' ', 'l', 'e', 'n', 'g', 't', 'h', '=']);
        assert(crc_label@ =~= seq![' ', 'c', 'r', 'c', '=']);
        assert(out@ =~= summary(self@));
        string_from_chars(out.as_slice())
    }

    /// The stored checksum.
    pub fn crc(&self) -> (r: u32)
        ensures
            r == self@.crc,
    {
        self.crc
    }
}

impl<'a> vstd::std_specs::convert::TryFromSpecImpl<&'a [u8]> for Chunk {
    /// The contract of reading a chunk stands on `decode`.
    open spec fn obeys_try_from_spec() -> bool {
        false
    }

    open spec fn try_from_spec(bytes: &'a [u8]) -> Result<Chunk, ChunkError> {
        Err(ChunkError::TruncatedInput)
    }
}

impl<'a> std::convert::TryFrom<&'a [u8]> for Chunk {
    type Error = ChunkError;

    /// Reads a chunk from its wire form, as `decode` does.
    fn try_from(bytes: &'a [u8]) -> Result<Chunk, ChunkError> {
        Chunk::decode(bytes)
    }
}

} // verus!
