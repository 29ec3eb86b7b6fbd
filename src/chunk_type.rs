use crate::error::ChunkError;
use crate::text::string_from_chars;
use vstd::prelude::*;
use vstd::string::StringSliceAdditionalSpecFns;
use vstd::utf8::{
    char_is_scalar, char_u32_cast, encode_scalar, encode_utf8, has_width_1_encoding,
    has_width_2_encoding, has_width_3_encoding, has_width_4_encoding, is_ascii_chars,
    is_ascii_chars_encode_utf8, leading_byte_width_1, leading_byte_width_2, leading_byte_width_3,
    leading_byte_width_4,
};

verus! {

/// An ASCII letter, `A`-`Z` or `a`-`z`.
pub open spec fn is_tag_letter(b: u8) -> bool {
    (0x41 <= b && b <= 0x5a) || (0x61 <= b && b <= 0x7a)
}

/// Four bytes, each an ASCII letter.
pub open spec fn is_valid_tag(b: Seq<u8>) -> bool {
    &&& b.len() == 4
    &&& is_tag_letter(b[0])
    &&& is_tag_letter(b[1])
    &&& is_tag_letter(b[2])
    &&& is_tag_letter(b[3])
}

/// The case bit of a tag byte (bit 5, mask `0x20`) is clear: an uppercase
/// letter.
pub open spec fn flag_clear(b: u8) -> bool {
    b & 0x20 == 0
}

/// The characters that render a tag: each byte read as one character.
pub open spec fn tag_text(b: Seq<u8>) -> Seq<char> {
    b.map_values(|x: u8| x as char)
}

/// A four-byte chunk type tag, such as `IHDR` or `RuSt`.
#[derive(PartialEq, Eq, Structural, Debug, Clone, Copy)]
pub struct ChunkType {
    b0: u8,
    b1: u8,
    b2: u8,
    b3: u8,
}

impl View for ChunkType {
    type V = Seq<u8>;

    /// The tag's four bytes, left to right.
    closed spec fn view(&self) -> Seq<u8> {
        seq![self.b0, self.b1, self.b2, self.b3]
    }
}

fn is_letter(b: u8) -> (r: bool)
    ensures
        r == is_tag_letter(b),
{
    (0x41 <= b && b <= 0x5a) || (0x61 <= b && b <= 0x7a)
}

impl ChunkType {
    /// The tag made of four raw bytes, letters or not.
    pub fn from_bytes(bytes: [u8; 4]) -> (r: ChunkType)
        ensures
            r@ == bytes@,
    {
        let r = ChunkType { b0: bytes[0], b1: bytes[1], b2: bytes[2], b3: bytes[3] };
        assert(r@ =~= bytes@);
        r
    }

    /// The tag's four bytes.
    pub fn bytes(&self) -> (r: [u8; 4])
        ensures
            r@ == self@,
    {
        let r = [self.b0, self.b1, self.b2, self.b3];
        assert(r@ =~= self@);
        r
    }

    /// Whether every byte is an ASCII letter.
    pub fn is_valid(&self) -> (r: bool)
        ensures
            r == is_valid_tag(self@),
    {
        is_letter(self.b0) && is_letter(self.b1) && is_letter(self.b2) && is_letter(self.b3)
    }

    /// Whether the chunk is critical: the first byte's case bit is clear.
    pub fn is_critical(&self) -> (r: bool)
        ensures
            r == flag_clear(self@[0]),
    {
        self.b0 & 0x20 == 0
    }

    /// Whether the chunk is public: the second byte's case bit is clear.
    pub fn is_public(&self) -> (r: bool)
        ensures
            r == flag_clear(self@[1]),
    {
        self.b1 & 0x20 == 0
    }

    /// Whether the reserved bit is valid: the third byte's case bit is clear.
    pub fn is_reserved_bit_valid(&self) -> (r: bool)
        ensures
            r == flag_clear(self@[2]),
    {
        self.b2 & 0x20 == 0
    }

    /// Whether the chunk is safe to copy: the fourth byte's case bit is set.
    pub fn is_safe_to_copy(&self) -> (r: bool)
        ensures
            r == !flag_clear(self@[3]),
    {
        self.b3 & 0x20 != 0
    }

    /// Reads a tag from the first four bytes of `s`; fails unless all four are
    /// ASCII letters.
    pub fn from_text(s: &str) -> (r: Result<ChunkType, ChunkError>)
        requires
            s.spec_bytes().len() >= 4,
        ensures
            is_valid_tag(s.spec_bytes().take(4)) ==> r is Ok && r->Ok_0@ == s.spec_bytes().take(4),
            !is_valid_tag(s.spec_bytes().take(4)) ==> r == Err::<ChunkType, ChunkError>(
                ChunkError::InvalidTag,
            ),
    {
        let b = s.as_bytes();
        let t = ChunkType { b0: b[0], b1: b[1], b2: b[2], b3: b[3] };
        assert(t@ =~= s.spec_bytes().take(4));
        if t.is_valid() {
            Ok(t)
        } else {
            Err(ChunkError::InvalidTag)
        }
    }

    /// The tag as text, one character per byte, left to right.
    pub fn to_text(&self) -> (r: String)
        ensures
            r@ == tag_text(self@),
    {
        let cs: [char; 4] = [self.b0 as char, self.b1 as char, self.b2 as char, self.b3 as char];
        let r = string_from_chars(&cs);
        assert(cs@ =~= tag_text(self@));
        r
    }
}

impl std::convert::TryFrom<[u8; 4]> for ChunkType {
    type Error = ChunkError;

    /// The tag made of four raw bytes; this never fails.
    fn try_from(bytes: [u8; 4]) -> Result<ChunkType, ChunkError> {
        Ok(ChunkType::from_bytes(bytes))
    }
}

impl vstd::std_specs::convert::TryFromSpecImpl<[u8; 4]> for ChunkType {
    open spec fn obeys_try_from_spec() -> bool {
        true
    }

    closed spec fn try_from_spec(bytes: [u8; 4]) -> Result<ChunkType, ChunkError> {
        Ok(ChunkType { b0: bytes[0], b1: bytes[1], b2: bytes[2], b3: bytes[3] })
    }
}

impl std::str::FromStr for ChunkType {
    type Err = ChunkError;

    /// Reads a tag from the first four bytes of `s`, as `from_text` does; text
    /// shorter than four bytes is no tag either.
    fn from_str(s: &str) -> Result<ChunkType, ChunkError> {
        if s.len() < 4 {
            Err(ChunkError::InvalidTag)
        } else {
            ChunkType::from_text(s)
        }
    }
}


/// Two tags with the same bytes are the same tag.
pub proof fn lemma_view_eq(a: ChunkType, b: ChunkType)
    requires
        a@ == b@,
    ensures
        a == b,
{
    assert(a.b0 == a@[0] && a.b1 == a@[1] && a.b2 == a@[2] && a.b3 == a@[3]);
    assert(b.b0 == b@[0] && b.b1 == b@[1] && b.b2 == b@[2] && b.b3 == b@[3]);
}

/// A tag has four bytes.
pub proof fn lemma_tag_len(t: ChunkType)
    ensures
        t@.len() == 4,
{
}

/// The text of a tag of letters reads back as that tag: it is four bytes
/// long, and those bytes are the tag's.
pub proof fn lemma_text_round_trip(t: ChunkType, s: &str)
    requires
        is_valid_tag(t@),
        s@ == tag_text(t@),
    ensures
        s.spec_bytes().len() == 4,
        s.spec_bytes().take(4) == t@,
{
    assert(is_ascii_chars(s@));
    is_ascii_chars_encode_utf8(s@);
    assert(s.spec_bytes().take(4) =~= t@);
}

/// Where the first `k` bytes of a text's UTF-8 form are ASCII, so are its
/// first `k` characters, one for each byte.
proof fn lemma_ascii_bytes_prefix(chars: Seq<char>, k: int)
    requires
        0 <= k <= encode_utf8(chars).len(),
        forall|i: int| 0 <= i < k ==> encode_utf8(chars)[i] < 128,
    ensures
        k <= chars.len(),
        forall|i: int| 0 <= i < k ==> chars[i] == encode_utf8(chars)[i] as char,
    decreases k,
{
    if k > 0 {
        let bytes = encode_utf8(chars);
        assert(chars.len() > 0);
        let c = chars[0] as u32;
        let rest = chars.drop_first();
        assert(bytes == encode_scalar(c) + encode_utf8(rest));
        char_is_scalar(chars[0]);
        assert(bytes[0] == encode_scalar(c)[0]);
        if has_width_2_encoding(c) {
            assert(leading_byte_width_2(c) >= 0xc0) by (bit_vector);
        } else if has_width_3_encoding(c) {
            assert(leading_byte_width_3(c) >= 0xc0) by (bit_vector);
        } else if has_width_4_encoding(c) {
            assert(leading_byte_width_4(c) >= 0xc0) by (bit_vector);
        }
        assert(has_width_1_encoding(c));
        assert(leading_byte_width_1(c) as u32 == c) by (bit_vector)
            requires
                has_width_1_encoding(c),
        ;
        char_u32_cast(chars[0], c);
        assert forall|i: int| 0 <= i < k - 1 implies encode_utf8(rest)[i] < 128 by {
            assert(encode_utf8(rest)[i] == bytes[i + 1]);
        }
        lemma_ascii_bytes_prefix(rest, k - 1);
        assert forall|i: int| 0 <= i < k implies chars[i] == bytes[i] as char by {
            if i > 0 {
                assert(chars[i] == rest[i - 1]);
                assert(bytes[i] == encode_utf8(rest)[i - 1]);
            }
        }
    }
}

/// Rendering a tag read from text gives back the text's first four
/// characters: the text begins with the tag's letters, one character each.
pub proof fn lemma_text_prefix(s: &str)
    requires
        s.spec_bytes().len() >= 4,
        is_valid_tag(s.spec_bytes().take(4)),
    ensures
        s@.len() >= 4,
        tag_text(s.spec_bytes().take(4)) == s@.take(4),
{
    let b = s.spec_bytes();
    lemma_ascii_bytes_prefix(s@, 4);
    assert(tag_text(b.take(4)) =~= s@.take(4));
}

} // verus!
