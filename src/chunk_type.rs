use vstd::prelude::*;

use crate::errors::PngError;
use crate::text::{all_ascii, lemma_ascii_utf8, string_from_utf8};

verus! {

/// True when `b` is an ASCII uppercase letter.
pub open spec fn is_upper(b: u8) -> bool {
    65 <= b <= 90
}

/// True when `b` is an ASCII lowercase letter.
pub open spec fn is_lower(b: u8) -> bool {
    97 <= b <= 122
}

/// True when `b` is an ASCII letter.
pub open spec fn is_alpha(b: u8) -> bool {
    is_upper(b) || is_lower(b)
}

/// True when every byte of `s` is an ASCII letter.
pub open spec fn all_alpha(s: Seq<u8>) -> bool {
    forall|i: int| 0 <= i < s.len() ==> is_alpha(#[trigger] s[i])
}

/// True when `c` is an ASCII letter.
pub open spec fn is_alpha_char(c: char) -> bool {
    (65 <= c as u32 <= 90) || (97 <= c as u32 <= 122)
}

/// True when every character of `s` is an ASCII letter.
pub open spec fn all_alpha_chars(s: Seq<char>) -> bool {
    forall|i: int| 0 <= i < s.len() ==> is_alpha_char(#[trigger] s[i])
}

/// The characters that the bytes of `s` stand for, one for one.
pub open spec fn text_of(s: Seq<u8>) -> Seq<char> {
    Seq::new(s.len(), |i: int| s[i] as char)
}

/// The type code `b` is valid: its reserved bit is valid (third byte
/// uppercase) and all four bytes are ASCII letters.
pub open spec fn type_code_valid(b: Seq<u8>) -> bool {
    is_upper(b[2]) && all_alpha(b)
}

/// A type code of four letters whose third byte is lowercase can be built,
/// yet it is not valid: the two checks are independent.
pub proof fn lemma_validity_independent(b: Seq<u8>)
    requires
        b.len() == 4,
        all_alpha(b),
        is_lower(b[2]),
    ensures
        all_alpha(b),
        !type_code_valid(b),
{
}

fn byte_is_upper(b: u8) -> (r: bool)
    ensures
        r == is_upper(b),
{
    65 <= b && b <= 90
}

fn byte_is_lower(b: u8) -> (r: bool)
    ensures
        r == is_lower(b),
{
    97 <= b && b <= 122
}

fn byte_is_alpha(b: u8) -> (r: bool)
    ensures
        r == is_alpha(b),
{
    byte_is_upper(b) || byte_is_lower(b)
}

/// The four-byte type code of a PNG chunk. Every byte is an ASCII letter;
/// the case of each byte carries one property of the chunk.
#[derive(Debug, Clone, Copy, Eq)]
pub struct ChunkType([u8; 4]);

impl View for ChunkType {
    type V = Seq<u8>;

    closed spec fn view(&self) -> Seq<u8> {
        self.0@
    }
}

impl ChunkType {
    #[verifier::type_invariant]
    closed spec fn letters_only(self) -> bool {
        all_alpha(self.0@)
    }

    /// The type code as ASCII text, one character per byte.
    pub open spec fn text(&self) -> Seq<char> {
        text_of(self@)
    }

    /// Builds a type code from four bytes, which must all be ASCII letters.
    pub fn from_bytes(value: [u8; 4]) -> (r: Result<ChunkType, PngError>)
        ensures
            r is Ok <==> all_alpha(value@),
            r matches Ok(t) ==> t@ == value@,
            r matches Err(e) ==> e == PngError::InvalidByte,
    {
        let mut i: usize = 0;
        while i < 4
            invariant
                i <= 4,
                forall|j: int| 0 <= j < i ==> is_alpha(#[trigger] value@[j]),
            decreases 4 - i,
        {
            if !byte_is_alpha(value[i]) {
                return Err(PngError::InvalidByte);
            }
            i = i + 1;
        }
        Ok(ChunkType(value))
    }

    /// Parses a type code from its text: four ASCII letters. A character
    /// that is not an ASCII letter is reported before a wrong length.
    pub fn parse(s: &str) -> (r: Result<ChunkType, PngError>)
        ensures
            r is Ok <==> all_alpha_chars(s@) && s@.len() == 4,
            r matches Ok(t) ==> t.text() == s@,
            r matches Err(e) ==> (e == PngError::InvalidByte <==> !all_alpha_chars(s@)),
            r matches Err(e) ==> (e == PngError::InvalidByte || e == PngError::InvalidTypeLength),
    {
        let n = s.unicode_len();
        let mut i: usize = 0;
        while i < n
            invariant
                i <= n,
                n == s@.len(),
                forall|j: int| 0 <= j < i ==> is_alpha_char(#[trigger] s@[j]),
            decreases n - i,
        {
            let c = s.get_char(i);
            let v = c as u32;
            if !((65 <= v && v <= 90) || (97 <= v && v <= 122)) {
                return Err(PngError::InvalidByte);
            }
            i = i + 1;
        }
        if n != 4 {
            return Err(PngError::InvalidTypeLength);
        }
        let value: [u8; 4] = [
            s.get_char(0) as u32 as u8,
            s.get_char(1) as u32 as u8,
            s.get_char(2) as u32 as u8,
            s.get_char(3) as u32 as u8,
        ];
        assert(text_of(value@) =~= s@);
        Ok(ChunkType(value))
    }

    /// The type code as text: its four bytes read as ASCII characters.
    pub fn to_string(&self) -> (r: String)
        ensures
            r@ == self.text(),
    {
        proof {
            use_type_invariant(self);
            lemma_ascii_utf8(self.0@);
        }
        let bytes = vec![self.0[0], self.0[1], self.0[2], self.0[3]];
        assert(bytes@ =~= self.0@);
        match string_from_utf8(bytes) {
            Some(text) => text,
            None => String::new(),
        }
    }

    /// True when `s` is exactly the text of the type code.
    pub fn has_text(&self, s: &str) -> (r: bool)
        ensures
            r == (self.text() == s@),
    {
        if s.unicode_len() != 4 {
            return false;
        }
        let mut i: usize = 0;
        while i < 4
            invariant
                i <= 4,
                s@.len() == 4,
                forall|j: int| 0 <= j < i ==> s@[j] == #[trigger] self.text()[j],
            decreases 4 - i,
        {
            if s.get_char(i) != self.0[i] as char {
                return false;
            }
            i = i + 1;
        }
        assert(self.text() =~= s@);
        true
    }

    /// Critical: the first byte is uppercase.
    pub fn is_critical(&self) -> (r: bool)
        ensures
            r == is_upper(self@[0]),
    {
        byte_is_upper(self.0[0])
    }

    /// Public: the second byte is uppercase.
    pub fn is_public(&self) -> (r: bool)
        ensures
            r == is_upper(self@[1]),
    {
        byte_is_upper(self.0[1])
    }

    /// The reserved bit is valid: the third byte is uppercase.
    pub fn is_reserved_bit_valid(&self) -> (r: bool)
        ensures
            r == is_upper(self@[2]),
    {
        byte_is_upper(self.0[2])
    }

    /// Safe to copy: the fourth byte is lowercase.
    pub fn is_safe_to_copy(&self) -> (r: bool)
        ensures
            r == is_lower(self@[3]),
    {
        byte_is_lower(self.0[3])
    }

    /// Valid: the reserved bit is valid and all four bytes are ASCII letters.
    pub fn is_valid(&self) -> (r: bool)
        ensures
            r == type_code_valid(self@),
    {
        if !self.is_reserved_bit_valid() {
            return false;
        }
        let mut i: usize = 0;
        while i < 4
            invariant
                i <= 4,
                forall|j: int| 0 <= j < i ==> is_alpha(#[trigger] self@[j]),
            decreases 4 - i,
        {
            if !byte_is_alpha(self.0[i]) {
                return false;
            }
            i = i + 1;
        }
        true
    }

    /// The four bytes of the type code.
    pub fn bytes(&self) -> (r: [u8; 4])
        ensures
            r@ == self@,
            self@.len() == 4,
            all_alpha(self@),
    {
        proof {
            use_type_invariant(self);
        }
        self.0
    }
}

impl TryFrom<[u8; 4]> for ChunkType {
    type Error = PngError;

    fn try_from(value: [u8; 4]) -> Result<ChunkType, PngError> {
        let r = ChunkType::from_bytes(value);
        proof {
            if let Ok(t) = r {
                assert(t.0 =~= value);
            }
        }
        r
    }
}

impl vstd::std_specs::convert::TryFromSpecImpl<[u8; 4]> for ChunkType {
    open spec fn obeys_try_from_spec() -> bool {
        true
    }

    closed spec fn try_from_spec(value: [u8; 4]) -> Result<ChunkType, PngError> {
        if all_alpha(value@) {
            Ok(ChunkType(value))
        } else {
            Err(PngError::InvalidByte)
        }
    }
}

impl std::str::FromStr for ChunkType {
    type Err = PngError;

    fn from_str(s: &str) -> Result<ChunkType, PngError> {
        ChunkType::parse(s)
    }
}

impl PartialEq for ChunkType {
    fn eq(&self, other: &ChunkType) -> (r: bool) {
        let r = self.0[0] == other.0[0] && self.0[1] == other.0[1] && self.0[2] == other.0[2]
            && self.0[3] == other.0[3];
        proof {
            if r {
                assert(self.0@ =~= other.0@);
            }
        }
        r
    }
}

impl vstd::std_specs::cmp::PartialEqSpecImpl for ChunkType {
    open spec fn obeys_eq_spec() -> bool {
        true
    }

    open spec fn eq_spec(&self, other: &ChunkType) -> bool {
        self@ == other@
    }
}

} // verus!
