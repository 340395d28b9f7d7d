//! The 32-byte escape-sequence field of a volume descriptor selects how the
//! identifiers of that directory hierarchy are encoded: plain ISO 9660
//! (ASCII, read as UTF-8) or one of the three UCS-2 levels used by Joliet.

use vstd::prelude::*;
use vstd::utf8::decode_utf8;

use crate::error::ISOError;
use crate::strutil::{
    decode_iso_bytes, decode_ucs2_bytes, even_prefix, trim_end_spaces, trim_end_ucs2_spaces,
    utf16be_chars,
};

verus! {

/// The character encoding of the identifiers in a directory hierarchy.
#[derive(Clone, Copy, Debug, PartialEq, Eq, Structural)]
pub enum CharacterEncoding {
    /// Plain ISO 9660: ASCII, decoded as UTF-8.
    Iso9660,
    /// UCS-2 Level 1 (Joliet).
    Ucs2Level1,
    /// UCS-2 Level 2 (Joliet).
    Ucs2Level2,
    /// UCS-2 Level 3 (Joliet).
    Ucs2Level3,
}

/// The encoding selected by an escape-sequence field: a `25 2F 4x` prefix
/// picks a UCS-2 level, an all-zero field picks plain ISO 9660, and anything
/// else is rejected.
pub open spec fn character_encoding_of(d: Seq<u8>) -> Option<CharacterEncoding> {
    if d.len() >= 3 && d[0] == 0x25 && d[1] == 0x2f && d[2] == 0x40 {
        Some(CharacterEncoding::Ucs2Level1)
    } else if d.len() >= 3 && d[0] == 0x25 && d[1] == 0x2f && d[2] == 0x43 {
        Some(CharacterEncoding::Ucs2Level2)
    } else if d.len() >= 3 && d[0] == 0x25 && d[1] == 0x2f && d[2] == 0x45 {
        Some(CharacterEncoding::Ucs2Level3)
    } else if d.len() >= 32 && (forall|i: int| 0 <= i < 32 ==> d[i] == 0) {
        Some(CharacterEncoding::Iso9660)
    } else {
        None
    }
}

impl CharacterEncoding {
    /// Decodes the 32-byte escape-sequence field of a volume descriptor.
    #[verifier::loop_isolation(false)]
    pub fn parse(input: &[u8]) -> (r: Result<Self, ISOError>)
        ensures
            r matches Ok(e) ==> character_encoding_of(input@) == Some(e),
            r is Err <==> character_encoding_of(input@) is None,
            r matches Err(e) ==> e == ISOError::InvalidFs("unknown character encoding"),
    {
        let len = input.len();
        if len >= 3 && input[0] == 0x25 && input[1] == 0x2f && input[2] == 0x40 {
            return Ok(CharacterEncoding::Ucs2Level1);
        }
        if len >= 3 && input[0] == 0x25 && input[1] == 0x2f && input[2] == 0x43 {
            return Ok(CharacterEncoding::Ucs2Level2);
        }
        if len >= 3 && input[0] == 0x25 && input[1] == 0x2f && input[2] == 0x45 {
            return Ok(CharacterEncoding::Ucs2Level3);
        }
        if len < 32 {
            return Err(ISOError::InvalidFs("unknown character encoding"));
        }
        let mut i: usize = 0;
        while i < 32
            invariant
                i <= 32,
                32 <= len == input@.len(),
                forall|j: int| 0 <= j < i ==> input@[j] == 0,
            decreases 32 - i,
        {
            if input[i] != 0 {
                proof {
                    assert(!(forall|j: int| 0 <= j < 32 ==> input@[j] == 0)) by {
                        assert(input@[i as int] != 0);
                    }
                }
                return Err(ISOError::InvalidFs("unknown character encoding"));
            }
            i = i + 1;
        }
        Ok(CharacterEncoding::Iso9660)
    }
}

/// The characters that a string field holds under the given encoding, with
/// the trailing padding that ISO 9660 adds to fixed-width fields removed.
pub open spec fn decoded_chars(d: Seq<u8>, enc: CharacterEncoding) -> Seq<char> {
    if enc is Iso9660 {
        decode_utf8(trim_end_spaces(d))
    } else {
        utf16be_chars(trim_end_ucs2_spaces(even_prefix(d)))
    }
}

/// Whether a string field is decodable; for the UCS-2 encodings this is left
/// open, since their decoder is relied on rather than modelled.
pub open spec fn decode_ok(d: Seq<u8>, enc: CharacterEncoding) -> bool {
    if enc is Iso9660 {
        vstd::utf8::valid_utf8(trim_end_spaces(d))
    } else {
        true
    }
}

/// Decodes a string field under the given encoding, trimming trailing
/// padding.
pub fn decode_string(d: &[u8], enc: CharacterEncoding) -> (r: Result<String, ISOError>)
    ensures
        r matches Ok(s) ==> s@ == decoded_chars(d@, enc),
        enc is Iso9660 ==> ((r is Ok) <==> decode_ok(d@, enc)),
        r matches Err(e) ==> (e == ISOError::Utf8 || e == ISOError::Utf16),
        r matches Err(e) ==> (e == ISOError::Utf8 <==> enc is Iso9660),
{
    match enc {
        CharacterEncoding::Iso9660 => decode_iso_bytes(d),
        CharacterEncoding::Ucs2Level1 => decode_ucs2_bytes(d),
        CharacterEncoding::Ucs2Level2 => decode_ucs2_bytes(d),
        CharacterEncoding::Ucs2Level3 => decode_ucs2_bytes(d),
    }
}

} // verus!
