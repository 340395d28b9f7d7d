//! String helpers shared by the parsers: ASCII case-insensitive comparison,
//! byte-level trimming of the padding that ISO 9660 puts at the end of
//! fixed-width string fields, and the decoding of identifier bytes into
//! `String`s.

use vstd::prelude::*;
use vstd::slice::{slice_subrange, slice_to_vec};
use vstd::utf8::{decode_utf8, valid_utf8};

use crate::error::ISOError;

verus! {

/// Two characters are equal up to ASCII case: they are the same code point,
/// or one is an ASCII letter and the other its other-case sibling.
pub open spec fn char_eq_ignore_ascii_case(a: char, b: char) -> bool {
    ||| a as int == b as int
    ||| (0x41 <= a as int <= 0x5a && b as int == a as int + 0x20)
    ||| (0x61 <= a as int <= 0x7a && b as int == a as int - 0x20)
}

/// Two character sequences are equal up to ASCII case.
pub open spec fn seq_eq_ignore_ascii_case(a: Seq<char>, b: Seq<char>) -> bool {
    a.len() == b.len() && forall|i: int|
        0 <= i < a.len() ==> char_eq_ignore_ascii_case(a[i], b[i])
}

fn char_eq_icase(ca: char, cb: char) -> (r: bool)
    ensures
        r == char_eq_ignore_ascii_case(ca, cb),
{
    let a = ca as u32;
    let b = cb as u32;
    if a == b {
        true
    } else if 0x41 <= a && a <= 0x5a {
        b == a + 0x20
    } else if 0x61 <= a && a <= 0x7a {
        b == a - 0x20
    } else {
        false
    }
}

/// Compares two strings for equality ignoring the case of ASCII letters.
pub fn str_eq_ignore_ascii_case(a: &str, b: &str) -> (r: bool)
    ensures
        r == seq_eq_ignore_ascii_case(a@, b@),
{
    let alen = a.unicode_len();
    let blen = b.unicode_len();
    if alen != blen {
        return false;
    }
    let mut i: usize = 0;
    while i < alen
        invariant
            alen == a@.len(),
            blen == b@.len(),
            alen == blen,
            i <= alen,
            forall|j: int| 0 <= j < i ==> char_eq_ignore_ascii_case(a@[j], b@[j]),
        decreases alen - i,
    {
        let ca = a.get_char(i);
        let cb = b.get_char(i);
        if !char_eq_icase(ca, cb) {
            return false;
        }
        i = i + 1;
    }
    true
}

/// Equality up to ASCII case only looks through the case of each character:
/// replacing one side by any sequence that is itself equal to it up to ASCII
/// case does not change the outcome.
pub proof fn lemma_eq_ignore_ascii_case_stable(a: Seq<char>, b: Seq<char>, c: Seq<char>)
    requires
        seq_eq_ignore_ascii_case(b, c),
    ensures
        seq_eq_ignore_ascii_case(a, b) == seq_eq_ignore_ascii_case(a, c),
{
    if seq_eq_ignore_ascii_case(a, b) {
        assert forall|i: int| 0 <= i < a.len() implies char_eq_ignore_ascii_case(a[i], c[i]) by {
            assert(char_eq_ignore_ascii_case(a[i], b[i]));
            assert(char_eq_ignore_ascii_case(b[i], c[i]));
        }
    }
    if seq_eq_ignore_ascii_case(a, c) {
        assert forall|i: int| 0 <= i < a.len() implies char_eq_ignore_ascii_case(a[i], b[i]) by {
            assert(char_eq_ignore_ascii_case(a[i], c[i]));
            assert(char_eq_ignore_ascii_case(b[i], c[i]));
        }
    }
}

/// The byte sequence with every trailing ASCII space removed.
pub open spec fn trim_end_spaces(d: Seq<u8>) -> Seq<u8>
    decreases d.len(),
{
    if d.len() > 0 && d[d.len() - 1] == 0x20 {
        trim_end_spaces(d.drop_last())
    } else {
        d
    }
}

/// The byte sequence with every leading and trailing NUL byte removed.
pub open spec fn trim_nuls(d: Seq<u8>) -> Seq<u8> {
    trim_start_nuls(trim_end_nuls(d))
}

pub open spec fn trim_end_nuls(d: Seq<u8>) -> Seq<u8>
    decreases d.len(),
{
    if d.len() > 0 && d[d.len() - 1] == 0 {
        trim_end_nuls(d.drop_last())
    } else {
        d
    }
}

pub open spec fn trim_start_nuls(d: Seq<u8>) -> Seq<u8>
    decreases d.len(),
{
    if d.len() > 0 && d[0] == 0 {
        trim_start_nuls(d.skip(1))
    } else {
        d
    }
}

/// The even-length prefix of a byte sequence: a fixed-width UCS-2 field of
/// odd width carries a dangling pad byte that is no part of any character.
pub open spec fn even_prefix(d: Seq<u8>) -> Seq<u8> {
    d.take(d.len() - (d.len() % 2))
}

/// The UCS-2 big-endian byte sequence with every trailing encoded ASCII
/// space (the byte pair `00 20`) removed.  Sequences of odd length carry a
/// malformed tail and are left alone.
pub open spec fn trim_end_ucs2_spaces(d: Seq<u8>) -> Seq<u8>
    decreases d.len(),
{
    if d.len() >= 2 && d.len() % 2 == 0 && d[d.len() - 2] == 0 && d[d.len() - 1] == 0x20 {
        trim_end_ucs2_spaces(d.take(d.len() - 2))
    } else {
        d
    }
}

proof fn lemma_trim_end_spaces_take(d: Seq<u8>, cut: int)
    requires
        0 <= cut <= d.len(),
        forall|i: int| cut <= i < d.len() ==> d[i] == 0x20,
        cut > 0 ==> d[cut - 1] != 0x20,
    ensures
        trim_end_spaces(d) == d.take(cut),
    decreases d.len(),
{
    if cut < d.len() {
        assert(d[d.len() - 1] == 0x20);
        lemma_trim_end_spaces_take(d.drop_last(), cut);
        assert(d.drop_last().take(cut) == d.take(cut));
    } else {
        assert(d.take(cut) == d);
    }
}

/// Returns `d` with trailing ASCII spaces removed.
pub fn trim_end_spaces_exec<'a>(d: &'a [u8]) -> (r: &'a [u8])
    ensures
        r@ == trim_end_spaces(d@),
{
    let len = d.len();
    let mut cut: usize = len;
    while cut > 0 && d[cut - 1] == 0x20
        invariant
            cut <= len,
            len == d@.len(),
            forall|i: int| cut <= i < len ==> d@[i] == 0x20,
        decreases cut,
    {
        cut = cut - 1;
    }
    proof {
        lemma_trim_end_spaces_take(d@, cut as int);
    }
    slice_subrange(d, 0, cut)
}

proof fn lemma_trim_end_nuls_take(d: Seq<u8>, cut: int)
    requires
        0 <= cut <= d.len(),
        forall|i: int| cut <= i < d.len() ==> d[i] == 0,
        cut > 0 ==> d[cut - 1] != 0,
    ensures
        trim_end_nuls(d) == d.take(cut),
    decreases d.len(),
{
    if cut < d.len() {
        lemma_trim_end_nuls_take(d.drop_last(), cut);
        assert(d.drop_last().take(cut) == d.take(cut));
    } else {
        assert(d.take(cut) == d);
    }
}

proof fn lemma_trim_start_nuls_skip(d: Seq<u8>, start: int)
    requires
        0 <= start <= d.len(),
        forall|i: int| 0 <= i < start ==> d[i] == 0,
        start < d.len() ==> d[start] != 0,
    ensures
        trim_start_nuls(d) == d.skip(start),
    decreases d.len(),
{
    if start > 0 {
        lemma_trim_start_nuls_skip(d.skip(1), start - 1);
        assert(d.skip(1).skip(start - 1) == d.skip(start));
    } else {
        assert(d.skip(0) == d);
    }
}

/// Returns `d` with leading and trailing NUL bytes removed.
pub fn trim_nuls_exec<'a>(d: &'a [u8]) -> (r: &'a [u8])
    ensures
        r@ == trim_nuls(d@),
{
    let len = d.len();
    let mut cut: usize = len;
    while cut > 0 && d[cut - 1] == 0
        invariant
            cut <= len,
            len == d@.len(),
            forall|i: int| cut <= i < len ==> d@[i] == 0,
        decreases cut,
    {
        cut = cut - 1;
    }
    proof {
        lemma_trim_end_nuls_take(d@, cut as int);
    }
    let mut start: usize = 0;
    while start < cut && d[start] == 0
        invariant
            start <= cut <= len,
            len == d@.len(),
            forall|i: int| 0 <= i < start ==> d@[i] == 0,
        decreases cut - start,
    {
        start = start + 1;
    }
    proof {
        let t = trim_end_nuls(d@);
        assert(t == d@.take(cut as int));
        lemma_trim_start_nuls_skip(t, start as int);
        assert(t.skip(start as int) == d@.subrange(start as int, cut as int));
    }
    slice_subrange(d, start, cut)
}

proof fn lemma_trim_end_ucs2_take(d: Seq<u8>, cut: int)
    requires
        0 <= cut <= d.len(),
        d.len() % 2 == 0,
        cut % 2 == 0,
        forall|i: int| cut <= i < d.len() && (i - cut) % 2 == 0 ==> d[i] == 0,
        forall|i: int| cut <= i < d.len() && (i - cut) % 2 == 1 ==> d[i] == 0x20,
        cut >= 2 ==> !(d[cut - 2] == 0 && d[cut - 1] == 0x20),
    ensures
        trim_end_ucs2_spaces(d) == d.take(cut),
    decreases d.len(),
{
    if cut < d.len() {
        assert(d[d.len() - 2] == 0 && d[d.len() - 1] == 0x20);
        lemma_trim_end_ucs2_take(d.take(d.len() - 2), cut);
        assert(d.take(d.len() - 2).take(cut) == d.take(cut));
    } else {
        assert(d.take(cut) == d);
    }
}

/// Returns `d` with trailing UCS-2 big-endian encoded spaces removed.
pub fn trim_end_ucs2_spaces_exec<'a>(d: &'a [u8]) -> (r: &'a [u8])
    ensures
        r@ == trim_end_ucs2_spaces(d@),
{
    let len = d.len();
    if len % 2 != 0 {
        assert(trim_end_ucs2_spaces(d@) == d@);
        assert(d@.subrange(0, len as int) == d@);
        return slice_subrange(d, 0, len);
    }
    let mut cut: usize = len;
    while cut >= 2 && d[cut - 2] == 0 && d[cut - 1] == 0x20
        invariant
            cut <= len,
            len == d@.len(),
            len % 2 == 0,
            cut % 2 == 0,
            forall|i: int| cut <= i < len && (i - cut) % 2 == 0 ==> d@[i] == 0,
            forall|i: int| cut <= i < len && (i - cut) % 2 == 1 ==> d@[i] == 0x20,
        decreases cut,
    {
        cut = cut - 2;
    }
    proof {
        lemma_trim_end_ucs2_take(d@, cut as int);
    }
    slice_subrange(d, 0, cut)
}

/// Relies on `String::from_utf8`: it succeeds exactly on valid UTF-8 input
/// and then returns the string whose characters are the UTF-8 decoding of
/// the bytes.
#[verifier::external_body]
pub fn string_from_utf8(v: Vec<u8>) -> (r: Option<String>)
    ensures
        r is Some <==> valid_utf8(v@),
        r matches Some(s) ==> s@ == decode_utf8(v@),
{
    String::from_utf8(v).ok()
}

/// The characters that `encoding_rs`'s UTF-16BE decoder produces for the
/// given bytes when the decode reports no malformed sequences.
pub uninterp spec fn utf16be_chars(bytes: Seq<u8>) -> Seq<char>;

/// Relies on `encoding_rs::UTF_16BE::decode`: the decode of a complete
/// buffer depends on the bytes alone, and its `had_errors` flag reports
/// whether any malformed sequence was replaced.  A decode with errors is
/// mapped to `None`; an empty input always decodes cleanly to the empty
/// string.
#[verifier::external_body]
pub fn decode_utf16be(bytes: &[u8]) -> (r: Option<String>)
    ensures
        r matches Some(s) ==> s@ == utf16be_chars(bytes@),
        bytes@.len() == 0 ==> r is Some,
{
    let (cow, _encoding, had_errors) = encoding_rs::UTF_16BE.decode(bytes);
    if had_errors {
        None
    } else {
        Some(cow.into_owned())
    }
}

/// Decodes identifier bytes that are expected to be UTF-8 (in practice
/// ASCII), with trailing space padding removed.
pub fn decode_iso_bytes(bytes: &[u8]) -> (r: Result<String, ISOError>)
    ensures
        r matches Ok(s) ==> valid_utf8(trim_end_spaces(bytes@)) && s@ == decode_utf8(
            trim_end_spaces(bytes@),
        ),
        r is Err <==> !valid_utf8(trim_end_spaces(bytes@)),
        r matches Err(e) ==> e == ISOError::Utf8,
{
    let trimmed = trim_end_spaces_exec(bytes);
    match string_from_utf8(slice_to_vec(trimmed)) {
        Some(s) => Ok(s),
        None => Err(ISOError::Utf8),
    }
}

/// Decodes identifier bytes that are UCS-2 big-endian (Joliet): a dangling
/// odd pad byte is dropped, then trailing encoded-space padding is removed.
pub fn decode_ucs2_bytes(bytes: &[u8]) -> (r: Result<String, ISOError>)
    ensures
        r matches Ok(s) ==> s@ == utf16be_chars(trim_end_ucs2_spaces(even_prefix(bytes@))),
        r matches Err(e) ==> e == ISOError::Utf16,
        trim_end_ucs2_spaces(even_prefix(bytes@)).len() == 0 ==> r is Ok,
{
    let len = bytes.len();
    let even = slice_subrange(bytes, 0, len - len % 2);
    proof {
        assert(even@ == even_prefix(bytes@));
    }
    let trimmed = trim_end_ucs2_spaces_exec(even);
    match decode_utf16be(trimmed) {
        Some(s) => Ok(s),
        None => Err(ISOError::Utf16),
    }
}

} // verus!
