use vstd::prelude::*;

verus! {

/// The error type shared by every fallible operation of this crate.
#[derive(Debug, Clone, PartialEq)]
pub enum ISOError {
    /// The underlying byte source failed; the payload carries its message.
    Io(String),
    /// An ISO 9660 identifier that should have been UTF-8 was not.
    Utf8,
    /// A UCS-2 / UTF-16 identifier could not be decoded.
    Utf16,
    /// A structural invariant of the filesystem was violated.
    InvalidFs(&'static str),
    /// A file-identifier version suffix was not a number in range.
    ParseInt,
    /// An internal integer-width conversion overflowed.
    TryFromInt,
    /// A block read returned fewer bytes than a full block.
    ReadSize(usize),
    /// A parser could not make sense of the bytes it was given.
    Parse(&'static str),
}

impl ISOError {
    /// A short human-readable description of the error kind.
    pub fn description(&self) -> (r: &'static str)
        ensures
            r@.len() > 0,
    {
        proof {
            reveal_strlit("IO error");
            reveal_strlit("UTF-8 error");
            reveal_strlit("UTF-16 / UCS-2 conversion error");
            reveal_strlit("invalid ISO 9660 filesystem");
            reveal_strlit("integer parse error");
            reveal_strlit("integer conversion error");
            reveal_strlit("short block read");
            reveal_strlit("parse error");
        }
        match self {
            ISOError::Io(_) => "IO error",
            ISOError::Utf8 => "UTF-8 error",
            ISOError::Utf16 => "UTF-16 / UCS-2 conversion error",
            ISOError::InvalidFs(_) => "invalid ISO 9660 filesystem",
            ISOError::ParseInt => "integer parse error",
            ISOError::TryFromInt => "integer conversion error",
            ISOError::ReadSize(_) => "short block read",
            ISOError::Parse(_) => "parse error",
        }
    }
}

} // verus!
