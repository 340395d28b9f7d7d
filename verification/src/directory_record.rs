//! The fixed-width directory record of ISO 9660 § 9.1: header fields, the
//! identifier, and the trailing system-use area.

use vstd::prelude::*;
use vstd::slice::slice_subrange;

use crate::both_endian::{both_endian16, both_endian32, le16_at, le32_at};
use crate::datetime::{iso_date_time_at, parse_iso_date_time, IsoDateTime};
use crate::encoding::{decode_ok, decode_string, decoded_chars, CharacterEncoding};
use crate::error::ISOError;

use crate::susp::{entry_views, susp_entries_from, system_use_entries, SystemUseEntry};

verus! {

/// The file-flag bits of a directory record (ISO 9660 § 9.1.6).
#[derive(Clone, Copy, Debug, PartialEq, Eq, Structural)]
pub struct FileFlags {
    /// The flag bits, restricted to the assigned positions.
    pub bits: u8,
}

/// Flag bit: the entry is hidden.
pub const FLAG_EXISTENCE: u8 = 0x01;

/// Flag bit: the entry is a directory.
pub const FLAG_DIRECTORY: u8 = 0x02;

/// Flag bit: the entry is an associated file.
pub const FLAG_ASSOCIATED_FILE: u8 = 0x04;

/// Flag bit: the entry has a record format.
pub const FLAG_RECORD: u8 = 0x08;

/// Flag bit: the entry has owner and group permissions.
pub const FLAG_PROTECTION: u8 = 0x10;

/// Flag bit: the entry continues in a further extent.
pub const FLAG_MULTIEXTENT: u8 = 0x80;

/// The assigned file-flag bits; the reserved bits are dropped on parse.
pub const FLAG_MASK: u8 = 0x9f;

impl FileFlags {
    /// Whether the directory flag is set.
    pub open spec fn spec_directory(self) -> bool {
        self.bits & FLAG_DIRECTORY != 0
    }

    /// Whether the directory flag is set.
    pub fn directory(&self) -> (r: bool)
        ensures
            r == self.spec_directory(),
    {
        self.bits & FLAG_DIRECTORY != 0
    }

    /// Whether the associated-file flag is set.
    pub open spec fn spec_associated_file(self) -> bool {
        self.bits & FLAG_ASSOCIATED_FILE != 0
    }

    /// Whether the associated-file flag is set.
    pub fn associated_file(&self) -> (r: bool)
        ensures
            r == self.spec_associated_file(),
    {
        self.bits & FLAG_ASSOCIATED_FILE != 0
    }

    /// This value with the directory flag forced on.
    pub fn with_directory(&self) -> (r: FileFlags)
        ensures
            r.bits == self.bits | FLAG_DIRECTORY,
            r.spec_directory(),
    {
        let b = self.bits;
        proof {
            assert((b | 0x02u8) & 0x02u8 != 0) by (bit_vector);
        }
        FileFlags { bits: b | FLAG_DIRECTORY }
    }
}

/// The fixed fields of a directory record, together with the encoding its
/// identifier was decoded under.
#[derive(Clone, Copy, Debug, PartialEq, Eq, Structural)]
pub struct DirectoryEntryHeader {
    /// Total record length in bytes.
    pub length: u8,
    /// Length of the extended-attribute record.
    pub extended_attribute_record_length: u8,
    /// First logical block of the extent.
    pub extent_loc: u32,
    /// Length of the extent in bytes.
    pub extent_length: u32,
    /// Recording date and time.
    pub time: IsoDateTime,
    /// File flags.
    pub file_flags: FileFlags,
    /// File-unit size for interleaved files.
    pub file_unit_size: u8,
    /// Interleave gap for interleaved files.
    pub interleave_gap_size: u8,
    /// Volume sequence number.
    pub volume_sequence_number: u16,
    /// The encoding the enclosing hierarchy uses for identifiers.
    pub character_encoding: CharacterEncoding,
}

/// The header encoded by the record at `pos`.
pub open spec fn header_at(d: Seq<u8>, pos: int, enc: CharacterEncoding) -> DirectoryEntryHeader
    recommends
        0 <= pos,
        pos + 33 <= d.len(),
{
    DirectoryEntryHeader {
        length: d[pos],
        extended_attribute_record_length: d[pos + 1],
        extent_loc: le32_at(d, pos + 2),
        extent_length: le32_at(d, pos + 10),
        time: iso_date_time_at(d, pos + 18),
        file_flags: FileFlags { bits: d[pos + 25] & FLAG_MASK },
        file_unit_size: d[pos + 26],
        interleave_gap_size: d[pos + 27],
        volume_sequence_number: le16_at(d, pos + 28),
        character_encoding: enc,
    }
}

/// The identifier length byte of the record at `pos`.
pub open spec fn record_id_len(d: Seq<u8>, pos: int) -> int
    recommends
        0 <= pos,
        pos + 33 <= d.len(),
{
    d[pos + 32] as int
}

/// The pad byte count after the identifier: one when the identifier length
/// is even, so that the fixed part ends on an even offset.
pub open spec fn record_pad(d: Seq<u8>, pos: int) -> int {
    if record_id_len(d, pos) % 2 == 0 {
        1
    } else {
        0
    }
}

/// The offset from the record start to its system-use area.
pub open spec fn record_fixed_len(d: Seq<u8>, pos: int) -> int {
    33 + record_id_len(d, pos) + record_pad(d, pos)
}

/// Whether a directory record is structurally well formed at `pos`: the
/// fixed fields and the identifier fit, and the record length covers the
/// fixed part — so `length >= 33 + identifier_length + padding` — and lies
/// within the available bytes.
pub open spec fn record_structure_ok(d: Seq<u8>, pos: int) -> bool {
    &&& 0 <= pos
    &&& pos + 33 <= d.len()
    &&& pos + 33 + record_id_len(d, pos) <= d.len()
    &&& record_fixed_len(d, pos) <= d[pos]
    &&& pos + d[pos] <= d.len()
}

/// The raw identifier bytes of the record at `pos`.
pub open spec fn identifier_bytes(d: Seq<u8>, pos: int) -> Seq<u8> {
    d.subrange(pos + 33, pos + 33 + record_id_len(d, pos))
}

/// The identifier of the record at `pos`: the one-byte identifiers `00` and
/// `01` denote the current and parent directory and map to `"\u{0}"` and
/// `"\u{1}"`; anything else is decoded under the hierarchy's encoding.
pub open spec fn identifier_chars(d: Seq<u8>, pos: int, enc: CharacterEncoding) -> Seq<char> {
    let idb = identifier_bytes(d, pos);
    if idb.len() == 1 && idb[0] == 0 {
        seq!['\u{0}']
    } else if idb.len() == 1 && idb[0] == 1 {
        seq!['\u{1}']
    } else {
        decoded_chars(idb, enc)
    }
}

/// Whether the identifier of the record at `pos` decodes, as far as the
/// encoding's decoder is modelled.
pub open spec fn identifier_ok(d: Seq<u8>, pos: int, enc: CharacterEncoding) -> bool {
    let idb = identifier_bytes(d, pos);
    if idb.len() == 1 && (idb[0] == 0 || idb[0] == 1) {
        true
    } else {
        decode_ok(idb, enc)
    }
}

/// The system-use area of the record at `pos`: the bytes between the fixed
/// part and the record length.
pub open spec fn sua_bytes(d: Seq<u8>, pos: int) -> Seq<u8> {
    d.subrange(pos + record_fixed_len(d, pos), pos + d[pos])
}

impl DirectoryEntryHeader {
    /// Parses the directory record at the start of `input`: the fixed
    /// header, the identifier (decoded under `encoding`), and the decoded
    /// entries of the system-use area.
    ///
    /// On success the record is structurally well formed; in particular its
    /// length is at least `33 + identifier_length + padding`.
    pub fn parse(input: &[u8], encoding: CharacterEncoding) -> (r: Result<
        (DirectoryEntryHeader, String, Vec<SystemUseEntry>),
        ISOError,
    >)
        ensures
            r is Ok ==> record_structure_ok(input@, 0),
            r is Ok ==> input@[0] >= 33 + record_id_len(input@, 0) + record_pad(input@, 0),
            r matches Ok((h, ident, susp)) ==> {
                &&& h == header_at(input@, 0, encoding)
                &&& ident@ == identifier_chars(input@, 0, encoding)
                &&& entry_views(susp@) == susp_entries_from(sua_bytes(input@, 0), 0)
            },
            !record_structure_ok(input@, 0) ==> r == Err::<
                (DirectoryEntryHeader, String, Vec<SystemUseEntry>),
                ISOError,
            >(ISOError::Parse("directory record")),
            record_structure_ok(input@, 0) && encoding is Iso9660 ==> ((r is Ok)
                == identifier_ok(input@, 0, encoding)),
            r matches Err(e) ==> (e == ISOError::Parse("directory record") || e == ISOError::Utf8
                || e == ISOError::Utf16),
    {
        let len = input.len();
        if len < 33 {
            return Err(ISOError::Parse("directory record"));
        }
        let id_len = input[32] as usize;
        if id_len > len - 33 {
            return Err(ISOError::Parse("directory record"));
        }
        let pad: usize = if id_len % 2 == 0 {
            1
        } else {
            0
        };
        let fixed = 33 + id_len + pad;
        let rlen = input[0] as usize;
        if rlen < fixed || rlen > len {
            return Err(ISOError::Parse("directory record"));
        }
        let idb = slice_subrange(input, 33, 33 + id_len);
        assert(idb@ == identifier_bytes(input@, 0));
        let identifier: String = if id_len == 1 && idb[0] == 0 {
            let s = String::from_str("\u{0}");
            proof {
                reveal_strlit("\u{0}");
                assert(s@ =~= identifier_chars(input@, 0, encoding));
            }
            s
        } else if id_len == 1 && idb[0] == 1 {
            let s = String::from_str("\u{1}");
            proof {
                reveal_strlit("\u{1}");
                assert(s@ =~= identifier_chars(input@, 0, encoding));
            }
            s
        } else {
            match decode_string(idb, encoding) {
                Ok(s) => s,
                Err(e) => {
                    return Err(e);
                },
            }
        };
        let sua = slice_subrange(input, fixed, rlen);
        assert(sua@ == sua_bytes(input@, 0));
        let susp = system_use_entries(sua);
        let header = DirectoryEntryHeader {
            length: input[0],
            extended_attribute_record_length: input[1],
            extent_loc: both_endian32(input, 2).0,
            extent_length: both_endian32(input, 10).0,
            time: parse_iso_date_time(input, 18),
            file_flags: FileFlags { bits: input[25] & FLAG_MASK },
            file_unit_size: input[26],
            interleave_gap_size: input[27],
            volume_sequence_number: both_endian16(input, 28).0,
            character_encoding: encoding,
        };
        Ok((header, identifier, susp))
    }
}

} // verus!
