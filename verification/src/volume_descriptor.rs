//! The volume-descriptor set that starts at logical block 16: Primary and
//! Supplementary descriptors carry the volume metadata and the root
//! directory record; a Boot Record and the Set Terminator frame the set.

use vstd::prelude::*;
use vstd::slice::{slice_subrange, slice_to_vec};

use crate::both_endian::{both_endian16, both_endian32, le16_at, le32_at, read_le32};
use crate::datetime::{parse_vol_date_time, vol_date_time_value, VolumeDateTime};
use crate::directory_record::{
    header_at, identifier_chars, identifier_ok, record_structure_ok, DirectoryEntryHeader,
};
use crate::encoding::{
    character_encoding_of, decode_ok, decode_string, decoded_chars, CharacterEncoding,
};
use crate::error::ISOError;

verus! {

/// The metadata table of a Primary or Supplementary volume descriptor
/// (ISO 9660 §§ 8.4, 8.5).
#[derive(Clone, Debug)]
pub struct VolumeDescriptorTable {
    /// The system identifier.
    pub system_identifier: String,
    /// The volume identifier.
    pub volume_identifier: String,
    /// The identifier encoding this descriptor's hierarchy uses.
    pub character_encoding: CharacterEncoding,
    /// Volume size in logical blocks.
    pub volume_space_size: u32,
    /// Number of volumes in the set.
    pub volume_set_size: u16,
    /// Index of this volume in the set.
    pub volume_sequence_number: u16,
    /// Logical block size in bytes.
    pub logical_block_size: u16,
    /// Path-table size in bytes.
    pub path_table_size: u32,
    /// Block of the little-endian path table.
    pub path_table_loc: u32,
    /// Block of the optional little-endian path table.
    pub optional_path_table_loc: u32,
    /// The root directory record.
    pub root_directory_entry: DirectoryEntryHeader,
    /// The root directory record's identifier.
    pub root_directory_entry_identifier: String,
    /// The volume-set identifier.
    pub volume_set_identifier: String,
    /// The publisher identifier.
    pub publisher_identifier: String,
    /// The data-preparer identifier.
    pub data_preparer_identifier: String,
    /// The application identifier.
    pub application_identifier: String,
    /// The copyright file identifier.
    pub copyright_file_identifier: String,
    /// The abstract file identifier.
    pub abstract_file_identifier: String,
    /// The bibliographic file identifier.
    pub bibliographic_file_identifier: String,
    /// Volume creation time.
    pub creation_time: VolumeDateTime,
    /// Volume modification time.
    pub modification_time: VolumeDateTime,
    /// Volume expiration time.
    pub expiration_time: VolumeDateTime,
    /// Volume effective time.
    pub effective_time: VolumeDateTime,
    /// File-structure version, 1 on conforming volumes.
    pub file_structure_version: u8,
}

/// One descriptor of the volume-descriptor set.
#[derive(Clone, Debug)]
pub enum VolumeDescriptor {
    /// A Primary volume descriptor.
    Primary(VolumeDescriptorTable),
    /// A Supplementary volume descriptor (Joliet).
    Supplementary(VolumeDescriptorTable),
    /// A Boot Record.
    BootRecord {
        /// The boot system identifier.
        boot_system_identifier: String,
        /// The boot identifier.
        boot_identifier: String,
        /// The opaque boot data.
        data: Vec<u8>,
    },
    /// The Set Terminator.
    VolumeDescriptorSetTerminator,
}

/// Whether a descriptor block begins with the standard identifier `CD001`
/// and version 1.
pub open spec fn magic_ok(d: Seq<u8>) -> bool {
    &&& d.len() == 2048
    &&& d[1] == 0x43
    &&& d[2] == 0x44
    &&& d[3] == 0x30
    &&& d[4] == 0x30
    &&& d[5] == 0x31
    &&& d[6] == 0x01
}

/// Whether a parsed table holds exactly the fields that the descriptor
/// block encodes, at their standard offsets.
pub open spec fn table_matches(d: Seq<u8>, t: VolumeDescriptorTable) -> bool {
    let enc = t.character_encoding;
    &&& character_encoding_of(d.subrange(88, 120)) == Some(enc)
    &&& t.system_identifier@ == decoded_chars(d.subrange(8, 40), enc)
    &&& t.volume_identifier@ == decoded_chars(d.subrange(40, 72), enc)
    &&& t.volume_space_size == le32_at(d, 80)
    &&& t.volume_set_size == le16_at(d, 120)
    &&& t.volume_sequence_number == le16_at(d, 124)
    &&& t.logical_block_size == le16_at(d, 128)
    &&& t.path_table_size == le32_at(d, 132)
    &&& t.path_table_loc == le32_at(d, 140)
    &&& t.optional_path_table_loc == le32_at(d, 144)
    &&& t.root_directory_entry == header_at(d.subrange(156, 190), 0, enc)
    &&& t.root_directory_entry_identifier@ == identifier_chars(d.subrange(156, 190), 0, enc)
    &&& t.volume_set_identifier@ == decoded_chars(d.subrange(190, 318), enc)
    &&& t.publisher_identifier@ == decoded_chars(d.subrange(318, 446), enc)
    &&& t.data_preparer_identifier@ == decoded_chars(d.subrange(446, 574), enc)
    &&& t.application_identifier@ == decoded_chars(d.subrange(574, 702), enc)
    &&& t.copyright_file_identifier@ == decoded_chars(d.subrange(702, 739), enc)
    &&& t.abstract_file_identifier@ == decoded_chars(d.subrange(739, 776), enc)
    &&& t.bibliographic_file_identifier@ == decoded_chars(d.subrange(776, 813), enc)
    &&& Some(t.creation_time) == vol_date_time_value(d, 813)
    &&& Some(t.modification_time) == vol_date_time_value(d, 830)
    &&& Some(t.expiration_time) == vol_date_time_value(d, 847)
    &&& Some(t.effective_time) == vol_date_time_value(d, 864)
    &&& t.file_structure_version == d[881]
}

/// The conditions under which a descriptor table is owed to parse: the
/// escape field names the modelled plain ISO 9660 encoding, every string
/// field decodes, every date field is digits or unset, and the root record
/// is well formed.
pub open spec fn table_parse_ok(d: Seq<u8>) -> bool {
    let enc = CharacterEncoding::Iso9660;
    &&& character_encoding_of(d.subrange(88, 120)) == Some(enc)
    &&& decode_ok(d.subrange(8, 40), enc)
    &&& decode_ok(d.subrange(40, 72), enc)
    &&& decode_ok(d.subrange(190, 318), enc)
    &&& decode_ok(d.subrange(318, 446), enc)
    &&& decode_ok(d.subrange(446, 574), enc)
    &&& decode_ok(d.subrange(574, 702), enc)
    &&& decode_ok(d.subrange(702, 739), enc)
    &&& decode_ok(d.subrange(739, 776), enc)
    &&& decode_ok(d.subrange(776, 813), enc)
    &&& record_structure_ok(d.subrange(156, 190), 0)
    &&& identifier_ok(d.subrange(156, 190), 0, enc)
    &&& vol_date_time_value(d, 813) is Some
    &&& vol_date_time_value(d, 830) is Some
    &&& vol_date_time_value(d, 847) is Some
    &&& vol_date_time_value(d, 864) is Some
}

fn parse_table(d: &[u8]) -> (r: Result<VolumeDescriptorTable, ISOError>)
    requires
        d@.len() == 2048,
    ensures
        r matches Ok(t) ==> table_matches(d@, t),
        table_parse_ok(d@) ==> r is Ok,
{
    let enc_field = slice_subrange(d, 88, 120);
    let character_encoding = match CharacterEncoding::parse(enc_field) {
        Ok(e) => e,
        Err(e) => {
            return Err(e);
        },
    };
    let system_identifier = match decode_string(slice_subrange(d, 8, 40), character_encoding) {
        Ok(s) => s,
        Err(e) => {
            return Err(e);
        },
    };
    let volume_identifier = match decode_string(slice_subrange(d, 40, 72), character_encoding) {
        Ok(s) => s,
        Err(e) => {
            return Err(e);
        },
    };
    let root_slice = slice_subrange(d, 156, 190);
    let (root_directory_entry, root_directory_entry_identifier, _root_susp) =
        match DirectoryEntryHeader::parse(root_slice, character_encoding) {
        Ok(t) => t,
        Err(e) => {
            return Err(e);
        },
    };
    let volume_set_identifier = match decode_string(
        slice_subrange(d, 190, 318),
        character_encoding,
    ) {
        Ok(s) => s,
        Err(e) => {
            return Err(e);
        },
    };
    let publisher_identifier = match decode_string(
        slice_subrange(d, 318, 446),
        character_encoding,
    ) {
        Ok(s) => s,
        Err(e) => {
            return Err(e);
        },
    };
    let data_preparer_identifier = match decode_string(
        slice_subrange(d, 446, 574),
        character_encoding,
    ) {
        Ok(s) => s,
        Err(e) => {
            return Err(e);
        },
    };
    let application_identifier = match decode_string(
        slice_subrange(d, 574, 702),
        character_encoding,
    ) {
        Ok(s) => s,
        Err(e) => {
            return Err(e);
        },
    };
    let copyright_file_identifier = match decode_string(
        slice_subrange(d, 702, 739),
        character_encoding,
    ) {
        Ok(s) => s,
        Err(e) => {
            return Err(e);
        },
    };
    let abstract_file_identifier = match decode_string(
        slice_subrange(d, 739, 776),
        character_encoding,
    ) {
        Ok(s) => s,
        Err(e) => {
            return Err(e);
        },
    };
    let bibliographic_file_identifier = match decode_string(
        slice_subrange(d, 776, 813),
        character_encoding,
    ) {
        Ok(s) => s,
        Err(e) => {
            return Err(e);
        },
    };
    let creation_time = match parse_vol_date_time(d, 813) {
        Ok(t) => t,
        Err(e) => {
            return Err(e);
        },
    };
    let modification_time = match parse_vol_date_time(d, 830) {
        Ok(t) => t,
        Err(e) => {
            return Err(e);
        },
    };
    let expiration_time = match parse_vol_date_time(d, 847) {
        Ok(t) => t,
        Err(e) => {
            return Err(e);
        },
    };
    let effective_time = match parse_vol_date_time(d, 864) {
        Ok(t) => t,
        Err(e) => {
            return Err(e);
        },
    };
    Ok(
        VolumeDescriptorTable {
            system_identifier,
            volume_identifier,
            character_encoding,
            volume_space_size: both_endian32(d, 80).0,
            volume_set_size: both_endian16(d, 120).0,
            volume_sequence_number: both_endian16(d, 124).0,
            logical_block_size: both_endian16(d, 128).0,
            path_table_size: both_endian32(d, 132).0,
            path_table_loc: read_le32(d, 140),
            optional_path_table_loc: read_le32(d, 144),
            root_directory_entry,
            root_directory_entry_identifier,
            volume_set_identifier,
            publisher_identifier,
            data_preparer_identifier,
            application_identifier,
            copyright_file_identifier,
            abstract_file_identifier,
            bibliographic_file_identifier,
            creation_time,
            modification_time,
            expiration_time,
            effective_time,
            file_structure_version: d[881],
        },
    )
}

impl VolumeDescriptor {
    /// Parses one 2048-byte block of the volume-descriptor set.  A block
    /// whose type code is not assigned yields `None`; a block without the
    /// standard identifier is rejected.
    pub fn parse(bytes: &[u8]) -> (r: Result<Option<VolumeDescriptor>, ISOError>)
        requires
            bytes@.len() == 2048,
        ensures
            !magic_ok(bytes@) ==> r == Err::<Option<VolumeDescriptor>, ISOError>(
                ISOError::InvalidFs("unexpected standard identifier"),
            ),
            r matches Ok(Some(VolumeDescriptor::Primary(t))) ==> bytes@[0] == 1 && table_matches(
                bytes@,
                t,
            ),
            r matches Ok(Some(VolumeDescriptor::Supplementary(t))) ==> bytes@[0] == 2
                && table_matches(bytes@, t),
            magic_ok(bytes@) && (bytes@[0] == 1 || bytes@[0] == 2) && table_parse_ok(bytes@)
                ==> r is Ok,
            r is Ok ==> magic_ok(bytes@),
            r matches Ok(Some(VolumeDescriptor::VolumeDescriptorSetTerminator)) ==> bytes@[0]
                == 255,
            r matches Ok(None) ==> !(bytes@[0] == 0 || bytes@[0] == 1 || bytes@[0] == 2 || bytes@[0]
                == 255),
            magic_ok(bytes@) && bytes@[0] == 255 ==> r == Ok::<Option<VolumeDescriptor>, ISOError>(
                Some(VolumeDescriptor::VolumeDescriptorSetTerminator),
            ),
            r matches Ok(Some(VolumeDescriptor::BootRecord {
                boot_system_identifier,
                boot_identifier,
                data,
            })) ==> {
                &&& bytes@[0] == 0
                &&& boot_system_identifier@ == decoded_chars(
                    bytes@.subrange(7, 39),
                    CharacterEncoding::Iso9660,
                )
                &&& boot_identifier@ == decoded_chars(
                    bytes@.subrange(39, 71),
                    CharacterEncoding::Iso9660,
                )
                &&& data@ == bytes@.subrange(71, 2048)
            },
            magic_ok(bytes@) && !(bytes@[0] == 0 || bytes@[0] == 1 || bytes@[0] == 2 || bytes@[0]
                == 255) ==> r == Ok::<Option<VolumeDescriptor>, ISOError>(None),
    {
        if !(bytes[1] == 0x43 && bytes[2] == 0x44 && bytes[3] == 0x30 && bytes[4] == 0x30
            && bytes[5] == 0x31 && bytes[6] == 0x01) {
            return Err(ISOError::InvalidFs("unexpected standard identifier"));
        }
        let type_code = bytes[0];
        if type_code == 0 {
            let boot_system_identifier = match decode_string(
                slice_subrange(bytes, 7, 39),
                CharacterEncoding::Iso9660,
            ) {
                Ok(s) => s,
                Err(e) => {
                    return Err(e);
                },
            };
            let boot_identifier = match decode_string(
                slice_subrange(bytes, 39, 71),
                CharacterEncoding::Iso9660,
            ) {
                Ok(s) => s,
                Err(e) => {
                    return Err(e);
                },
            };
            let data = slice_to_vec(slice_subrange(bytes, 71, 2048));
            Ok(
                Some(
                    VolumeDescriptor::BootRecord {
                        boot_system_identifier,
                        boot_identifier,
                        data,
                    },
                ),
            )
        } else if type_code == 1 {
            match parse_table(bytes) {
                Ok(t) => Ok(Some(VolumeDescriptor::Primary(t))),
                Err(e) => Err(e),
            }
        } else if type_code == 2 {
            match parse_table(bytes) {
                Ok(t) => Ok(Some(VolumeDescriptor::Supplementary(t))),
                Err(e) => Err(e),
            }
        } else if type_code == 255 {
            Ok(Some(VolumeDescriptor::VolumeDescriptorSetTerminator))
        } else {
            Ok(None)
        }
    }
}

} // verus!
