//! Decoder for the System Use Sharing Protocol (SUSP) and the Rock Ridge
//! entries carried in the system-use area of a directory record.
//!
//! Every entry is framed as `signature(2) | length(1) | version(1) |
//! payload(length - 4)`.  A sequence of entries is matched greedily until a
//! frame no longer fits; a recognised signature whose payload does not parse
//! is preserved as an [`Unknown`] entry, as is any unrecognised signature.

use vstd::prelude::*;
use vstd::slice::{slice_subrange, slice_to_vec};
use vstd::utf8::{decode_utf8, valid_utf8};

use crate::both_endian::{both_endian32, le32_at};
use crate::datetime::{iso_date_time_at, parse_iso_date_time, IsoDateTime};
use crate::strutil::{string_from_utf8, trim_end_spaces, trim_end_spaces_exec, trim_nuls, trim_nuls_exec};

verus! {

/// A System Use extension registered for a directory hierarchy by an `ER`
/// entry.
#[derive(Clone, Copy, Debug, Eq, Hash, PartialEq, Structural)]
pub enum SuspExtension {
    /// Rock Ridge v1.09 and v1.10 (`RRIP_1991A`).
    RockRidge1_09,
    /// Rock Ridge v1.12, the IEEE P1282 draft (`IEEE_P1282`).
    RockRidge1_12,
}

/// A Rock Ridge `NM` alternate-name entry.
#[derive(Clone, Debug)]
pub struct AlternateName {
    /// Flag bits; bit 0 (`CONTINUE`) chains the name into the next entry.
    pub flags: u8,
    /// The name fragment, decoded as UTF-8 with NUL padding removed.
    pub name: String,
}

/// Flag bit of an `NM` entry: the name continues in the next `NM` entry.
pub const NM_FLAG_CONTINUE: u8 = 0x01;

/// A Rock Ridge `CL` child-link entry: the block where a relocated
/// directory's real extent lives.
#[derive(Clone, Copy, Debug, PartialEq, Eq, Structural)]
pub struct ChildLink(pub u32);

/// A SUSP `CE` continuation-area entry.
#[derive(Clone, Copy, Debug, PartialEq, Eq, Structural)]
pub struct ContinuationArea {
    /// Block holding the continuation bytes.
    pub block_location: u32,
    /// Byte offset of the continuation within that block.
    pub offset: u32,
    /// Number of continuation bytes.
    pub length: u32,
}

/// A SUSP `ER` extensions-reference entry.
#[derive(Clone, Debug)]
pub struct ExtensionsReference {
    /// The extensions that the entry announces.
    pub extensions: Vec<SuspExtension>,
}

/// POSIX timestamps collected from a Rock Ridge `TF` entry.
#[derive(Clone, Copy, Debug, Default, PartialEq, Eq, Structural)]
pub struct PosixTimestamp {
    /// POSIX.1 `st_atime`.
    pub access: Option<IsoDateTime>,
    /// POSIX.1 `st_ctime`.
    pub attributes: Option<IsoDateTime>,
    /// The "backup" time.
    pub backup: Option<IsoDateTime>,
    /// Creation time.
    pub creation: Option<IsoDateTime>,
    /// Effective time.
    pub effective: Option<IsoDateTime>,
    /// Expiration time.
    pub expiration: Option<IsoDateTime>,
    /// POSIX.1 `st_mtime`.
    pub modify: Option<IsoDateTime>,
}

/// The `st_mode` bit set from a Rock Ridge `PX` entry.
#[derive(Clone, Copy, Debug, PartialEq, Eq, Structural)]
pub struct PosixFileMode {
    /// The mode bits, restricted to the file-type and permission fields.
    pub bits: u32,
}

/// The bits of a POSIX mode that this decoder retains: file type, set-id,
/// sticky, and permission bits.
pub const MODE_MASK: u32 = 0o177777;

/// File-type field of a POSIX mode.
pub const MODE_TYPE_MASK: u32 = 0o170000;

/// File-type value: symbolic link.
pub const MODE_TYPE_SYMLINK: u32 = 0o120000;

impl PosixFileMode {
    /// Whether the file-type field marks a symbolic link.
    pub open spec fn spec_is_symlink(self) -> bool {
        self.bits & MODE_TYPE_MASK == MODE_TYPE_SYMLINK
    }

    /// Whether the file-type field marks a symbolic link.
    pub fn is_symlink(&self) -> (r: bool)
        ensures
            r == self.spec_is_symlink(),
    {
        self.bits & MODE_TYPE_MASK == MODE_TYPE_SYMLINK
    }

    /// The file-type character of an `ls`-style mode rendering.
    pub open spec fn spec_type_char(b: u32) -> char {
        if b & 0o140000 == 0o140000 {
            's'
        } else if b & 0o120000 == 0o120000 {
            'l'
        } else if b & 0o100000 == 0o100000 {
            '-'
        } else if b & 0o060000 == 0o060000 {
            'b'
        } else if b & 0o040000 == 0o040000 {
            'd'
        } else if b & 0o020000 == 0o020000 {
            'c'
        } else if b & 0o010000 == 0o010000 {
            'p'
        } else {
            '?'
        }
    }

    /// A read or write position of an `ls`-style mode rendering.
    pub open spec fn spec_perm_char(b: u32, mask: u32, c: char) -> char {
        if b & mask != 0 {
            c
        } else {
            '-'
        }
    }

    /// An execute position of an `ls`-style mode rendering, with the set-id
    /// bit folded in.
    pub open spec fn spec_exec_char(b: u32, xmask: u32, smask: u32) -> char {
        if b & xmask != 0 {
            if b & smask != 0 {
                'S'
            } else {
                'x'
            }
        } else if b & smask != 0 {
            's'
        } else {
            '-'
        }
    }

    /// The `ls`-style rendering of the mode: one file-type character, then
    /// the nine permission characters, with the set-id bits folded into the
    /// execute positions.
    pub open spec fn spec_mode_string(self) -> Seq<char> {
        let b = self.bits;
        seq![
            Self::spec_type_char(b),
            Self::spec_perm_char(b, 0o400, 'r'),
            Self::spec_perm_char(b, 0o200, 'w'),
            Self::spec_exec_char(b, 0o100, 0o4000),
            Self::spec_perm_char(b, 0o040, 'r'),
            Self::spec_perm_char(b, 0o020, 'w'),
            Self::spec_exec_char(b, 0o010, 0o2000),
            Self::spec_perm_char(b, 0o004, 'r'),
            Self::spec_perm_char(b, 0o002, 'w'),
            Self::spec_perm_char(b, 0o001, 'x'),
        ]
    }

    /// Renders the mode in the style of `ls -l`: the file-type character
    /// followed by the nine permission characters.
    pub fn mode_string(&self) -> (r: String)
        ensures
            r@ == self.spec_mode_string(),
    {
        let b = self.bits;
        let mut s = String::new();
        s.append(type_str(b));
        s.append(perm_str_r(b, 0o400));
        s.append(perm_str_w(b, 0o200));
        s.append(exec_str(b, 0o100, 0o4000));
        s.append(perm_str_r(b, 0o040));
        s.append(perm_str_w(b, 0o020));
        s.append(exec_str(b, 0o010, 0o2000));
        s.append(perm_str_r(b, 0o004));
        s.append(perm_str_w(b, 0o002));
        s.append(perm_str_x(b, 0o001));
        proof {
            assert(s@ =~= self.spec_mode_string());
        }
        s
    }

    /// The permission and set-id bits, as a 16-bit value.
    pub fn permission_bits(&self) -> (r: u16)
        ensures
            r == self.bits & 0o7777,
    {
        let b = self.bits;
        assert((b & 0o7777) <= 0o7777) by (bit_vector);
        (b & 0o7777) as u16
    }
}

/// POSIX.1 attributes from a Rock Ridge `PX` entry.
#[derive(Clone, Copy, Debug, PartialEq, Eq, Structural)]
pub struct PosixAttributes {
    /// Equivalent to the POSIX.1 `st_mode` field.
    pub mode: PosixFileMode,
    /// Equivalent to the POSIX.1 `st_nlink` field.
    pub links: u32,
    /// Equivalent to the POSIX.1 `st_uid` field.
    pub uid: u32,
    /// Equivalent to the POSIX.1 `st_gid` field.
    pub gid: u32,
    /// Serial number (Rock Ridge v1.12 only).
    pub inode: Option<u32>,
}

/// A Rock Ridge `RE` relocated-directory marker.
#[derive(Clone, Copy, Debug, PartialEq, Eq, Structural)]
pub struct RelocatedDirectory(pub bool);

/// A Rock Ridge v1.09 `RR` hint entry.
#[derive(Clone, Copy, Debug, PartialEq, Eq, Structural)]
pub struct RockRidge {
    /// Hint bits naming which other entries are present.
    pub flags: u8,
}

/// A SUSP `SP` indicator entry.
#[derive(Clone, Copy, Debug, PartialEq, Eq, Structural)]
pub struct SuspIndicator {
    /// Bytes to skip at the start of each system-use area.
    pub skip: u8,
}

/// One component record of a Rock Ridge `SL` symbolic-link entry.
#[derive(Clone, Debug)]
pub struct SymbolicLinkRecord {
    /// Flag bits selecting `.`, `..`, the root, or a plain component.
    pub flags: u8,
    /// The raw component text.
    pub component: String,
}

/// Flag bit of an `SL` component: the component is `.`.
pub const SL_FLAG_CURRENT: u8 = 0x02;

/// Flag bit of an `SL` component: the component is `..`.
pub const SL_FLAG_PARENT: u8 = 0x04;

/// Flag bit of an `SL` component: the path restarts at the root.
pub const SL_FLAG_ROOT: u8 = 0x08;

/// Flag bit of an `SL` component: the path restarts at the volume root.
pub const SL_FLAG_VOLUME_ROOT: u8 = 0x10;

/// A Rock Ridge `SL` symbolic-link entry.
#[derive(Clone, Debug)]
pub struct SymbolicLink {
    /// Whether the target continues in the next `SL` entry.
    pub should_continue: bool,
    /// The component records of this entry.
    pub records: Vec<SymbolicLinkRecord>,
}

/// A system-use entry whose signature is not recognised, or whose payload
/// did not parse; preserved verbatim.
#[derive(Clone, Debug)]
pub struct Unknown {
    /// The first signature byte.
    pub sig0: u8,
    /// The second signature byte.
    pub sig1: u8,
    /// The version byte of the frame.
    pub version: u8,
    /// The raw payload.
    pub data: Vec<u8>,
}

/// One decoded entry of a system-use area.
#[derive(Clone, Debug)]
pub enum SystemUseEntry {
    /// `CE` continuation area.
    ContinuationArea(ContinuationArea),
    /// `ER` extensions reference.
    ExtensionsReference(ExtensionsReference),
    /// `SP` SUSP indicator.
    SuspIndicator(SuspIndicator),
    /// `NM` alternate name.
    AlternateName(AlternateName),
    /// `PX` POSIX attributes.
    PosixAttributes(PosixAttributes),
    /// `TF` POSIX timestamps.
    PosixTimestamp(PosixTimestamp),
    /// `RR` Rock Ridge hint.
    RockRidge(RockRidge),
    /// `SL` symbolic link.
    SymbolicLink(SymbolicLink),
    /// `CL` child link.
    ChildLink(ChildLink),
    /// `RE` relocated directory.
    RelocatedDirectory(RelocatedDirectory),
    /// Anything else.
    Unknown(Unknown),
}

/// Mathematical image of an [`AlternateName`].
pub ghost struct AltNameV {
    /// Flag bits.
    pub flags: u8,
    /// The name fragment.
    pub name: Seq<char>,
}

/// Mathematical image of a [`SymbolicLinkRecord`].
pub ghost struct SlRecordV {
    /// Flag bits.
    pub flags: u8,
    /// The raw component text.
    pub component: Seq<char>,
}

/// Mathematical image of a [`SymbolicLink`].
pub ghost struct SymbolicLinkV {
    /// Whether the target continues in the next `SL` entry.
    pub should_continue: bool,
    /// The component records.
    pub records: Seq<SlRecordV>,
}

/// Mathematical image of an [`ExtensionsReference`].
pub ghost struct ExtensionsReferenceV {
    /// The announced extensions.
    pub extensions: Seq<SuspExtension>,
}

/// Mathematical image of an [`Unknown`] entry.
pub ghost struct UnknownV {
    /// The first signature byte.
    pub sig0: u8,
    /// The second signature byte.
    pub sig1: u8,
    /// The version byte.
    pub version: u8,
    /// The raw payload.
    pub data: Seq<u8>,
}

/// Mathematical image of a [`SystemUseEntry`].
pub ghost enum SuspEntryV {
    /// `CE` continuation area.
    ContinuationArea(ContinuationArea),
    /// `ER` extensions reference.
    ExtensionsReference(ExtensionsReferenceV),
    /// `SP` SUSP indicator.
    SuspIndicator(SuspIndicator),
    /// `NM` alternate name.
    AlternateName(AltNameV),
    /// `PX` POSIX attributes.
    PosixAttributes(PosixAttributes),
    /// `TF` POSIX timestamps.
    PosixTimestamp(PosixTimestamp),
    /// `RR` Rock Ridge hint.
    RockRidge(RockRidge),
    /// `SL` symbolic link.
    SymbolicLink(SymbolicLinkV),
    /// `CL` child link.
    ChildLink(ChildLink),
    /// `RE` relocated directory.
    RelocatedDirectory(RelocatedDirectory),
    /// Anything else.
    Unknown(UnknownV),
}

impl View for AlternateName {
    type V = AltNameV;

    open spec fn view(&self) -> AltNameV {
        AltNameV { flags: self.flags, name: self.name@ }
    }
}

impl View for SymbolicLinkRecord {
    type V = SlRecordV;

    open spec fn view(&self) -> SlRecordV {
        SlRecordV { flags: self.flags, component: self.component@ }
    }
}

impl View for SymbolicLink {
    type V = SymbolicLinkV;

    open spec fn view(&self) -> SymbolicLinkV {
        SymbolicLinkV {
            should_continue: self.should_continue,
            records: self.records@.map_values(|r: SymbolicLinkRecord| r@),
        }
    }
}

impl View for ExtensionsReference {
    type V = ExtensionsReferenceV;

    open spec fn view(&self) -> ExtensionsReferenceV {
        ExtensionsReferenceV { extensions: self.extensions@ }
    }
}

impl View for Unknown {
    type V = UnknownV;

    open spec fn view(&self) -> UnknownV {
        UnknownV { sig0: self.sig0, sig1: self.sig1, version: self.version, data: self.data@ }
    }
}

impl View for SystemUseEntry {
    type V = SuspEntryV;

    open spec fn view(&self) -> SuspEntryV {
        match self {
            SystemUseEntry::ContinuationArea(e) => SuspEntryV::ContinuationArea(*e),
            SystemUseEntry::ExtensionsReference(e) => SuspEntryV::ExtensionsReference(e@),
            SystemUseEntry::SuspIndicator(e) => SuspEntryV::SuspIndicator(*e),
            SystemUseEntry::AlternateName(e) => SuspEntryV::AlternateName(e@),
            SystemUseEntry::PosixAttributes(e) => SuspEntryV::PosixAttributes(*e),
            SystemUseEntry::PosixTimestamp(e) => SuspEntryV::PosixTimestamp(*e),
            SystemUseEntry::RockRidge(e) => SuspEntryV::RockRidge(*e),
            SystemUseEntry::SymbolicLink(e) => SuspEntryV::SymbolicLink(e@),
            SystemUseEntry::ChildLink(e) => SuspEntryV::ChildLink(*e),
            SystemUseEntry::RelocatedDirectory(e) => SuspEntryV::RelocatedDirectory(*e),
            SystemUseEntry::Unknown(e) => SuspEntryV::Unknown(e@),
        }
    }
}

/// The views of a sequence of decoded entries.
pub open spec fn entry_views(s: Seq<SystemUseEntry>) -> Seq<SuspEntryV> {
    s.map_values(|e: SystemUseEntry| e@)
}

/// The `CE` payload parse: three 32-bit both-endian fields.
pub open spec fn ce_of(p: Seq<u8>) -> Option<ContinuationArea> {
    if p.len() >= 24 {
        Some(
            ContinuationArea {
                block_location: le32_at(p, 0),
                offset: le32_at(p, 8),
                length: le32_at(p, 16),
            },
        )
    } else {
        None
    }
}

/// The `CL` payload parse: one 32-bit both-endian block address.
pub open spec fn cl_of(p: Seq<u8>) -> Option<ChildLink> {
    if p.len() >= 8 {
        Some(ChildLink(le32_at(p, 0)))
    } else {
        None
    }
}

/// The `SP` payload parse: the magic pair `BE EF` then a skip byte.
pub open spec fn sp_of(p: Seq<u8>) -> Option<SuspIndicator> {
    if p.len() >= 3 && p[0] == 0xbe && p[1] == 0xef {
        Some(SuspIndicator { skip: p[2] })
    } else {
        None
    }
}

/// The `RR` payload parse: one hint byte.
pub open spec fn rr_of(p: Seq<u8>) -> Option<RockRidge> {
    if p.len() >= 1 {
        Some(RockRidge { flags: p[0] })
    } else {
        None
    }
}

/// The `PX` payload parse: mode, links, uid, gid, and an optional inode.
pub open spec fn px_of(p: Seq<u8>) -> Option<PosixAttributes> {
    if p.len() >= 32 {
        Some(
            PosixAttributes {
                mode: PosixFileMode { bits: le32_at(p, 0) & MODE_MASK },
                links: le32_at(p, 8),
                uid: le32_at(p, 16),
                gid: le32_at(p, 24),
                inode: if p.len() >= 40 {
                    Some(le32_at(p, 32))
                } else {
                    None
                },
            },
        )
    } else {
        None
    }
}

/// The `NM` payload parse: a flag byte then a UTF-8 name, NUL padding
/// trimmed.
pub open spec fn nm_of(p: Seq<u8>) -> Option<AltNameV> {
    if p.len() >= 1 && valid_utf8(trim_nuls(p.skip(1))) {
        Some(AltNameV { flags: p[0] & 0x27, name: decode_utf8(trim_nuls(p.skip(1))) })
    } else {
        None
    }
}

/// The timestamp at slot `j` of a `TF` payload, if the payload holds that
/// many 7-byte timestamps.
pub open spec fn tf_time_at(p: Seq<u8>, j: int) -> Option<IsoDateTime> {
    if 1 + 7 * j + 7 <= p.len() {
        Some(iso_date_time_at(p, 1 + 7 * j))
    } else {
        None
    }
}

/// One when the condition holds, zero otherwise.
pub open spec fn b2i(b: bool) -> int {
    if b {
        1
    } else {
        0
    }
}

/// The `TF` payload parse: a flag byte, then one 7-byte timestamp per set
/// time-kind flag, assigned in the fixed on-disc order.
pub open spec fn tf_of(p: Seq<u8>) -> Option<PosixTimestamp> {
    if p.len() >= 8 {
        let f = p[0];
        let has_creation = f & 0x01 != 0;
        let has_modify = f & 0x02 != 0;
        let has_access = f & 0x04 != 0;
        let has_attributes = f & 0x08 != 0;
        let has_backup = f & 0x10 != 0;
        let has_expiration = f & 0x20 != 0;
        let has_effective = f & 0x40 != 0;
        let i_modify = b2i(has_creation);
        let i_access = i_modify + b2i(has_modify);
        let i_attributes = i_access + b2i(has_access);
        let i_backup = i_attributes + b2i(has_attributes);
        let i_expiration = i_backup + b2i(has_backup);
        let i_effective = i_expiration + b2i(has_expiration);
        Some(
            PosixTimestamp {
                creation: if has_creation {
                    tf_time_at(p, 0)
                } else {
                    None
                },
                modify: if has_modify {
                    tf_time_at(p, i_modify)
                } else {
                    None
                },
                access: if has_access {
                    tf_time_at(p, i_access)
                } else {
                    None
                },
                attributes: if has_attributes {
                    tf_time_at(p, i_attributes)
                } else {
                    None
                },
                backup: if has_backup {
                    tf_time_at(p, i_backup)
                } else {
                    None
                },
                expiration: if has_expiration {
                    tf_time_at(p, i_expiration)
                } else {
                    None
                },
                effective: if has_effective {
                    tf_time_at(p, i_effective)
                } else {
                    None
                },
            },
        )
    } else {
        None
    }
}

/// The identifier bytes of the Rock Ridge v1.09 `ER` entry (`RRIP_1991A`).
pub open spec fn rrip_1991a_id() -> Seq<u8> {
    seq![0x52u8, 0x52, 0x49, 0x50, 0x5f, 0x31, 0x39, 0x39, 0x31, 0x41]
}

/// The identifier bytes of the Rock Ridge v1.12 `ER` entry (`IEEE_P1282`).
pub open spec fn ieee_p1282_id() -> Seq<u8> {
    seq![0x49u8, 0x45, 0x45, 0x45, 0x5f, 0x50, 0x31, 0x32, 0x38, 0x32]
}

/// The extension named by an `ER` identifier (space padding trimmed) and
/// version.
pub open spec fn ext_of_id(id: Seq<u8>, version: u8) -> Option<SuspExtension> {
    if version == 1 && trim_end_spaces(id) == rrip_1991a_id() {
        Some(SuspExtension::RockRidge1_09)
    } else if version == 1 && trim_end_spaces(id) == ieee_p1282_id() {
        Some(SuspExtension::RockRidge1_12)
    } else {
        None
    }
}

/// One item of an `ER` payload starting at `i`: identifier, description and
/// source lengths, a version, and the three strings.  Yields the named
/// extension and the index just past the item.
pub open spec fn er_item_at(p: Seq<u8>, i: int) -> Option<(SuspExtension, int)> {
    if i + 4 <= p.len() && i + 4 + p[i] + p[i + 1] + p[i + 2] <= p.len() {
        match ext_of_id(p.subrange(i + 4, i + 4 + p[i]), p[i + 3]) {
            Some(e) => Some((e, i + 4 + p[i] + p[i + 1] + p[i + 2])),
            None => None,
        }
    } else {
        None
    }
}

/// The extensions named by an `ER` payload from `i` on, matched greedily.
pub open spec fn er_list_from(p: Seq<u8>, i: int) -> Seq<SuspExtension>
    decreases p.len() - i when 0 <= i <= p.len()
{
    match er_item_at(p, i) {
        Some((e, n)) => seq![e] + er_list_from(p, n),
        None => Seq::empty(),
    }
}

/// The `ER` payload parse: at least one recognised extension item.
pub open spec fn er_of(p: Seq<u8>) -> Option<ExtensionsReferenceV> {
    if er_list_from(p, 0).len() >= 1 {
        Some(ExtensionsReferenceV { extensions: er_list_from(p, 0) })
    } else {
        None
    }
}

/// One component record of an `SL` payload starting at `i`: a flag byte, a
/// length byte, and that many bytes of UTF-8 component text.
pub open spec fn sl_record_at(p: Seq<u8>, i: int) -> Option<(SlRecordV, int)> {
    if i + 2 <= p.len() && i + 2 + p[i + 1] <= p.len() && valid_utf8(
        p.subrange(i + 2, i + 2 + p[i + 1]),
    ) {
        Some(
            (
                SlRecordV {
                    flags: p[i] & 0x3f,
                    component: decode_utf8(p.subrange(i + 2, i + 2 + p[i + 1])),
                },
                i + 2 + p[i + 1],
            ),
        )
    } else {
        None
    }
}

/// The component records of an `SL` payload from `i` on, matched greedily.
pub open spec fn sl_records_from(p: Seq<u8>, i: int) -> Seq<SlRecordV>
    decreases p.len() - i when 0 <= i <= p.len()
{
    match sl_record_at(p, i) {
        Some((r, n)) => seq![r] + sl_records_from(p, n),
        None => Seq::empty(),
    }
}

/// The `SL` payload parse: a continue byte that must be 0 or 1, then at
/// least one component record.
pub open spec fn sl_of(p: Seq<u8>) -> Option<SymbolicLinkV> {
    if p.len() >= 1 && p[0] <= 1 && sl_records_from(p, 1).len() >= 1 {
        Some(SymbolicLinkV { should_continue: p[0] == 1, records: sl_records_from(p, 1) })
    } else {
        None
    }
}

/// The entry denoted by one frame: the recognised signatures dispatch to
/// their payload parses and fall back to [`Unknown`] when the payload does
/// not parse; anything else is [`Unknown`].
pub open spec fn susp_dispatch(sig0: u8, sig1: u8, version: u8, p: Seq<u8>) -> SuspEntryV {
    let unknown = SuspEntryV::Unknown(UnknownV { sig0, sig1, version, data: p });
    if sig0 == 0x43 && sig1 == 0x45 {  // CE
        match ce_of(p) {
            Some(e) => SuspEntryV::ContinuationArea(e),
            None => unknown,
        }
    } else if sig0 == 0x43 && sig1 == 0x4c {  // CL
        match cl_of(p) {
            Some(e) => SuspEntryV::ChildLink(e),
            None => unknown,
        }
    } else if sig0 == 0x45 && sig1 == 0x52 {  // ER
        match er_of(p) {
            Some(e) => SuspEntryV::ExtensionsReference(e),
            None => unknown,
        }
    } else if sig0 == 0x4e && sig1 == 0x4d {  // NM
        match nm_of(p) {
            Some(e) => SuspEntryV::AlternateName(e),
            None => unknown,
        }
    } else if sig0 == 0x50 && sig1 == 0x58 {  // PX
        match px_of(p) {
            Some(e) => SuspEntryV::PosixAttributes(e),
            None => unknown,
        }
    } else if sig0 == 0x52 && sig1 == 0x45 {  // RE
        SuspEntryV::RelocatedDirectory(RelocatedDirectory(true))
    } else if sig0 == 0x52 && sig1 == 0x52 {  // RR
        match rr_of(p) {
            Some(e) => SuspEntryV::RockRidge(e),
            None => unknown,
        }
    } else if sig0 == 0x53 && sig1 == 0x4c {  // SL
        match sl_of(p) {
            Some(e) => SuspEntryV::SymbolicLink(e),
            None => unknown,
        }
    } else if sig0 == 0x53 && sig1 == 0x50 {  // SP
        match sp_of(p) {
            Some(e) => SuspEntryV::SuspIndicator(e),
            None => unknown,
        }
    } else if sig0 == 0x54 && sig1 == 0x46 {  // TF
        match tf_of(p) {
            Some(e) => SuspEntryV::PosixTimestamp(e),
            None => unknown,
        }
    } else {
        unknown
    }
}

/// Whether a frame fits at `i`: four header bytes, a length of at least 4,
/// and the whole frame within the area.
pub open spec fn susp_frame_ok(d: Seq<u8>, i: int) -> bool {
    &&& i + 4 <= d.len()
    &&& d[i + 2] >= 4
    &&& i + d[i + 2] <= d.len()
}

/// The entries of a system-use area from `i` on: frames are consumed
/// greedily until one no longer fits.
pub open spec fn susp_entries_from(d: Seq<u8>, i: int) -> Seq<SuspEntryV>
    decreases d.len() - i when 0 <= i <= d.len()
{
    if susp_frame_ok(d, i) {
        seq![susp_dispatch(d[i], d[i + 1], d[i + 3], d.subrange(i + 4, i + d[i + 2]))]
            + susp_entries_from(d, i + d[i + 2])
    } else {
        Seq::empty()
    }
}

fn parse_ce(p: &[u8]) -> (r: Option<ContinuationArea>)
    ensures
        r == ce_of(p@),
{
    if p.len() >= 24 {
        let block_location = both_endian32(p, 0).0;
        let offset = both_endian32(p, 8).0;
        let length = both_endian32(p, 16).0;
        Some(ContinuationArea { block_location, offset, length })
    } else {
        None
    }
}

fn parse_cl(p: &[u8]) -> (r: Option<ChildLink>)
    ensures
        r == cl_of(p@),
{
    if p.len() >= 8 {
        Some(ChildLink(both_endian32(p, 0).0))
    } else {
        None
    }
}

fn parse_sp(p: &[u8]) -> (r: Option<SuspIndicator>)
    ensures
        r == sp_of(p@),
{
    if p.len() >= 3 && p[0] == 0xbe && p[1] == 0xef {
        Some(SuspIndicator { skip: p[2] })
    } else {
        None
    }
}

fn parse_rr(p: &[u8]) -> (r: Option<RockRidge>)
    ensures
        r == rr_of(p@),
{
    if p.len() >= 1 {
        Some(RockRidge { flags: p[0] })
    } else {
        None
    }
}

fn parse_px(p: &[u8]) -> (r: Option<PosixAttributes>)
    ensures
        r == px_of(p@),
{
    if p.len() >= 32 {
        let raw_mode = both_endian32(p, 0).0;
        let links = both_endian32(p, 8).0;
        let uid = both_endian32(p, 16).0;
        let gid = both_endian32(p, 24).0;
        let inode = if p.len() >= 40 {
            Some(both_endian32(p, 32).0)
        } else {
            None
        };
        Some(
            PosixAttributes {
                mode: PosixFileMode { bits: raw_mode & MODE_MASK },
                links,
                uid,
                gid,
                inode,
            },
        )
    } else {
        None
    }
}

fn parse_nm(p: &[u8]) -> (r: Option<AlternateName>)
    ensures
        (r is Some) == (nm_of(p@) is Some),
        r matches Some(a) ==> nm_of(p@) == Some(a@),
{
    if p.len() < 1 {
        return None;
    }
    let body = slice_subrange(p, 1, p.len());
    assert(body@ == p@.skip(1));
    let trimmed = trim_nuls_exec(body);
    match string_from_utf8(slice_to_vec(trimmed)) {
        Some(name) => Some(AlternateName { flags: p[0] & 0x27, name }),
        None => None,
    }
}

fn parse_tf(p: &[u8]) -> (r: Option<PosixTimestamp>)
    ensures
        r == tf_of(p@),
{
    if p.len() < 8 {
        return None;
    }
    let f = p[0];
    let mut idx: usize = 0;
    let creation = if f & 0x01 != 0 {
        let t = tf_slot(p, idx);
        idx = idx + 1;
        t
    } else {
        None
    };
    let modify = if f & 0x02 != 0 {
        let t = tf_slot(p, idx);
        idx = idx + 1;
        t
    } else {
        None
    };
    let access = if f & 0x04 != 0 {
        let t = tf_slot(p, idx);
        idx = idx + 1;
        t
    } else {
        None
    };
    let attributes = if f & 0x08 != 0 {
        let t = tf_slot(p, idx);
        idx = idx + 1;
        t
    } else {
        None
    };
    let backup = if f & 0x10 != 0 {
        let t = tf_slot(p, idx);
        idx = idx + 1;
        t
    } else {
        None
    };
    let expiration = if f & 0x20 != 0 {
        let t = tf_slot(p, idx);
        idx = idx + 1;
        t
    } else {
        None
    };
    let effective = if f & 0x40 != 0 {
        let t = tf_slot(p, idx);
        idx = idx + 1;
        t
    } else {
        None
    };
    Some(PosixTimestamp { access, attributes, backup, creation, effective, expiration, modify })
}

fn tf_slot(p: &[u8], j: usize) -> (r: Option<IsoDateTime>)
    requires
        j <= 8,
    ensures
        r == tf_time_at(p@, j as int),
{
    let len = p.len();
    if 1 + 7 * j + 7 <= len {
        Some(parse_iso_date_time(p, 1 + 7 * j))
    } else {
        None
    }
}

fn bytes_eq(a: &[u8], b: &[u8]) -> (r: bool)
    ensures
        r == (a@ == b@),
{
    if a.len() != b.len() {
        proof {
            assert(a@.len() != b@.len());
        }
        return false;
    }
    let n = a.len();
    let mut i: usize = 0;
    while i < n
        invariant
            n == a@.len(),
            n == b@.len(),
            i <= n,
            forall|j: int| 0 <= j < i ==> a@[j] == b@[j],
        decreases n - i,
    {
        if a[i] != b[i] {
            return false;
        }
        i = i + 1;
    }
    proof {
        assert(a@ =~= b@);
    }
    true
}

fn match_extension_id(id: &[u8], version: u8) -> (r: Option<SuspExtension>)
    ensures
        r == ext_of_id(id@, version),
{
    let trimmed = trim_end_spaces_exec(id);
    let rrip: Vec<u8> = vec![0x52u8, 0x52, 0x49, 0x50, 0x5f, 0x31, 0x39, 0x39, 0x31, 0x41];
    let ieee: Vec<u8> = vec![0x49u8, 0x45, 0x45, 0x45, 0x5f, 0x50, 0x31, 0x32, 0x38, 0x32];
    proof {
        assert(rrip@ =~= rrip_1991a_id());
        assert(ieee@ =~= ieee_p1282_id());
    }
    if version == 1 && bytes_eq(trimmed, rrip.as_slice()) {
        Some(SuspExtension::RockRidge1_09)
    } else if version == 1 && bytes_eq(trimmed, ieee.as_slice()) {
        Some(SuspExtension::RockRidge1_12)
    } else {
        None
    }
}

#[verifier::rlimit(60)]
fn parse_er(p: &[u8]) -> (r: Option<ExtensionsReference>)
    ensures
        (r is Some) == (er_of(p@) is Some),
        r matches Some(e) ==> er_of(p@) == Some(e@),
{
    let len = p.len();
    let mut extensions: Vec<SuspExtension> = Vec::new();
    let mut i: usize = 0;
    let mut done = false;
    while !done
        invariant
            i <= len,
            len == p@.len(),
            er_list_from(p@, 0) == extensions@ + er_list_from(p@, i as int),
            done ==> er_item_at(p@, i as int) is None,
        decreases len - i + 1 - (if done { 1int } else { 0int }),
    {
        if len - i < 4 {
            proof {
                assert(er_item_at(p@, i as int) is None);
            }
            done = true;
        } else {
            let idl = p[i] as usize;
            let dl = p[i + 1] as usize;
            let sl = p[i + 2] as usize;
            let ver = p[i + 3];
            if idl + dl + sl > len - (i + 4) {
                proof {
                    assert(er_item_at(p@, i as int) is None);
                }
                done = true;
            } else {
                let id = slice_subrange(p, i + 4, i + 4 + idl);
                assert(id@ == p@.subrange(i as int + 4, i as int + 4 + p@[i as int]));
                match match_extension_id(id, ver) {
                    Some(e) => {
                        proof {
                            assert(er_item_at(p@, i as int) == Some(
                                (e, i as int + 4 + p@[i as int] + p@[i as int + 1] + p@[i as int
                                    + 2]),
                            ));
                            assert(er_list_from(p@, i as int) == seq![e] + er_list_from(
                                p@,
                                i as int + 4 + idl + dl + sl,
                            ));
                        }
                        extensions.push(e);
                        i = i + 4 + idl + dl + sl;
                        proof {
                            assert(er_list_from(p@, 0) =~= extensions@ + er_list_from(
                                p@,
                                i as int,
                            ));
                        }
                    },
                    None => {
                        proof {
                            assert(er_item_at(p@, i as int) is None);
                        }
                        done = true;
                    },
                }
            }
        }
    }
    proof {
        assert(er_list_from(p@, i as int) == Seq::<SuspExtension>::empty());
        assert(er_list_from(p@, 0) =~= extensions@);
    }
    if extensions.len() >= 1 {
        Some(ExtensionsReference { extensions })
    } else {
        None
    }
}

#[verifier::rlimit(60)]
fn parse_sl(p: &[u8]) -> (r: Option<SymbolicLink>)
    ensures
        (r is Some) == (sl_of(p@) is Some),
        r matches Some(e) ==> sl_of(p@) == Some(e@),
{
    let len = p.len();
    if len < 1 || p[0] > 1 {
        return None;
    }
    let should_continue = p[0] == 1;
    let mut records: Vec<SymbolicLinkRecord> = Vec::new();
    let mut i: usize = 1;
    let mut done = false;
    while !done
        invariant
            1 <= i <= len,
            len == p@.len(),
            sl_records_from(p@, 1) == records@.map_values(|r: SymbolicLinkRecord| r@)
                + sl_records_from(p@, i as int),
            done ==> sl_record_at(p@, i as int) is None,
        decreases len - i + 1 - (if done { 1int } else { 0int }),
    {
        if len - i < 2 {
            proof {
                assert(sl_record_at(p@, i as int) is None);
            }
            done = true;
        } else {
            let clen = p[i + 1] as usize;
            if clen > len - (i + 2) {
                proof {
                    assert(sl_record_at(p@, i as int) is None);
                }
                done = true;
            } else {
                let comp = slice_subrange(p, i + 2, i + 2 + clen);
                assert(comp@ == p@.subrange(i as int + 2, i as int + 2 + p@[i as int + 1]));
                match string_from_utf8(slice_to_vec(comp)) {
                    Some(component) => {
                        let rec = SymbolicLinkRecord { flags: p[i] & 0x3f, component };
                        proof {
                            assert(sl_record_at(p@, i as int) == Some(
                                (rec@, i as int + 2 + p@[i as int + 1]),
                            ));
                            assert(sl_records_from(p@, i as int) == seq![rec@] + sl_records_from(
                                p@,
                                i as int + 2 + clen,
                            ));
                        }
                        let ghost old_records = records@;
                        records.push(rec);
                        i = i + 2 + clen;
                        proof {
                            assert(records@.map_values(|r: SymbolicLinkRecord| r@)
                                =~= old_records.map_values(|r: SymbolicLinkRecord| r@) + seq![
                                rec@,
                            ]);
                            assert(sl_records_from(p@, 1) =~= records@.map_values(
                                |r: SymbolicLinkRecord| r@,
                            ) + sl_records_from(p@, i as int));
                        }
                    },
                    None => {
                        proof {
                            assert(sl_record_at(p@, i as int) is None);
                        }
                        done = true;
                    },
                }
            }
        }
    }
    proof {
        assert(sl_records_from(p@, i as int) == Seq::<SlRecordV>::empty());
        assert(sl_records_from(p@, 1) =~= records@.map_values(|r: SymbolicLinkRecord| r@));
    }
    if records.len() >= 1 {
        let r = SymbolicLink { should_continue, records };
        proof {
            assert(sl_of(p@) == Some(r@));
        }
        Some(r)
    } else {
        None
    }
}

/// Parses the frame at `i` and returns the decoded entry together with the
/// index just past it, or `None` when no frame fits there.
fn parse_susp_entry_at(d: &[u8], i: usize) -> (r: Option<(SystemUseEntry, usize)>)
    ensures
        (r is Some) == susp_frame_ok(d@, i as int),
        r matches Some((e, n)) ==> {
            &&& n == i + d@[i as int + 2]
            &&& e@ == susp_dispatch(
                d@[i as int],
                d@[i as int + 1],
                d@[i as int + 3],
                d@.subrange(i as int + 4, i as int + d@[i as int + 2]),
            )
        },
{
    let len = d.len();
    if i > len || len - i < 4 {
        return None;
    }
    let elen = d[i + 2] as usize;
    if elen < 4 || elen > len - i {
        return None;
    }
    let sig0 = d[i];
    let sig1 = d[i + 1];
    let version = d[i + 3];
    let p = slice_subrange(d, i + 4, i + elen);
    assert(p@ == d@.subrange(i as int + 4, i as int + d@[i as int + 2]));
    let entry: SystemUseEntry = if sig0 == 0x43 && sig1 == 0x45 {
        match parse_ce(p) {
            Some(e) => SystemUseEntry::ContinuationArea(e),
            None => SystemUseEntry::Unknown(
                Unknown { sig0, sig1, version, data: slice_to_vec(p) },
            ),
        }
    } else if sig0 == 0x43 && sig1 == 0x4c {
        match parse_cl(p) {
            Some(e) => SystemUseEntry::ChildLink(e),
            None => SystemUseEntry::Unknown(
                Unknown { sig0, sig1, version, data: slice_to_vec(p) },
            ),
        }
    } else if sig0 == 0x45 && sig1 == 0x52 {
        match parse_er(p) {
            Some(e) => SystemUseEntry::ExtensionsReference(e),
            None => SystemUseEntry::Unknown(
                Unknown { sig0, sig1, version, data: slice_to_vec(p) },
            ),
        }
    } else if sig0 == 0x4e && sig1 == 0x4d {
        match parse_nm(p) {
            Some(e) => SystemUseEntry::AlternateName(e),
            None => SystemUseEntry::Unknown(
                Unknown { sig0, sig1, version, data: slice_to_vec(p) },
            ),
        }
    } else if sig0 == 0x50 && sig1 == 0x58 {
        match parse_px(p) {
            Some(e) => SystemUseEntry::PosixAttributes(e),
            None => SystemUseEntry::Unknown(
                Unknown { sig0, sig1, version, data: slice_to_vec(p) },
            ),
        }
    } else if sig0 == 0x52 && sig1 == 0x45 {
        SystemUseEntry::RelocatedDirectory(RelocatedDirectory(true))
    } else if sig0 == 0x52 && sig1 == 0x52 {
        match parse_rr(p) {
            Some(e) => SystemUseEntry::RockRidge(e),
            None => SystemUseEntry::Unknown(
                Unknown { sig0, sig1, version, data: slice_to_vec(p) },
            ),
        }
    } else if sig0 == 0x53 && sig1 == 0x4c {
        match parse_sl(p) {
            Some(e) => SystemUseEntry::SymbolicLink(e),
            None => SystemUseEntry::Unknown(
                Unknown { sig0, sig1, version, data: slice_to_vec(p) },
            ),
        }
    } else if sig0 == 0x53 && sig1 == 0x50 {
        match parse_sp(p) {
            Some(e) => SystemUseEntry::SuspIndicator(e),
            None => SystemUseEntry::Unknown(
                Unknown { sig0, sig1, version, data: slice_to_vec(p) },
            ),
        }
    } else if sig0 == 0x54 && sig1 == 0x46 {
        match parse_tf(p) {
            Some(e) => SystemUseEntry::PosixTimestamp(e),
            None => SystemUseEntry::Unknown(
                Unknown { sig0, sig1, version, data: slice_to_vec(p) },
            ),
        }
    } else {
        SystemUseEntry::Unknown(Unknown { sig0, sig1, version, data: slice_to_vec(p) })
    };
    Some((entry, i + elen))
}

/// Decodes a whole system-use area: entries are matched greedily from the
/// start until a frame no longer fits; the bytes after that point — usually
/// zero padding — are ignored.
pub fn system_use_entries(d: &[u8]) -> (r: Vec<SystemUseEntry>)
    ensures
        entry_views(r@) == susp_entries_from(d@, 0),
{
    let len = d.len();
    let mut entries: Vec<SystemUseEntry> = Vec::new();
    let mut i: usize = 0;
    let mut done = false;
    while !done
        invariant
            i <= len,
            len == d@.len(),
            susp_entries_from(d@, 0) == entry_views(entries@) + susp_entries_from(d@, i as int),
            done ==> !susp_frame_ok(d@, i as int),
        decreases len - i + 1 - (if done { 1int } else { 0int }),
    {
        match parse_susp_entry_at(d, i) {
            Some((entry, next)) => {
                proof {
                    assert(susp_entries_from(d@, i as int) == seq![entry@] + susp_entries_from(
                        d@,
                        next as int,
                    ));
                }
                let ghost old_entries = entries@;
                entries.push(entry);
                i = next;
                proof {
                    assert(entry_views(entries@) =~= entry_views(old_entries) + seq![entry@]);
                    assert(susp_entries_from(d@, 0) =~= entry_views(entries@) + susp_entries_from(
                        d@,
                        i as int,
                    ));
                }
            },
            None => {
                done = true;
            },
        }
    }
    proof {
        assert(susp_entries_from(d@, i as int) == Seq::<SuspEntryV>::empty());
        assert(susp_entries_from(d@, 0) =~= entry_views(entries@));
    }
    entries
}

fn type_str(b: u32) -> (r: &'static str)
    ensures
        r@ == seq![PosixFileMode::spec_type_char(b)],
{
    proof {
        reveal_strlit("s");
        reveal_strlit("l");
        reveal_strlit("-");
        reveal_strlit("b");
        reveal_strlit("d");
        reveal_strlit("c");
        reveal_strlit("p");
        reveal_strlit("?");
    }
    let r: &'static str = if b & 0o140000 == 0o140000 {
        "s"
    } else if b & 0o120000 == 0o120000 {
        "l"
    } else if b & 0o100000 == 0o100000 {
        "-"
    } else if b & 0o060000 == 0o060000 {
        "b"
    } else if b & 0o040000 == 0o040000 {
        "d"
    } else if b & 0o020000 == 0o020000 {
        "c"
    } else if b & 0o010000 == 0o010000 {
        "p"
    } else {
        "?"
    };
    proof {
        assert(r@ =~= seq![PosixFileMode::spec_type_char(b)]);
    }
    r
}

fn perm_str_r(b: u32, mask: u32) -> (r: &'static str)
    ensures
        r@ == seq![PosixFileMode::spec_perm_char(b, mask, 'r')],
{
    proof {
        reveal_strlit("r");
        reveal_strlit("-");
    }
    let r: &'static str = if b & mask != 0 {
        "r"
    } else {
        "-"
    };
    proof {
        assert(r@ =~= seq![PosixFileMode::spec_perm_char(b, mask, 'r')]);
    }
    r
}

fn perm_str_w(b: u32, mask: u32) -> (r: &'static str)
    ensures
        r@ == seq![PosixFileMode::spec_perm_char(b, mask, 'w')],
{
    proof {
        reveal_strlit("w");
        reveal_strlit("-");
    }
    let r: &'static str = if b & mask != 0 {
        "w"
    } else {
        "-"
    };
    proof {
        assert(r@ =~= seq![PosixFileMode::spec_perm_char(b, mask, 'w')]);
    }
    r
}

fn perm_str_x(b: u32, mask: u32) -> (r: &'static str)
    ensures
        r@ == seq![PosixFileMode::spec_perm_char(b, mask, 'x')],
{
    proof {
        reveal_strlit("x");
        reveal_strlit("-");
    }
    let r: &'static str = if b & mask != 0 {
        "x"
    } else {
        "-"
    };
    proof {
        assert(r@ =~= seq![PosixFileMode::spec_perm_char(b, mask, 'x')]);
    }
    r
}

fn exec_str(b: u32, xmask: u32, smask: u32) -> (r: &'static str)
    ensures
        r@ == seq![PosixFileMode::spec_exec_char(b, xmask, smask)],
{
    proof {
        reveal_strlit("S");
        reveal_strlit("x");
        reveal_strlit("s");
        reveal_strlit("-");
    }
    let r: &'static str = if b & xmask != 0 {
        if b & smask != 0 {
            "S"
        } else {
            "x"
        }
    } else if b & smask != 0 {
        "s"
    } else {
        "-"
    };
    proof {
        assert(r@ =~= seq![PosixFileMode::spec_exec_char(b, xmask, smask)]);
    }
    r
}

} // verus!
