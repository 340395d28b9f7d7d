//! The entries of a directory: directories, regular files, and symbolic
//! links, classified from a directory record and its Rock Ridge metadata.
//!
//! Files and symbolic links carry a version number, stripped from the
//! trailing `;version` of the on-disc identifier, and lose a single trailing
//! `.` left by extension-less names.  Directories rewrite the one-byte
//! identifiers `00` and `01` to `.` and `..`.

use vstd::prelude::*;

use crate::directory_record::{DirectoryEntryHeader, FileFlags, FLAG_DIRECTORY};
use crate::error::ISOError;
use crate::extra_meta::{ExtraAttributes, ExtraMeta, MetaV};
use crate::susp::SuspExtension;

verus! {

/// A directory entry.
pub struct ISODirectory {
    /// The on-disc record header.
    pub header: DirectoryEntryHeader,
    /// The presented name.
    pub identifier: String,
    /// The Rock Ridge metadata.
    pub ext: ExtraMeta,
}

/// A regular-file entry.
pub struct ISOFile {
    /// The on-disc record header.
    pub header: DirectoryEntryHeader,
    /// The presented name, version suffix stripped.
    pub identifier: String,
    /// The file version from the `;version` suffix, 1 when absent.
    pub version: u16,
    /// The Rock Ridge metadata.
    pub ext: ExtraMeta,
}

/// A symbolic-link entry.
pub struct Symlink {
    /// The on-disc record header.
    pub header: DirectoryEntryHeader,
    /// The presented name, version suffix stripped.
    pub identifier: String,
    /// The file version from the `;version` suffix, 1 when absent.
    pub version: u16,
    /// The Rock Ridge metadata.
    pub ext: ExtraMeta,
}

/// An entry of a directory.
pub enum DirectoryEntry {
    /// A directory.
    Directory(ISODirectory),
    /// A regular file.
    File(ISOFile),
    /// A symbolic link.
    Symlink(Symlink),
}

/// Mathematical image of an [`ISODirectory`].
pub ghost struct DirV {
    /// The record header.
    pub header: DirectoryEntryHeader,
    /// The presented name.
    pub identifier: Seq<char>,
    /// The metadata.
    pub ext: MetaV,
}

/// Mathematical image of an [`ISOFile`].
pub ghost struct FileV {
    /// The record header.
    pub header: DirectoryEntryHeader,
    /// The presented name.
    pub identifier: Seq<char>,
    /// The file version.
    pub version: u16,
    /// The metadata.
    pub ext: MetaV,
}

/// Mathematical image of a [`Symlink`].
pub ghost struct SymlinkEntryV {
    /// The record header.
    pub header: DirectoryEntryHeader,
    /// The presented name.
    pub identifier: Seq<char>,
    /// The file version.
    pub version: u16,
    /// The metadata.
    pub ext: MetaV,
}

/// Mathematical image of a [`DirectoryEntry`].
pub ghost enum EntryV {
    /// A directory.
    Directory(DirV),
    /// A regular file.
    File(FileV),
    /// A symbolic link.
    Symlink(SymlinkEntryV),
}

impl View for ISODirectory {
    type V = DirV;

    open spec fn view(&self) -> DirV {
        DirV { header: self.header, identifier: self.identifier@, ext: self.ext@ }
    }
}

impl View for ISOFile {
    type V = FileV;

    open spec fn view(&self) -> FileV {
        FileV {
            header: self.header,
            identifier: self.identifier@,
            version: self.version,
            ext: self.ext@,
        }
    }
}

impl View for Symlink {
    type V = SymlinkEntryV;

    open spec fn view(&self) -> SymlinkEntryV {
        SymlinkEntryV {
            header: self.header,
            identifier: self.identifier@,
            version: self.version,
            ext: self.ext@,
        }
    }
}

impl View for DirectoryEntry {
    type V = EntryV;

    open spec fn view(&self) -> EntryV {
        match self {
            DirectoryEntry::Directory(d) => EntryV::Directory(d@),
            DirectoryEntry::File(f) => EntryV::File(f@),
            DirectoryEntry::Symlink(s) => EntryV::Symlink(s@),
        }
    }
}

impl Clone for ISODirectory {
    /// Clones the entry; the copy has the same mathematical image.
    fn clone(&self) -> (r: Self)
        ensures
            r@ == self@,
    {
        ISODirectory {
            header: self.header,
            identifier: self.identifier.clone(),
            ext: self.ext.clone(),
        }
    }
}

impl Clone for ISOFile {
    /// Clones the entry; the copy has the same mathematical image.
    fn clone(&self) -> (r: Self)
        ensures
            r@ == self@,
    {
        ISOFile {
            header: self.header,
            identifier: self.identifier.clone(),
            version: self.version,
            ext: self.ext.clone(),
        }
    }
}

impl Clone for Symlink {
    /// Clones the entry; the copy has the same mathematical image.
    fn clone(&self) -> (r: Self)
        ensures
            r@ == self@,
    {
        Symlink {
            header: self.header,
            identifier: self.identifier.clone(),
            version: self.version,
            ext: self.ext.clone(),
        }
    }
}

impl Clone for DirectoryEntry {
    /// Clones the entry; the copy has the same mathematical image.
    fn clone(&self) -> (r: Self)
        ensures
            r@ == self@,
    {
        match self {
            DirectoryEntry::Directory(d) => DirectoryEntry::Directory(d.clone()),
            DirectoryEntry::File(f) => DirectoryEntry::File(f.clone()),
            DirectoryEntry::Symlink(s) => DirectoryEntry::Symlink(s.clone()),
        }
    }
}

/// The record header of an entry.
pub open spec fn entry_header(e: EntryV) -> DirectoryEntryHeader {
    match e {
        EntryV::Directory(d) => d.header,
        EntryV::File(f) => f.header,
        EntryV::Symlink(s) => s.header,
    }
}

/// The presented name of an entry.
pub open spec fn entry_identifier(e: EntryV) -> Seq<char> {
    match e {
        EntryV::Directory(d) => d.identifier,
        EntryV::File(f) => f.identifier,
        EntryV::Symlink(s) => s.identifier,
    }
}

/// The name an entry presents before classification: the Rock Ridge
/// alternate name when present, else the on-disc identifier.
pub open spec fn base_name(identifier: Seq<char>, ext: MetaV) -> Seq<char> {
    match ext.alt_name {
        Some(n) => n,
        None => identifier,
    }
}

/// A directory's presented name: the base name, with the one-byte
/// identifiers `00` and `01` rewritten to `.` and `..`.
pub open spec fn effective_dir_name(identifier: Seq<char>, ext: MetaV) -> Seq<char> {
    let base = base_name(identifier, ext);
    if base == seq!['\u{0}'] {
        seq!['.']
    } else if base == seq!['\u{1}'] {
        seq!['.', '.']
    } else {
        base
    }
}

/// The index of the last `;` of a name, or -1 when there is none.
pub open spec fn last_semi(s: Seq<char>) -> int
    decreases s.len(),
{
    if s.len() == 0 {
        -1
    } else if s[s.len() - 1] == ';' {
        s.len() - 1
    } else {
        last_semi(s.drop_last())
    }
}

/// Whether a character is an ASCII decimal digit.
pub open spec fn is_digit_char(c: char) -> bool {
    0x30 <= c as int <= 0x39
}

/// Whether every character is an ASCII decimal digit.
pub open spec fn all_digit_chars(s: Seq<char>) -> bool {
    forall|i: int| 0 <= i < s.len() ==> is_digit_char(s[i])
}

/// The decimal value of a digit string.
pub open spec fn digits_value(s: Seq<char>) -> int
    decreases s.len(),
{
    if s.len() == 0 {
        0
    } else {
        digits_value(s.drop_last()) * 10 + (s[s.len() - 1] as int - 0x30)
    }
}

/// The version carried by a name: the decimal value of the digits after the
/// last `;`, 1 when there is no `;`, and nothing when the suffix is empty,
/// not numeric, or too large for its 16-bit field.
pub open spec fn version_of(s: Seq<char>) -> Option<int> {
    if last_semi(s) >= 0 {
        let ds = s.skip(last_semi(s) + 1);
        if ds.len() > 0 && all_digit_chars(ds) && digits_value(ds) <= 0xffff {
            Some(digits_value(ds))
        } else {
            None
        }
    } else {
        Some(1)
    }
}

/// The name with any `;version` suffix and a single trailing `.` removed.
pub open spec fn stem_of(s: Seq<char>) -> Seq<char> {
    let base = if last_semi(s) >= 0 {
        s.take(last_semi(s))
    } else {
        s
    };
    if base.len() > 0 && base[base.len() - 1] == '.' {
        base.drop_last()
    } else {
        base
    }
}

proof fn lemma_last_semi_at(s: Seq<char>, i: int)
    requires
        0 <= i < s.len(),
        s[i] == ';',
        forall|k: int| i < k < s.len() ==> s[k] != ';',
    ensures
        last_semi(s) == i,
    decreases s.len(),
{
    if i < s.len() - 1 {
        lemma_last_semi_at(s.drop_last(), i);
    }
}

proof fn lemma_last_semi_none(s: Seq<char>)
    requires
        forall|k: int| 0 <= k < s.len() ==> s[k] != ';',
    ensures
        last_semi(s) == -1,
    decreases s.len(),
{
    if s.len() > 0 {
        lemma_last_semi_none(s.drop_last());
    }
}

proof fn lemma_digits_value_nonneg(s: Seq<char>)
    requires
        all_digit_chars(s),
    ensures
        digits_value(s) >= 0,
    decreases s.len(),
{
    if s.len() > 0 {
        assert(all_digit_chars(s.drop_last()));
        lemma_digits_value_nonneg(s.drop_last());
    }
}

/// Parses a name's `;version` suffix: returns the stem (with a single
/// trailing `.` also removed) and the version, 1 when there is no suffix.
#[verifier::rlimit(60)]
#[verifier::loop_isolation(false)]
pub fn strip_version(name: &str) -> (r: Result<(String, u16), ISOError>)
    ensures
        r matches Ok((stem, v)) ==> stem@ == stem_of(name@) && version_of(name@) == Some(v as int),
        (r is Err) == (version_of(name@) is None),
        r matches Err(e) ==> e == ISOError::ParseInt,
{
    let n = name.unicode_len();
    let mut j = n;
    let mut semi_idx: usize = 0;
    let mut found = false;
    while j > 0
        invariant
            j <= n,
            found ==> j < n && name@[j as int] == ';' && semi_idx == j,
            forall|k: int| j < k < n ==> name@[k] != ';',
            !found ==> forall|k: int| j <= k < n ==> name@[k] != ';',
        decreases j,
    {
        if found {
            break ;
        }
        j = j - 1;
        if name.get_char(j) == ';' {
            found = true;
            semi_idx = j;
        }
    }
    proof {
        if found {
            lemma_last_semi_at(name@, semi_idx as int);
        } else {
            lemma_last_semi_none(name@);
        }
    }
    let version: u16 = if found {
        let ghost ds = name@.skip(semi_idx as int + 1);
        if semi_idx + 1 == n {
            return Err(ISOError::ParseInt);
        }
        let mut acc: u32 = 0;
        let mut over = false;
        let mut k = semi_idx + 1;
        while k < n
            invariant
                semi_idx + 1 <= k <= n,
                ds == name@.skip(semi_idx as int + 1),
                forall|t: int| semi_idx + 1 <= t < k ==> is_digit_char(name@[t]),
                !over ==> acc <= 0xffff && acc == digits_value(
                    ds.take(k as int - (semi_idx as int + 1)),
                ),
                over ==> digits_value(ds.take(k as int - (semi_idx as int + 1))) > 0xffff,
            decreases n - k,
        {
            let c = name.get_char(k);
            let u = c as u32;
            if !(0x30 <= u && u <= 0x39) {
                proof {
                    assert(ds[k as int - (semi_idx as int + 1)] == name@[k as int]);
                    assert(!all_digit_chars(ds));
                }
                return Err(ISOError::ParseInt);
            }
            let d = u - 0x30;
            let ghost m = k as int - (semi_idx as int + 1);
            proof {
                assert(ds.take(m + 1).drop_last() =~= ds.take(m));
                assert(ds.take(m + 1).last() == name@[k as int]);
            }
            if !over {
                if acc > 6553 || (acc == 6553 && d > 5) {
                    over = true;
                    proof {
                        assert(digits_value(ds.take(m + 1)) == acc * 10 + d > 0xffff);
                    }
                } else {
                    acc = acc * 10 + d;
                }
            } else {
                proof {
                    assert(digits_value(ds.take(m + 1)) == digits_value(ds.take(m)) * 10 + d);
                    assert(digits_value(ds.take(m)) * 10 > 0xffff * 10) by (nonlinear_arith)
                        requires
                            digits_value(ds.take(m)) > 0xffff,
                    ;
                }
            }
            k = k + 1;
        }
        proof {
            assert(ds.take(n as int - (semi_idx as int + 1)) =~= ds);
            assert(all_digit_chars(ds));
        }
        if over {
            return Err(ISOError::ParseInt);
        }
        acc as u16
    } else {
        1
    };
    let base: &str = if found {
        name.substring_char(0, semi_idx)
    } else {
        name
    };
    proof {
        if found {
            assert(base@ == name@.take(semi_idx as int));
        } else {
            assert(base@ =~= name@.take(name@.len() as int));
        }
    }
    let blen = base.unicode_len();
    let stem: &str = if blen > 0 && base.get_char(blen - 1) == '.' {
        let s = base.substring_char(0, blen - 1);
        proof {
            assert(s@ =~= base@.drop_last());
        }
        s
    } else {
        base
    };
    proof {
        assert(stem@ =~= stem_of(name@));
    }
    Ok((String::from_str(stem), version))
}

/// Whether the metadata marks a non-directory record as a symbolic link.
pub open spec fn meta_is_symlink(ext: MetaV) -> bool {
    match ext.attributes {
        Some(a) => a.mode.spec_is_symlink(),
        None => false,
    }
}

/// The entry denoted by a record's header, identifier, and metadata: a
/// directory when the directory flag is set; else a symbolic link when the
/// POSIX mode says so; else a regular file.  Nothing when the version suffix
/// of a file or link name does not parse.
pub open spec fn make_entry(
    header: DirectoryEntryHeader,
    identifier: Seq<char>,
    ext: MetaV,
) -> Option<EntryV> {
    if header.file_flags.spec_directory() {
        Some(
            EntryV::Directory(
                DirV { header, identifier: effective_dir_name(identifier, ext), ext },
            ),
        )
    } else {
        let base = base_name(identifier, ext);
        match version_of(base) {
            Some(v) => {
                if meta_is_symlink(ext) {
                    Some(
                        EntryV::Symlink(
                            SymlinkEntryV {
                                header,
                                identifier: stem_of(base),
                                version: v as u16,
                                ext,
                            },
                        ),
                    )
                } else {
                    Some(
                        EntryV::File(
                            FileV { header, identifier: stem_of(base), version: v as u16, ext },
                        ),
                    )
                }
            },
            None => None,
        }
    }
}

/// The header of a child-link rewrite: the directory flag forced on, the
/// extent moved to the linked block, and a one-block length to be read
/// lazily.
pub open spec fn child_link_header(h: DirectoryEntryHeader, lba: u32) -> DirectoryEntryHeader {
    DirectoryEntryHeader {
        extent_loc: lba,
        extent_length: 2048,
        file_flags: FileFlags { bits: h.file_flags.bits | FLAG_DIRECTORY },
        ..h
    }
}

/// The child-link rewrite: a file-typed stub carrying a `CL` entry stands
/// for a relocated directory whose contents live at the linked block, so it
/// materialises as a directory entry there.  A child link on anything but a
/// file does not occur on valid volumes and is rejected.
pub open spec fn rewritten_entry(e: EntryV, cl: Option<u32>) -> Option<EntryV> {
    match cl {
        None => Some(e),
        Some(lba) => match e {
            EntryV::File(f) => Some(
                EntryV::Directory(
                    DirV {
                        header: child_link_header(f.header, lba),
                        identifier: effective_dir_name(f.identifier, f.ext),
                        ext: f.ext,
                    },
                ),
            ),
            _ => None,
        },
    }
}

/// A child-link-bearing file stub always materialises as a directory whose
/// extent is the linked block.
pub proof fn lemma_child_link_directory(f: FileV, lba: u32)
    ensures
        rewritten_entry(EntryV::File(f), Some(lba)) == Some(
            EntryV::Directory(
                DirV {
                    header: child_link_header(f.header, lba),
                    identifier: effective_dir_name(f.identifier, f.ext),
                    ext: f.ext,
                },
            ),
        ),
        child_link_header(f.header, lba).extent_loc == lba,
{
}

fn rewrite_dots(name: String) -> (r: String)
    ensures
        r@ == (if name@ == seq!['\u{0}'] {
            seq!['.']
        } else if name@ == seq!['\u{1}'] {
            seq!['.', '.']
        } else {
            name@
        }),
{
    let n = name.as_str().unicode_len();
    if n == 1 && name.as_str().get_char(0) == '\u{0}' {
        let s = String::from_str(".");
        proof {
            reveal_strlit(".");
            assert(name@ =~= seq!['\u{0}']);
            assert(s@ =~= seq!['.']);
        }
        s
    } else if n == 1 && name.as_str().get_char(0) == '\u{1}' {
        let s = String::from_str("..");
        proof {
            reveal_strlit("..");
            assert(name@ =~= seq!['\u{1}']);
            assert(s@ =~= seq!['.', '.']);
        }
        s
    } else {
        proof {
            if name@ == seq!['\u{0}'] {
                assert(name@[0] == '\u{0}');
            }
            if name@ == seq!['\u{1}'] {
                assert(name@[0] == '\u{1}');
            }
        }
        name
    }
}

impl ISODirectory {
    /// Builds a directory entry: the alternate name wins over the on-disc
    /// identifier, and the `00` / `01` identifiers become `.` and `..`.
    pub fn new(header: DirectoryEntryHeader, ext: ExtraMeta, identifier: String) -> (r:
        ISODirectory)
        ensures
            r@ == (DirV {
                header,
                identifier: effective_dir_name(identifier@, ext@),
                ext: ext@,
            }),
    {
        let base: String = match ext.alt_name {
            Some(ref n) => n.clone(),
            None => identifier,
        };
        let name = rewrite_dots(base);
        ISODirectory { header, identifier: name, ext }
    }

    /// Whether Rock Ridge extensions were announced for this entry.
    pub fn is_rock_ridge(&self) -> (r: bool)
        ensures
            r == (self@.ext.extensions.contains(SuspExtension::RockRidge1_09)
                || self@.ext.extensions.contains(SuspExtension::RockRidge1_12)),
    {
        let n = self.ext.extensions.len();
        let mut i: usize = 0;
        while i < n
            invariant
                i <= n,
                n == self.ext.extensions@.len(),
                forall|j: int|
                    0 <= j < i ==> self.ext.extensions@[j] != SuspExtension::RockRidge1_09
                        && self.ext.extensions@[j] != SuspExtension::RockRidge1_12,
            decreases n - i,
        {
            let e = self.ext.extensions[i];
            if matches!(e, SuspExtension::RockRidge1_09) || matches!(
                e,
                SuspExtension::RockRidge1_12,
            ) {
                return true;
            }
            i = i + 1;
        }
        false
    }
}

impl ISOFile {
    /// Builds a regular-file entry: the alternate name wins over the on-disc
    /// identifier, and the `;version` suffix and a trailing `.` come off.
    pub fn new(header: DirectoryEntryHeader, ext: ExtraMeta, identifier: String) -> (r: Result<
        ISOFile,
        ISOError,
    >)
        ensures
            r matches Ok(f) ==> version_of(base_name(identifier@, ext@)) == Some(
                f.version as int,
            ) && f@ == (FileV {
                header,
                identifier: stem_of(base_name(identifier@, ext@)),
                version: f.version,
                ext: ext@,
            }),
            (r is Err) == (version_of(base_name(identifier@, ext@)) is None),
            r matches Err(e) ==> e == ISOError::ParseInt,
    {
        let base: String = match ext.alt_name {
            Some(ref n) => n.clone(),
            None => identifier,
        };
        match strip_version(base.as_str()) {
            Ok((identifier, version)) => Ok(ISOFile { header, identifier, version, ext }),
            Err(e) => Err(e),
        }
    }

    /// The size of the file in bytes.
    pub fn size(&self) -> (r: u32)
        ensures
            r == self.header.extent_length,
    {
        self.header.extent_length
    }
}

impl Symlink {
    /// Builds a symbolic-link entry; the name is treated as a file name.
    pub fn new(header: DirectoryEntryHeader, ext: ExtraMeta, identifier: String) -> (r: Result<
        Symlink,
        ISOError,
    >)
        ensures
            r matches Ok(f) ==> version_of(base_name(identifier@, ext@)) == Some(
                f.version as int,
            ) && f@ == (SymlinkEntryV {
                header,
                identifier: stem_of(base_name(identifier@, ext@)),
                version: f.version,
                ext: ext@,
            }),
            (r is Err) == (version_of(base_name(identifier@, ext@)) is None),
            r matches Err(e) ==> e == ISOError::ParseInt,
    {
        let base: String = match ext.alt_name {
            Some(ref n) => n.clone(),
            None => identifier,
        };
        match strip_version(base.as_str()) {
            Ok((identifier, version)) => Ok(Symlink { header, identifier, version, ext }),
            Err(e) => Err(e),
        }
    }

    /// The path the link points to, when its `SL` entries supplied one.
    pub fn target(&self) -> (r: Option<&String>)
        ensures
            (r is Some) == (self@.ext.symlink_target is Some),
            r matches Some(s) ==> Some(s@) == self@.ext.symlink_target,
    {
        match self.ext.symlink_target {
            Some(ref s) => Some(s),
            None => None,
        }
    }
}

impl DirectoryEntry {
    /// Classifies one parsed record into a directory, file, or symbolic
    /// link.
    pub fn new(header: DirectoryEntryHeader, ext: ExtraMeta, identifier: String) -> (r: Result<
        DirectoryEntry,
        ISOError,
    >)
        ensures
            r matches Ok(e) ==> make_entry(header, identifier@, ext@) == Some(e@),
            (r is Err) == (make_entry(header, identifier@, ext@) is None),
            r matches Err(e) ==> e == ISOError::ParseInt,
    {
        let is_dir = header.file_flags.directory();
        let is_symlink = match ext.attributes {
            Some(ref attributes) => attributes.mode.is_symlink(),
            None => false,
        };
        if is_dir {
            Ok(DirectoryEntry::Directory(ISODirectory::new(header, ext, identifier)))
        } else if is_symlink {
            match Symlink::new(header, ext, identifier) {
                Ok(s) => Ok(DirectoryEntry::Symlink(s)),
                Err(e) => Err(e),
            }
        } else {
            match ISOFile::new(header, ext, identifier) {
                Ok(f) => Ok(DirectoryEntry::File(f)),
                Err(e) => Err(e),
            }
        }
    }

    /// The presented name of the entry.
    pub fn identifier(&self) -> (r: &str)
        ensures
            r@ == entry_identifier(self@),
    {
        match self {
            DirectoryEntry::Directory(ref dir) => dir.identifier.as_str(),
            DirectoryEntry::File(ref file) => file.identifier.as_str(),
            DirectoryEntry::Symlink(ref link) => link.identifier.as_str(),
        }
    }
}

impl ExtraAttributes for ISODirectory {
    open spec fn spec_ext(&self) -> ExtraMeta {
        self.ext
    }

    open spec fn spec_header(&self) -> DirectoryEntryHeader {
        self.header
    }

    fn ext(&self) -> (r: &ExtraMeta) {
        &self.ext
    }

    fn header(&self) -> (r: &DirectoryEntryHeader) {
        &self.header
    }
}

impl ExtraAttributes for ISOFile {
    open spec fn spec_ext(&self) -> ExtraMeta {
        self.ext
    }

    open spec fn spec_header(&self) -> DirectoryEntryHeader {
        self.header
    }

    fn ext(&self) -> (r: &ExtraMeta) {
        &self.ext
    }

    fn header(&self) -> (r: &DirectoryEntryHeader) {
        &self.header
    }
}

impl ExtraAttributes for Symlink {
    open spec fn spec_ext(&self) -> ExtraMeta {
        self.ext
    }

    open spec fn spec_header(&self) -> DirectoryEntryHeader {
        self.header
    }

    fn ext(&self) -> (r: &ExtraMeta) {
        &self.ext
    }

    fn header(&self) -> (r: &DirectoryEntryHeader) {
        &self.header
    }
}

impl ExtraAttributes for DirectoryEntry {
    open spec fn spec_ext(&self) -> ExtraMeta {
        match self {
            DirectoryEntry::Directory(d) => d.ext,
            DirectoryEntry::File(f) => f.ext,
            DirectoryEntry::Symlink(s) => s.ext,
        }
    }

    open spec fn spec_header(&self) -> DirectoryEntryHeader {
        match self {
            DirectoryEntry::Directory(d) => d.header,
            DirectoryEntry::File(f) => f.header,
            DirectoryEntry::Symlink(s) => s.header,
        }
    }

    fn ext(&self) -> (r: &ExtraMeta) {
        match self {
            DirectoryEntry::Directory(ref d) => &d.ext,
            DirectoryEntry::File(ref f) => &f.ext,
            DirectoryEntry::Symlink(ref s) => &s.ext,
        }
    }

    fn header(&self) -> (r: &DirectoryEntryHeader) {
        match self {
            DirectoryEntry::Directory(ref d) => &d.header,
            DirectoryEntry::File(ref f) => &f.header,
            DirectoryEntry::Symlink(ref s) => &s.header,
        }
    }
}

} // verus!
