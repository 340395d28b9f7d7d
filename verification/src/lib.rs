//! A portable, userland, read-only implementation of the ISO 9660 / ECMA-119
//! filesystem, with support for the Joliet (UCS-2 long names) and Rock Ridge
//! (POSIX attributes, long names, symbolic links, deep-tree relocation)
//! extensions.
//!
//! The byte source is anything that can serve 2048-byte logical blocks by
//! logical block address; an in-memory source is provided.  Mounting yields
//! a navigable directory tree whose file contents can be read through a
//! seekable reader.

use vstd::prelude::*;

pub mod both_endian;
pub mod datetime;
pub mod directory_entry;
pub mod directory_record;
pub mod encoding;
pub mod error;
pub mod extra_meta;
pub mod fileref;
pub mod isodirectory;
pub mod isofile;
pub mod path;
pub mod strutil;
pub mod susp;
pub mod volume_descriptor;

pub use directory_entry::{DirectoryEntry, ISODirectory, ISOFile, Symlink};
pub use error::ISOError;
pub use extra_meta::{ExtraAttributes, ExtraMeta};
pub use fileref::{BlockBuffer, BlockBufferCtor, FileRef, ISO9660Reader, MemoryReader};
pub use isodirectory::ISODirectoryIterator;
pub use isofile::{ISOFileReader, SeekFrom};
pub use susp::{PosixAttributes, PosixFileMode, PosixTimestamp, SuspExtension};
pub use volume_descriptor::{VolumeDescriptor, VolumeDescriptorTable};

use directory_entry::{effective_dir_name, DirV, EntryV};
use extra_meta::empty_meta;
use fileref::{avail_from, new_block_buffer};
use isodirectory::{entry_read_owed, spec_read_entry, spec_resolve};
use volume_descriptor::{magic_ok, table_matches};

verus! {

/// The size of a filesystem block.  This implementation supports only the
/// ubiquitous 2048-byte logical block size.
pub const BLOCK_SIZE: u16 = 2048;

/// The bytes of the block at `lba`.
pub open spec fn block_at(data: Seq<u8>, lba: int) -> Seq<u8> {
    data.subrange(lba * 2048, lba * 2048 + 2048)
}

/// The root directory that a volume-descriptor table announces: its root
/// record and identifier, with no extra metadata.
pub open spec fn root_dir_of(t: VolumeDescriptorTable) -> DirV {
    DirV {
        header: t.root_directory_entry,
        identifier: effective_dir_name(t.root_directory_entry_identifier@, empty_meta()),
        ext: empty_meta(),
    }
}

/// Whether `t` is the table of a descriptor block of type `code` somewhere
/// in the volume-descriptor set of `data`.
pub open spec fn table_from_set(data: Seq<u8>, code: u8, t: VolumeDescriptorTable) -> bool {
    exists|l: int|
        16 <= l && l * 2048 + 2048 <= data.len() && (#[trigger] block_at(data, l))[0] == code
            && magic_ok(block_at(data, l)) && table_matches(block_at(data, l), t)
}

/// The scan of the volume-descriptor set from block `lba` up to the first
/// Set Terminator: the blocks of the last Primary and the last Supplementary
/// descriptor seen on the way, or nothing when a block cannot be served in
/// full or lacks the standard identifier.
pub open spec fn scan_descriptors(
    data: Seq<u8>,
    lba: int,
    prim: Option<int>,
    sup: Option<int>,
) -> Option<(Option<int>, Option<int>)>
    decreases avail_from(data, lba * 2048) when lba >= 0
{
    if lba * 2048 + 2048 > data.len() {
        None
    } else {
        let b = block_at(data, lba);
        if !magic_ok(b) {
            None
        } else if b[0] == 255 {
            Some((prim, sup))
        } else if b[0] == 1 {
            scan_descriptors(data, lba + 1, Some(lba), sup)
        } else if b[0] == 2 {
            scan_descriptors(data, lba + 1, prim, Some(lba))
        } else {
            scan_descriptors(data, lba + 1, prim, sup)
        }
    }
}

/// A mounted ISO 9660 / ECMA-119 filesystem.
pub struct ISO9660<T: ISO9660Reader> {
    file: FileRef<T>,
    root: ISODirectory,
    sup_root: Option<ISODirectory>,
    primary: VolumeDescriptorTable,
}

impl<T: ISO9660Reader> ISO9660<T> {
    /// The whole content of the underlying source.
    pub closed spec fn data(&self) -> Seq<u8> {
        self.file.data()
    }

    /// The primary hierarchy's root directory.
    pub closed spec fn spec_root(&self) -> DirV {
        self.root@
    }

    /// The supplementary (Joliet) hierarchy's root directory, if present.
    pub closed spec fn spec_sup_root(&self) -> Option<DirV> {
        match self.sup_root {
            Some(ref d) => Some(d@),
            None => None,
        }
    }

    /// The primary volume-descriptor table.
    pub closed spec fn spec_primary(&self) -> VolumeDescriptorTable {
        self.primary
    }

    /// Whether the first entry of the primary root announces Rock Ridge, as
    /// far as the source shows it.
    pub open spec fn spec_first_entry_rr(data: Seq<u8>, root: DirV) -> bool {
        match spec_read_entry(data, root.header.extent_loc, root.header.character_encoding, 0) {
            Some(EntryV::Directory(d)) => d.ext.extensions.contains(SuspExtension::RockRidge1_09)
                || d.ext.extensions.contains(SuspExtension::RockRidge1_12),
            _ => false,
        }
    }

    /// Mounts a filesystem: the volume-descriptor set is read from block 16
    /// on, the last Primary and Supplementary descriptors before the Set
    /// Terminator are kept, and the primary root is required.
    pub fn new(reader: T) -> (r: Result<ISO9660<T>, ISOError>)
        ensures
            r matches Ok(fs) ==> ({
                &&& fs.data() == reader.data()
                &&& table_from_set(reader.data(), 1, fs.spec_primary())
                &&& fs.spec_primary().logical_block_size == 2048
                &&& fs.spec_root() == root_dir_of(fs.spec_primary())
                &&& (match fs.spec_sup_root() {
                    Some(d) => exists|t: VolumeDescriptorTable|
                        #[trigger] table_from_set(reader.data(), 2, t) && d == root_dir_of(t)
                            && t.logical_block_size == 2048,
                    None => true,
                })
                &&& (match scan_descriptors(reader.data(), 16, None, None) {
                    Some((Some(pl), sl)) => {
                        &&& block_at(reader.data(), pl)[0] == 1
                        &&& table_matches(block_at(reader.data(), pl), fs.spec_primary())
                        &&& (match (sl, fs.spec_sup_root()) {
                            (Some(slba), Some(d)) => exists|t: VolumeDescriptorTable|
                                block_at(reader.data(), slba)[0] == 2 && #[trigger] table_matches(
                                    block_at(reader.data(), slba),
                                    t,
                                ) && d == root_dir_of(t),
                            (None, None) => true,
                            _ => false,
                        })
                    },
                    _ => false,
                })
            }),
    {
        let mut file = FileRef::new(reader);
        let ghost data = reader.data();
        let mut buf = new_block_buffer();
        let mut lba: u64 = 16;
        let mut primary: Option<VolumeDescriptorTable> = None;
        let mut sup: Option<VolumeDescriptorTable> = None;
        let ghost mut prim_lba: Option<int> = None;
        let ghost mut sup_lba: Option<int> = None;
        loop
            invariant
                file.data() == data,
                buf@.len() == 2048,
                16 <= lba,
                primary matches Some(t) ==> table_from_set(data, 1, t) && t.logical_block_size
                    == 2048,
                sup matches Some(t) ==> table_from_set(data, 2, t) && t.logical_block_size == 2048,
                (primary is Some) == (prim_lba is Some),
                (sup is Some) == (sup_lba is Some),
                prim_lba matches Some(pl) ==> (primary matches Some(t) && block_at(data, pl)[0]
                    == 1 && table_matches(block_at(data, pl), t)),
                sup_lba matches Some(sl) ==> (sup matches Some(t) && block_at(data, sl)[0] == 2
                    && table_matches(block_at(data, sl), t)),
                scan_descriptors(data, 16, None, None) == scan_descriptors(
                    data,
                    lba as int,
                    prim_lba,
                    sup_lba,
                ),
            ensures
                scan_descriptors(data, 16, None, None) == Some((prim_lba, sup_lba)),
                (primary is Some) == (prim_lba is Some),
                (sup is Some) == (sup_lba is Some),
                prim_lba matches Some(pl) ==> (primary matches Some(t) && block_at(data, pl)[0]
                    == 1 && table_matches(block_at(data, pl), t)),
                sup_lba matches Some(sl) ==> (sup matches Some(t) && block_at(data, sl)[0] == 2
                    && table_matches(block_at(data, sl), t)),
                primary matches Some(t) ==> table_from_set(data, 1, t) && t.logical_block_size
                    == 2048,
                sup matches Some(t) ==> table_from_set(data, 2, t) && t.logical_block_size == 2048,
                file.data() == data,
            decreases avail_from(data, lba as int * 2048),
        {
            match file.read_block(&mut buf, lba) {
                Ok(()) => {},
                Err(e) => {
                    return Err(e);
                },
            }
            proof {
                assert(buf@ == block_at(data, lba as int));
            }
            match VolumeDescriptor::parse(buf.as_slice()) {
                Err(e) => {
                    return Err(e);
                },
                Ok(None) => {},
                Ok(Some(VolumeDescriptor::Primary(t))) => {
                    if t.logical_block_size != 2048 {
                        return Err(ISOError::InvalidFs("Block size not 2048"));
                    }
                    proof {
                        assert(16 <= lba as int && lba as int * 2048 + 2048 <= data.len()
                            && block_at(data, lba as int)[0] == 1 && magic_ok(
                            block_at(data, lba as int),
                        ) && table_matches(block_at(data, lba as int), t));
                    }
                    primary = Some(t);
                    proof {
                        prim_lba = Some(lba as int);
                    }
                },
                Ok(Some(VolumeDescriptor::Supplementary(t))) => {
                    if t.logical_block_size != 2048 {
                        return Err(ISOError::InvalidFs("Block size not 2048"));
                    }
                    proof {
                        assert(16 <= lba as int && lba as int * 2048 + 2048 <= data.len()
                            && block_at(data, lba as int)[0] == 2 && magic_ok(
                            block_at(data, lba as int),
                        ) && table_matches(block_at(data, lba as int), t));
                    }
                    sup = Some(t);
                    proof {
                        sup_lba = Some(lba as int);
                    }
                },
                Ok(Some(VolumeDescriptor::VolumeDescriptorSetTerminator)) => {
                    break ;
                },
                Ok(Some(VolumeDescriptor::BootRecord { .. })) => {},
            }
            if lba >= 0xffff_ffff {
                return Err(ISOError::InvalidFs("volume descriptor set has no terminator"));
            }
            lba = lba + 1;
        }
        let pt = match primary {
            Some(t) => t,
            None => {
                return Err(ISOError::InvalidFs("No primary volume descriptor"));
            },
        };
        let root = ISODirectory::new(
            pt.root_directory_entry,
            ExtraMeta::default(),
            pt.root_directory_entry_identifier.clone(),
        );
        let sup_root: Option<ISODirectory> = match sup {
            Some(st) => Some(
                ISODirectory::new(
                    st.root_directory_entry,
                    ExtraMeta::default(),
                    st.root_directory_entry_identifier.clone(),
                ),
            ),
            None => None,
        };
        Ok(ISO9660 { file, root, sup_root, primary: pt })
    }

    /// Whether the primary hierarchy carries Rock Ridge extensions: true
    /// when the first entry of the primary root announces them.
    pub fn is_rr(&mut self) -> (r: bool)
        ensures
            final(self).data() == old(self).data(),
            final(self).spec_root() == old(self).spec_root(),
            final(self).spec_sup_root() == old(self).spec_sup_root(),
            final(self).spec_primary() == old(self).spec_primary(),
            r ==> Self::spec_first_entry_rr(old(self).data(), old(self).spec_root()),
    {
        let mut it = self.root.contents();
        match it.next(&mut self.file) {
            Some(Ok(DirectoryEntry::Directory(d))) => d.is_rock_ridge(),
            _ => false,
        }
    }

    /// The most featureful root: the primary root when it carries Rock
    /// Ridge, else the Joliet root when present, else the primary root.
    pub fn root(&mut self) -> (r: ISODirectory)
        ensures
            final(self).data() == old(self).data(),
            final(self).spec_root() == old(self).spec_root(),
            final(self).spec_sup_root() == old(self).spec_sup_root(),
            final(self).spec_primary() == old(self).spec_primary(),
            r@ == old(self).spec_root() || (old(self).spec_sup_root() matches Some(s) && r@ == s),
            old(self).spec_sup_root() is None ==> r@ == old(self).spec_root(),
            !Self::spec_first_entry_rr(old(self).data(), old(self).spec_root()) ==> (old(
                self,
            ).spec_sup_root() matches Some(s) ==> r@ == s),
    {
        if self.is_rr() {
            self.root.clone()
        } else {
            match self.sup_root {
                Some(ref sup_root) => sup_root.clone(),
                None => self.root.clone(),
            }
        }
    }

    /// The root of hierarchy `index`: 0 is the primary hierarchy, 1 the
    /// supplementary one when present.
    pub fn root_at(&self, index: usize) -> (r: Option<&ISODirectory>)
        requires
            index <= 1,
        ensures
            index == 0 ==> (r matches Some(d) && d@ == self.spec_root()),
            index == 1 ==> (match self.spec_sup_root() {
                Some(s) => r matches Some(d) && d@ == s,
                None => r is None,
            }),
    {
        if index == 0 {
            Some(&self.root)
        } else {
            match self.sup_root {
                Some(ref d) => Some(d),
                None => None,
            }
        }
    }

    /// Resolves a slash-separated path against [`root`](Self::root);
    /// `Ok(None)` when a segment does not resolve.
    ///
    /// The outcome is what [`spec_resolve`] gives for the path's segments
    /// against one of the filesystem's roots, wherever the listings along
    /// the way are well formed.
    pub fn open(&mut self, path: &str) -> (r: Result<Option<DirectoryEntry>, ISOError>)
        ensures
            final(self).data() == old(self).data(),
            final(self).spec_root() == old(self).spec_root(),
            final(self).spec_sup_root() == old(self).spec_sup_root(),
            final(self).spec_primary() == old(self).spec_primary(),
            r matches Ok(o) ==> exists|rt: DirV|
                (rt == old(self).spec_root() || Some(rt) == old(self).spec_sup_root()) && (match #[trigger] spec_resolve(
                    old(self).data(),
                    EntryV::Directory(rt),
                    crate::path::spec_segments(path@),
                ) {
                    Some(expected) => (o matches Some(e) ==> expected == Some(e@)) && (o is None
                        ==> expected is None),
                    None => true,
                }),
    {
        let root = self.root();
        let ghost rt = root@;
        let r = root.find_recursive(&mut self.file, path);
        proof {
            if r is Ok {
                assert((rt == old(self).spec_root() || Some(rt) == old(self).spec_sup_root())
                    && (match spec_resolve(
                    old(self).data(),
                    EntryV::Directory(rt),
                    crate::path::spec_segments(path@),
                ) {
                    Some(expected) => ((r->Ok_0) matches Some(e) ==> expected == Some(e@)) && ((r->Ok_0)
                        is None ==> expected is None),
                    None => true,
                }));
            }
        }
        r
    }

    /// The block size of this filesystem; always 2048.
    pub fn block_size(&self) -> (r: u16)
        ensures
            r == 2048,
    {
        BLOCK_SIZE
    }

    /// Advances an iterator over a directory of this filesystem.
    pub fn next_entry(&mut self, it: &mut ISODirectoryIterator) -> (r: Option<
        Result<DirectoryEntry, ISOError>,
    >)
        requires
            old(it).wf(old(self).data()),
        ensures
            final(self).data() == old(self).data(),
            final(self).spec_root() == old(self).spec_root(),
            final(self).spec_sup_root() == old(self).spec_sup_root(),
            final(self).spec_primary() == old(self).spec_primary(),
            final(it).wf(old(self).data()),
            final(it).directory == old(it).directory,
            r is None ==> old(it).next_offset is None,
            r matches Some(rr) ==> (rr is Err ==> final(it).next_offset == old(it).next_offset),
            (old(it).next_offset matches Some(offset) && old(it).block_num == Some(offset / 2048)
                && entry_read_owed(
                old(self).data(),
                old(it).directory.header.extent_loc,
                old(it).directory.header.character_encoding,
                offset,
            )) ==> (r matches Some(rr) && rr is Ok),
            r matches Some(rr) ==> (old(it).next_offset matches Some(offset) && (rr matches Ok(e)
                ==> spec_read_entry(
                old(self).data(),
                old(it).directory.header.extent_loc,
                old(it).directory.header.character_encoding,
                offset,
            ) == Some(e@))),
    {
        it.next(&mut self.file)
    }

    /// Reads from a file of this filesystem through its reader.
    pub fn read_file(&mut self, rdr: &mut ISOFileReader, out: &mut Vec<u8>) -> (r: Result<
        usize,
        ISOError,
    >)
        requires
            old(rdr).wf(old(self).data()),
        ensures
            final(self).data() == old(self).data(),
            final(self).spec_root() == old(self).spec_root(),
            final(self).spec_sup_root() == old(self).spec_sup_root(),
            final(self).spec_primary() == old(self).spec_primary(),
            final(rdr).wf(old(self).data()),
            final(rdr).start_lba == old(rdr).start_lba,
            final(rdr).size == old(rdr).size,
            final(out)@.len() == old(out)@.len(),
            r matches Ok(n) ==> ({
                let avail: int = if old(rdr).seek <= old(rdr).size {
                    old(rdr).size - old(rdr).seek
                } else {
                    0
                };
                &&& n as int == (if old(out)@.len() <= avail {
                    old(out)@.len() as int
                } else {
                    avail
                })
                &&& final(rdr).seek == old(rdr).seek + n
                &&& forall|i: int|
                    0 <= i < n ==> final(out)@[i] == old(self).data()[old(
                        rdr,
                    ).start_lba * 2048 + old(rdr).seek + i]
            }),
            ({
                &&& (old(rdr).buf_lba matches Some(l) && l == old(rdr).start_lba + old(
                    rdr,
                ).seek as int / 2048)
                &&& old(rdr).seek + old(out)@.len() <= old(rdr).size
                &&& old(rdr).seek as int % 2048 + old(out)@.len() <= 2048
            }) ==> r is Ok,
    {
        rdr.read(&mut self.file, out)
    }

    /// The volume-set identifier of the primary descriptor.
    pub fn volume_set_identifier(&self) -> (r: &str)
        ensures
            r@ == self.spec_primary().volume_set_identifier@,
    {
        self.primary.volume_set_identifier.as_str()
    }

    /// The publisher identifier of the primary descriptor.
    pub fn publisher_identifier(&self) -> (r: &str)
        ensures
            r@ == self.spec_primary().publisher_identifier@,
    {
        self.primary.publisher_identifier.as_str()
    }

    /// The data-preparer identifier of the primary descriptor.
    pub fn data_preparer_identifier(&self) -> (r: &str)
        ensures
            r@ == self.spec_primary().data_preparer_identifier@,
    {
        self.primary.data_preparer_identifier.as_str()
    }

    /// The application identifier of the primary descriptor.
    pub fn application_identifier(&self) -> (r: &str)
        ensures
            r@ == self.spec_primary().application_identifier@,
    {
        self.primary.application_identifier.as_str()
    }

    /// The copyright-file identifier of the primary descriptor.
    pub fn copyright_file_identifier(&self) -> (r: &str)
        ensures
            r@ == self.spec_primary().copyright_file_identifier@,
    {
        self.primary.copyright_file_identifier.as_str()
    }

    /// The abstract-file identifier of the primary descriptor.
    pub fn abstract_file_identifier(&self) -> (r: &str)
        ensures
            r@ == self.spec_primary().abstract_file_identifier@,
    {
        self.primary.abstract_file_identifier.as_str()
    }

    /// The bibliographic-file identifier of the primary descriptor.
    pub fn bibliographic_file_identifier(&self) -> (r: &str)
        ensures
            r@ == self.spec_primary().bibliographic_file_identifier@,
    {
        self.primary.bibliographic_file_identifier.as_str()
    }
}

} // verus!
