//! Reading the entries of a directory: its extent is streamed one block at
//! a time, each record is parsed, its `CE` continuation chain is followed,
//! its Rock Ridge metadata is aggregated, and child-link stubs are rewritten
//! into directory entries.

use vstd::prelude::*;
use vstd::slice::slice_subrange;

use crate::directory_entry::{
    entry_header, entry_identifier, make_entry, rewritten_entry, DirV, DirectoryEntry, EntryV,
    ISODirectory,
};
use crate::directory_record::{
    header_at, identifier_chars, identifier_ok, record_structure_ok, sua_bytes,
    DirectoryEntryHeader,
};
use crate::encoding::CharacterEncoding;
use crate::error::ISOError;
use crate::extra_meta::{aggregate_meta, child_link_of_entries, meta_of_entries, ExtraAttributes};
use crate::fileref::{new_block_buffer, FileRef, ISO9660Reader};
use crate::strutil::{seq_eq_ignore_ascii_case, str_eq_ignore_ascii_case};
use crate::susp::{
    entry_views, susp_entries_from, system_use_entries, ContinuationArea, SuspEntryV,
    SystemUseEntry,
};

verus! {

/// The index of the first `CE` entry, or -1 when there is none.
pub open spec fn first_ce_index(es: Seq<SuspEntryV>) -> int
    decreases es.len(),
{
    if es.len() == 0 {
        -1
    } else if es[0] is ContinuationArea {
        0
    } else {
        let r = first_ce_index(es.skip(1));
        if r < 0 {
            -1
        } else {
            1 + r
        }
    }
}

/// The payload of a `CE` entry; never applied to anything else.
pub open spec fn get_ce(e: SuspEntryV) -> ContinuationArea {
    match e {
        SuspEntryV::ContinuationArea(c) => c,
        _ => ContinuationArea { block_location: 0, offset: 0, length: 0 },
    }
}

/// Follows the continuation chain of a record's system-use entries: as long
/// as a `CE` entry remains, it is removed and the entries decoded from the
/// continuation bytes it points to are appended.  Nothing results when a
/// continuation is malformed, lies outside the source, or the chain exceeds
/// the fuel — the guard against pathological images.
pub open spec fn resolve_continuations(data: Seq<u8>, es: Seq<SuspEntryV>, fuel: nat) -> Option<
    Seq<SuspEntryV>,
>
    decreases fuel,
{
    let i = first_ce_index(es);
    if i < 0 {
        Some(es)
    } else if fuel == 0 {
        None
    } else {
        let ce = get_ce(es[i]);
        let rest = es.remove(i);
        let start = ce.block_location * 2048 + ce.offset;
        if ce.offset + ce.length <= 2048 && start + ce.length <= data.len() {
            resolve_continuations(
                data,
                rest + susp_entries_from(data.subrange(start, start + ce.length), 0),
                (fuel - 1) as nat,
            )
        } else {
            None
        }
    }
}

proof fn lemma_first_ce_at(es: Seq<SuspEntryV>, i: int)
    requires
        0 <= i < es.len(),
        es[i] is ContinuationArea,
        forall|j: int| 0 <= j < i ==> !(es[j] is ContinuationArea),
    ensures
        first_ce_index(es) == i,
    decreases i,
{
    if i > 0 {
        lemma_first_ce_at(es.skip(1), i - 1);
    }
}

proof fn lemma_first_ce_none(es: Seq<SuspEntryV>)
    requires
        forall|j: int| 0 <= j < es.len() ==> !(es[j] is ContinuationArea),
    ensures
        first_ce_index(es) == -1,
    decreases es.len(),
{
    if es.len() > 0 {
        lemma_first_ce_none(es.skip(1));
    }
}

fn find_first_ce(entries: &Vec<SystemUseEntry>) -> (r: Option<usize>)
    ensures
        r matches Some(i) ==> i < entries@.len() && first_ce_index(entry_views(entries@))
            == i as int && entries@[i as int] is ContinuationArea,
        r is None ==> first_ce_index(entry_views(entries@)) == -1,
{
    let n = entries.len();
    let mut i: usize = 0;
    while i < n
        invariant
            i <= n,
            n == entries@.len(),
            forall|j: int| 0 <= j < i ==> !(#[trigger] entries@[j] is ContinuationArea),
        decreases n - i,
    {
        match &entries[i] {
            SystemUseEntry::ContinuationArea(_) => {
                proof {
                    assert(forall|j: int|
                        0 <= j < i ==> !(#[trigger] entry_views(entries@)[j]
                            is ContinuationArea));
                    lemma_first_ce_at(entry_views(entries@), i as int);
                }
                return Some(i);
            },
            _ => {},
        }
        i = i + 1;
    }
    proof {
        assert(forall|j: int|
            0 <= j < n ==> !(#[trigger] entry_views(entries@)[j] is ContinuationArea));
        lemma_first_ce_none(entry_views(entries@));
    }
    None
}

/// Follows a record's continuation chain through the source, with the
/// standard cap of 256 continuations.
#[verifier::loop_isolation(false)]
#[verifier::rlimit(60)]
fn resolve_continuations_exec<T: ISO9660Reader>(
    file: &mut FileRef<T>,
    entries: Vec<SystemUseEntry>,
) -> (r: Result<Vec<SystemUseEntry>, ISOError>)
    ensures
        final(file).data() == old(file).data(),
        r matches Ok(es) ==> resolve_continuations(old(file).data(), entry_views(entries@), 256)
            == Some(entry_views(es@)),
        first_ce_index(entry_views(entries@)) == -1 ==> r is Ok,
{
    let ghost data = old(file).data();
    let mut entries = entries;
    let ghost orig = entry_views(entries@);
    let mut fuel: usize = 256;
    let mut done = false;
    while !done
        invariant
            file.data() == data,
            fuel <= 256,
            resolve_continuations(data, orig, 256) == resolve_continuations(
                data,
                entry_views(entries@),
                fuel as nat,
            ),
            first_ce_index(orig) == -1 ==> entry_views(entries@) == orig,
            done ==> first_ce_index(entry_views(entries@)) == -1,
        decreases fuel + (if done {
            0int
        } else {
            1int
        }),
    {
        match find_first_ce(&entries) {
            None => {
                done = true;
            },
            Some(idx) => {
                if fuel == 0 {
                    return Err(ISOError::Parse("too many continuation areas"));
                }
                let ghost before = entry_views(entries@);
                let ghost old_fuel = fuel as nat;
                let ce = match &entries[idx] {
                    SystemUseEntry::ContinuationArea(c) => *c,
                    _ => {
                        return Err(ISOError::Parse("continuation area"));
                    },
                };
                proof {
                    assert(before[idx as int] == SuspEntryV::ContinuationArea(ce));
                    assert(get_ce(before[idx as int]) == ce);
                }
                let _removed = entries.remove(idx);
                proof {
                    assert(entry_views(entries@) =~= before.remove(idx as int));
                }
                if ce.offset > 2048 || ce.length > 2048 - ce.offset {
                    return Err(ISOError::Parse("continuation area"));
                }
                let mut buf = new_block_buffer();
                match file.read_block(&mut buf, ce.block_location as u64) {
                    Ok(()) => {},
                    Err(e) => {
                        return Err(e);
                    },
                }
                let cont = slice_subrange(buf.as_slice(), ce.offset as usize, (ce.offset
                    + ce.length) as usize);
                let ghost start = ce.block_location as int * 2048 + ce.offset as int;
                proof {
                    assert(cont@ =~= data.subrange(start, start + ce.length));
                }
                let mut extra = system_use_entries(cont);
                let ghost rest = entry_views(entries@);
                let ghost extra_v = entry_views(extra@);
                entries.append(&mut extra);
                fuel = fuel - 1;
                proof {
                    assert(entry_views(entries@) =~= rest + extra_v);
                    assert(extra_v == susp_entries_from(data.subrange(start, start + ce.length), 0));
                    assert(resolve_continuations(data, before, old_fuel)
                        == resolve_continuations(data, rest + extra_v, (old_fuel - 1) as nat));
                }
            },
        }
    }
    Ok(entries)
}

/// How many blocks a directory's extent spans.
pub open spec fn spec_block_count(extent_length: u32) -> int {
    (extent_length + 2047) / 2048
}

/// Whether a cached block number and buffer agree with the source: when a
/// block of the extent is buffered, the buffer holds exactly that block.
pub open spec fn cache_ok(data: Seq<u8>, extent_loc: u32, bn: Option<u64>, block: Seq<u8>) -> bool {
    match bn {
        Some(b) => (extent_loc + b) * 2048 + 2048 <= data.len() && block == data.subrange(
            (extent_loc + b) * 2048,
            (extent_loc + b) * 2048 + 2048,
        ),
        None => true,
    }
}

/// The entry that a directory with extent `extent_loc` yields at byte
/// `offset` of its extent, reading blocks from `data`: the record is parsed
/// from its block, the continuation chain is followed, the metadata is
/// aggregated, and a child-link stub is rewritten.  Nothing when the record
/// is malformed or the needed blocks lie outside the source.
pub open spec fn spec_read_entry(
    data: Seq<u8>,
    extent_loc: u32,
    enc: CharacterEncoding,
    offset: u64,
) -> Option<EntryV> {
    let bn = offset as int / 2048;
    let pos = offset as int % 2048;
    let base = (extent_loc + bn) * 2048;
    if base + 2048 <= data.len() {
        let blk = data.subrange(base, base + 2048);
        if record_structure_ok(blk, pos) {
            match resolve_continuations(data, susp_entries_from(sua_bytes(blk, pos), 0), 256) {
                Some(es) => match make_entry(
                    header_at(blk, pos, enc),
                    identifier_chars(blk, pos, enc),
                    meta_of_entries(es),
                ) {
                    Some(e) => rewritten_entry(e, child_link_of_entries(es)),
                    None => None,
                },
                None => None,
            }
        } else {
            None
        }
    } else {
        None
    }
}

/// The byte offset of the next record after the one at `offset`, whose
/// block content is `blk`: the offset advances by the record's length, and
/// jumps to the next block when too little room is left for a record or the
/// next byte is the zero end-of-records marker.  Nothing when the extent's
/// blocks are exhausted.
pub open spec fn spec_next_offset(blk: Seq<u8>, offset: u64, bc: int) -> Option<int> {
    let bn0 = offset as int / 2048;
    let pos0 = offset as int % 2048 + blk[offset as int % 2048];
    if pos0 >= 2048 - 33 || blk[pos0] == 0 {
        if bn0 + 1 < bc {
            Some((bn0 + 1) * 2048)
        } else {
            None
        }
    } else {
        if bn0 < bc {
            Some(bn0 * 2048 + pos0)
        } else {
            None
        }
    }
}

/// The conditions under which reading the entry at `offset` succeeds with
/// no help from the source: the record's block lies within it, the record is
/// well formed, its identifier decodes under the modelled ISO 9660 encoding,
/// no continuation area needs another read, the record classifies, and a
/// child link (if any) sits on a file stub.
pub open spec fn entry_read_owed(
    data: Seq<u8>,
    extent_loc: u32,
    enc: CharacterEncoding,
    offset: u64,
) -> bool {
    let bn = offset as int / 2048;
    let pos = offset as int % 2048;
    let base = (extent_loc + bn) * 2048;
    let blk = data.subrange(base, base + 2048);
    let es = susp_entries_from(sua_bytes(blk, pos), 0);
    &&& base + 2048 <= data.len()
    &&& record_structure_ok(blk, pos)
    &&& enc is Iso9660
    &&& identifier_ok(blk, pos, enc)
    &&& first_ce_index(es) == -1
    &&& (match make_entry(
        header_at(blk, pos, enc),
        identifier_chars(blk, pos, enc),
        meta_of_entries(es),
    ) {
        Some(e) => rewritten_entry(e, child_link_of_entries(es)) is Some,
        None => false,
    })
}

/// The block of a directory's extent that byte `offset` falls in.
pub open spec fn dir_block(data: Seq<u8>, extent_loc: u32, offset: u64) -> Seq<u8> {
    let bn = offset as int / 2048;
    let base = (extent_loc + bn) * 2048;
    data.subrange(base, base + 2048)
}

/// A record parses at `offset` only when its offset and the one after it
/// stay within the extent's blocks, in increasing order.
pub proof fn lemma_next_offset_bounds(
    data: Seq<u8>,
    extent_loc: u32,
    enc: CharacterEncoding,
    extent_length: u32,
    offset: u64,
)
    requires
        spec_read_entry(data, extent_loc, enc, offset) is Some,
    ensures
        match spec_next_offset(
            dir_block(data, extent_loc, offset),
            offset,
            spec_block_count(extent_length),
        ) {
            Some(n) => offset < n <= spec_block_count(extent_length) * 2048,
            None => true,
        },
{
    let bc = spec_block_count(extent_length);
    let bn0 = offset as int / 2048;
    let pos = offset as int % 2048;
    let blk = dir_block(data, extent_loc, offset);
    vstd::arithmetic::div_mod::lemma_fundamental_div_mod(offset as int, 2048);
    assert(record_structure_ok(blk, pos));
    assert(blk[pos] >= 34);
}

/// The entries of a directory from byte `offset` of its extent on, in
/// on-disc order; nothing when some record is malformed, lies outside the
/// source, or its continuation chain cannot be followed.
pub open spec fn spec_entries_from(
    data: Seq<u8>,
    extent_loc: u32,
    enc: CharacterEncoding,
    extent_length: u32,
    offset: u64,
) -> Option<Seq<EntryV>>
    decreases spec_block_count(extent_length) * 2048 - offset
        when 0 <= offset as int <= spec_block_count(extent_length) * 2048
        via spec_entries_from_decreases
{
    match spec_read_entry(data, extent_loc, enc, offset) {
        None => None,
        Some(e) => match spec_next_offset(
            dir_block(data, extent_loc, offset),
            offset,
            spec_block_count(extent_length),
        ) {
            None => Some(seq![e]),
            Some(n) => match spec_entries_from(data, extent_loc, enc, extent_length, n as u64) {
                Some(rest) => Some(seq![e] + rest),
                None => None,
            },
        },
    }
}

#[via_fn]
proof fn spec_entries_from_decreases(
    data: Seq<u8>,
    extent_loc: u32,
    enc: CharacterEncoding,
    extent_length: u32,
    offset: u64,
) {
    if spec_read_entry(data, extent_loc, enc, offset) is Some {
        lemma_next_offset_bounds(data, extent_loc, enc, extent_length, offset);
    }
}

/// The whole listing of a directory, in on-disc order.
pub open spec fn spec_dir_entries(data: Seq<u8>, dir: DirV) -> Option<Seq<EntryV>> {
    spec_entries_from(
        data,
        dir.header.extent_loc,
        dir.header.character_encoding,
        dir.header.extent_length,
        0,
    )
}

/// Whether an entry answers to `name`: its presented name equals `name` up
/// to ASCII case and it is not an associated-file entry.
pub open spec fn entry_matches(e: EntryV, name: Seq<char>) -> bool {
    !entry_header(e).file_flags.spec_associated_file() && seq_eq_ignore_ascii_case(
        entry_identifier(e),
        name,
    )
}

/// The first entry of a listing that answers to `name`.
pub open spec fn first_match_in(es: Seq<EntryV>, name: Seq<char>) -> Option<EntryV>
    decreases es.len(),
{
    if es.len() == 0 {
        None
    } else if entry_matches(es[0], name) {
        Some(es[0])
    } else {
        first_match_in(es.skip(1), name)
    }
}

/// Whether no entry of the directory from `offset` on answers to `name`,
/// as far as the listing is well formed.
pub open spec fn no_match_from(data: Seq<u8>, dir: DirV, offset: u64, name: Seq<char>) -> bool {
    match spec_entries_from(
        data,
        dir.header.extent_loc,
        dir.header.character_encoding,
        dir.header.extent_length,
        offset,
    ) {
        Some(es) => forall|i: int| 0 <= i < es.len() ==> !entry_matches(#[trigger] es[i], name),
        None => true,
    }
}

proof fn lemma_first_match_none(es: Seq<EntryV>, name: Seq<char>)
    requires
        forall|i: int| 0 <= i < es.len() ==> !entry_matches(#[trigger] es[i], name),
    ensures
        first_match_in(es, name) is None,
    decreases es.len(),
{
    if es.len() > 0 {
        lemma_first_match_none(es.skip(1), name);
    }
}

/// Resolves a segment path against an entry, segment by segment: each
/// segment must name the first matching child of a directory.  The outer
/// `None` means a listing along the way was malformed and the model makes
/// no claim; the inner option is the resolution itself.
pub open spec fn spec_resolve(data: Seq<u8>, e: EntryV, segs: Seq<Seq<char>>) -> Option<
    Option<EntryV>,
>
    decreases segs.len(),
{
    if segs.len() == 0 {
        Some(Some(e))
    } else {
        match e {
            EntryV::Directory(d) => match spec_dir_entries(data, d) {
                Some(es) => match first_match_in(es, segs[0]) {
                    Some(child) => spec_resolve(data, child, segs.skip(1)),
                    None => Some(None),
                },
                None => None,
            },
            _ => Some(None),
        }
    }
}

impl ISODirectory {
    /// The number of blocks the directory's extent spans.
    pub fn block_count(&self) -> (r: u32)
        ensures
            r as int == spec_block_count(self.header.extent_length),
    {
        ((self.header.extent_length as u64 + 2047) / 2048) as u32
    }

    /// Reads and classifies the directory entry at byte `offset` of this
    /// directory's extent, and computes the offset of the next record.
    ///
    /// `block` and `buf_block_num` carry the one-block cache between calls;
    /// a call leaves them consistent with the source.
    #[verifier::rlimit(100)]
    pub fn read_entry_at<T: ISO9660Reader>(
        &self,
        file: &mut FileRef<T>,
        block: &mut Vec<u8>,
        buf_block_num: &mut Option<u64>,
        offset: u64,
    ) -> (r: Result<(DirectoryEntry, Option<u64>), ISOError>)
        requires
            old(block)@.len() == 2048,
            offset as int <= u32::MAX as int + 2048,
            cache_ok(old(file).data(), self.header.extent_loc, *old(buf_block_num), old(block)@),
        ensures
            final(file).data() == old(file).data(),
            final(block)@.len() == 2048,
            cache_ok(
                old(file).data(),
                self.header.extent_loc,
                *final(buf_block_num),
                final(block)@,
            ),
            r matches Ok((entry, next)) ==> ({
                let data = old(file).data();
                let bn = offset as int / 2048;
                let base = (self.header.extent_loc + bn) * 2048;
                let blk = data.subrange(base, base + 2048);
                &&& base + 2048 <= data.len()
                &&& spec_read_entry(data, self.header.extent_loc, self.header.character_encoding, offset)
                    == Some(entry@)
                &&& (match spec_next_offset(blk, offset, spec_block_count(self.header.extent_length)) {
                    Some(x) => next == Some(x as u64) && offset < x <= spec_block_count(
                        self.header.extent_length,
                    ) * 2048,
                    None => next is None,
                })
            }),
            *old(buf_block_num) == Some(offset / 2048) && entry_read_owed(
                old(file).data(),
                self.header.extent_loc,
                self.header.character_encoding,
                offset,
            ) ==> r is Ok,
    {
        let ghost data = old(file).data();
        let ghost owed = *old(buf_block_num) == Some(offset / 2048) && entry_read_owed(
            data,
            self.header.extent_loc,
            self.header.character_encoding,
            offset,
        );
        let bc = self.block_count();
        let block_num: u64 = offset / 2048;
        let block_pos: usize = (offset % 2048) as usize;
        let need: bool = match buf_block_num {
            Some(b) => *b != block_num,
            None => true,
        };
        if need {
            let lba: u64 = self.header.extent_loc as u64 + block_num;
            match file.read_block(block, lba) {
                Ok(()) => {
                    *buf_block_num = Some(block_num);
                },
                Err(e) => {
                    proof {
                        if owed {
                            assert(!need);
                        }
                    }
                    *buf_block_num = None;
                    return Err(e);
                },
            }
        }
        let ghost base = (self.header.extent_loc + offset as int / 2048) * 2048;
        let ghost blk = data.subrange(base, base + 2048);
        proof {
            assert(block@ == blk);
        }
        let rec = slice_subrange(block.as_slice(), block_pos, 2048);
        proof {
            assert(rec@ == blk.subrange(block_pos as int, 2048));
            if record_structure_ok(blk, block_pos as int) {
                assert(rec@[0] == blk[block_pos as int]);
                assert(rec@[32] == blk[block_pos as int + 32]);
                assert(record_structure_ok(rec@, 0));
                assert(crate::directory_record::identifier_bytes(rec@, 0)
                    =~= crate::directory_record::identifier_bytes(blk, block_pos as int));
                assert(identifier_ok(rec@, 0, self.header.character_encoding) == identifier_ok(
                    blk,
                    block_pos as int,
                    self.header.character_encoding,
                ));
                assert(sua_bytes(rec@, 0) =~= sua_bytes(blk, block_pos as int));
            }
        }
        let (header, identifier, susp) = match DirectoryEntryHeader::parse(
            rec,
            self.header.character_encoding,
        ) {
            Ok(t) => t,
            Err(e) => {
                proof {
                    if owed {
                        assert(false);
                    }
                }
                return Err(e);
            },
        };
        proof {
            assert(record_structure_ok(blk, block_pos as int)) by {
                assert(record_structure_ok(rec@, 0));
                assert(rec@[0] == blk[block_pos as int]);
                assert(rec@[32] == blk[block_pos as int + 32]);
            }
            assert(header == header_at(blk, block_pos as int, self.header.character_encoding)) by {
                assert(header == header_at(rec@, 0, self.header.character_encoding));
                assert(blk.subrange(
                    block_pos as int + 33,
                    block_pos as int + 33 + blk[block_pos as int + 32],
                ) =~= rec@.subrange(33, 33 + rec@[32]));
            }
            assert(identifier_chars(blk, block_pos as int, self.header.character_encoding)
                == identifier_chars(rec@, 0, self.header.character_encoding)) by {
                assert(crate::directory_record::identifier_bytes(blk, block_pos as int)
                    =~= crate::directory_record::identifier_bytes(rec@, 0));
            }
            assert(sua_bytes(blk, block_pos as int) =~= sua_bytes(rec@, 0));
        }
        let ghost susp_views = entry_views(susp@);
        let resolved = match resolve_continuations_exec(file, susp) {
            Ok(v) => v,
            Err(e) => {
                proof {
                    if owed {
                        assert(first_ce_index(susp_views) == -1);
                        assert(false);
                    }
                }
                return Err(e);
            },
        };
        proof {
            if owed {
                assert(first_ce_index(susp_views) == -1);
                assert(resolve_continuations(data, susp_views, 256) == Some(susp_views));
                assert(entry_views(resolved@) == susp_views);
            }
        }
        let (meta, child_link) = aggregate_meta(&resolved);
        let entry = match DirectoryEntry::new(header, meta, identifier) {
            Ok(e) => e,
            Err(e) => {
                proof {
                    if owed {
                        assert(false);
                    }
                }
                return Err(e);
            },
        };
        let rec_len = header.length as usize;
        let mut bn2: u64 = block_num;
        let mut pos2: usize = block_pos + rec_len;
        if pos2 >= 2048 - 33 || block[pos2] == 0 {
            bn2 = block_num + 1;
            pos2 = 0;
        }
        let next: Option<u64> = if bn2 < bc as u64 {
            Some(2048 * bn2 + pos2 as u64)
        } else {
            None
        };
        match child_link {
            Some(link) => {
                match entry {
                    DirectoryEntry::File(f) => {
                        let fh = f.header;
                        let header2 = DirectoryEntryHeader {
                            extent_loc: link,
                            extent_length: 2048,
                            file_flags: fh.file_flags.with_directory(),
                            ..fh
                        };
                        let dir = ISODirectory::new(header2, f.ext, f.identifier);
                        Ok((DirectoryEntry::Directory(dir), next))
                    },
                    _ => {
                        proof {
                            if owed {
                                assert(false);
                            }
                        }
                        Err(ISOError::Parse("child link on non-file entry"))
                    },
                }
            },
            None => Ok((entry, next)),
        }
    }

    /// Returns a fresh iterator over the directory's entries.
    pub fn contents(&self) -> (r: ISODirectoryIterator)
        ensures
            r.directory@ == self@,
            r.next_offset == Some(0u64),
            r.block_num is None,
            r.block@.len() == 2048,
    {
        ISODirectoryIterator {
            directory: self.clone(),
            block: new_block_buffer(),
            block_num: None,
            next_offset: Some(0),
        }
    }

    /// Finds the first child whose name equals `identifier` up to ASCII
    /// case, skipping associated-file entries.
    ///
    /// A found entry is the first of the directory's listing that answers
    /// to the name; nothing is found only when no entry answers to it.
    #[verifier::rlimit(60)]
    pub fn find<T: ISO9660Reader>(&self, file: &mut FileRef<T>, identifier: &str) -> (r: Result<
        Option<DirectoryEntry>,
        ISOError,
    >)
        ensures
            final(file).data() == old(file).data(),
            r matches Ok(Some(e)) ==> entry_matches(e@, identifier@),
            r matches Ok(Some(e)) ==> (match spec_dir_entries(old(file).data(), self@) {
                Some(es) => first_match_in(es, identifier@) == Some(e@),
                None => true,
            }),
            r matches Ok(None) ==> no_match_from(old(file).data(), self@, 0, identifier@),
    {
        let ghost data = old(file).data();
        let mut it = self.contents();
        loop
            invariant
                file.data() == data,
                data == old(file).data(),
                it.wf(data),
                it.directory@ == self@,
                (match it.next_offset {
                    Some(o) => no_match_from(data, self@, o, identifier@) ==> no_match_from(
                        data,
                        self@,
                        0,
                        identifier@,
                    ),
                    None => no_match_from(data, self@, 0, identifier@),
                }),
                (match it.next_offset {
                    Some(o) => (match spec_dir_entries(data, self@) {
                        Some(es0) => spec_entries_from(
                            data,
                            self@.header.extent_loc,
                            self@.header.character_encoding,
                            self@.header.extent_length,
                            o,
                        ) matches Some(rest) && first_match_in(es0, identifier@) == first_match_in(
                            rest,
                            identifier@,
                        ),
                        None => true,
                    }),
                    None => true,
                }),
            decreases (match it.next_offset {
                Some(o) => spec_block_count(self@.header.extent_length) * 2048 + 1 - o,
                None => 0int,
            }),
        {
            let ghost prev_offset = it.next_offset;
            match it.next(file) {
                None => {
                    return Ok(None);
                },
                Some(Err(e)) => {
                    return Err(e);
                },
                Some(Ok(entry)) => {
                    proof {
                        assert(entry.spec_header() == entry_header(entry@));
                    }
                    if !entry.header().file_flags.associated_file() {
                        if str_eq_ignore_ascii_case(entry.identifier(), identifier) {
                            proof {
                                let o = prev_offset->0;
                                let el = self@.header.extent_loc;
                                let enc = self@.header.character_encoding;
                                let elen = self@.header.extent_length;
                                assert(entry_matches(entry@, identifier@));
                                if spec_dir_entries(data, self@) is Some {
                                    let rest = spec_entries_from(data, el, enc, elen, o)->0;
                                    match spec_next_offset(
                                        dir_block(data, el, o),
                                        o,
                                        spec_block_count(elen),
                                    ) {
                                        Some(x) => {
                                            assert(rest[0] == entry@);
                                        },
                                        None => {
                                            assert(rest =~= seq![entry@]);
                                        },
                                    }
                                    assert(first_match_in(rest, identifier@) == Some(entry@));
                                }
                            }
                            return Ok(Some(entry));
                        }
                    }
                    proof {
                        let o = prev_offset->0;
                        let el = self@.header.extent_loc;
                        let enc = self@.header.character_encoding;
                        let elen = self@.header.extent_length;
                        assert(!entry_matches(entry@, identifier@));
                        match spec_next_offset(dir_block(data, el, o), o, spec_block_count(elen)) {
                            Some(x) => {
                                assert(it.next_offset == Some(x as u64));
                                if no_match_from(data, self@, x as u64, identifier@) {
                                    match spec_entries_from(data, el, enc, elen, x as u64) {
                                        Some(rest) => {
                                            let es = seq![entry@] + rest;
                                            assert(spec_entries_from(data, el, enc, elen, o)
                                                == Some(es));
                                            assert forall|i: int|
                                                0 <= i < es.len() implies !entry_matches(
                                                #[trigger] es[i],
                                                identifier@,
                                            ) by {
                                                if i > 0 {
                                                    assert(es[i] == rest[i - 1]);
                                                }
                                            }
                                            assert(no_match_from(data, self@, o, identifier@));
                                        },
                                        None => {
                                            assert(no_match_from(data, self@, o, identifier@));
                                        },
                                    }
                                }
                            },
                            None => {
                                assert(it.next_offset is None);
                                let es = seq![entry@];
                                assert(spec_entries_from(data, el, enc, elen, o) == Some(es));
                                assert forall|i: int|
                                    0 <= i < es.len() implies !entry_matches(
                                    #[trigger] es[i],
                                    identifier@,
                                ) by {}
                                assert(no_match_from(data, self@, o, identifier@));
                            },
                        }
                        if spec_dir_entries(data, self@) is Some {
                            match spec_next_offset(dir_block(data, el, o), o, spec_block_count(elen)) {
                                Some(x) => {
                                    let rest = spec_entries_from(data, el, enc, elen, o)->0;
                                    let tail = spec_entries_from(data, el, enc, elen, x as u64)->0;
                                    assert(rest == seq![entry@] + tail);
                                    assert(rest.skip(1) =~= tail);
                                    assert(first_match_in(rest, identifier@) == first_match_in(
                                        tail,
                                        identifier@,
                                    ));
                                },
                                None => {},
                            }
                        }
                    }
                },
            }
        }
    }

    /// Resolves a slash-separated path relative to this directory by
    /// repeated [`find`](Self::find) steps; empty segments are skipped.
    ///
    /// An empty path (or one of separators alone) yields this directory; a
    /// resolved entry's name equals the path's last segment up to ASCII
    /// case; and where every listing along the way is well formed, the
    /// outcome is exactly what [`spec_resolve`] gives for the path's
    /// segments.
    pub fn find_recursive<T: ISO9660Reader>(&self, file: &mut FileRef<T>, path: &str) -> (r: Result<
        Option<DirectoryEntry>,
        ISOError,
    >)
        ensures
            final(file).data() == old(file).data(),
            crate::path::spec_segments(path@).len() == 0 ==> (r matches Ok(Some(e)) && e@
                == EntryV::Directory(self@)),
            crate::path::spec_segments(path@).len() > 0 ==> (r matches Ok(Some(e))
                ==> !e.spec_header().file_flags.spec_associated_file()
                && seq_eq_ignore_ascii_case(
                entry_identifier(e@),
                crate::path::spec_segments(path@).last(),
            )),
            (match spec_resolve(
                old(file).data(),
                EntryV::Directory(self@),
                crate::path::spec_segments(path@),
            ) {
                Some(expected) => (r matches Ok(Some(e)) ==> expected == Some(e@)) && (r matches
                    Ok(o) && o is None ==> expected is None),
                None => true,
            }),
    {
        let ghost data = old(file).data();
        let ghost segs = crate::path::spec_segments(path@);
        let ghost model = spec_resolve(data, EntryV::Directory(self@), segs);
        let segments = crate::path::path_segments(path);
        let mut entry = DirectoryEntry::Directory(self.clone());
        let n = segments.len();
        proof {
            assert(segments@.map_values(|s: String| s@).len() == segs.len());
            assert(segs.skip(0) =~= segs);
        }
        let mut i: usize = 0;
        while i < n
            invariant
                i <= n,
                n == segments@.len(),
                segs == crate::path::spec_segments(path@),
                segs == segments@.map_values(|s: String| s@),
                n == segs.len(),
                data == old(file).data(),
                model == spec_resolve(data, EntryV::Directory(self@), segs),
                file.data() == data,
                i == 0 ==> entry@ == EntryV::Directory(self@),
                i > 0 ==> !entry.spec_header().file_flags.spec_associated_file()
                    && seq_eq_ignore_ascii_case(entry_identifier(entry@), segs[i - 1]),
                model matches Some(x) ==> spec_resolve(data, entry@, segs.skip(i as int)) == Some(
                    x,
                ),
            decreases n - i,
        {
            let ghost tail = segs.skip(i as int);
            proof {
                assert(tail[0] == segs[i as int]);
                assert(tail.skip(1) =~= segs.skip(i as int + 1));
            }
            let parent = match entry {
                DirectoryEntry::Directory(dir) => dir,
                _ => {
                    proof {
                        if model is Some {
                            assert(spec_resolve(data, entry@, tail) == Some(
                                None::<EntryV>,
                            ));
                        }
                    }
                    return Ok(None);
                },
            };
            proof {
                assert(entry@ == EntryV::Directory(parent@));
            }
            entry = match parent.find(file, segments[i].as_str()) {
                Ok(Some(e)) => {
                    proof {
                        assert(segments@[i as int]@ == segs[i as int]);
                        if model is Some {
                            let x = model->0;
                            match spec_dir_entries(data, parent@) {
                                Some(es) => {
                                    assert(first_match_in(es, tail[0]) == Some(e@));
                                    assert(spec_resolve(data, e@, tail.skip(1)) == Some(x));
                                },
                                None => {
                                    assert(spec_resolve(data, entry@, tail) is None);
                                },
                            }
                        }
                    }
                    e
                },
                Ok(None) => {
                    proof {
                        assert(segments@[i as int]@ == segs[i as int]);
                        if model is Some {
                            match spec_dir_entries(data, parent@) {
                                Some(es) => {
                                    assert(no_match_from(data, parent@, 0, tail[0]));
                                    lemma_first_match_none(es, tail[0]);
                                    assert(spec_resolve(data, entry@, tail) == Some(
                                        None::<EntryV>,
                                    ));
                                },
                                None => {
                                    assert(spec_resolve(data, entry@, tail) is None);
                                },
                            }
                        }
                    }
                    return Ok(None);
                },
                Err(e) => {
                    return Err(e);
                },
            };
            proof {
                assert(segments@[i as int]@ == segs[i as int]);
            }
            i = i + 1;
        }
        proof {
            if n > 0 {
                assert(segs[n - 1] == segs.last());
            }
            assert(segs.skip(n as int) =~= Seq::<Seq<char>>::empty());
            if model is Some {
                assert(spec_resolve(data, entry@, segs.skip(n as int)) == Some(Some(entry@)));
            }
        }
        Ok(Some(entry))
    }
}

/// A lazy iterator over the entries of one directory.  It owns the
/// directory view and the one-block cache; the source handle is passed to
/// each [`next`](Self::next) call.
pub struct ISODirectoryIterator {
    /// The directory being iterated.
    pub directory: ISODirectory,
    /// The one-block cache.
    pub block: Vec<u8>,
    /// The block number held by the cache, if any.
    pub block_num: Option<u64>,
    /// The extent offset of the next record, or `None` at the end.
    pub next_offset: Option<u64>,
}

impl ISODirectoryIterator {
    /// Whether the iterator's cache and position are consistent with the
    /// source.
    pub open spec fn wf(&self, data: Seq<u8>) -> bool {
        &&& self.block@.len() == 2048
        &&& cache_ok(data, self.directory.header.extent_loc, self.block_num, self.block@)
        &&& (match self.next_offset {
            Some(o) => o as int <= spec_block_count(self.directory.header.extent_length) * 2048
                && o as int <= u32::MAX as int + 2048,
            None => true,
        })
    }

    /// Yields the next entry: the entry read at the current offset, `None`
    /// past the end of the extent, or the error the read ran into.
    pub fn next<T: ISO9660Reader>(&mut self, file: &mut FileRef<T>) -> (r: Option<
        Result<DirectoryEntry, ISOError>,
    >)
        requires
            old(self).wf(old(file).data()),
        ensures
            final(file).data() == old(file).data(),
            final(self).wf(old(file).data()),
            final(self).directory == old(self).directory,
            r is None ==> old(self).next_offset is None && final(self).next_offset == old(
                self,
            ).next_offset,
            r matches Some(rr) ==> (rr is Err ==> final(self).next_offset == old(
                self,
            ).next_offset),
            (old(self).next_offset matches Some(offset) && old(self).block_num == Some(
                offset / 2048,
            ) && entry_read_owed(
                old(file).data(),
                old(self).directory.header.extent_loc,
                old(self).directory.header.character_encoding,
                offset,
            )) ==> (r matches Some(rr) && rr is Ok),
            r matches Some(rr) ==> (old(self).next_offset matches Some(offset) && (rr matches Ok(e)
                ==> ({
                &&& spec_read_entry(
                    old(file).data(),
                    old(self).directory.header.extent_loc,
                    old(self).directory.header.character_encoding,
                    offset,
                ) == Some(e@)
                &&& (match spec_next_offset(
                    dir_block(old(file).data(), old(self).directory.header.extent_loc, offset),
                    offset,
                    spec_block_count(old(self).directory.header.extent_length),
                ) {
                    Some(x) => final(self).next_offset == Some(x as u64) && offset < x,
                    None => final(self).next_offset is None,
                })
            }))),
    {
        let offset = match self.next_offset {
            Some(o) => o,
            None => {
                return None;
            },
        };
        match self.directory.read_entry_at(file, &mut self.block, &mut self.block_num, offset) {
            Ok((entry, next)) => {
                self.next_offset = next;
                Some(Ok(entry))
            },
            Err(e) => Some(Err(e)),
        }
    }
}

} // verus!
