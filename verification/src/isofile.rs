//! Random access to a file's contents: a seekable reader over the file's
//! extent, with a one-block cache.

use vstd::prelude::*;

use crate::directory_entry::ISOFile;
use crate::error::ISOError;
use crate::fileref::{new_block_buffer, FileRef, ISO9660Reader};

verus! {

/// A seek origin: absolute, relative to the end, or relative to the current
/// position.
#[derive(Clone, Copy, Debug, PartialEq, Eq, Structural)]
pub enum SeekFrom {
    /// From the start of the file.
    Start(u64),
    /// From the end of the file; the offset is usually negative.
    End(i64),
    /// From the current position.
    Current(i64),
}

/// The bytes of a file whose extent starts at `start_lba` and is `size`
/// bytes long.
pub open spec fn file_bytes(data: Seq<u8>, start_lba: u32, size: usize) -> Seq<u8> {
    data.subrange(start_lba * 2048, start_lba * 2048 + size)
}

/// The position a seek aims at, measured from the start of the file.
pub open spec fn seek_target(cur: usize, size: usize, pos: SeekFrom) -> int {
    match pos {
        SeekFrom::Start(p) => p as int,
        SeekFrom::End(d) => size + d,
        SeekFrom::Current(d) => cur + d,
    }
}

/// A read-only, seekable reader over one file's contents.
pub struct ISOFileReader {
    /// The one-block cache.
    pub buf: Vec<u8>,
    /// The absolute block held by the cache, if any.
    pub buf_lba: Option<u64>,
    /// The current read position, in bytes from the start of the file.
    pub seek: usize,
    /// The first block of the file's extent.
    pub start_lba: u32,
    /// The size of the file in bytes.
    pub size: usize,
}

impl ISOFileReader {
    /// Whether the cache is consistent with the source.
    pub open spec fn wf(&self, data: Seq<u8>) -> bool {
        &&& self.buf@.len() == 2048
        &&& (match self.buf_lba {
            Some(l) => l * 2048 + 2048 <= data.len() && self.buf@ == data.subrange(
                l * 2048,
                l * 2048 + 2048,
            ),
            None => true,
        })
    }

    /// Fills `out` from the front with the bytes of the file at the current
    /// position: exactly `min(out.len(), size - seek)` bytes — so a read at
    /// or past the end yields 0 bytes — and advances the position by the
    /// count read.
    #[verifier::rlimit(60)]
    #[verifier::loop_isolation(false)]
    pub fn read<T: ISO9660Reader>(&mut self, file: &mut FileRef<T>, out: &mut Vec<u8>) -> (r:
        Result<usize, ISOError>)
        requires
            old(self).wf(old(file).data()),
        ensures
            final(file).data() == old(file).data(),
            final(self).wf(old(file).data()),
            final(self).start_lba == old(self).start_lba,
            final(self).size == old(self).size,
            final(out)@.len() == old(out)@.len(),
            r matches Ok(n) ==> ({
                let avail: int = if old(self).seek <= old(self).size {
                    old(self).size - old(self).seek
                } else {
                    0
                };
                &&& n as int == (if old(out)@.len() <= avail {
                    old(out)@.len() as int
                } else {
                    avail
                })
                &&& final(self).seek == old(self).seek + n
                &&& old(self).seek + n <= old(self).size || n == 0
                &&& forall|i: int|
                    0 <= i < n ==> final(out)@[i] == old(file).data()[old(
                        self,
                    ).start_lba * 2048 + old(self).seek + i]
            }),
            old(self).seek >= old(self).size || old(out)@.len() == 0 ==> r == Ok::<usize, ISOError>(
                0,
            ),
            ({
                &&& (old(self).buf_lba matches Some(l) && l == old(self).start_lba + old(
                    self,
                ).seek as int / 2048)
                &&& old(self).seek + old(out)@.len() <= old(self).size
                &&& old(self).seek as int % 2048 + old(out)@.len() <= 2048
            }) ==> r is Ok,
    {
        let ghost data = old(file).data();
        let ghost served = {
            &&& (old(self).buf_lba matches Some(l) && l == old(self).start_lba + old(
                self,
            ).seek as int / 2048)
            &&& old(self).seek + old(out)@.len() <= old(self).size
            &&& old(self).seek as int % 2048 + old(out)@.len() <= 2048
        };
        let olen = out.len();
        let mut pos: usize = 0;
        let mut seek = self.seek;
        while pos < olen && seek < self.size
            invariant
                file.data() == data,
                self.wf(data),
                self.start_lba == old(self).start_lba,
                self.size == old(self).size,
                self.seek == old(self).seek,
                out@.len() == olen,
                seek == old(self).seek + pos,
                pos <= olen,
                pos > 0 ==> seek <= self.size,
                served ==> self.buf_lba == old(self).buf_lba,
                forall|i: int|
                    0 <= i < pos ==> out@[i] == data[old(self).start_lba * 2048 + old(
                        self,
                    ).seek + i],
            decreases olen - pos,
        {
            let lba_rel: usize = seek / 2048;
            let lba: u64 = self.start_lba as u64 + lba_rel as u64;
            let hit: bool = match self.buf_lba {
                Some(l) => l == lba,
                None => false,
            };
            proof {
                if served {
                    let lr = old(self).seek as int / 2048;
                    vstd::arithmetic::div_mod::lemma_fundamental_div_mod(
                        old(self).seek as int,
                        2048,
                    );
                    vstd::arithmetic::div_mod::lemma_fundamental_div_mod_converse(
                        seek as int,
                        2048,
                        lr,
                        seek as int - lr * 2048,
                    );
                    assert(lba_rel as int == lr);
                    assert(hit);
                }
            }
            if !hit {
                match file.read_block(&mut self.buf, lba) {
                    Ok(()) => {
                        self.buf_lba = Some(lba);
                    },
                    Err(e) => {
                        self.buf_lba = None;
                        return Err(e);
                    },
                }
            }
            let start_in: usize = seek % 2048;
            proof {
                vstd::arithmetic::div_mod::lemma_fundamental_div_mod(seek as int, 2048);
            }
            let in_file: usize = self.size - lba_rel * 2048;
            let block_end: usize = if in_file <= 2048 {
                in_file
            } else {
                2048
            };
            let space = olen - pos;
            let want = block_end - start_in;
            let c: usize = if want <= space {
                want
            } else {
                space
            };
            assert(seek + c <= self.size);
            let mut k: usize = 0;
            while k < c
                invariant
                    k <= c,
                    start_in + c <= 2048,
                    pos + c <= olen,
                    out@.len() == olen,
                    self.buf@.len() == 2048,
                    forall|i: int|
                        0 <= i < pos ==> out@[i] == data[old(self).start_lba * 2048 + old(
                            self,
                        ).seek + i],
                    forall|i: int|
                        pos <= i < pos + k ==> out@[i] == self.buf@[start_in + i - pos],
                decreases c - k,
            {
                let b = self.buf[start_in + k];
                out.set(pos + k, b);
                k = k + 1;
            }
            proof {
                assert forall|i: int|
                    pos <= i < pos + c implies out@[i] == data[old(self).start_lba * 2048 + old(
                        self,
                    ).seek + i] by {
                    assert(out@[i] == self.buf@[start_in + i - pos]);
                    assert(self.buf@[start_in + i - pos] == data[lba * 2048 + start_in + i - pos]);
                    assert(lba * 2048 == self.start_lba * 2048 + lba_rel * 2048);
                    assert(lba_rel * 2048 + start_in == seek);
                }
            }
            pos = pos + c;
            seek = seek + c;
        }
        self.seek = seek;
        Ok(pos)
    }

    /// Repositions the reader: absolute, relative to the end, or relative
    /// to the current position.  A target before the start of the file, or
    /// beyond what a position can hold, is rejected and the position is
    /// unchanged.
    pub fn seek(&mut self, pos: SeekFrom) -> (r: Result<u64, ISOError>)
        ensures
            final(self).buf == old(self).buf,
            final(self).buf_lba == old(self).buf_lba,
            final(self).start_lba == old(self).start_lba,
            final(self).size == old(self).size,
            (r is Ok) == (0 <= seek_target(old(self).seek, old(self).size, pos)
                <= usize::MAX as int),
            r matches Ok(n) ==> n as int == seek_target(old(self).seek, old(self).size, pos)
                && final(self).seek as int == seek_target(old(self).seek, old(self).size, pos),
            r is Err ==> final(self).seek == old(self).seek && r == Err::<u64, ISOError>(
                ISOError::Parse("invalid seek"),
            ),
    {
        let target: i128 = match pos {
            SeekFrom::Start(p) => p as i128,
            SeekFrom::End(d) => self.size as i128 + d as i128,
            SeekFrom::Current(d) => self.seek as i128 + d as i128,
        };
        if target < 0 || target > usize::MAX as i128 {
            Err(ISOError::Parse("invalid seek"))
        } else {
            self.seek = target as usize;
            Ok(target as u64)
        }
    }
}

impl ISOFile {
    /// Returns a fresh reader over this file's contents.
    pub fn read(&self) -> (r: ISOFileReader)
        ensures
            r.buf@.len() == 2048,
            r.buf_lba is None,
            r.seek == 0,
            r.start_lba == self.header.extent_loc,
            r.size == self.header.extent_length as usize,
    {
        ISOFileReader {
            buf: new_block_buffer(),
            buf_lba: None,
            seek: 0,
            start_lba: self.header.extent_loc,
            size: self.header.extent_length as usize,
        }
    }
}

/// What a positioned read returns is the corresponding slice of a full
/// read: after `seek(Start(k))`, a read of `n` bytes yields — by the
/// contract of [`ISOFileReader::read`] — the bytes
/// `data[start_lba * 2048 + k ..]`, and those are exactly bytes `[k, k + n)`
/// of the file's whole content.
pub proof fn lemma_seek_read_round_trip(data: Seq<u8>, start_lba: u32, size: usize, k: int, n: int)
    requires
        0 <= k <= size,
        0 <= n <= size - k,
        start_lba * 2048 + size <= data.len(),
    ensures
        file_bytes(data, start_lba, size).subrange(k, k + n) == data.subrange(
            start_lba * 2048 + k,
            start_lba * 2048 + k + n,
        ),
{
    assert(file_bytes(data, start_lba, size).subrange(k, k + n) =~= data.subrange(
        start_lba * 2048 + k,
        start_lba * 2048 + k + n,
    ));
}

} // verus!
