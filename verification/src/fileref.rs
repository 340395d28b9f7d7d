//! The block-addressed byte source that a filesystem is mounted on.
//!
//! A source is any type that can serve its bytes by 2048-byte logical block
//! address.  The filesystem owns one source and passes it explicitly to
//! every operation that reads, so the flow of reads is visible in the
//! signatures.  An in-memory source over a byte vector is provided.

use vstd::prelude::*;

use crate::error::ISOError;

verus! {

/// How many bytes the source can still serve from byte offset `start`.
pub open spec fn avail_from(data: Seq<u8>, start: int) -> int {
    if data.len() >= start {
        data.len() - start
    } else {
        0
    }
}

/// A source of logical blocks: a view of its whole content as a byte
/// sequence, and a read of up to a buffer's length of bytes from a block
/// boundary.
pub trait ISO9660Reader: Sized {
    /// The whole content of the source.
    spec fn data(&self) -> Seq<u8>;

    /// Fills `buf` from the front with the bytes starting at `lba * 2048`,
    /// up to the buffer's length or the end of the source, and returns how
    /// many bytes were written.  The content of the source is unchanged.
    fn read_at(&mut self, buf: &mut Vec<u8>, lba: u64) -> (r: Result<usize, ISOError>)
        ensures
            final(self).data() == old(self).data(),
            final(buf)@.len() == old(buf)@.len(),
            r matches Ok(n) ==> ({
                let start = lba as int * 2048;
                let avail = avail_from(old(self).data(), start);
                &&& n <= final(buf)@.len()
                &&& n as int == (if final(buf)@.len() <= avail {
                    final(buf)@.len() as int
                } else {
                    avail
                })
                &&& forall|i: int| 0 <= i < n ==> final(buf)@[i] == old(self).data()[start + i]
            }),
    ;
}

/// An in-memory source over a byte vector.
pub struct MemoryReader {
    /// The image bytes.
    pub bytes: Vec<u8>,
}

impl MemoryReader {
    /// Wraps a byte vector as a block source.
    pub fn new(bytes: Vec<u8>) -> (r: MemoryReader)
        ensures
            r.data() == bytes@,
    {
        MemoryReader { bytes }
    }
}

impl ISO9660Reader for MemoryReader {
    open spec fn data(&self) -> Seq<u8> {
        self.bytes@
    }

    fn read_at(&mut self, buf: &mut Vec<u8>, lba: u64) -> (r: Result<usize, ISOError>)
        ensures
            r is Ok,
    {
        let blen = buf.len();
        let dlen = self.bytes.len();
        if lba > (dlen as u64) / 2048 {
            proof {
                assert(lba as int * 2048 > dlen as int) by (nonlinear_arith)
                    requires
                        lba as int > dlen as int / 2048,
                        dlen >= 0,
                ;
            }
            return Ok(0);
        }
        proof {
            assert(lba as int * 2048 <= dlen as int) by (nonlinear_arith)
                requires
                    lba as int <= dlen as int / 2048,
                    dlen >= 0,
            ;
        }
        let start = (lba * 2048) as usize;
        let avail = dlen - start;
        let n = if blen <= avail {
            blen
        } else {
            avail
        };
        let mut i: usize = 0;
        while i < n
            invariant
                i <= n,
                n <= blen,
                start + n <= dlen,
                blen == buf@.len(),
                dlen == self.bytes@.len(),
                forall|j: int| 0 <= j < i ==> buf@[j] == self.bytes@[start + j],
            decreases n - i,
        {
            let b = self.bytes[start + i];
            buf.set(i, b);
            i = i + 1;
        }
        Ok(n)
    }
}

/// The handle through which every view of one filesystem reads its blocks.
pub struct FileRef<T: ISO9660Reader> {
    reader: T,
}

impl<T: ISO9660Reader> FileRef<T> {
    /// The whole content of the underlying source.
    pub closed spec fn data(&self) -> Seq<u8> {
        self.reader.data()
    }

    /// Wraps a source.
    pub fn new(reader: T) -> (r: FileRef<T>)
        ensures
            r.data() == reader.data(),
    {
        FileRef { reader }
    }

    /// Reads up to `buf.len()` bytes starting at block `lba`; see
    /// [`ISO9660Reader::read_at`].
    pub fn read_at(&mut self, buf: &mut Vec<u8>, lba: u64) -> (r: Result<usize, ISOError>)
        ensures
            final(self).data() == old(self).data(),
            final(buf)@.len() == old(buf)@.len(),
            r matches Ok(n) ==> ({
                let start = lba as int * 2048;
                let avail = avail_from(old(self).data(), start);
                &&& n <= final(buf)@.len()
                &&& n as int == (if final(buf)@.len() <= avail {
                    final(buf)@.len() as int
                } else {
                    avail
                })
                &&& forall|i: int| 0 <= i < n ==> final(buf)@[i] == old(self).data()[start + i]
            }),
    {
        self.reader.read_at(buf, lba)
    }

    /// Reads one whole block into a block-sized buffer; a source that cannot
    /// serve all 2048 bytes yields [`ISOError::ReadSize`].
    pub fn read_block(&mut self, buf: &mut Vec<u8>, lba: u64) -> (r: Result<(), ISOError>)
        requires
            old(buf)@.len() == 2048,
        ensures
            final(self).data() == old(self).data(),
            final(buf)@.len() == 2048,
            r is Ok ==> lba as int * 2048 + 2048 <= old(self).data().len() && final(buf)@ == old(
                self,
            ).data().subrange(lba as int * 2048, lba as int * 2048 + 2048),
            lba as int * 2048 + 2048 > old(self).data().len() ==> r is Err,
    {
        match self.read_at(buf, lba) {
            Ok(n) => {
                if n != 2048 {
                    Err(ISOError::ReadSize(n))
                } else {
                    proof {
                        assert(buf@ =~= old(self).data().subrange(
                            lba as int * 2048,
                            lba as int * 2048 + 2048,
                        ));
                    }
                    Ok(())
                }
            },
            Err(e) => Err(e),
        }
    }
}

/// A zero-filled buffer of one block.
pub fn new_block_buffer() -> (r: Vec<u8>)
    ensures
        r@.len() == 2048,
        forall|i: int| 0 <= i < 2048 ==> r@[i] == 0,
{
    let mut v: Vec<u8> = Vec::new();
    let mut i: usize = 0;
    while i < 2048
        invariant
            i <= 2048,
            v@.len() == i,
            forall|j: int| 0 <= j < i ==> v@[j] == 0,
        decreases 2048 - i,
    {
        v.push(0);
        i = i + 1;
    }
    v
}

/// A buffer type big enough to hold one filesystem block.
pub type BlockBuffer = Vec<u8>;

/// Constructor for block-sized buffers.
pub trait BlockBufferCtor: Sized {
    /// Creates a zero-filled buffer one block long.
    fn new() -> Self;
}

impl BlockBufferCtor for BlockBuffer {
    fn new() -> (r: Self)
        ensures
            r@.len() == 2048,
    {
        new_block_buffer()
    }
}

} // verus!
