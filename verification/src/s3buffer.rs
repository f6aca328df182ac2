//! Three-segment buffering for remote random-access reads of tile-compressed
//! mosaic files.
//!
//! The access pattern has three disjoint regions: the short first header, the
//! longer index region, and the bulk of the image data, read mostly forward.
//! Each open file therefore keeps three buffers of fixed capacity — two small
//! and one large — and serves a read either from resident bytes or by asking
//! the caller to fetch a byte range and hand it back.
//!
//! The object-store transfer itself is not done here: `start_read` decides,
//! and when it answers with a fetch request the caller performs the range GET
//! and completes the read with `finish_read`.

use vstd::prelude::*;

use crate::errors::ServiceError;

verus! {

#[derive(Clone, Copy, Debug, PartialEq, Eq, Structural)]
pub enum BufferKind {
    A,
    B,
    C,
}

impl BufferKind {
    pub open spec fn spec_capacity(&self) -> int {
        match self {
            BufferKind::A => 32768,
            BufferKind::B => 32768,
            BufferKind::C => 4194304,
        }
    }

    pub fn capacity(&self) -> (r: usize)
        ensures
            r == self.spec_capacity(),
    {
        match self {
            BufferKind::A => 32768,
            BufferKind::B => 32768,
            BufferKind::C => 4194304,
        }
    }
}

/// One resident segment of the remote file.
pub struct Buffer {
    pub data: Vec<u8>,
    pub start_file_offset: u64,
    pub kind: BufferKind,
}

impl Buffer {
    pub fn new(kind: BufferKind) -> (r: Buffer)
        ensures
            r.data@.len() == 0,
            r.start_file_offset == 0,
            r.kind == kind,
    {
        Buffer { data: Vec::new(), start_file_offset: 0, kind }
    }

    /// The buffer holds nothing yet, or its resident range
    /// `[start, start + len)` overlaps the requested `[offset, offset + n)`.
    pub open spec fn spec_empty_or_overlaps(&self, offset: int, nbytes: int) -> bool {
        ||| self.data@.len() == 0
        ||| (offset < self.start_file_offset + self.data@.len() && offset + nbytes
            > self.start_file_offset)
    }

    pub fn empty_or_overlaps(&self, offset: u64, nbytes: usize) -> (r: bool)
        ensures
            r == self.spec_empty_or_overlaps(offset as int, nbytes as int),
    {
        if self.data.len() == 0 {
            return true;
        }
        let off = offset as u128;
        let start = self.start_file_offset as u128;
        off < start + self.data.len() as u128 && off + nbytes as u128 > start
    }

    /// The requested bytes are entirely present, at or after the buffer
    /// start.
    pub open spec fn resident(&self, offset: int, nbytes: int) -> bool {
        &&& offset >= self.start_file_offset
        &&& offset + nbytes <= self.start_file_offset + self.data@.len()
    }
}

/// Two buffers hold the same contents and position.
pub open spec fn buffer_eq(b1: Buffer, b2: Buffer) -> bool {
    &&& b1.data@ == b2.data@
    &&& b1.start_file_offset == b2.start_file_offset
    &&& b1.kind == b2.kind
}

/// The answer of `start_read`: either the bytes, or the range GET the caller
/// must perform before completing the read with `finish_read`.
pub enum ReadStep {
    Served(Vec<u8>),
    NeedFetch { which: BufferKind, offset: u64, length: usize },
}

/// The per-file buffer set.
pub struct S3Buffer {
    pub buf_a: Buffer,
    pub buf_b: Buffer,
    pub buf_c: Buffer,
}

impl Default for S3Buffer {
    /// A fresh, empty buffer set.
    fn default() -> (r: S3Buffer)
        ensures
            r.buf_a.data@.len() == 0 && r.buf_a.kind == BufferKind::A,
            r.buf_b.data@.len() == 0 && r.buf_b.kind == BufferKind::B,
            r.buf_c.data@.len() == 0 && r.buf_c.kind == BufferKind::C,
    {
        S3Buffer {
            buf_a: Buffer::new(BufferKind::A),
            buf_b: Buffer::new(BufferKind::B),
            buf_c: Buffer::new(BufferKind::C),
        }
    }
}

impl S3Buffer {
    pub open spec fn spec_buffer(&self, which: BufferKind) -> Buffer {
        match which {
            BufferKind::A => self.buf_a,
            BufferKind::B => self.buf_b,
            BufferKind::C => self.buf_c,
        }
    }

    /// Which buffer serves a request: the first empty-or-overlapping one,
    /// else the last buffer whose start offset bounds the request offset
    /// from below.
    pub open spec fn spec_select(&self, offset: int, nbytes: int) -> BufferKind {
        if self.buf_a.spec_empty_or_overlaps(offset, nbytes) {
            BufferKind::A
        } else if self.buf_b.spec_empty_or_overlaps(offset, nbytes) {
            BufferKind::B
        } else if self.buf_c.spec_empty_or_overlaps(offset, nbytes) {
            BufferKind::C
        } else if offset < self.buf_b.start_file_offset {
            BufferKind::A
        } else if offset < self.buf_c.start_file_offset {
            BufferKind::B
        } else {
            BufferKind::C
        }
    }

    pub fn select_buffer(&self, offset: u64, nbytes: usize) -> (r: BufferKind)
        ensures
            r == self.spec_select(offset as int, nbytes as int),
    {
        if self.buf_a.empty_or_overlaps(offset, nbytes) {
            BufferKind::A
        } else if self.buf_b.empty_or_overlaps(offset, nbytes) {
            BufferKind::B
        } else if self.buf_c.empty_or_overlaps(offset, nbytes) {
            BufferKind::C
        } else if offset < self.buf_b.start_file_offset {
            BufferKind::A
        } else if offset < self.buf_c.start_file_offset {
            BufferKind::B
        } else {
            BufferKind::C
        }
    }

    /// Begin a read of `nbytes` at `offset`: serve it from the selected
    /// buffer when the bytes are resident, else name the byte range the
    /// caller must fetch — `max(capacity, nbytes)` bytes from `offset`.
    pub fn start_read(&self, offset: u64, nbytes: usize) -> (r: ReadStep)
        ensures
            ({
                let k = self.spec_select(offset as int, nbytes as int);
                let b = self.spec_buffer(k);
                match r {
                    ReadStep::Served(v) => b.resident(offset as int, nbytes as int) && v@
                        == b.data@.subrange(
                        offset - b.start_file_offset,
                        offset - b.start_file_offset + nbytes,
                    ),
                    ReadStep::NeedFetch { which, offset: o, length } => {
                        &&& !b.resident(offset as int, nbytes as int)
                        &&& which == k
                        &&& o == offset
                        &&& length == if k.spec_capacity() > nbytes {
                            k.spec_capacity()
                        } else {
                            nbytes as int
                        }
                    },
                }
            }),
    {
        let k = self.select_buffer(offset, nbytes);
        let b = match k {
            BufferKind::A => &self.buf_a,
            BufferKind::B => &self.buf_b,
            BufferKind::C => &self.buf_c,
        };
        let is_resident: bool = offset >= b.start_file_offset && (offset as u128 + nbytes as u128)
            <= (b.start_file_offset as u128 + b.data.len() as u128);
        if is_resident {
            let from = (offset - b.start_file_offset) as usize;
            let v = crate::bytestr::copy_byte_range(&b.data, from, from + nbytes);
            ReadStep::Served(v)
        } else {
            let cap = k.capacity();
            let length = if cap > nbytes {
                cap
            } else {
                nbytes
            };
            ReadStep::NeedFetch { which: k, offset, length }
        }
    }

    /// Complete a read after the caller fetched the requested range: the
    /// fetched bytes replace the chosen buffer's contents, and the first
    /// `nbytes` of them answer the read. A fetch shorter than the request is
    /// the truncated-read error.
    pub fn finish_read(
        &mut self,
        which: BufferKind,
        offset: u64,
        nbytes: usize,
        fetched: Vec<u8>,
    ) -> (r: Result<Vec<u8>, ServiceError>)
        ensures
            final(self).spec_buffer(which).data@ == fetched@,
            final(self).spec_buffer(which).start_file_offset == offset,
            final(self).spec_buffer(which).kind == old(self).spec_buffer(which).kind,
            which != BufferKind::A ==> buffer_eq(final(self).buf_a, old(self).buf_a),
            which != BufferKind::B ==> buffer_eq(final(self).buf_b, old(self).buf_b),
            which != BufferKind::C ==> buffer_eq(final(self).buf_c, old(self).buf_c),
            r is Ok <==> fetched@.len() >= nbytes,
            match r {
                Ok(v) => v@ == fetched@.subrange(0, nbytes as int),
                Err(e) => e == ServiceError::IoError,
            },
    {
        let short: bool = fetched.len() < nbytes;
        let b = match which {
            BufferKind::A => &mut self.buf_a,
            BufferKind::B => &mut self.buf_b,
            BufferKind::C => &mut self.buf_c,
        };
        b.data = fetched;
        b.start_file_offset = offset;
        if short {
            return Err(ServiceError::IoError);
        }
        let v = crate::bytestr::copy_byte_range(&b.data, 0, nbytes);
        Ok(v)
    }
}

/// Split an object path of the form `bucket/key` at the first slash.
pub fn split_bucket_key(path: &Vec<u8>) -> (r: Result<(Vec<u8>, Vec<u8>), ServiceError>)
    ensures
        match r {
            Ok((b, k)) => path@ == b@ + seq![47u8] + k@ && (forall|j: int|
                0 <= j < b@.len() ==> b@[j] != 47),
            Err(e) => e == ServiceError::IoError && (forall|j: int|
                0 <= j < path@.len() ==> path@[j] != 47),
        },
{
    let n = path.len();
    let slash = match crate::parse::find_byte_from(path, 47, 0) {
        Some(i) => i,
        None => {
            return Err(ServiceError::IoError);
        },
    };
    let bucket = crate::bytestr::copy_byte_range(path, 0, slash);
    let key = crate::bytestr::copy_byte_range(path, slash + 1, n);
    proof {
        assert(path@ =~= bucket@ + seq![47u8] + key@);
    }
    Ok((bucket, key))
}

} // verus!
