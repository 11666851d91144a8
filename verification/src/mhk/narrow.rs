//! Independent logical views over one shared physical stream. The stream
//! keeps a cached cursor position; every view carries its own window and
//! read position, and a view's read repositions the shared cursor and
//! reads as one step.

use vstd::prelude::*;

use crate::error::MhkError;
use crate::filesystem::{clip, ReadAt};

verus! {

/// One buffered physical stream shared by every view derived from its
/// container, together with the last known position of its cursor.
pub struct SharedStream<T> {
    pub inner: T,
    pub pos: u64,
}

impl<T: ReadAt> SharedStream<T> {
    /// The stream itself must be sound.
    pub open spec fn wf(&self) -> bool {
        self.inner.wf()
    }

    /// Takes ownership of a stream, with the cursor cache at the start.
    pub fn new(inner: T) -> (r: SharedStream<T>)
        ensures
            r.inner == inner,
            r.pos == 0,
    {
        SharedStream { inner, pos: 0 }
    }

    /// One atomic seek-then-read: if the cached cursor is elsewhere, it is
    /// repositioned first, then the read advances it past the bytes read.
    /// Nothing else may touch the cursor between the two halves.
    pub fn read_at_cursor(&mut self, truepos: u64, len: usize) -> (r: Result<Vec<u8>, MhkError>)
        requires
            old(self).wf(),
        ensures
            final(self).wf(),
            final(self).inner.contents() == old(self).inner.contents(),
            final(self).inner.is_total() == old(self).inner.is_total(),
            match r {
                Ok(v) => {
                    &&& v@.len() <= len
                    &&& v@.len() > 0 ==> truepos + v@.len() <= old(self).inner.contents().len()
                        && v@ == old(self).inner.contents().subrange(
                        truepos as int,
                        truepos + v@.len(),
                    )
                    &&& (truepos < old(self).inner.contents().len() && len > 0 ==> v@.len() > 0)
                    &&& final(self).pos == truepos + v@.len()
                },
                Err(_) => !old(self).inner.is_total(),
            },
    {
        if self.pos != truepos {
            // explicit reposition of the shared cursor
            self.pos = truepos;
        }
        match self.inner.read_at(truepos, len) {
            Ok(v) => {
                if v.len() > 0 {
                    proof {
                        self.inner.lemma_len_bound();
                    }
                    self.pos = truepos + v.len() as u64;
                }
                Ok(v)
            },
            Err(e) => Err(e),
        }
    }
}

/// Where a seek is measured from.
#[derive(Debug, Clone, Copy, PartialEq, Eq, Structural)]
pub enum SeekFrom {
    Start(u64),
    End(i64),
    Current(i64),
}

/// The position a view of `size` bytes at position `pos` lands on after a
/// seek: always clamped into `[0, size]`.
pub open spec fn seek_target(size: u64, pos: u64, whence: SeekFrom) -> u64 {
    match whence {
        SeekFrom::Start(p) => if p <= size {
            p
        } else {
            size
        },
        SeekFrom::End(d) => if d >= 0 {
            size
        } else if size + d >= 0 {
            (size + d) as u64
        } else {
            0
        },
        SeekFrom::Current(d) => if d >= 0 {
            if pos + d <= size {
                (pos + d) as u64
            } else {
                size
            }
        } else if pos + d >= 0 {
            (pos + d) as u64
        } else {
            0
        },
    }
}

/// An independent logical read position into one sub-range of a shared
/// stream: reads are clamped to `[offset, offset + size)` and reading at
/// or past `size` returns zero bytes, never an error.
pub struct Narrow {
    pub offset: u64,
    pub size: u64,
    pub pos: u64,
}

impl Narrow {
    /// The window fits the address space and the position stays inside it.
    pub open spec fn wf(&self) -> bool {
        &&& self.offset + self.size <= u64::MAX
        &&& self.pos <= self.size
    }

    /// The bytes of shared contents `s` that this view exposes.
    pub open spec fn window(&self, s: Seq<u8>) -> Seq<u8> {
        clip(s, self.offset as int, self.size as int)
    }

    /// A view of `size` bytes at `offset`, positioned at its start.
    pub fn new(offset: u64, size: u64) -> (r: Narrow)
        requires
            offset + size <= u64::MAX,
        ensures
            r.offset == offset,
            r.size == size,
            r.pos == 0,
            r.wf(),
    {
        Narrow { offset, size, pos: 0 }
    }

    /// Reads up to `len` bytes at the view's position through the shared
    /// stream, clamped to the view's window, and advances the position by
    /// what was read. Reading at or past the window's size returns zero
    /// bytes and never an error, and leaves the shared stream untouched;
    /// a read that returns bytes leaves the shared cached cursor right
    /// past them, the seek-then-read having completed as one step.
    pub fn read<T: ReadAt>(&mut self, shared: &mut SharedStream<T>, len: usize) -> (r: Result<
        Vec<u8>,
        MhkError,
    >)
        requires
            old(self).wf(),
            old(shared).wf(),
        ensures
            final(self).wf(),
            final(shared).wf(),
            final(self).offset == old(self).offset,
            final(self).size == old(self).size,
            final(shared).inner.contents() == old(shared).inner.contents(),
            final(shared).inner.is_total() == old(shared).inner.is_total(),
            old(self).pos >= old(self).size ==> (r matches Ok(v) && v@.len() == 0
                && *final(shared) == *old(shared) && final(self).pos == old(self).pos),
            r matches Ok(v) ==> (v@.len() > 0 ==> final(shared).pos == old(self).offset
                + old(self).pos + v@.len()),
            match r {
                Ok(v) => {
                    &&& v@.len() <= len
                    &&& final(self).pos == old(self).pos + v@.len()
                    &&& v@.len() > 0 ==> old(self).pos + v@.len() <= old(self).window(
                        old(shared).inner.contents(),
                    ).len() && v@ == old(self).window(old(shared).inner.contents()).subrange(
                        old(self).pos as int,
                        old(self).pos + v@.len(),
                    )
                    &&& (old(self).pos < old(self).window(old(shared).inner.contents()).len()
                        && len > 0 ==> v@.len() > 0)
                },
                Err(_) => !old(shared).inner.is_total() && final(self).pos == old(self).pos,
            },
    {
        if self.pos >= self.size {
            return Ok(Vec::new());
        }
        let rest = self.size - self.pos;
        let take: usize = if (len as u64) < rest {
            len
        } else {
            rest as usize
        };
        let truepos = self.offset + self.pos;
        match shared.read_at_cursor(truepos, take) {
            Ok(v) => {
                proof {
                    if v@.len() > 0 {
                        assert(v@ =~= self.window(shared.inner.contents()).subrange(
                            self.pos as int,
                            self.pos + v@.len(),
                        ));
                    }
                }
                self.pos = self.pos + v.len() as u64;
                Ok(v)
            },
            Err(e) => Err(e),
        }
    }

    /// Moves the view's position, clamped into `[0, size]`, and returns
    /// the new position. The shared stream is untouched: repositioning of
    /// its cursor happens at the next read.
    pub fn seek(&mut self, whence: SeekFrom) -> (r: u64)
        requires
            old(self).wf(),
        ensures
            final(self).wf(),
            final(self).offset == old(self).offset,
            final(self).size == old(self).size,
            final(self).pos == seek_target(old(self).size, old(self).pos, whence),
            r == final(self).pos,
    {
        let newpos: u64 = match whence {
            SeekFrom::Start(p) => {
                if p <= self.size {
                    p
                } else {
                    self.size
                }
            },
            SeekFrom::End(d) => {
                if d >= 0 {
                    self.size
                } else {
                    let mag: u64 = if d == i64::MIN {
                        0x8000_0000_0000_0000u64
                    } else {
                        (-d) as u64
                    };
                    if mag >= self.size {
                        0
                    } else {
                        self.size - mag
                    }
                }
            },
            SeekFrom::Current(d) => {
                if d >= 0 {
                    if self.size - self.pos >= d as u64 {
                        self.pos + d as u64
                    } else {
                        self.size
                    }
                } else {
                    let mag: u64 = if d == i64::MIN {
                        0x8000_0000_0000_0000u64
                    } else {
                        (-d) as u64
                    };
                    if mag >= self.pos {
                        0
                    } else {
                        self.pos - mag
                    }
                }
            },
        };
        self.pos = newpos;
        newpos
    }

    /// Reads the rest of the view, from its position to the end of its
    /// window, looping over partial reads.
    pub fn read_to_end<T: ReadAt>(&mut self, shared: &mut SharedStream<T>) -> (r: Result<
        Vec<u8>,
        MhkError,
    >)
        requires
            old(self).wf(),
            old(shared).wf(),
        ensures
            final(self).wf(),
            final(shared).wf(),
            final(shared).inner.contents() == old(shared).inner.contents(),
            final(shared).inner.is_total() == old(shared).inner.is_total(),
            match r {
                Ok(v) => {
                    let w = old(self).window(old(shared).inner.contents());
                    &&& old(self).pos as int <= w.len() ==> v@ == w.subrange(
                        old(self).pos as int,
                        w.len() as int,
                    )
                    &&& old(self).pos as int > w.len() ==> v@.len() == 0
                },
                Err(_) => !old(shared).inner.is_total(),
            },
    {
        let ghost w = self.window(shared.inner.contents());
        let mut v: Vec<u8> = Vec::new();
        let mut done = false;
        while !done
            invariant
                self.wf(),
                shared.wf(),
                self.offset == old(self).offset,
                self.size == old(self).size,
                shared.inner.contents() == old(shared).inner.contents(),
                shared.inner.is_total() == old(shared).inner.is_total(),
                w == self.window(shared.inner.contents()),
                self.pos == old(self).pos + v@.len(),
                v@.len() > 0 ==> old(self).pos + v@.len() <= w.len() && v@ == w.subrange(
                    old(self).pos as int,
                    old(self).pos + v@.len(),
                ),
                done ==> self.pos as int >= w.len(),
            decreases self.size - self.pos, (if done { 0int } else { 1int }),
        {
            match self.read(shared, 4096) {
                Ok(chunk) => {
                    if chunk.len() == 0 {
                        // a zero-byte read: the position is at the window's end
                        done = true;
                    } else {
                        let ghost prev = v@;
                        let mut chunk = chunk;
                        v.append(&mut chunk);
                        proof {
                            assert(v@ =~= w.subrange(
                                old(self).pos as int,
                                old(self).pos + v@.len(),
                            ));
                        }
                    }
                },
                Err(e) => {
                    return Err(e);
                },
            }
        }
        proof {
            if old(self).pos as int <= w.len() {
                assert(v@ =~= w.subrange(old(self).pos as int, w.len() as int));
            }
        }
        Ok(v)
    }
}

} // verus!
