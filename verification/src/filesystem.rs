//! The byte-source layer: a read-at abstraction over one physical stream,
//! with narrowing (clamping reads to a sub-range) and buffering (serving
//! small reads from an in-memory window) proved to preserve the bytes read.

use vstd::prelude::*;

use crate::error::MhkError;

verus! {

/// The bytes of `s` visible through a window of `size` bytes at `off`,
/// clamped to what `s` actually holds.
pub open spec fn clip(s: Seq<u8>, off: int, size: int) -> Seq<u8> {
    let lo = if off <= s.len() {
        off
    } else {
        s.len() as int
    };
    let hi = if off + size <= s.len() {
        off + size
    } else {
        s.len() as int
    };
    if lo <= hi {
        s.subrange(lo, hi)
    } else {
        Seq::empty()
    }
}


/// A narrowed view never exposes a byte from outside its window: every
/// byte of the view's contents is the underlying byte at `off` plus the
/// view-relative index, all below `off + size`; and the view is never
/// longer than `size`, so any read at or past `size` yields zero bytes.
pub proof fn lemma_clip_in_window(s: Seq<u8>, off: int, size: int)
    requires
        0 <= off,
        0 <= size,
    ensures
        clip(s, off, size).len() <= size,
        forall|i: int|
            0 <= i < clip(s, off, size).len() ==> #[trigger] clip(s, off, size)[i] == s[off + i]
                && off + i < off + size && off + i < s.len(),
{
}

/// A read-only, positionally addressed byte source.
///
/// Every read returns bytes of `contents()` at the requested position and
/// never moves past its end. Reads may be partial (a caller needing an
/// exact count loops), but a read inside the contents always makes
/// progress, and a read at or past the end returns zero bytes. A source
/// with `is_total()` never fails; a fallible implementation (one backed by
/// real input) reports failures as errors, never as wrong bytes.
pub trait ReadAt: Sized {
    /// The bytes this source exposes.
    spec fn contents(&self) -> Seq<u8>;

    /// Structural soundness of the source itself.
    spec fn wf(&self) -> bool;

    /// True when reads can never fail.
    spec fn is_total(&self) -> bool;

    /// Reads up to `len` bytes at `pos`.
    fn read_at(&mut self, pos: u64, len: usize) -> (r: Result<Vec<u8>, MhkError>)
        requires
            old(self).wf(),
        ensures
            final(self).wf(),
            final(self).contents() == old(self).contents(),
            final(self).is_total() == old(self).is_total(),
            match r {
                Ok(v) => {
                    &&& v@.len() <= len
                    &&& v@.len() > 0 ==> pos + v@.len() <= old(self).contents().len() && v@
                        == old(self).contents().subrange(pos as int, pos + v@.len())
                    &&& (pos < old(self).contents().len() && len > 0 ==> v@.len() > 0)
                },
                Err(_) => !old(self).is_total(),
            },
    ;

    /// The total number of bytes this source exposes.
    fn len(&self) -> (r: u64)
        requires
            self.wf(),
        ensures
            r == self.contents().len(),
    ;

    /// A sound source cannot expose more bytes than positions exist.
    proof fn lemma_len_bound(&self)
        requires
            self.wf(),
        ensures
            self.contents().len() <= u64::MAX,
    ;
}

/// A source over bytes already in memory. Reads never fail and always
/// return as much as is available.
pub struct MemSource {
    pub bytes: Vec<u8>,
}

impl MemSource {
    /// Wraps a byte buffer as a source.
    pub fn new(bytes: Vec<u8>) -> (r: MemSource)
        ensures
            r.contents() == bytes@,
            r.wf(),
            r.is_total(),
    {
        MemSource { bytes }
    }
}

impl ReadAt for MemSource {
    open spec fn contents(&self) -> Seq<u8> {
        self.bytes@
    }

    open spec fn wf(&self) -> bool {
        true
    }

    open spec fn is_total(&self) -> bool {
        true
    }

    fn read_at(&mut self, pos: u64, len: usize) -> (r: Result<Vec<u8>, MhkError>) {
        if pos >= self.bytes.len() as u64 {
            return Ok(Vec::new());
        }
        let p = pos as usize;
        let avail = self.bytes.len() - p;
        let take = if len < avail {
            len
        } else {
            avail
        };
        let mut v: Vec<u8> = Vec::new();
        let mut k: usize = 0;
        while k < take
            invariant
                k <= take,
                p + take <= usize::MAX,
                p + take <= self.bytes@.len(),
                v@ == self.bytes@.subrange(p as int, p + k as int),
            decreases take - k,
        {
            let byte = self.bytes[p + k];
            v.push(byte);
            proof {
                assert(self.bytes@.subrange(p as int, p + (k + 1) as int) =~= self.bytes@.subrange(
                    p as int,
                    p + k as int,
                ).push(byte));
            }
            k = k + 1;
        }
        Ok(v)
    }

    fn len(&self) -> u64 {
        self.bytes.len() as u64
    }

    proof fn lemma_len_bound(&self) {
        assert(self.bytes.len() == self.bytes@.len());
    }
}

/// A view of `inner` restricted to `size` bytes starting at `offset`:
/// reads are clamped to the window and reading at or past its end yields
/// zero bytes, never an error.
pub struct Narrow<T> {
    pub inner: T,
    pub offset: u64,
    pub size: u64,
}

impl<T: ReadAt> Narrow<T> {
    /// Restricts `inner` to the window `[offset, offset + size)`.
    pub fn new(inner: T, offset: u64, size: u64) -> (r: Narrow<T>)
        requires
            offset + size <= u64::MAX,
        ensures
            r.inner == inner,
            r.offset == offset,
            r.size == size,
            inner.wf() ==> r.wf(),
            r.contents() == clip(inner.contents(), offset as int, size as int),
            r.is_total() == inner.is_total(),
    {
        Narrow { inner, offset, size }
    }
}

impl<T: ReadAt> ReadAt for Narrow<T> {
    open spec fn contents(&self) -> Seq<u8> {
        clip(self.inner.contents(), self.offset as int, self.size as int)
    }

    open spec fn wf(&self) -> bool {
        &&& self.inner.wf()
        &&& self.offset + self.size <= u64::MAX
    }

    open spec fn is_total(&self) -> bool {
        self.inner.is_total()
    }

    fn read_at(&mut self, pos: u64, len: usize) -> (r: Result<Vec<u8>, MhkError>) {
        if pos >= self.size {
            return Ok(Vec::new());
        }
        let rest = self.size - pos;
        let take: usize = if (len as u64) < rest {
            len
        } else {
            rest as usize
        };
        let r = self.inner.read_at(self.offset + pos, take);
        match r {
            Ok(v) => {
                proof {
                    if v@.len() > 0 {
                        assert(v@ =~= clip(
                            self.inner.contents(),
                            self.offset as int,
                            self.size as int,
                        ).subrange(pos as int, pos + v@.len()));
                    }
                }
                Ok(v)
            },
            Err(e) => Err(e),
        }
    }

    proof fn lemma_len_bound(&self) {
        self.inner.lemma_len_bound();
    }

    fn len(&self) -> u64 {
        let ilen = self.inner.len();
        if self.offset >= ilen {
            0
        } else if self.offset + self.size <= ilen {
            self.size
        } else {
            ilen - self.offset
        }
    }
}

/// Wraps `inner` so that reads are served from an in-memory window of up
/// to `bufsize` bytes. A read inside the window copies from memory; a miss
/// refills the window from the requested position, discarding the old one.
/// Buffering never changes the bytes a read returns.
pub struct Buffered<T> {
    pub inner: T,
    pub window: Vec<u8>,
    pub start: u64,
    pub bufsize: usize,
}

impl<T: ReadAt> Buffered<T> {
    /// Buffers `inner` with a window of `bufsize` bytes.
    pub fn new(inner: T, bufsize: usize) -> (r: Buffered<T>)
        requires
            bufsize >= 1,
        ensures
            inner.wf() ==> r.wf(),
            r.contents() == inner.contents(),
            r.is_total() == inner.is_total(),
    {
        let window: Vec<u8> = Vec::new();
        proof {
            assert(window@ =~= inner.contents().subrange(0, 0));
        }
        Buffered { inner, window, start: 0, bufsize }
    }
}

impl<T: ReadAt> ReadAt for Buffered<T> {
    open spec fn contents(&self) -> Seq<u8> {
        self.inner.contents()
    }

    open spec fn wf(&self) -> bool {
        &&& self.inner.wf()
        &&& self.bufsize >= 1
        &&& self.start + self.window@.len() <= self.inner.contents().len()
        &&& self.window@ == self.inner.contents().subrange(
            self.start as int,
            self.start + self.window@.len(),
        )
    }

    open spec fn is_total(&self) -> bool {
        self.inner.is_total()
    }

    fn read_at(&mut self, pos: u64, len: usize) -> (r: Result<Vec<u8>, MhkError>) {
        if len == 0 {
            return Ok(Vec::new());
        }
        if !(pos >= self.start && pos - self.start < self.window.len() as u64) {
            // window miss: refill from the requested position
            match self.inner.read_at(pos, self.bufsize) {
                Ok(v) => {
                    if v.len() == 0 {
                        // at or past end of stream
                        return Ok(Vec::new());
                    }
                    self.window = v;
                    self.start = pos;
                },
                Err(e) => {
                    return Err(e);
                },
            }
        }
        // serve from the window
        let woff = (pos - self.start) as usize;
        let avail = self.window.len() - woff;
        let take = if len < avail {
            len
        } else {
            avail
        };
        let mut v: Vec<u8> = Vec::new();
        let mut k: usize = 0;
        while k < take
            invariant
                k <= take,
                woff + take <= usize::MAX,
                woff + take <= self.window@.len(),
                v@ == self.window@.subrange(woff as int, woff + k as int),
            decreases take - k,
        {
            let byte = self.window[woff + k];
            v.push(byte);
            proof {
                assert(self.window@.subrange(woff as int, woff + (k + 1) as int)
                    =~= self.window@.subrange(woff as int, woff + k as int).push(byte));
            }
            k = k + 1;
        }
        proof {
            if v@.len() > 0 {
                assert(v@ =~= self.inner.contents().subrange(pos as int, pos + v@.len()));
            }
        }
        Ok(v)
    }

    fn len(&self) -> u64 {
        self.inner.len()
    }

    proof fn lemma_len_bound(&self) {
        self.inner.lemma_len_bound();
    }
}

/// Reads exactly `len` bytes at `pos`, looping over partial reads. Fails
/// when the source ends before `len` bytes or the source itself fails; on
/// a total source it succeeds exactly when the range lies inside the
/// contents.
pub fn read_exact_at<T: ReadAt>(src: &mut T, pos: u64, len: usize) -> (r: Result<
    Vec<u8>,
    MhkError,
>)
    requires
        old(src).wf(),
        pos + len <= u64::MAX,
    ensures
        final(src).wf(),
        final(src).contents() == old(src).contents(),
        final(src).is_total() == old(src).is_total(),
        match r {
            Ok(v) => {
                &&& v@.len() == len
                &&& len > 0 ==> pos + len <= old(src).contents().len() && v@ == old(
                    src,
                ).contents().subrange(pos as int, pos + len)
            },
            Err(e) => {
                &&& old(src).is_total() ==> pos + len > old(src).contents().len()
                &&& e matches MhkError::Io
            },
        },
{
    let mut v: Vec<u8> = Vec::new();
    while v.len() < len
        invariant
            src.wf(),
            src.contents() == old(src).contents(),
            src.is_total() == old(src).is_total(),
            v@.len() <= len,
            pos + len <= u64::MAX,
            v@.len() > 0 ==> pos + v@.len() <= src.contents().len() && v@
                == src.contents().subrange(pos as int, pos + v@.len()),
        decreases len - v@.len(),
    {
        let got: usize = v.len();
        match src.read_at(pos + got as u64, len - got) {
            Ok(mut chunk) => {
                if chunk.len() == 0 {
                    // end of stream before `len` bytes
                    proof {
                        assert(src.contents().len() <= pos + got);
                    }
                    return Err(MhkError::Io);
                }
                let ghost prefix = v@;
                let ghost more = chunk@;
                v.append(&mut chunk);
                proof {
                    assert(v@ =~= src.contents().subrange(pos as int, pos + v@.len()));
                }
                proof {
                    assert(v@.len() > 0);
                }
            },
            Err(_) => {
                return Err(MhkError::Io);
            },
        }
    }
    Ok(v)
}


/// Opens named streams: the embedding application implements this over
/// its real storage; tests implement it over in-memory tables. Nothing is
/// promised of what a stream holds, only that an opened one is sound.
pub trait Filesystem: Sized {
    /// The stream type this filesystem hands out.
    type Handle: ReadAt;

    /// Opens the stream at `path` (one element per path segment).
    fn open(&mut self, path: &Vec<String>) -> (r: Result<Self::Handle, MhkError>)
        ensures
            match r {
                Ok(h) => h.wf(),
                Err(_) => true,
            },
    ;
}

/// A filesystem that can also store byte streams back.
pub trait FilesystemWrite: Filesystem {
    /// Writes `data` at `path`, replacing what was there.
    fn write(&mut self, path: &Vec<String>, data: &[u8]) -> Result<(), MhkError>;
}

/// True when the two paths have the same segments.
pub open spec fn path_eq(a: Seq<String>, b: Seq<String>) -> bool {
    a.len() == b.len() && forall|i: int| 0 <= i < a.len() ==> a[i]@ == b[i]@
}

/// The bytes stored under `path` in an in-memory file table: the first
/// entry with that path wins.
pub open spec fn mem_lookup(entries: Seq<(Vec<String>, Vec<u8>)>, path: Seq<String>) -> Option<
    Seq<u8>,
>
    decreases entries.len(),
{
    if entries.len() == 0 {
        None
    } else if path_eq(entries[0].0@, path) {
        Some(entries[0].1@)
    } else {
        mem_lookup(entries.subrange(1, entries.len() as int), path)
    }
}

/// A filesystem over an in-memory table of named byte buffers.
pub struct MemFilesystem {
    pub entries: Vec<(Vec<String>, Vec<u8>)>,
}

impl MemFilesystem {
    /// An empty in-memory filesystem.
    pub fn new() -> (r: MemFilesystem)
        ensures
            r.entries@.len() == 0,
    {
        MemFilesystem { entries: Vec::new() }
    }

    /// Stores `data` under `path`, in front of any older entry.
    pub fn add(&mut self, path: Vec<String>, data: Vec<u8>)
        ensures
            final(self).entries@ == seq![(path, data)] + old(self).entries@,
    {
        self.entries.insert(0, (path, data));
        proof {
            assert(self.entries@ =~= seq![(path, data)] + old(self).entries@);
        }
    }

    /// Compares two paths segment by segment.
    fn paths_match(a: &Vec<String>, b: &Vec<String>) -> (r: bool)
        ensures
            r == path_eq(a@, b@),
    {
        if a.len() != b.len() {
            return false;
        }
        let mut i: usize = 0;
        while i < a.len()
            invariant
                i <= a@.len(),
                a@.len() == b@.len(),
                forall|k: int| 0 <= k < i ==> a@[k]@ == b@[k]@,
            decreases a@.len() - i,
        {
            if !(a[i] == b[i]) {
                return false;
            }
            i = i + 1;
        }
        true
    }
}

impl Filesystem for MemFilesystem {
    type Handle = MemSource;

    fn open(&mut self, path: &Vec<String>) -> (r: Result<MemSource, MhkError>)
        ensures
            match r {
                Ok(h) => {
                    &&& h.wf()
                    &&& h.is_total()
                    &&& mem_lookup(old(self).entries@, path@) == Some(h.contents())
                },
                Err(_) => mem_lookup(old(self).entries@, path@) is None,
            },
            final(self).entries@ == old(self).entries@,
    {
        let ghost entries = self.entries@;
        proof {
            assert(entries.subrange(0, entries.len() as int) =~= entries);
        }
        let mut i: usize = 0;
        while i < self.entries.len()
            invariant
                i <= entries.len(),
                entries == self.entries@,
                mem_lookup(entries, path@) == mem_lookup(
                    entries.subrange(i as int, entries.len() as int),
                    path@,
                ),
            decreases entries.len() - i,
        {
            proof {
                assert(entries.subrange(i as int, entries.len() as int)[0] == entries[i as int]);
            }
            if Self::paths_match(&self.entries[i].0, path) {
                let mut bytes: Vec<u8> = Vec::new();
                let stored = &self.entries[i].1;
                let mut k: usize = 0;
                while k < stored.len()
                    invariant
                        k <= stored@.len(),
                        stored@ == entries[i as int].1@,
                        i < entries.len(),
                        bytes@ == stored@.subrange(0, k as int),
                    decreases stored@.len() - k,
                {
                    let b = stored[k];
                    bytes.push(b);
                    proof {
                        assert(stored@.subrange(0, (k + 1) as int) =~= stored@.subrange(
                            0,
                            k as int,
                        ).push(b));
                    }
                    k = k + 1;
                }
                proof {
                    assert(bytes@ =~= entries[i as int].1@);
                }
                return Ok(MemSource::new(bytes));
            }
            proof {
                assert(entries.subrange(i as int, entries.len() as int).subrange(
                    1,
                    entries.len() - i,
                ) =~= entries.subrange(i + 1, entries.len() as int));
            }
            i = i + 1;
        }
        proof {
            assert(entries.subrange(entries.len() as int, entries.len() as int).len() == 0);
        }
        Err(MhkError::Io)
    }
}


/// The stem directory that a game's container files are read from, on
/// the embedding application's real storage. Opening real files is the
/// application's work; this type only carries the configured root.
#[derive(Debug, Clone)]
pub struct LocalFilesystem {
    pub root: String,
}

impl LocalFilesystem {
    /// A local filesystem rooted at `root`.
    pub fn new(root: String) -> (r: LocalFilesystem)
        ensures
            r.root == root,
    {
        LocalFilesystem { root }
    }
}

/// A filesystem wrapper that names a stream of opens for diagnostics.
/// The log line itself is output and stays with the embedding
/// application; the wrapper carries the label and the inner filesystem.
#[derive(Debug)]
pub struct LoggingFilesystem<T> {
    pub name: String,
    pub inner: T,
}

impl<T> LoggingFilesystem<T> {
    /// Labels `inner` with `name`.
    pub fn new(name: String, inner: T) -> (r: LoggingFilesystem<T>)
        ensures
            r.name == name,
            r.inner == inner,
    {
        LoggingFilesystem { name, inner }
    }
}

} // verus!
