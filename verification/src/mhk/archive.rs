//! The container index reader: parses one archive's headers and tables
//! into an in-memory index from type tag and resource id to a byte range,
//! eagerly and wholly at open time.

use vstd::prelude::*;

use crate::error::MhkError;
use crate::bytes::{be16, be32, read_be16, read_be32};
use crate::filesystem::{read_exact_at, ReadAt};
use super::chunks::{
    FileTableEntry, ResourceTableEntry, TypeTableEntry, MHWK, MHWK_MAGIC, RSRC, RSRC_MAGIC,
};
use super::narrow::{Narrow, SharedStream};

verus! {

/// One file table entry resolved to plain numbers: a byte range of the
/// container.
#[derive(Debug, Clone, Copy, PartialEq, Eq, Structural)]
pub struct FileInfo {
    pub offset: u64,
    pub size: u64,
}

/// One resource: its type tag, its id, and the zero-based file table
/// index it dereferences to.
#[derive(Debug, Clone, Copy, PartialEq, Eq, Structural)]
pub struct ResourceInfo {
    pub ty: u32,
    pub id: u16,
    pub file_table_index: usize,
}

/// All resources of one type tag, in on-disk order.
#[derive(Debug, Clone)]
pub struct TypeGroup {
    pub tag: u32,
    pub entries: Vec<ResourceInfo>,
}

/// The offset of the resource directory.
pub open spec fn rdir_of(data: Seq<u8>) -> int {
    be32(data, 20) as int
}

/// The offset of the file table.
pub open spec fn ftable_of(data: Seq<u8>) -> int {
    rdir_of(data) + be16(data, 24) as int
}

/// The number of type table entries.
pub open spec fn type_count(data: Seq<u8>) -> int {
    be16(data, rdir_of(data) + 2) as int
}

/// The number of file table entries.
pub open spec fn file_count(data: Seq<u8>) -> int {
    be32(data, ftable_of(data)) as int
}

/// The byte range stored in file table entry `k`, with its size
/// reassembled from the split low and high fields.
pub open spec fn file_entry_at(data: Seq<u8>, k: int) -> FileInfo {
    let e = ftable_of(data) + 4 + 10 * k;
    FileInfo {
        offset: be32(data, e) as u64,
        size: (data[e + 6] as int * 0x10000 + be16(data, e + 4) as int) as u64,
    }
}

/// The type tag of type table entry `t`.
pub open spec fn type_tag_at(data: Seq<u8>, t: int) -> u32 {
    be32(data, rdir_of(data) + 4 + 8 * t)
}

/// The offset of the resource table of type table entry `t`.
pub open spec fn rtable_at(data: Seq<u8>, t: int) -> int {
    rdir_of(data) + be16(data, rdir_of(data) + 4 + 8 * t + 4) as int
}

/// The number of resources under type table entry `t`.
pub open spec fn res_count_at(data: Seq<u8>, t: int) -> int {
    be16(data, rtable_at(data, t)) as int
}

/// The id of resource `j` under type table entry `t`.
pub open spec fn res_id_at(data: Seq<u8>, t: int, j: int) -> u16 {
    be16(data, rtable_at(data, t) + 2 + 4 * j)
}

/// The one-based file table index of resource `j` under type entry `t`.
pub open spec fn res_index_at(data: Seq<u8>, t: int, j: int) -> int {
    be16(data, rtable_at(data, t) + 2 + 4 * j + 2) as int
}

/// Resource `j` of type entry `t` dereferences to a file table entry that
/// exists and whose byte range lies wholly inside the container.
pub open spec fn resource_entry_ok(data: Seq<u8>, t: int, j: int) -> bool {
    &&& res_index_at(data, t, j) >= 1
    &&& res_index_at(data, t, j) - 1 < file_count(data)
    &&& file_entry_at(data, res_index_at(data, t, j) - 1).offset + file_entry_at(
        data,
        res_index_at(data, t, j) - 1,
    ).size <= data.len()
}

/// Type entry `t`'s resource table lies inside the container and all its
/// entries resolve.
pub open spec fn type_entry_ok(data: Seq<u8>, t: int) -> bool {
    &&& rtable_at(data, t) + 2 <= data.len()
    &&& rtable_at(data, t) + 2 + 4 * res_count_at(data, t) <= data.len()
    &&& forall|j: int| 0 <= j < res_count_at(data, t) ==> resource_entry_ok(data, t, j)
}

/// A structurally valid container: both signatures in place, every table
/// inside the byte stream, and every resource resolving to a byte range
/// inside it.
pub open spec fn container_ok(data: Seq<u8>) -> bool {
    &&& data.len() >= 28
    &&& be32(data, 0) == MHWK_MAGIC
    &&& be32(data, 8) == RSRC_MAGIC
    &&& rdir_of(data) + 4 <= data.len()
    &&& rdir_of(data) + 4 + 8 * type_count(data) <= data.len()
    &&& ftable_of(data) + 4 <= data.len()
    &&& ftable_of(data) + 4 + 10 * file_count(data) <= data.len()
    &&& forall|t: int| 0 <= t < type_count(data) ==> type_entry_ok(data, t)
}

/// Every table the index reader visits lies inside the byte stream, so
/// no read can run past the end; says nothing of signatures or of what
/// the tables hold.
pub open spec fn container_reads_ok(data: Seq<u8>) -> bool {
    &&& data.len() >= 28
    &&& rdir_of(data) + 4 <= data.len()
    &&& rdir_of(data) + 4 + 8 * type_count(data) <= data.len()
    &&& ftable_of(data) + 4 <= data.len()
    &&& ftable_of(data) + 4 + 10 * file_count(data) <= data.len()
    &&& forall|t: int|
        0 <= t < type_count(data) ==> #[trigger] rtable_at(data, t) + 2 <= data.len()
            && rtable_at(data, t) + 2 + 4 * res_count_at(data, t) <= data.len()
}

/// One type group carries exactly the on-disk resource table of type
/// entry `t`, with indices made zero-based.
pub open spec fn group_matches(data: Seq<u8>, g: TypeGroup, t: int) -> bool {
    &&& g.tag == type_tag_at(data, t)
    &&& g.entries@.len() == res_count_at(data, t)
    &&& forall|j: int|
        0 <= j < g.entries@.len() ==> (#[trigger] g.entries@[j]) == (ResourceInfo {
            ty: type_tag_at(data, t),
            id: res_id_at(data, t, j),
            file_table_index: (res_index_at(data, t, j) - 1) as usize,
        })
}

/// The parsed index carries exactly the container's tables.
pub open spec fn archive_matches(data: Seq<u8>, files: Seq<FileInfo>, groups: Seq<TypeGroup>) -> bool {
    &&& files.len() == file_count(data)
    &&& forall|k: int| 0 <= k < files.len() ==> (#[trigger] files[k]) == file_entry_at(data, k)
    &&& groups.len() == type_count(data)
    &&& forall|t: int| 0 <= t < groups.len() ==> group_matches(data, #[trigger] groups[t], t)
}

/// In a valid container whose index matches its tables, every indexed
/// resource dereferences to an existing file table entry whose byte range
/// lies inside the container.
pub proof fn lemma_index_in_bounds(data: Seq<u8>, files: Seq<FileInfo>, groups: Seq<TypeGroup>)
    requires
        container_ok(data),
        archive_matches(data, files, groups),
    ensures
        forall|t: int, j: int|
            0 <= t < groups.len() && 0 <= j < groups[t].entries@.len() ==> {
                let e = #[trigger] groups[t].entries@[j];
                &&& e.file_table_index < files.len()
                &&& files[e.file_table_index as int].offset + files[
                    e.file_table_index as int
                ].size <= data.len()
            },
{
    assert forall|t: int, j: int|
        0 <= t < groups.len() && 0 <= j < groups[t].entries@.len() implies {
        let e = #[trigger] groups[t].entries@[j];
        &&& e.file_table_index < files.len()
        &&& files[e.file_table_index as int].offset + files[e.file_table_index as int].size
            <= data.len()
    } by {
        assert(group_matches(data, groups[t], t));
        assert(type_entry_ok(data, t));
        assert(resource_entry_ok(data, t, j));
        let idx = res_index_at(data, t, j) - 1;
        assert(files[idx] == file_entry_at(data, idx));
    }
}


/// The byte range that `(tag, id)` resolves to in an index: the first
/// group carrying `tag` is consulted, and within it the first entry
/// carrying `id`.
pub open spec fn archive_lookup(
    groups: Seq<TypeGroup>,
    files: Seq<FileInfo>,
    tag: u32,
    id: u16,
) -> Option<FileInfo>
    decreases groups.len(),
{
    if groups.len() == 0 {
        None
    } else if groups[0].tag == tag {
        entries_lookup(groups[0].entries@, files, id)
    } else {
        archive_lookup(groups.subrange(1, groups.len() as int), files, tag, id)
    }
}

/// The byte range that `id` resolves to within one group's entries.
pub open spec fn entries_lookup(entries: Seq<ResourceInfo>, files: Seq<FileInfo>, id: u16) -> Option<
    FileInfo,
>
    decreases entries.len(),
{
    if entries.len() == 0 {
        None
    } else if entries[0].id == id {
        if entries[0].file_table_index < files.len() {
            Some(files[entries[0].file_table_index as int])
        } else {
            None
        }
    } else {
        entries_lookup(entries.subrange(1, entries.len() as int), files, id)
    }
}


/// Whatever byte range a lookup yields comes from the file table.
pub proof fn lemma_entries_lookup_found(
    entries: Seq<ResourceInfo>,
    files: Seq<FileInfo>,
    id: u16,
)
    requires
        entries_lookup(entries, files, id) is Some,
    ensures
        exists|j: int|
            0 <= j < entries.len() && (#[trigger] entries[j]).id == id && entries[
                j
            ].file_table_index < files.len() && entries_lookup(entries, files, id) == Some(
                files[entries[j].file_table_index as int],
            ),
    decreases entries.len(),
{
    if entries.len() > 0 {
        if entries[0].id == id {
            assert(entries[0].file_table_index < files.len());
        } else {
            let tail = entries.subrange(1, entries.len() as int);
            lemma_entries_lookup_found(tail, files, id);
            let j = choose|j: int|
                0 <= j < tail.len() && (#[trigger] tail[j]).id == id && tail[j].file_table_index
                    < files.len() && entries_lookup(tail, files, id) == Some(
                    files[tail[j].file_table_index as int],
                );
            assert(entries[j + 1] == tail[j]);
        }
    }
}

/// Every pair present in a sound index resolves to a byte range that lies
/// wholly inside the container's byte length.
pub proof fn lemma_lookup_in_container<T: ReadAt>(a: &MhkArchive<T>, tag: u32, id: u16)
    requires
        a.wf(),
        archive_lookup(a.resources@, a.files@, tag, id) is Some,
    ensures
        archive_lookup(a.resources@, a.files@, tag, id).unwrap().offset + archive_lookup(
            a.resources@,
            a.files@,
            tag,
            id,
        ).unwrap().size <= a.source.inner.contents().len(),
{
    assert(a.resources@ == a.resources@.subrange(0, a.resources@.len() as int)) by {
        assert(a.resources@ =~= a.resources@.subrange(0, a.resources@.len() as int));
    }
    lemma_archive_lookup_in_bounds(
        a.resources@,
        a.files@,
        tag,
        id,
        a.source.inner.contents().len() as int,
        a.resources@,
        0,
    );
}

/// The inductive core of the range-soundness law: a lookup through any
/// suffix of a bounds-checked index stays inside the container.
proof fn lemma_archive_lookup_in_bounds(
    groups: Seq<TypeGroup>,
    files: Seq<FileInfo>,
    tag: u32,
    id: u16,
    clen: int,
    whole: Seq<TypeGroup>,
    off: int,
)
    requires
        archive_lookup(groups, files, tag, id) is Some,
        forall|t: int, j: int|
            0 <= t < whole.len() && 0 <= j < whole[t].entries@.len() ==> {
                let e = #[trigger] whole[t].entries@[j];
                &&& e.file_table_index < files.len()
                &&& files[e.file_table_index as int].offset + files[e.file_table_index as int].size
                    <= clen
            },
        0 <= off <= whole.len() - groups.len(),
        groups == whole.subrange(off, off + groups.len()),
    ensures
        archive_lookup(groups, files, tag, id).unwrap().offset + archive_lookup(
            groups,
            files,
            tag,
            id,
        ).unwrap().size <= clen,
    decreases groups.len(),
{
    if groups[0].tag == tag {
        lemma_entries_lookup_found(groups[0].entries@, files, id);
        let j = choose|j: int|
            0 <= j < groups[0].entries@.len() && (#[trigger] groups[0].entries@[j]).id == id
                && groups[0].entries@[j].file_table_index < files.len() && entries_lookup(
                groups[0].entries@,
                files,
                id,
            ) == Some(files[groups[0].entries@[j].file_table_index as int]);
        assert(whole[off].entries@[j] == groups[0].entries@[j]);
    } else {
        let tail = groups.subrange(1, groups.len() as int);
        assert(tail =~= whole.subrange(off + 1, off + 1 + tail.len()));
        lemma_archive_lookup_in_bounds(tail, files, tag, id, clen, whole, off + 1);
    }
}


/// Lookup reaches the first group carrying `tag`.
pub proof fn lemma_archive_lookup_at(
    groups: Seq<TypeGroup>,
    files: Seq<FileInfo>,
    tag: u32,
    id: u16,
    t: int,
)
    requires
        0 <= t < groups.len(),
        groups[t].tag == tag,
        forall|i: int| 0 <= i < t ==> (#[trigger] groups[i]).tag != tag,
    ensures
        archive_lookup(groups, files, tag, id) == entries_lookup(groups[t].entries@, files, id),
    decreases t,
{
    if t > 0 {
        let tail = groups.subrange(1, groups.len() as int);
        assert forall|i: int| 0 <= i < t - 1 implies (#[trigger] tail[i]).tag != tag by {
            assert(tail[i] == groups[i + 1]);
        }
        lemma_archive_lookup_at(tail, files, tag, id, t - 1);
        assert(tail[t - 1] == groups[t]);
    }
}

/// Lookup within a group reaches the first entry carrying `id`.
pub proof fn lemma_entries_lookup_at(
    entries: Seq<ResourceInfo>,
    files: Seq<FileInfo>,
    id: u16,
    j: int,
)
    requires
        0 <= j < entries.len(),
        entries[j].id == id,
        forall|i: int| 0 <= i < j ==> (#[trigger] entries[i]).id != id,
        entries[j].file_table_index < files.len(),
    ensures
        entries_lookup(entries, files, id) == Some(files[entries[j].file_table_index as int]),
    decreases j,
{
    if j > 0 {
        let tail = entries.subrange(1, entries.len() as int);
        assert forall|i: int| 0 <= i < j - 1 implies (#[trigger] tail[i]).id != id by {
            assert(tail[i] == entries[i + 1]);
        }
        lemma_entries_lookup_at(tail, files, id, j - 1);
        assert(tail[j - 1] == entries[j]);
    }
}

/// Round trip through the index: in a valid container, every table entry
/// whose tag and id are the first of their kind resolves, and recovers
/// exactly the byte range the file table stores for it.
pub proof fn lemma_index_roundtrip(
    data: Seq<u8>,
    files: Seq<FileInfo>,
    groups: Seq<TypeGroup>,
    t: int,
    j: int,
)
    requires
        container_ok(data),
        archive_matches(data, files, groups),
        0 <= t < groups.len(),
        0 <= j < groups[t].entries@.len(),
        forall|i: int| 0 <= i < t ==> (#[trigger] groups[i]).tag != groups[t].tag,
        forall|i: int|
            0 <= i < j ==> (#[trigger] groups[t].entries@[i]).id != groups[t].entries@[j].id,
    ensures
        archive_lookup(groups, files, groups[t].tag, groups[t].entries@[j].id) == Some(
            file_entry_at(data, res_index_at(data, t, j) - 1),
        ),
{
    let tag = groups[t].tag;
    let id = groups[t].entries@[j].id;
    assert(group_matches(data, groups[t], t));
    assert(type_entry_ok(data, t));
    assert(resource_entry_ok(data, t, j));
    assert(groups[t].entries@[j].file_table_index < files.len());
    lemma_archive_lookup_at(groups, files, tag, id, t);
    lemma_entries_lookup_at(groups[t].entries@, files, id, j);
    assert(files[groups[t].entries@[j].file_table_index as int] == file_entry_at(
        data,
        res_index_at(data, t, j) - 1,
    ));
}

/// One opened, fully indexed container: the shared stream it was read
/// from, its file table, and its resources grouped by type tag.
pub struct MhkArchive<T> {
    pub source: SharedStream<T>,
    pub files: Vec<FileInfo>,
    pub resources: Vec<TypeGroup>,
}

impl<T: ReadAt> MhkArchive<T> {
    /// Every indexed resource points at a file table entry that exists,
    /// and at a byte range wholly inside the container.
    pub open spec fn wf(&self) -> bool {
        &&& self.source.wf()
        &&& forall|k: int| 0 <= k < self.files@.len() ==> (#[trigger] self.files@[k]).size
            < 0x1000000
        &&& forall|t: int, j: int|
            0 <= t < self.resources@.len() && 0 <= j
                < self.resources@[t].entries@.len() ==> {
                let e = #[trigger] self.resources@[t].entries@[j];
                &&& e.file_table_index < self.files@.len()
                &&& self.files@[e.file_table_index as int].offset + self.files@[
                    e.file_table_index as int
                ].size <= self.source.inner.contents().len()
            }
    }

    /// Opens a container: verifies both signatures, reads the type table,
    /// every per-type resource table and the file table, and builds the
    /// index eagerly. No resource bytes are read. A malformed table aborts
    /// the whole container.
    #[verifier::rlimit(100)]
    pub fn new(source: T) -> (r: Result<MhkArchive<T>, MhkError>)
        requires
            source.wf(),
        ensures
            match r {
                Ok(a) => {
                    &&& a.wf()
                    &&& a.source.inner.contents() == source.contents()
                    &&& a.source.inner.is_total() == source.is_total()
                    &&& container_ok(source.contents())
                    &&& archive_matches(source.contents(), a.files@, a.resources@)
                },
                Err(e) => {
                    &&& source.is_total() ==> (!container_ok(source.contents())
                        || source.contents().len() > usize::MAX)
                    // when every table is in bounds, the only failures
                    // left are structural
                    &&& (source.is_total() && source.contents().len() <= usize::MAX
                        && container_reads_ok(source.contents())) ==> e matches MhkError::InvalidFormat(_)
                },
            },
    {
        let ghost data = source.contents();
        let mut src = SharedStream::new(source);
        let clen = src.inner.len();

        // both headers
        let hdr = match read_exact_at(&mut src.inner, 0, 28) {
            Ok(v) => v,
            Err(e) => {
                return Err(e);
            },
        };
        let mhwk = MHWK::parse(hdr.as_slice(), 0);
        if mhwk.signature != MHWK_MAGIC {
            return Err(MhkError::InvalidFormat("bad signature (MHWK)"));
        }
        let rsrc = RSRC::parse(hdr.as_slice(), 8);
        if rsrc.signature != RSRC_MAGIC {
            return Err(MhkError::InvalidFormat("bad signature (RSRC)"));
        }
        let rdo = rsrc.resource_dir_offset as u64;
        let fto = rsrc.file_table_offset as u64;

        // the resource directory starts with the unused name list offset,
        // then the type count
        let dirhdr = match read_exact_at(&mut src.inner, rdo, 4) {
            Ok(v) => v,
            Err(e) => {
                return Err(e);
            },
        };
        let tcount = read_be16(dirhdr.as_slice(), 2) as usize;

        // the type table
        let ttbl = match read_exact_at(&mut src.inner, rdo + 4, 8 * tcount) {
            Ok(v) => v,
            Err(e) => {
                return Err(e);
            },
        };

        proof {
            assert(rdir_of(data) == rdo);
            assert(tcount == type_count(data));
            assert(ttbl@ =~= data.subrange(
                rdir_of(data) + 4,
                rdir_of(data) + 4 + 8 * (tcount as int),
            ));
        }

        // the file table
        let files = match Self::read_file_table(&mut src, Ghost(data), clen, rdo, fto) {
            Ok(v) => v,
            Err(e) => {
                return Err(e);
            },
        };

        // per-type resource tables, validated against the file table
        let resources = match Self::read_all_groups(&mut src, Ghost(data), &files, clen, rdo, &ttbl, tcount) {
            Ok(v) => v,
            Err(e) => {
                return Err(e);
            },
        };

        let a = MhkArchive { source: src, files, resources };
        proof {
            assert(container_ok(data));
            assert(archive_matches(data, a.files@, a.resources@));
            lemma_index_in_bounds(data, a.files@, a.resources@);
            assert forall|k: int| 0 <= k < a.files@.len() implies (#[trigger] a.files@[k]).size
                < 0x1000000 by {
                assert(a.files@[k] == file_entry_at(data, k));
            }
        }
        Ok(a)
    }




    /// Resolves `(tag, id)` to an independent narrowed view of this
    /// container's stream, or reports the resource missing. The returned
    /// view's window is exactly the resource's byte range.
    pub fn open(&self, tag: u32, id: u16) -> (r: Result<Narrow, MhkError>)
        requires
            self.wf(),
        ensures
            match r {
                Ok(n) => {
                    &&& archive_lookup(self.resources@, self.files@, tag, id) matches Some(fi)
                        && n.offset == fi.offset && n.size == fi.size
                    &&& n.pos == 0
                    &&& n.wf()
                    &&& n.size < 0x1000000
                    &&& n.offset + n.size <= self.source.inner.contents().len()
                },
                Err(e) => {
                    &&& archive_lookup(self.resources@, self.files@, tag, id) is None
                    &&& e matches MhkError::ResourceNotFound(None, etag, eid) && etag == tag && eid
                        == id
                },
            },
    {
        let ghost groups = self.resources@;
        proof {
            assert(groups.subrange(0, groups.len() as int) =~= groups);
        }
        let mut t: usize = 0;
        while t < self.resources.len()
            invariant
                self.wf(),
                groups == self.resources@,
                t <= groups.len(),
                archive_lookup(groups, self.files@, tag, id) == archive_lookup(
                    groups.subrange(t as int, groups.len() as int),
                    self.files@,
                    tag,
                    id,
                ),
                forall|i: int| 0 <= i < t ==> (#[trigger] groups[i]).tag != tag,
            decreases groups.len() - t,
        {
            proof {
                assert(groups.subrange(t as int, groups.len() as int)[0] == groups[t as int]);
            }
            if self.resources[t].tag == tag {
                let ghost entries = groups[t as int].entries@;
                proof {
                    assert(entries.subrange(0, entries.len() as int) =~= entries);
                }
                let group = &self.resources[t];
                let mut j: usize = 0;
                while j < group.entries.len()
                    invariant
                        self.wf(),
                        groups == self.resources@,
                        t < groups.len(),
                        group == &self.resources[t as int],
                        entries == groups[t as int].entries@,
                        j <= entries.len(),
                        entries_lookup(entries, self.files@, id) == entries_lookup(
                            entries.subrange(j as int, entries.len() as int),
                            self.files@,
                            id,
                        ),
                        archive_lookup(groups, self.files@, tag, id) == entries_lookup(
                            entries,
                            self.files@,
                            id,
                        ),
                    decreases entries.len() - j,
                {
                    proof {
                        assert(entries.subrange(j as int, entries.len() as int)[0] == entries[
                            j as int
                        ]);
                    }
                    if group.entries[j].id == id {
                        proof {
                            let e = self.resources@[t as int].entries@[j as int];
                            assert(e.file_table_index < self.files@.len());
                            assert(self.files@[e.file_table_index as int].offset + self.files@[
                                e.file_table_index as int
                            ].size <= self.source.inner.contents().len());
                            assert(self.files@[e.file_table_index as int].size < 0x1000000);
                            self.source.inner.lemma_len_bound();
                        }
                        let idx = group.entries[j].file_table_index;
                        let fi = self.files[idx];
                        proof {
                            assert(entries_lookup(
                                entries.subrange(j as int, entries.len() as int),
                                self.files@,
                                id,
                            ) == Some(self.files@[idx as int]));
                        }
                        return Ok(Narrow::new(fi.offset, fi.size));
                    }
                    proof {
                        assert(entries.subrange(j as int, entries.len() as int).subrange(
                            1,
                            entries.len() - j,
                        ) =~= entries.subrange(j + 1, entries.len() as int));
                    }
                    j = j + 1;
                }
                proof {
                    assert(entries.subrange(entries.len() as int, entries.len() as int).len()
                        == 0);
                }
                return Err(MhkError::ResourceNotFound(None, tag, id));
            }
            proof {
                assert(groups.subrange(t as int, groups.len() as int).subrange(
                    1,
                    groups.len() - t,
                ) =~= groups.subrange(t + 1, groups.len() as int));
            }
            t = t + 1;
        }
        proof {
            assert(groups.subrange(groups.len() as int, groups.len() as int).len() == 0);
        }
        Err(MhkError::ResourceNotFound(None, tag, id))
    }

    /// Resolves `(tag, id)` and reads the resource's bytes whole.
    pub fn read_resource(&mut self, tag: u32, id: u16) -> (r: Result<Vec<u8>, MhkError>)
        requires
            old(self).wf(),
        ensures
            final(self).wf(),
            final(self).files@ == old(self).files@,
            final(self).resources@ == old(self).resources@,
            final(self).source.inner.contents() == old(self).source.inner.contents(),
            final(self).source.inner.is_total() == old(self).source.inner.is_total(),
            match r {
                Ok(v) => {
                    &&& archive_lookup(old(self).resources@, old(self).files@, tag, id)
                        matches Some(fi) && v@ == old(self).source.inner.contents().subrange(
                        fi.offset as int,
                        fi.offset + fi.size,
                    )
                },
                Err(e) => {
                    ||| (archive_lookup(old(self).resources@, old(self).files@, tag, id) is None
                        && e matches MhkError::ResourceNotFound(_, _, _))
                    ||| (!old(self).source.inner.is_total() && e matches MhkError::Io)
                },
            },
    {
        let view = match self.open(tag, id) {
            Ok(v) => v,
            Err(e) => {
                return Err(e);
            },
        };
        let size = view.size as usize;
        proof {
            self.source.inner.lemma_len_bound();
        }
        match read_exact_at(&mut self.source.inner, view.offset, size) {
            Ok(v) => {
                proof {
                    let fi = archive_lookup(old(self).resources@, old(self).files@, tag, id)
                        .unwrap();
                    assert(view.offset == fi.offset && view.size == fi.size);
                    if size == 0 {
                        assert(v@ =~= self.source.inner.contents().subrange(
                            view.offset as int,
                            view.offset + view.size,
                        ));
                    }
                }
                Ok(v)
            },
            Err(e) => Err(e),
        }
    }

    /// Reads the file table and resolves each entry's split size fields.
    #[verifier::rlimit(100)]
    fn read_file_table(
        src: &mut SharedStream<T>,
        Ghost(data): Ghost<Seq<u8>>,
        clen: u64,
        rdo: u64,
        fto: u64,
    ) -> (r: Result<Vec<FileInfo>, MhkError>)
        requires
            old(src).wf(),
            old(src).inner.contents() == data,
            clen == data.len(),
            rdo == be32(data, 20),
            fto == be16(data, 24),
        ensures
            final(src).wf(),
            final(src).inner.contents() == data,
            final(src).inner.is_total() == old(src).inner.is_total(),
            match r {
                Ok(files) => {
                    &&& ftable_of(data) + 4 <= data.len()
                    &&& ftable_of(data) + 4 + 10 * file_count(data) <= data.len()
                    &&& files@.len() == file_count(data)
                    &&& forall|k: int|
                        0 <= k < files@.len() ==> (#[trigger] files@[k]) == file_entry_at(data, k)
                },
                Err(e) => {
                    &&& old(src).inner.is_total() ==> (!container_ok(data) || data.len()
                        > usize::MAX)
                    &&& (old(src).inner.is_total() && data.len() <= usize::MAX
                        && container_reads_ok(data)) ==> e matches MhkError::InvalidFormat(_)
                },
            },
    {
        let fthdr = match read_exact_at(&mut src.inner, rdo + fto, 4) {
            Ok(v) => v,
            Err(e) => {
                return Err(e);
            },
        };
        let fcount64 = read_be32(fthdr.as_slice(), 0) as u64;
        if 10 * fcount64 > clen || rdo + fto + 4 > clen - 10 * fcount64 {
            proof {
                assert(!container_ok(data));
            }
            return Err(MhkError::InvalidFormat("bad file table"));
        }
        if 10 * fcount64 > usize::MAX as u64 {
            return Err(MhkError::Io);
        }
        let fcount = fcount64 as usize;
        let ftbl = match read_exact_at(&mut src.inner, rdo + fto + 4, 10 * fcount) {
            Ok(v) => v,
            Err(e) => {
                return Err(e);
            },
        };
        let mut files: Vec<FileInfo> = Vec::new();
        let mut k: usize = 0;
        while k < fcount
            invariant
                k <= fcount,
                fcount == file_count(data),
                10 * fcount <= usize::MAX,
                10 * fcount <= ftbl@.len(),
                ftbl@ == data.subrange(ftable_of(data) + 4, ftable_of(data) + 4 + 10 * fcount),
                ftable_of(data) + 4 + 10 * fcount <= data.len(),
                files@.len() == k,
                forall|i: int| 0 <= i < k ==> (#[trigger] files@[i]) == file_entry_at(data, i),
            decreases fcount - k,
        {
            let e = FileTableEntry::parse(ftbl.as_slice(), 10 * k);
            let info = FileInfo { offset: e.offset as u64, size: e.size() };
            proof {
                assert(info == file_entry_at(data, k as int));
            }
            files.push(info);
            k = k + 1;
        }
        Ok(files)
    }

    /// Reads and validates every per-type resource table.
    #[verifier::rlimit(100)]
    fn read_all_groups(
        src: &mut SharedStream<T>,
        Ghost(data): Ghost<Seq<u8>>,
        files: &Vec<FileInfo>,
        clen: u64,
        rdo: u64,
        ttbl: &Vec<u8>,
        tcount: usize,
    ) -> (r: Result<Vec<TypeGroup>, MhkError>)
        requires
            old(src).wf(),
            old(src).inner.contents() == data,
            clen == data.len(),
            rdo == be32(data, 20),
            tcount == type_count(data),
            8 * tcount <= ttbl@.len(),
            ttbl@ == data.subrange(rdir_of(data) + 4, rdir_of(data) + 4 + 8 * tcount),
            rdir_of(data) + 4 + 8 * tcount <= data.len(),
            files@.len() == file_count(data),
            forall|i: int| 0 <= i < files@.len() ==> (#[trigger] files@[i]) == file_entry_at(
                data,
                i,
            ),
        ensures
            final(src).wf(),
            final(src).inner.contents() == data,
            final(src).inner.is_total() == old(src).inner.is_total(),
            match r {
                Ok(groups) => {
                    &&& groups@.len() == type_count(data)
                    &&& forall|i: int|
                        0 <= i < groups@.len() ==> group_matches(data, #[trigger] groups@[i], i)
                    &&& forall|i: int| 0 <= i < groups@.len() ==> type_entry_ok(data, i)
                },
                Err(e) => {
                    &&& old(src).inner.is_total() ==> !container_ok(data)
                    &&& (old(src).inner.is_total() && container_reads_ok(data)) ==> e
                        matches MhkError::InvalidFormat(_)
                },
            },
    {
        let mut resources: Vec<TypeGroup> = Vec::new();
        let mut t: usize = 0;
        while t < tcount
            invariant
                t <= tcount,
                tcount == type_count(data),
                8 * tcount <= ttbl@.len(),
                ttbl@ == data.subrange(rdir_of(data) + 4, rdir_of(data) + 4 + 8 * tcount),
                rdir_of(data) + 4 + 8 * tcount <= data.len(),
                rdo == be32(data, 20),
                src.wf(),
                src.inner.contents() == data,
                src.inner.is_total() == old(src).inner.is_total(),
                clen == data.len(),
                files@.len() == file_count(data),
                forall|i: int| 0 <= i < files@.len() ==> (#[trigger] files@[i]) == file_entry_at(
                    data,
                    i,
                ),
                resources@.len() == t,
                forall|i: int|
                    0 <= i < t ==> group_matches(data, #[trigger] resources@[i], i),
                forall|i: int| 0 <= i < t ==> type_entry_ok(data, i),
            decreases tcount - t,
        {
            let te = TypeTableEntry::parse(ttbl.as_slice(), 8 * t);
            proof {
                assert(te.resource_type == type_tag_at(data, t as int));
                assert(rtable_at(data, t as int) == rdo + te.resource_table_offset);
            }
            let g = match Self::read_type_group(
                src,
                Ghost(data),
                files,
                clen,
                rdo,
                te,
                Ghost(t as int),
            ) {
                Ok(g) => g,
                Err(e) => {
                    return Err(e);
                },
            };
            resources.push(g);
            t = t + 1;
        }
        Ok(resources)
    }

    /// Reads and validates the resource table of one type entry.
    #[verifier::rlimit(100)]
    fn read_type_group(
        src: &mut SharedStream<T>,
        Ghost(data): Ghost<Seq<u8>>,
        files: &Vec<FileInfo>,
        clen: u64,
        rdo: u64,
        te: TypeTableEntry,
        Ghost(t): Ghost<int>,
    ) -> (r: Result<TypeGroup, MhkError>)
        requires
            old(src).wf(),
            old(src).inner.contents() == data,
            clen == data.len(),
            rdo == be32(data, 20),
            0 <= t < type_count(data),
            te.resource_type == type_tag_at(data, t),
            rtable_at(data, t) == rdo + te.resource_table_offset,
            files@.len() == file_count(data),
            forall|i: int| 0 <= i < files@.len() ==> (#[trigger] files@[i]) == file_entry_at(
                data,
                i,
            ),
        ensures
            final(src).wf(),
            final(src).inner.contents() == data,
            final(src).inner.is_total() == old(src).inner.is_total(),
            match r {
                Ok(g) => group_matches(data, g, t) && type_entry_ok(data, t),
                Err(e) => {
                    &&& old(src).inner.is_total() ==> !container_ok(data)
                    &&& (old(src).inner.is_total() && container_reads_ok(data)) ==> e
                        matches MhkError::InvalidFormat(_)
                },
            },
    {
        let rto = te.resource_table_offset as u64;
        let rthdr = match read_exact_at(&mut src.inner, rdo + rto, 2) {
            Ok(v) => v,
            Err(e) => {
                proof {
                    if src.inner.is_total() {
                        assert(!type_entry_ok(data, t));
                        assert(!container_ok(data));
                    }
                }
                return Err(e);
            },
        };
        let rcount = read_be16(rthdr.as_slice(), 0) as usize;
        let rtbl = match read_exact_at(&mut src.inner, rdo + rto + 2, 4 * rcount) {
            Ok(v) => v,
            Err(e) => {
                proof {
                    if src.inner.is_total() {
                        assert(!type_entry_ok(data, t));
                        assert(!container_ok(data));
                    }
                }
                return Err(e);
            },
        };
        let mut entries: Vec<ResourceInfo> = Vec::new();
        let mut j: usize = 0;
        while j < rcount
            invariant
                j <= rcount,
                src.wf(),
                src.inner.contents() == data,
                src.inner.is_total() == old(src).inner.is_total(),
                rcount == res_count_at(data, t),
                0 <= t < type_count(data),
                4 * rcount <= rtbl@.len(),
                rtbl@ == data.subrange(rtable_at(data, t) + 2, rtable_at(data, t) + 2 + 4 * rcount),
                rtable_at(data, t) + 2 + 4 * rcount <= data.len(),
                te.resource_type == type_tag_at(data, t),
                files@.len() == file_count(data),
                forall|i: int| 0 <= i < files@.len() ==> (#[trigger] files@[i]) == file_entry_at(
                    data,
                    i,
                ),
                clen == data.len(),
                entries@.len() == j,
                forall|i: int|
                    0 <= i < j ==> (#[trigger] entries@[i]) == (ResourceInfo {
                        ty: type_tag_at(data, t),
                        id: res_id_at(data, t, i),
                        file_table_index: (res_index_at(data, t, i) - 1) as usize,
                    }),
                forall|i: int| 0 <= i < j ==> resource_entry_ok(data, t, i),
            decreases rcount - j,
        {
            let re = ResourceTableEntry::parse(rtbl.as_slice(), 4 * j);
            proof {
                assert(re.resource_id == res_id_at(data, t, j as int));
                assert(re.file_table_index == res_index_at(data, t, j as int));
            }
            if re.file_table_index == 0 {
                proof {
                    assert(!resource_entry_ok(data, t, j as int));
                    assert(!type_entry_ok(data, t));
                    assert(!container_ok(data));
                }
                return Err(MhkError::InvalidFormat("bad file table index"));
            }
            let idx = (re.file_table_index - 1) as usize;
            if idx >= files.len() {
                proof {
                    assert(!resource_entry_ok(data, t, j as int));
                    assert(!type_entry_ok(data, t));
                    assert(!container_ok(data));
                }
                return Err(MhkError::InvalidFormat("bad file table index"));
            }
            let fi = files[idx];
            if fi.offset > clen || fi.size > clen - fi.offset {
                proof {
                    assert(files@[idx as int] == file_entry_at(data, idx as int));
                    assert(!resource_entry_ok(data, t, j as int));
                    assert(!type_entry_ok(data, t));
                    assert(!container_ok(data));
                }
                return Err(MhkError::InvalidFormat("bad file table index"));
            }
            let info = ResourceInfo { ty: te.resource_type, id: re.resource_id, file_table_index: idx };
            proof {
                assert(info == (ResourceInfo {
                    ty: type_tag_at(data, t),
                    id: res_id_at(data, t, j as int),
                    file_table_index: (res_index_at(data, t, j as int) - 1) as usize,
                }));
                assert(resource_entry_ok(data, t, j as int));
            }
            entries.push(info);
            j = j + 1;
        }
        let g = TypeGroup { tag: te.resource_type, entries };
        proof {
            assert(type_entry_ok(data, t));
            assert(group_matches(data, g, t));
        }
        Ok(g)
    }
}

} // verus!
