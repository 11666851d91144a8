//! The per-stack resolver: each stack owns an ordered list of containers,
//! opened and indexed together on first reference; resolution tries the
//! containers in order and the first hit wins.

use vstd::prelude::*;

use crate::error::MhkError;
use crate::filesystem::{Filesystem, ReadAt};
use super::archive::{archive_lookup, FileInfo, MhkArchive, TypeGroup};

verus! {

/// The container and byte range that `(tag, id)` resolves to in an
/// ordered list of containers: the first container whose index holds the
/// pair wins, and later containers are not consulted.
pub open spec fn stack_resolve<H: ReadAt>(
    archs: Seq<MhkArchive<H>>,
    tag: u32,
    id: u16,
) -> Option<(int, FileInfo)>
    decreases archs.len(),
{
    if archs.len() == 0 {
        None
    } else {
        match archive_lookup(archs[0].resources@, archs[0].files@, tag, id) {
            Some(fi) => Some((0int, fi)),
            None => match stack_resolve(archs.subrange(1, archs.len() as int), tag, id) {
                Some((c, fi)) => Some((c + 1, fi)),
                None => None,
            },
        }
    }
}

/// True when one of the first `n` containers carries a resource
/// `(tag, id)`.
pub open spec fn stack_has_upto<H: ReadAt>(
    archs: Seq<MhkArchive<H>>,
    tag: u32,
    id: u16,
    n: int,
) -> bool {
    exists|a: int|
        0 <= a < n && a < archs.len() && arch_has((#[trigger] archs[a]).resources@, tag, id)
}

/// True when some container of the list carries a resource `(tag, id)`.
pub open spec fn stack_has<H: ReadAt>(archs: Seq<MhkArchive<H>>, tag: u32, id: u16) -> bool {
    stack_has_upto(archs, tag, id, archs.len() as int)
}

/// True when one of the first `n` groups carries `tag` with an entry
/// `id`.
pub open spec fn arch_has_upto(resources: Seq<TypeGroup>, tag: u32, id: u16, n: int) -> bool {
    exists|t: int, j: int|
        0 <= t < n && t < resources.len() && resources[t].tag == tag && 0 <= j < resources[
            t
        ].entries@.len() && (#[trigger] resources[t].entries@[j]).id == id
}

/// True when some group of the index carries `tag` with an entry `id`.
pub open spec fn arch_has(resources: Seq<TypeGroup>, tag: u32, id: u16) -> bool {
    arch_has_upto(resources, tag, id, resources.len() as int)
}

/// True when one of the first `m` entries carries `id`.
pub open spec fn entries_has_upto(entries: Seq<super::archive::ResourceInfo>, id: u16, m: int) -> bool {
    exists|j: int| 0 <= j < m && j < entries.len() && (#[trigger] entries[j]).id == id
}

/// Strictly ascending, hence duplicate-free.
pub open spec fn sorted_unique(s: Seq<u16>) -> bool {
    forall|i: int, j: int| 0 <= i < j < s.len() ==> s[i] < s[j]
}

/// Inserts `x` into a strictly sorted vector, keeping it strictly sorted;
/// a present value is left alone.
fn insert_sorted(v: &mut Vec<u16>, x: u16)
    requires
        sorted_unique(old(v)@),
    ensures
        sorted_unique(final(v)@),
        forall|y: u16| final(v)@.contains(y) <==> (old(v)@.contains(y) || y == x),
{
    let mut i: usize = 0;
    while i < v.len() && v[i as usize] < x
        invariant
            i <= v@.len(),
            sorted_unique(v@),
            v@ == old(v)@,
            forall|k: int| 0 <= k < i ==> v@[k] < x,
        decreases v@.len() - i,
    {
        i = i + 1;
    }
    if i < v.len() && v[i] == x {
        proof {
            assert(v@.contains(x));
        }
        return ;
    }
    let ghost before = v@;
    v.insert(i, x);
    proof {
        assert(before == old(v)@);
        assert forall|y: u16| v@.contains(y) == ((old(v)@.contains(y) || y == x)) by {
            if v@.contains(y) {
                let k = choose|k: int| 0 <= k < v@.len() && v@[k] == y;
                if k < i {
                    assert(before[k] == y);
                    assert(before.contains(y));
                } else if k > i {
                    assert(before[k - 1] == y);
                    assert(before.contains(y));
                } else {
                    assert(y == x);
                }
            }
            if y == x {
                assert(v@[i as int] == x);
                assert(v@.contains(y));
            }
            if before.contains(y) {
                let k = choose|k: int| 0 <= k < before.len() && before[k] == y;
                if k < i {
                    assert(v@[k] == y);
                } else {
                    assert(v@[k + 1] == y);
                }
                assert(v@.contains(y));
            }
        }
        assert forall|a: int, b: int| 0 <= a < b < v@.len() implies v@[a] < v@[b] by {
            if a < i && b == i {
                assert(v@[a] == before[a] && before[a] < x);
            } else if a == i && b > i {
                assert(v@[b] == before[b - 1]);
                if i < before.len() {
                    assert(before[i as int] >= x);
                    if before[i as int] == x {
                        assert(before.contains(x));
                    }
                }
            } else if a < i && b > i {
                assert(v@[a] == before[a] && v@[b] == before[b - 1]);
            } else if a < i && b < i {
                assert(v@[a] == before[a] && v@[b] == before[b]);
            } else if a > i && b > i {
                assert(v@[a] == before[a - 1] && v@[b] == before[b - 1]);
            }
        }
    }
}

/// A resolver over one ordered list of containers per stack. Stacks are
/// addressed by ordinal; each stack's containers are opened together,
/// once, the first time the stack is referenced, and retained.
pub struct MhkMap<F: Filesystem> {
    pub filesystem: F,
    pub stackfiles: Vec<Vec<Vec<String>>>,
    pub stacks: Vec<Option<Vec<MhkArchive<F::Handle>>>>,
}

impl<F: Filesystem> MhkMap<F> {
    /// One archive slot per configured stack, and every opened archive
    /// sound.
    pub open spec fn wf(&self) -> bool {
        &&& self.stacks@.len() == self.stackfiles@.len()
        &&& forall|s: int, a: int|
            0 <= s < self.stacks@.len() && self.stacks@[s] is Some && 0 <= a < self.stacks@[
                s
            ].unwrap()@.len() ==> (#[trigger] self.stacks@[s].unwrap()@[a]).wf()
    }

    /// A resolver with the given per-stack container paths; no stack is
    /// opened yet.
    pub fn new(filesystem: F, stackfiles: Vec<Vec<Vec<String>>>) -> (r: MhkMap<F>)
        ensures
            r.wf(),
            r.stackfiles == stackfiles,
            r.stacks@.len() == stackfiles@.len(),
            forall|s: int| 0 <= s < r.stacks@.len() ==> (#[trigger] r.stacks@[s]) is None,
    {
        let mut stacks: Vec<Option<Vec<MhkArchive<F::Handle>>>> = Vec::new();
        let mut i: usize = 0;
        while i < stackfiles.len()
            invariant
                i <= stackfiles@.len(),
                stacks@.len() == i,
                forall|s: int| 0 <= s < i ==> (#[trigger] stacks@[s]) is None,
            decreases stackfiles@.len() - i,
        {
            stacks.push(None);
            i = i + 1;
        }
        MhkMap { filesystem, stackfiles, stacks }
    }

    /// The number of configured stacks.
    pub fn stack_count(&self) -> (r: usize)
        ensures
            r == self.stacks@.len(),
    {
        self.stacks.len()
    }

    /// Opens and indexes every container of `stack`, in configured order,
    /// unless the stack is already open; a stack already open is answered
    /// with `Ok` at once and left exactly as it is, and no other stack is
    /// touched either way. Any container that fails to open or parse
    /// aborts the whole stack, retaining no partially opened stack.
    pub fn ensure_stack(&mut self, stack: usize) -> (r: Result<(), MhkError>)
        requires
            old(self).wf(),
            stack < old(self).stacks@.len(),
        ensures
            final(self).wf(),
            final(self).stackfiles == old(self).stackfiles,
            final(self).stacks@.len() == old(self).stacks@.len(),
            forall|s: int|
                0 <= s < final(self).stacks@.len() && s != stack ==> final(self).stacks@[s] == old(
                    self,
                ).stacks@[s],
            old(self).stacks@[stack as int] is Some ==> final(self).stacks@ == old(self).stacks@
                && r is Ok,
            r is Err ==> final(self).stacks@ == old(self).stacks@,
            old(self).stacks@[stack as int] is None && r is Ok ==> (final(self).stacks@[
                stack as int
            ] matches Some(archs) && archs@.len() == old(self).stackfiles@[stack as int]@.len()),
    {
        if self.stacks[stack].is_some() {
            return Ok(());
        }
        let names = &self.stackfiles[stack];
        let mut archives: Vec<MhkArchive<F::Handle>> = Vec::new();
        let mut n: usize = 0;
        while n < names.len()
            invariant
                n <= names@.len(),
                self.wf(),
                stack < self.stacks@.len(),
                self.stacks@ == old(self).stacks@,
                self.stackfiles@ == old(self).stackfiles@,
                self.stackfiles == old(self).stackfiles,
                old(self).stacks@[stack as int] is None,
                names == &old(self).stackfiles@[stack as int],
                archives@.len() == n,
                forall|a: int| 0 <= a < archives@.len() ==> (#[trigger] archives@[a]).wf(),
            decreases names@.len() - n,
        {
            let handle = match self.filesystem.open(&names[n]) {
                Ok(h) => h,
                Err(e) => {
                    return Err(e);
                },
            };
            let arch = match MhkArchive::new(handle) {
                Ok(a) => a,
                Err(e) => {
                    return Err(e);
                },
            };
            archives.push(arch);
            n = n + 1;
        }
        proof {
            assert(forall|a: int|
                0 <= a < archives@.len() ==> (#[trigger] archives@[a]).wf());
        }
        self.stacks.set(stack, Some(archives));
        proof {
            assert forall|s2: int, a: int|
                0 <= s2 < self.stacks@.len() && self.stacks@[s2] is Some && 0 <= a < self.stacks@[
                    s2
                ].unwrap()@.len() implies (#[trigger] self.stacks@[s2].unwrap()@[a]).wf() by {
                if s2 != stack {
                    assert(self.stacks@[s2] == old(self).stacks@[s2]);
                    assert(old(self).stacks@[s2].unwrap()@[a].wf());
                }
            }
        }
        Ok(())
    }

    /// Resolves `(tag, id)` in `stack` and reads the resource whole: the
    /// stack's containers are consulted in configured order, the first
    /// hit supplies the bytes, and later containers are not consulted.
    /// A failure to open or parse a container propagates unchanged and
    /// aborts resolution for the whole stack; once the stack is open, a
    /// present pair over sources that cannot fail is owed its bytes, and
    /// an absent pair is owed exactly `ResourceNotFound`.
    pub fn read_resource(&mut self, stack: usize, tag: u32, id: u16) -> (r: Result<
        Vec<u8>,
        MhkError,
    >)
        requires
            old(self).wf(),
            stack < old(self).stacks@.len(),
        ensures
            final(self).wf(),
            final(self).stackfiles == old(self).stackfiles,
            final(self).stacks@.len() == old(self).stacks@.len(),
            forall|s: int|
                0 <= s < final(self).stacks@.len() && s != stack ==> final(self).stacks@[s] == old(
                    self,
                ).stacks@[s],
            // an open stack stays open with every container's index and
            // contents intact; only the shared cursor cache may move
            old(self).stacks@[stack as int] is Some ==> (final(self).stacks@[stack as int]
                matches Some(archsf) && archsf@.len() == old(self).stacks@[
                stack as int
            ].unwrap()@.len() && forall|ai: int|
                0 <= ai < archsf@.len() ==> {
                    let pre = old(self).stacks@[stack as int].unwrap()@[ai];
                    &&& (#[trigger] archsf@[ai]).resources@ == pre.resources@
                    &&& archsf@[ai].files@ == pre.files@
                    &&& archsf@[ai].source.inner.contents() == pre.source.inner.contents()
                    &&& archsf@[ai].source.inner.is_total() == pre.source.inner.is_total()
                }),
            // success owed: with the stack open over sources that cannot
            // fail, a present pair is returned
            (old(self).stacks@[stack as int] is Some && (forall|ai: int|
                0 <= ai < old(self).stacks@[stack as int].unwrap()@.len() ==> (#[trigger] old(
                    self,
                ).stacks@[stack as int].unwrap()@[ai]).source.inner.is_total()) && stack_resolve(
                old(self).stacks@[stack as int].unwrap()@,
                tag,
                id,
            ) is Some) ==> r is Ok,
            // a pair absent from every container of an open stack is owed
            // exactly the not-found error, with no read attempted
            (old(self).stacks@[stack as int] is Some && stack_resolve(
                old(self).stacks@[stack as int].unwrap()@,
                tag,
                id,
            ) is None) ==> r == Err::<Vec<u8>, MhkError>(
                MhkError::ResourceNotFound(Some(stack), tag, id),
            ),
            match r {
                Ok(v) => {
                    &&& final(self).stacks@[stack as int] matches Some(archs)
                    &&& stack_resolve(archs@, tag, id) matches Some((c, fi)) && 0 <= c
                        < archs@.len() && v@ == archs@[c].source.inner.contents().subrange(
                        fi.offset as int,
                        fi.offset + fi.size,
                    )
                },
                Err(e) => match e {
                    MhkError::ResourceNotFound(st, etag, eid) => final(self).stacks@[
                        stack as int
                    ] is Some ==> {
                        &&& st == Some(stack)
                        &&& etag == tag
                        &&& eid == id
                        &&& final(self).stacks@[stack as int] matches Some(archs)
                            && stack_resolve(archs@, tag, id) is None
                    },
                    _ => true,
                },
            },
    {
        match self.ensure_stack(stack) {
            Ok(_) => (),
            Err(e) => {
                // a container that fails to open or parse aborts the
                // whole stack; its error propagates unchanged
                return Err(e);
            },
        }
        let ghost archs0 = self.stacks@[stack as int].unwrap()@;
        proof {
            assert(archs0.subrange(0, archs0.len() as int) =~= archs0);
        }
        // resolution pass: find the first container carrying the pair
        let archs_ref = match &self.stacks[stack] {
            Some(v) => v,
            None => {
                proof {
                    assert(false);
                }
                return Err(MhkError::Io);
            },
        };
        let mut a: usize = 0;
        let mut hit: bool = false;
        while !hit && a < archs_ref.len()
            invariant
                self.wf(),
                stack < self.stacks@.len(),
                self.stacks@[stack as int] is Some,
                self.stackfiles == old(self).stackfiles,
                self.stacks@.len() == old(self).stacks@.len(),
                forall|s: int|
                    0 <= s < self.stacks@.len() && s != stack ==> self.stacks@[s] == old(
                        self,
                    ).stacks@[s],
                old(self).stacks@[stack as int] is Some ==> self.stacks@ == old(self).stacks@,
                archs_ref@ == archs0,
                archs0 == self.stacks@[stack as int].unwrap()@,
                a <= archs0.len(),
                !hit ==> stack_resolve(archs0, tag, id) == (match stack_resolve(
                    archs0.subrange(a as int, archs0.len() as int),
                    tag,
                    id,
                ) {
                    Some((c, fi)) => Some((c + a as int, fi)),
                    None => None::<(int, FileInfo)>,
                }),
                hit ==> a < archs0.len() && stack_resolve(archs0, tag, id) == (
                match archive_lookup(archs0[a as int].resources@, archs0[a as int].files@, tag, id) {
                    Some(fi) => Some((a as int, fi)),
                    None => None::<(int, FileInfo)>,
                }) && archive_lookup(
                    archs0[a as int].resources@,
                    archs0[a as int].files@,
                    tag,
                    id,
                ) is Some,
            decreases archs0.len() - a, (if hit { 0int } else { 1int }),
        {
            proof {
                assert(archs0.subrange(a as int, archs0.len() as int)[0] == archs0[a as int]);
                assert(self.stacks@[stack as int].unwrap()@[a as int].wf());
            }
            let arch = &archs_ref[a];
            match arch.open(tag, id) {
                Ok(_) => {
                    hit = true;
                },
                Err(_) => {
                    proof {
                        assert(archs0.subrange(a as int, archs0.len() as int).subrange(
                            1,
                            archs0.len() - a,
                        ) =~= archs0.subrange(a + 1, archs0.len() as int));
                    }
                    a = a + 1;
                },
            }
        }
        if !hit {
            proof {
                assert(archs0.subrange(archs0.len() as int, archs0.len() as int).len() == 0);
            }
            return Err(MhkError::ResourceNotFound(Some(stack), tag, id));
        }
        // read pass: take the winning container out, read, and put it back
        let ghost stacks_before = self.stacks@;
        let archs_opt = self.stacks.remove(stack);
        let mut archs = match archs_opt {
            Some(v) => v,
            None => {
                proof {
                    assert(false);
                }
                return Err(MhkError::Io);
            },
        };
        let mut arch = archs.remove(a);
        proof {
            assert(arch == archs0[a as int]);
            assert(arch.wf());
        }
        let got = arch.read_resource(tag, id);
        proof {
            assert(arch.resources@ == archs0[a as int].resources@);
            assert(arch.files@ == archs0[a as int].files@);
        }
        archs.insert(a, arch);
        proof {
            assert(archs@ =~= archs0.update(a as int, archs@[a as int]));
        }
        self.stacks.insert(stack, Some(archs));
        proof {
            assert(self.stacks@ =~= stacks_before.update(stack as int, Some(archs)));
            let archsf = self.stacks@[stack as int].unwrap()@;
            lemma_stack_resolve_congruent(archs0, archsf, tag, id);
            assert forall|s: int, ai: int|
                0 <= s < self.stacks@.len() && self.stacks@[s] is Some && 0 <= ai < self.stacks@[
                    s
                ].unwrap()@.len() implies (#[trigger] self.stacks@[s].unwrap()@[ai]).wf() by {
                if s == stack {
                    if ai == a {
                    } else {
                        assert(self.stacks@[s].unwrap()@[ai] == archs0[ai]);
                        assert(stacks_before[s].unwrap()@[ai].wf());
                    }
                } else {
                    assert(stacks_before[s].unwrap()@[ai].wf());
                }
            }
        }
        proof {
            // an open stack keeps its indices and contents; only element
            // `a`'s cursor cache moved
            if old(self).stacks@[stack as int] is Some {
                let pre = old(self).stacks@[stack as int].unwrap()@;
                let archsf = self.stacks@[stack as int].unwrap()@;
                assert forall|ai: int| 0 <= ai < archsf.len() implies {
                    &&& (#[trigger] archsf[ai]).resources@ == pre[ai].resources@
                    &&& archsf[ai].files@ == pre[ai].files@
                    &&& archsf[ai].source.inner.contents() == pre[ai].source.inner.contents()
                    &&& archsf[ai].source.inner.is_total() == pre[ai].source.inner.is_total()
                } by {
                    if ai != a {
                        assert(archsf[ai] == archs0[ai]);
                    }
                }
            }
        }
        match got {
            Ok(v) => Ok(v),
            Err(e) => {
                proof {
                    // with total sources a hit cannot fail to read: the
                    // winning container's lookup succeeded, so neither of
                    // the read's error cases is open
                    if old(self).stacks@[stack as int] is Some && (forall|ai: int|
                        0 <= ai < old(self).stacks@[stack as int].unwrap()@.len() ==> (
                        #[trigger] old(self).stacks@[stack as int].unwrap()@[
                            ai
                        ]).source.inner.is_total()) {
                        assert(old(self).stacks@[stack as int].unwrap()@[a as int]
                            == archs0[a as int]);
                        assert(false);
                    }
                }
                Err(match e {
                    MhkError::ResourceNotFound(_, _, _) => MhkError::Io,
                    other => other,
                })
            },
        }
    }

    /// Lists every resource id under `tag` across all of the stack's
    /// containers, deduplicated and in ascending order. Listing does not
    /// apply resolution order: an id present in any container appears.
    /// Once the stack is open, listing reads nothing and cannot fail.
    pub fn list(&mut self, stack: usize, tag: u32) -> (r: Result<Vec<u16>, MhkError>)
        requires
            old(self).wf(),
            stack < old(self).stacks@.len(),
        ensures
            final(self).wf(),
            final(self).stackfiles == old(self).stackfiles,
            final(self).stacks@.len() == old(self).stacks@.len(),
            forall|s: int|
                0 <= s < final(self).stacks@.len() && s != stack ==> final(self).stacks@[s] == old(
                    self,
                ).stacks@[s],
            old(self).stacks@[stack as int] is Some ==> r is Ok && final(self).stacks@ == old(
                self,
            ).stacks@,
            match r {
                Ok(v) => {
                    &&& final(self).stacks@[stack as int] matches Some(archs)
                    &&& sorted_unique(v@)
                    &&& forall|y: u16| v@.contains(y) <==> stack_has(archs@, tag, y)
                },
                Err(_) => true,
            },
    {
        match self.ensure_stack(stack) {
            Ok(_) => (),
            Err(e) => {
                return Err(e);
            },
        }
        let archs = match &self.stacks[stack] {
            Some(v) => v,
            None => {
                proof {
                    assert(false);
                }
                return Err(MhkError::Io);
            },
        };
        let mut ret: Vec<u16> = Vec::new();
        let mut a: usize = 0;
        while a < archs.len()
            invariant
                a <= archs@.len(),
                sorted_unique(ret@),
                forall|y: u16| ret@.contains(y) <==> stack_has_upto(archs@, tag, y, a as int),
            decreases archs@.len() - a,
        {
            let groups = &archs[a].resources;
            let mut t: usize = 0;
            while t < groups.len()
                invariant
                    a < archs@.len(),
                    t <= groups@.len(),
                    groups@ == archs@[a as int].resources@,
                    sorted_unique(ret@),
                    forall|y: u16|
                        ret@.contains(y) <==> (stack_has_upto(archs@, tag, y, a as int)
                            || arch_has_upto(groups@, tag, y, t as int)),
                decreases groups@.len() - t,
            {
                if groups[t].tag == tag {
                    let entries = &groups[t].entries;
                    let mut j: usize = 0;
                    while j < entries.len()
                        invariant
                            a < archs@.len(),
                            t < groups@.len(),
                            j <= entries@.len(),
                            groups@ == archs@[a as int].resources@,
                            entries@ == groups@[t as int].entries@,
                            groups@[t as int].tag == tag,
                            sorted_unique(ret@),
                            forall|y: u16|
                                ret@.contains(y) <==> (stack_has_upto(archs@, tag, y, a as int)
                                    || arch_has_upto(groups@, tag, y, t as int)
                                    || entries_has_upto(entries@, y, j as int)),
                        decreases entries@.len() - j,
                    {
                        let ghost pre = ret@;
                        let x = entries[j].id;
                        insert_sorted(&mut ret, x);
                        proof {
                            assert forall|y: u16|
                                ret@.contains(y) <==> (stack_has_upto(archs@, tag, y, a as int)
                                    || arch_has_upto(groups@, tag, y, t as int)
                                    || entries_has_upto(entries@, y, (j + 1) as int)) by {
                                if ret@.contains(y) {
                                    if pre.contains(y) {
                                    } else {
                                        assert(y == x);
                                        assert(entries@[j as int].id == y);
                                        assert(entries_has_upto(entries@, y, (j + 1) as int));
                                    }
                                } else {
                                }
                                if entries_has_upto(entries@, y, (j + 1) as int) && !(
                                entries_has_upto(entries@, y, j as int)) {
                                    let jj = choose|jj: int|
                                        0 <= jj < j + 1 && jj < entries@.len() && (
                                        #[trigger] entries@[jj]).id == y;
                                    assert(jj == j);
                                    assert(y == x);
                                    assert(ret@.contains(y));
                                }
                            }
                        }
                        j = j + 1;
                    }
                    proof {
                        assert forall|y: u16|
                            (stack_has_upto(archs@, tag, y, a as int) || arch_has_upto(
                                groups@,
                                tag,
                                y,
                                (t + 1) as int,
                            )) implies ret@.contains(y) by {
                            if arch_has_upto(groups@, tag, y, (t + 1) as int) && !arch_has_upto(
                                groups@,
                                tag,
                                y,
                                t as int,
                            ) {
                                let (tt, jj) = choose|tt: int, jj: int|
                                    0 <= tt < t + 1 && tt < groups@.len() && groups@[tt].tag == tag
                                        && 0 <= jj < groups@[tt].entries@.len() && (
                                    #[trigger] groups@[tt].entries@[jj]).id == y;
                                assert(tt == t);
                                assert(entries_has_upto(entries@, y, entries@.len() as int));
                            }
                        }
                        assert forall|y: u16| ret@.contains(y) implies (stack_has_upto(
                            archs@,
                            tag,
                            y,
                            a as int,
                        ) || arch_has_upto(groups@, tag, y, (t + 1) as int)) by {
                            if !stack_has_upto(archs@, tag, y, a as int) {
                                if arch_has_upto(groups@, tag, y, t as int) {
                                } else {
                                    assert(entries_has_upto(entries@, y, entries@.len() as int));
                                    let jj = choose|jj: int|
                                        0 <= jj < entries@.len() && (#[trigger] entries@[jj]).id
                                            == y;
                                    assert(groups@[t as int].entries@[jj].id == y);
                                }
                            }
                        }
                    }
                } else {
                    proof {
                        assert forall|y: u16|
                            arch_has_upto(groups@, tag, y, (t + 1) as int) implies arch_has_upto(
                            groups@,
                            tag,
                            y,
                            t as int,
                        ) by {
                            let (tt, jj) = choose|tt: int, jj: int|
                                0 <= tt < t + 1 && tt < groups@.len() && groups@[tt].tag == tag
                                    && 0 <= jj < groups@[tt].entries@.len() && (
                                #[trigger] groups@[tt].entries@[jj]).id == y;
                            assert(tt != t);
                        }
                    }
                }
                t = t + 1;
            }
            proof {
                assert forall|y: u16|
                    (stack_has_upto(archs@, tag, y, (a + 1) as int)) implies ret@.contains(y) by {
                    if !stack_has_upto(archs@, tag, y, a as int) {
                        let aa = choose|aa: int|
                            0 <= aa < a + 1 && aa < archs@.len() && arch_has(
                                (#[trigger] archs@[aa]).resources@,
                                tag,
                                y,
                            );
                        assert(aa == a);
                        assert(arch_has_upto(groups@, tag, y, groups@.len() as int));
                    }
                }
                assert forall|y: u16| ret@.contains(y) implies stack_has_upto(
                    archs@,
                    tag,
                    y,
                    (a + 1) as int,
                ) by {
                    if !stack_has_upto(archs@, tag, y, a as int) {
                        assert(arch_has_upto(groups@, tag, y, groups@.len() as int));
                        assert(arch_has(archs@[a as int].resources@, tag, y));
                    }
                }
            }
            a = a + 1;
        }
        Ok(ret)
    }
}


/// Failover resolution: when the first container lacks the pair and the
/// second carries it, resolution lands on the second container and its
/// byte range, and containers after the first hit play no part.
pub proof fn lemma_stack_failover<H: ReadAt>(
    archs: Seq<MhkArchive<H>>,
    tag: u32,
    id: u16,
    fi: FileInfo,
)
    requires
        archs.len() >= 2,
        archive_lookup(archs[0].resources@, archs[0].files@, tag, id) is None,
        archive_lookup(archs[1].resources@, archs[1].files@, tag, id) == Some(fi),
    ensures
        stack_resolve(archs, tag, id) == Some((1int, fi)),
{
    let t1 = archs.subrange(1, archs.len() as int);
    assert(t1[0] == archs[1]);
    assert(stack_resolve(t1, tag, id) == Some((0int, fi)));
}

/// First-hit resolution depends only on each container's parsed index,
/// never on its stream position: two lists of containers with pointwise
/// equal indices resolve every request alike.
pub proof fn lemma_stack_resolve_congruent<H: ReadAt>(
    a: Seq<MhkArchive<H>>,
    b: Seq<MhkArchive<H>>,
    tag: u32,
    id: u16,
)
    requires
        a.len() == b.len(),
        forall|i: int|
            0 <= i < a.len() ==> (#[trigger] a[i]).resources@ == b[i].resources@ && a[i].files@
                == b[i].files@,
    ensures
        stack_resolve(a, tag, id) == stack_resolve(b, tag, id),
    decreases a.len(),
{
    if a.len() > 0 {
        assert(a[0].resources@ == b[0].resources@ && a[0].files@ == b[0].files@);
        let ta = a.subrange(1, a.len() as int);
        let tb = b.subrange(1, b.len() as int);
        assert forall|i: int|
            0 <= i < ta.len() implies (#[trigger] ta[i]).resources@ == tb[i].resources@
            && ta[i].files@ == tb[i].files@ by {
            assert(ta[i] == a[i + 1] && tb[i] == b[i + 1]);
            assert(a[i + 1].resources@ == b[i + 1].resources@ && a[i + 1].files@ == b[i
                + 1].files@);
        }
        lemma_stack_resolve_congruent(ta, tb, tag, id);
    }
}

} // verus!
