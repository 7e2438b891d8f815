use vstd::prelude::*;
use crate::bytes::{bytes_equal, copy_bytes};

verus! {

/// Where a directory's view stands: the selected entry and the first entry shown.
#[derive(Clone, Copy, Debug, PartialEq, Eq, Structural)]
pub struct Cursor {
    pub selected: usize,
    pub scroll: usize,
}

/// A directory, as the names of its segments below the root, with the view it was left in.
pub struct Remembered {
    pub dir: Vec<Vec<u8>>,
    pub cursor: Cursor,
}

/// A directory's segments as byte strings.
pub open spec fn dirs(p: Seq<Vec<u8>>) -> Seq<Seq<u8>> {
    Seq::new(p.len(), |i: int| p[i]@)
}

/// The view remembered for directory `d`: the latest record of it, if any.
pub open spec fn recall(mem: Seq<Remembered>, d: Seq<Seq<u8>>) -> Option<Cursor>
    decreases mem.len(),
{
    if mem.len() == 0 {
        None
    } else if dirs(mem.last().dir@) == d {
        Some(mem.last().cursor)
    } else {
        recall(mem.drop_last(), d)
    }
}

proof fn lemma_recall_update(mem: Seq<Remembered>, i: int, x: Remembered, d: Seq<Seq<u8>>)
    requires
        0 <= i < mem.len(),
        dirs(mem[i].dir@) == dirs(x.dir@),
        forall|j: int| i < j < mem.len() ==> dirs((#[trigger] mem[j]).dir@) != dirs(x.dir@),
    ensures
        recall(mem.update(i, x), d) == if d == dirs(x.dir@) {
            Some(x.cursor)
        } else {
            recall(mem, d)
        },
    decreases mem.len(),
{
    let upd = mem.update(i, x);
    if i == mem.len() - 1 {
        assert(upd.drop_last() =~= mem.drop_last());
    } else {
        assert(upd.drop_last() =~= mem.drop_last().update(i, x));
        lemma_recall_update(mem.drop_last(), i, x, d);
    }
}

proof fn lemma_recall_push(mem: Seq<Remembered>, x: Remembered, d: Seq<Seq<u8>>)
    ensures
        recall(mem.push(x), d) == if d == dirs(x.dir@) {
            Some(x.cursor)
        } else {
            recall(mem, d)
        },
{
    assert(mem.push(x).drop_last() =~= mem);
}

/// Whether two directories are the same.
pub fn dirs_equal(a: &Vec<Vec<u8>>, b: &Vec<Vec<u8>>) -> (r: bool)
    ensures
        r == (dirs(a@) == dirs(b@)),
{
    if a.len() != b.len() {
        assert(dirs(a@).len() != dirs(b@).len());
        return false;
    }
    let mut i: usize = 0;
    while i < a.len()
        invariant
            a@.len() == b@.len(),
            i <= a@.len(),
            forall|j: int| 0 <= j < i ==> a@[j]@ == b@[j]@,
        decreases a@.len() - i,
    {
        if !bytes_equal(&a[i], &b[i]) {
            assert(dirs(a@)[i as int] != dirs(b@)[i as int]);
            return false;
        }
        i = i + 1;
    }
    assert(dirs(a@) =~= dirs(b@));
    true
}

/// A fresh copy of a directory.
pub fn copy_dir(v: &Vec<Vec<u8>>) -> (r: Vec<Vec<u8>>)
    ensures
        dirs(r@) == dirs(v@),
{
    let mut r: Vec<Vec<u8>> = Vec::new();
    let mut i: usize = 0;
    while i < v.len()
        invariant
            i <= v@.len(),
            r@.len() == i,
            forall|k: int| 0 <= k < i ==> (#[trigger] r@[k])@ == v@[k]@,
        decreases v@.len() - i,
    {
        let seg = copy_bytes(&v[i]);
        r.push(seg);
        i = i + 1;
    }
    assert(dirs(r@) =~= dirs(v@));
    r
}

/// Records `c` as the view of `dir`; what is remembered of other directories stays.
pub fn remember(mem: &mut Vec<Remembered>, dir: &Vec<Vec<u8>>, c: Cursor)
    ensures
        forall|d: Seq<Seq<u8>>|
            #[trigger] recall(final(mem)@, d) == if d == dirs(dir@) {
                Some(c)
            } else {
                recall(old(mem)@, d)
            },
{
    let ghost old_mem = mem@;
    let mut i: usize = mem.len();
    let mut found = false;
    while i > 0 && !found
        invariant
            mem@ == old_mem,
            i <= mem@.len(),
            found ==> i < mem@.len() && dirs(mem@[i as int].dir@) == dirs(dir@),
            forall|j: int| i < j < mem@.len() ==> dirs((#[trigger] mem@[j]).dir@) != dirs(dir@),
            !found ==> forall|j: int|
                i <= j < mem@.len() ==> dirs((#[trigger] mem@[j]).dir@) != dirs(dir@),
        decreases i + (if found { 0int } else { 1int }),
    {
        if dirs_equal(&mem[i - 1].dir, dir) {
            found = true;
        }
        i = i - 1;
    }
    let x = Remembered { dir: copy_dir(dir), cursor: c };
    if found {
        proof {
            assert forall|d: Seq<Seq<u8>>| #[trigger] recall(old_mem.update(i as int, x), d) == if d
                == dirs(dir@) {
                Some(c)
            } else {
                recall(old_mem, d)
            } by {
                lemma_recall_update(old_mem, i as int, x, d);
            }
        }
        mem.set(i, x);
    } else {
        proof {
            assert forall|d: Seq<Seq<u8>>| #[trigger] recall(old_mem.push(x), d) == if d == dirs(
                dir@,
            ) {
                Some(c)
            } else {
                recall(old_mem, d)
            } by {
                lemma_recall_push(old_mem, x, d);
            }
        }
        mem.push(x);
    }
}

/// The view remembered for `dir`, if any.
pub fn lookup(mem: &Vec<Remembered>, dir: &Vec<Vec<u8>>) -> (r: Option<Cursor>)
    ensures
        r == recall(mem@, dirs(dir@)),
{
    let mut i: usize = mem.len();
    assert(mem@.subrange(0, mem@.len() as int) =~= mem@);
    while i > 0
        invariant
            i <= mem@.len(),
            recall(mem@, dirs(dir@)) == recall(mem@.subrange(0, i as int), dirs(dir@)),
        decreases i,
    {
        let ghost prefix = mem@.subrange(0, i as int);
        assert(prefix.drop_last() =~= mem@.subrange(0, i - 1));
        if dirs_equal(&mem[i - 1].dir, dir) {
            return Some(mem[i - 1].cursor);
        }
        i = i - 1;
    }
    assert(mem@.subrange(0, 0) =~= Seq::<Remembered>::empty());
    None
}

} // verus!
