use vstd::prelude::*;
use vstd::seq_lib::{to_multiset_build, to_multiset_insert};

verus! {

/// One entry of a directory listing. The path is the entry's name within the
/// listed directory; the count is a directory's children, the size a file's bytes.
#[derive(Debug, PartialEq, Eq)]
pub enum FsEntry {
    Directory(Vec<u8>, usize),
    File(Vec<u8>, u64),
}

pub open spec fn entry_path(e: FsEntry) -> Seq<u8> {
    match e {
        FsEntry::Directory(p, _) => p@,
        FsEntry::File(p, _) => p@,
    }
}

/// Lexicographic order on byte strings (a prefix comes first).
pub open spec fn bytes_le(a: Seq<u8>, b: Seq<u8>) -> bool
    decreases a.len(),
{
    if a.len() == 0 {
        true
    } else if b.len() == 0 {
        false
    } else if a[0] != b[0] {
        a[0] < b[0]
    } else {
        bytes_le(a.drop_first(), b.drop_first())
    }
}

/// Entries in order of their paths, whatever their kinds.
pub open spec fn sorted_by_path(s: Seq<FsEntry>) -> bool {
    forall|i: int, j: int|
        0 <= i < j < s.len() ==> bytes_le(entry_path(#[trigger] s[i]), entry_path(#[trigger] s[j]))
}

/// The entries of a listing whose metadata could be read, in listing order.
pub open spec fn readable(s: Seq<Option<FsEntry>>) -> Seq<FsEntry>
    decreases s.len(),
{
    if s.len() == 0 {
        Seq::empty()
    } else {
        match s.last() {
            Some(e) => readable(s.drop_last()).push(e),
            None => readable(s.drop_last()),
        }
    }
}

pub proof fn lemma_bytes_le_total(a: Seq<u8>, b: Seq<u8>)
    ensures
        bytes_le(a, b) || bytes_le(b, a),
    decreases a.len(),
{
    if a.len() > 0 && b.len() > 0 && a[0] == b[0] {
        lemma_bytes_le_total(a.drop_first(), b.drop_first());
    }
}

pub proof fn lemma_bytes_le_transitive(a: Seq<u8>, b: Seq<u8>, c: Seq<u8>)
    requires
        bytes_le(a, b),
        bytes_le(b, c),
    ensures
        bytes_le(a, c),
    decreases a.len(),
{
    if a.len() > 0 && b.len() > 0 && c.len() > 0 && a[0] == b[0] && b[0] == c[0] {
        lemma_bytes_le_transitive(a.drop_first(), b.drop_first(), c.drop_first());
    }
}

impl FsEntry {
    pub fn path(&self) -> (r: &Vec<u8>)
        ensures
            r@ == entry_path(*self),
    {
        match self {
            FsEntry::Directory(p, _) => p,
            FsEntry::File(p, _) => p,
        }
    }

    pub fn is_directory(&self) -> (r: bool)
        ensures
            r == (*self is Directory),
    {
        match self {
            FsEntry::Directory(..) => true,
            FsEntry::File(..) => false,
        }
    }
}

/// Compares two paths byte by byte.
pub fn path_le(a: &Vec<u8>, b: &Vec<u8>) -> (r: bool)
    ensures
        r == bytes_le(a@, b@),
{
    let mut i: usize = 0;
    assert(a@.subrange(0, a@.len() as int) =~= a@);
    assert(b@.subrange(0, b@.len() as int) =~= b@);
    while i < a.len() && i < b.len() && a[i] == b[i]
        invariant
            i <= a@.len(),
            i <= b@.len(),
            bytes_le(a@, b@) == bytes_le(
                a@.subrange(i as int, a@.len() as int),
                b@.subrange(i as int, b@.len() as int),
            ),
        decreases a@.len() - i,
    {
        assert(a@.subrange(i as int, a@.len() as int).drop_first() =~= a@.subrange(
            i + 1,
            a@.len() as int,
        ));
        assert(b@.subrange(i as int, b@.len() as int).drop_first() =~= b@.subrange(
            i + 1,
            b@.len() as int,
        ));
        i = i + 1;
    }
    if i == a.len() {
        true
    } else if i == b.len() {
        false
    } else {
        a[i] < b[i]
    }
}

/// Puts `e` into the sorted `v`, after every entry whose path is not greater.
fn insert_sorted(v: &mut Vec<FsEntry>, e: FsEntry)
    requires
        sorted_by_path(old(v)@),
    ensures
        sorted_by_path(final(v)@),
        final(v)@.to_multiset() == old(v)@.to_multiset().insert(e),
{
    let ghost s = v@;
    let mut pos: usize = 0;
    while pos < v.len() && path_le(v[pos].path(), e.path())
        invariant
            v@ == s,
            pos <= s.len(),
            forall|j: int| 0 <= j < pos ==> bytes_le(entry_path(#[trigger] s[j]), entry_path(e)),
        decreases s.len() - pos,
    {
        pos = pos + 1;
    }
    proof {
        if pos < s.len() {
            lemma_bytes_le_total(entry_path(s[pos as int]), entry_path(e));
            assert forall|j: int| pos <= j < s.len() implies bytes_le(
                entry_path(e),
                entry_path(#[trigger] s[j]),
            ) by {
                if j > pos {
                    lemma_bytes_le_transitive(
                        entry_path(e),
                        entry_path(s[pos as int]),
                        entry_path(s[j]),
                    );
                }
            }
        }
        to_multiset_insert(s, pos as int, e);
    }
    let ghost ee = e;
    v.insert(pos, e);
    proof {
        let t = v@;
        assert(t == s.insert(pos as int, ee));
        assert forall|i: int, j: int| 0 <= i < j < t.len() implies bytes_le(
            entry_path(#[trigger] t[i]),
            entry_path(#[trigger] t[j]),
        ) by {
            if j < pos {
                assert(t[i] == s[i] && t[j] == s[j]);
            } else if j == pos {
                assert(t[i] == s[i]);
            } else if i < pos {
                assert(t[i] == s[i] && t[j] == s[j - 1]);
                if j - 1 >= pos {
                    lemma_bytes_le_transitive(entry_path(s[i]), entry_path(ee), entry_path(s[j - 1]));
                }
            } else if i == pos {
                assert(t[j] == s[j - 1]);
            } else {
                assert(t[i] == s[i - 1] && t[j] == s[j - 1]);
            }
        }
    }
}

/// The readable entries of a directory listing, sorted by path only.
pub fn collect_entries(listing: Vec<Option<FsEntry>>) -> (r: Vec<FsEntry>)
    ensures
        sorted_by_path(r@),
        r@.to_multiset() == readable(listing@).to_multiset(),
{
    let ghost orig = listing@;
    let mut listing = listing;
    let mut out: Vec<FsEntry> = Vec::new();
    let ghost mut done: int = 0;
    while listing.len() > 0
        invariant
            0 <= done <= orig.len(),
            listing@ == orig.subrange(done, orig.len() as int),
            sorted_by_path(out@),
            out@.to_multiset() == readable(orig.subrange(0, done)).to_multiset(),
        decreases listing@.len(),
    {
        let item = listing.remove(0);
        proof {
            assert(orig.subrange(0, done + 1).drop_last() =~= orig.subrange(0, done));
            assert(orig.subrange(0, done + 1).last() == item);
            done = done + 1;
            assert(listing@ =~= orig.subrange(done, orig.len() as int));
        }
        match item {
            Some(e) => {
                proof {
                    to_multiset_build(readable(orig.subrange(0, done - 1)), e);
                }
                insert_sorted(&mut out, e);
            },
            None => {},
        }
    }
    assert(orig.subrange(0, done) =~= orig);
    out
}

} // verus!
