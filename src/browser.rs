use vstd::prelude::*;
use crate::bytes::{append_bytes, copy_bytes};
use crate::entries::{collect_entries, entry_path, readable, sorted_by_path, FsEntry};
use crate::keys::{KeyCode, KeyEvent};
use crate::memory::{copy_dir, dirs, lookup, recall, remember, Cursor, Remembered};

verus! {

/// What the guest-side runtime is to do after a key was handled.
#[derive(Debug, PartialEq, Eq)]
pub enum Command {
    /// Nothing: the next draw shows the change.
    Stay,
    /// The current directory changed: list it and hand the listing to `refresh`.
    Refresh,
    /// Ask the host to open the file at this path.
    OpenFile(Vec<u8>),
}

/// One display line showing an entry.
#[derive(Debug, PartialEq, Eq)]
pub struct Line {
    /// The entry's path, cut or padded with spaces to the width of the screen.
    pub text: Vec<u8>,
    pub directory: bool,
    pub selected: bool,
}

/// The file browser: the current directory, its entries, the view of it, and
/// the views of directories visited before.
pub struct State {
    /// Segments of the current directory below the root.
    pub path: Vec<Vec<u8>>,
    pub files: Vec<FsEntry>,
    pub cursor: Cursor,
    pub memory: Vec<Remembered>,
}

/// The selection is on an entry, or on 0 where there is none.
pub open spec fn in_range(c: Cursor, n: nat) -> bool {
    if n == 0 {
        c.selected == 0
    } else {
        c.selected < n
    }
}

/// The view a directory of `n` entries opens with, given what was remembered of it.
pub open spec fn restored(c: Option<Cursor>, n: nat) -> Cursor {
    match c {
        None => Cursor { selected: 0, scroll: 0 },
        Some(c) => Cursor {
            selected: if n == 0 {
                0
            } else if c.selected >= n {
                (n - 1) as usize
            } else {
                c.selected
            },
            scroll: c.scroll,
        },
    }
}

/// A directory's path for the file system: `.` and then `/segment` for each segment.
pub open spec fn joined(ds: Seq<Seq<u8>>) -> Seq<u8>
    decreases ds.len(),
{
    if ds.len() == 0 {
        seq![46u8]
    } else {
        joined(ds.drop_last()).push(47u8) + ds.last()
    }
}

/// The scroll offset after a draw on `rows` rows: moved by the least amount
/// that brings the selection into the `rows - 1` lines shown.
pub open spec fn scrolled(c: Cursor, rows: nat) -> usize {
    if rows < 2 {
        c.scroll
    } else if c.selected < c.scroll {
        c.selected
    } else if c.selected - c.scroll + 2 > rows {
        (c.selected + 2 - rows) as usize
    } else {
        c.scroll
    }
}

/// `p` cut or padded with spaces to exactly `cols` bytes.
pub open spec fn fit(p: Seq<u8>, cols: nat) -> Seq<u8> {
    Seq::new(cols, |i: int| if i < p.len() { p[i] } else { 32u8 })
}

/// `t` is `s` moved to directory `to`, with the view of the directory left
/// remembered and the new directory not yet listed.
pub open spec fn navigated(s: State, t: State, to: Seq<Seq<u8>>) -> bool {
    &&& dirs(t.path@) == to
    &&& t.files@.len() == 0
    &&& t.cursor == Cursor { selected: 0, scroll: 0 }
    &&& forall|d: Seq<Seq<u8>>|
        #[trigger] recall(t.memory@, d) == if d == dirs(s.path@) {
            Some(s.cursor)
        } else {
            recall(s.memory@, d)
        }
}

/// `t` is `s` after the current directory was listed as `listing`.
pub open spec fn refreshed(s: State, listing: Seq<Option<FsEntry>>, t: State) -> bool {
    &&& t.path == s.path
    &&& t.memory == s.memory
    &&& sorted_by_path(t.files@)
    &&& t.files@.to_multiset() == readable(listing).to_multiset()
    &&& t.files@.len() == readable(listing).len()
    &&& t.cursor == restored(recall(s.memory@, dirs(s.path@)), t.files@.len())
}

/// `t` and `c` are what handling key `k` in state `s` gives.
pub open spec fn key_effect(s: State, k: KeyEvent, t: State, c: Command) -> bool {
    let n = s.files@.len();
    let sel = s.cursor.selected;
    match k.code {
        KeyCode::Up => c is Stay && t == State {
            cursor: Cursor { selected: if sel == 0 { 0 } else { (sel - 1) as usize }, ..s.cursor },
            ..s
        },
        KeyCode::Down => c is Stay && t == State {
            cursor: Cursor {
                selected: if n == 0 || sel + 1 >= n { sel } else { (sel + 1) as usize },
                ..s.cursor
            },
            ..s
        },
        KeyCode::Right | KeyCode::Enter => if n == 0 {
            c is Stay && t == s
        } else {
            match s.files@[sel as int] {
                FsEntry::Directory(p, _) => c is Refresh && navigated(s, t, dirs(s.path@).push(p@)),
                FsEntry::File(p, _) => t == s && (c matches Command::OpenFile(q) && q@ == joined(
                    dirs(s.path@).push(p@),
                )),
            }
        },
        KeyCode::Left => if s.path@.len() == 0 {
            c is Stay && t == s
        } else {
            c is Refresh && navigated(s, t, dirs(s.path@).drop_last())
        },
        _ => c is Stay && t == s,
    }
}

/// `p` cut or padded with spaces to `cols` bytes.
pub fn fit_text(p: &Vec<u8>, cols: usize) -> (r: Vec<u8>)
    ensures
        r@ == fit(p@, cols as nat),
{
    let mut r: Vec<u8> = Vec::new();
    let mut i: usize = 0;
    while i < cols
        invariant
            i <= cols,
            r@ =~= fit(p@, i as nat),
        decreases cols - i,
    {
        if i < p.len() {
            r.push(p[i]);
        } else {
            r.push(32u8);
        }
        i = i + 1;
    }
    r
}

/// The file-system path of directory `path`.
pub fn dir_path(path: &Vec<Vec<u8>>) -> (r: Vec<u8>)
    ensures
        r@ == joined(dirs(path@)),
{
    let mut r: Vec<u8> = Vec::new();
    r.push(46u8);
    let mut i: usize = 0;
    assert(dirs(path@).subrange(0, 0).len() == 0);
    assert(r@ =~= seq![46u8]);
    while i < path.len()
        invariant
            i <= path@.len(),
            r@ == joined(dirs(path@).subrange(0, i as int)),
        decreases path@.len() - i,
    {
        let ghost d = dirs(path@).subrange(0, i + 1);
        assert(d.drop_last() =~= dirs(path@).subrange(0, i as int));
        assert(d.last() == path@[i as int]@);
        r.push(47u8);
        append_bytes(&mut r, &path[i]);
        i = i + 1;
    }
    assert(dirs(path@).subrange(0, i as int) =~= dirs(path@));
    r
}

impl State {
    /// The browser's invariant: entries in path order, the selection on one of them.
    pub open spec fn wf(&self) -> bool {
        &&& sorted_by_path(self.files@)
        &&& in_range(self.cursor, self.files@.len())
    }

    /// A browser at the root, before its first listing.
    pub fn new() -> (r: State)
        ensures
            r.wf(),
            r.path@.len() == 0,
            r.files@.len() == 0,
            r.memory@.len() == 0,
            r.cursor == (Cursor { selected: 0, scroll: 0 }),
    {
        State { path: Vec::new(), files: Vec::new(), cursor: Cursor { selected: 0, scroll: 0 }, memory: Vec::new() }
    }

    /// The file-system path of the current directory.
    pub fn current_dir(&self) -> (r: Vec<u8>)
        ensures
            r@ == joined(dirs(self.path@)),
    {
        dir_path(&self.path)
    }

    /// Takes the listing of the current directory: the entries that could be
    /// read (a `None` stands for one whose metadata could not), sorted by path,
    /// and the view this directory was left in, if it was visited before.
    pub fn refresh(&mut self, listing: Vec<Option<FsEntry>>)
        ensures
            refreshed(*old(self), listing@, *final(self)),
            final(self).wf(),
    {
        let ghost l = listing@;
        let files = collect_entries(listing);
        proof {
            vstd::seq_lib::to_multiset_len(files@);
            vstd::seq_lib::to_multiset_len(readable(l));
        }
        let n = files.len();
        let c = match lookup(&self.memory, &self.path) {
            None => Cursor { selected: 0, scroll: 0 },
            Some(c) => Cursor {
                selected: if n == 0 {
                    0
                } else if c.selected >= n {
                    n - 1
                } else {
                    c.selected
                },
                scroll: c.scroll,
            },
        };
        self.files = files;
        self.cursor = c;
    }

    /// Leaves the current directory for `to`, remembering the view of the one left.
    fn go(&mut self, to: Vec<Vec<u8>>)
        ensures
            navigated(*old(self), *final(self), dirs(to@)),
            final(self).wf(),
    {
        remember(&mut self.memory, &self.path, self.cursor);
        self.path = to;
        self.files = Vec::new();
        self.cursor = Cursor { selected: 0, scroll: 0 };
    }

    /// Handles one key: Up and Down move the selection one entry within the
    /// listing, Right or Enter enters the selected directory or asks to open
    /// the selected file, Left goes up one directory (not above the root).
    pub fn handle_key(&mut self, key: KeyEvent) -> (r: Command)
        requires
            old(self).wf(),
        ensures
            key_effect(*old(self), key, *final(self), r),
            final(self).wf(),
    {
        let n = self.files.len();
        let sel = self.cursor.selected;
        match key.code {
            KeyCode::Up => {
                self.cursor.selected = if sel == 0 { 0 } else { sel - 1 };
                Command::Stay
            },
            KeyCode::Down => {
                if n > 0 && sel + 1 < n {
                    self.cursor.selected = sel + 1;
                }
                Command::Stay
            },
            KeyCode::Right | KeyCode::Enter => {
                if n == 0 {
                    return Command::Stay;
                }
                match &self.files[sel] {
                    FsEntry::Directory(p, _) => {
                        let name = copy_bytes(p);
                        let mut to = copy_dir(&self.path);
                        let ghost before = to@;
                        to.push(name);
                        assert(dirs(to@) =~= dirs(self.path@).push(name@)) by {
                            assert(forall|i: int| 0 <= i < before.len() ==> to@[i] == before[i]);
                            assert(forall|i: int| 0 <= i < before.len() ==> dirs(before)[i] == before[i]@);
                        }
                        self.go(to);
                        Command::Refresh
                    },
                    FsEntry::File(p, _) => {
                        let mut q = dir_path(&self.path);
                        q.push(47u8);
                        append_bytes(&mut q, p);
                        assert(dirs(self.path@).push(p@).drop_last() =~= dirs(self.path@));
                        Command::OpenFile(q)
                    },
                }
            },
            KeyCode::Left => {
                if self.path.len() == 0 {
                    return Command::Stay;
                }
                let mut to = copy_dir(&self.path);
                let ghost before = to@;
                to.pop();
                assert(dirs(to@) =~= dirs(self.path@).drop_last()) by {
                    assert(forall|i: int| 0 <= i < to@.len() ==> to@[i] == before[i]);
                    assert(forall|i: int| 0 <= i < before.len() ==> dirs(before)[i] == before[i]@);
                }
                self.go(to);
                Command::Refresh
            },
            _ => Command::Stay,
        }
    }

    /// Lays out one frame of `rows` rows and `cols` columns: `rows - 1` lines,
    /// the entries from the scroll offset on and blank lines below them. The
    /// offset first moves by the least amount that keeps the selection shown.
    pub fn draw(&mut self, rows: usize, cols: usize) -> (r: Vec<Option<Line>>)
        requires
            old(self).wf(),
        ensures
            final(self).wf(),
            *final(self) == (State {
                cursor: Cursor { scroll: scrolled(old(self).cursor, rows as nat), ..old(self).cursor },
                ..*old(self)
            }),
            rows < 2 ==> r@.len() == 0,
            rows >= 2 ==> {
                let c = final(self).cursor;
                &&& c.scroll <= c.selected <= c.scroll + rows - 2
                &&& r@.len() == rows - 1
                &&& forall|i: int|
                    0 <= i < r@.len() ==> {
                        let at = c.scroll + i;
                        &&& ((#[trigger] r@[i]) is Some <==> at < final(self).files@.len())
                        &&& r@[i] matches Some(l) ==> {
                            &&& l.text@ == fit(entry_path(final(self).files@[at]), cols as nat)
                            &&& l.directory == (final(self).files@[at] is Directory)
                            &&& l.selected == (at == c.selected)
                        }
                    }
            },
    {
        let mut lines: Vec<Option<Line>> = Vec::new();
        if rows < 2 {
            return lines;
        }
        let sel = self.cursor.selected;
        if sel < self.cursor.scroll {
            self.cursor.scroll = sel;
        } else if sel - self.cursor.scroll >= rows - 1 {
            self.cursor.scroll = sel - (rows - 2);
        }
        let scroll = self.cursor.scroll;
        let n = self.files.len();
        let mut i: usize = 0;
        while i < rows - 1
            invariant
                self.wf(),
                rows >= 2,
                scroll == self.cursor.scroll,
                sel == self.cursor.selected,
                scroll <= sel <= n,
                n == self.files@.len(),
                i <= rows - 1,
                lines@.len() == i,
                forall|k: int|
                    0 <= k < i ==> {
                        let at = scroll + k;
                        &&& ((#[trigger] lines@[k]) is Some <==> at < n)
                        &&& lines@[k] matches Some(l) ==> {
                            &&& l.text@ == fit(entry_path(self.files@[at]), cols as nat)
                            &&& l.directory == (self.files@[at] is Directory)
                            &&& l.selected == (at == sel)
                        }
                    },
            decreases rows - 1 - i,
        {
            if i < n - scroll {
                let at = scroll + i;
                let e = &self.files[at];
                let line = Line { text: fit_text(e.path(), cols), directory: e.is_directory(), selected: at == sel };
                lines.push(Some(line));
            } else {
                lines.push(None);
            }
            i = i + 1;
        }
        lines
    }

}

/// Entering a directory and leaving it again brings back the exact view of
/// the directory left, provided it lists as many readable entries as before.
pub proof fn lemma_enter_then_leave_restores(
    s0: State,
    right: KeyEvent,
    s1: State,
    c1: Command,
    inner: Seq<Option<FsEntry>>,
    s2: State,
    left: KeyEvent,
    s3: State,
    c3: Command,
    outer: Seq<Option<FsEntry>>,
    s4: State,
)
    requires
        s0.wf(),
        s0.files@.len() > 0,
        s0.files@[s0.cursor.selected as int] is Directory,
        right.code == KeyCode::Right || right.code == KeyCode::Enter,
        key_effect(s0, right, s1, c1),
        refreshed(s1, inner, s2),
        left.code == KeyCode::Left,
        key_effect(s2, left, s3, c3),
        refreshed(s3, outer, s4),
        readable(outer).len() == s0.files@.len(),
    ensures
        dirs(s4.path@) == dirs(s0.path@),
        s4.cursor == s0.cursor,
{
    let p = match s0.files@[s0.cursor.selected as int] {
        FsEntry::Directory(p, _) => p@,
        FsEntry::File(p, _) => p@,
    };
    assert(dirs(s1.path@) == dirs(s0.path@).push(p));
    assert(dirs(s2.path@).len() > 0);
    assert(s2.path@.len() > 0);
    assert(dirs(s0.path@).push(p).drop_last() =~= dirs(s0.path@));
    assert(dirs(s3.path@) == dirs(s0.path@));
    assert(dirs(s0.path@) != dirs(s2.path@));
    assert(recall(s3.memory@, dirs(s0.path@)) == recall(s2.memory@, dirs(s0.path@)));
    assert(recall(s1.memory@, dirs(s0.path@)) == Some(s0.cursor));
}

/// Up and Down keep the selection on an entry of the listing (on 0 where the
/// listing is empty), so no sequence of them can move it out.
pub proof fn lemma_up_down_stay_in_range(s: State, k: KeyEvent, t: State, c: Command)
    requires
        s.wf(),
        k.code == KeyCode::Up || k.code == KeyCode::Down,
        key_effect(s, k, t, c),
    ensures
        t.wf(),
        t.files == s.files,
        in_range(t.cursor, t.files@.len()),
{
}

} // verus!
