use mosaic::browser::{dir_path, fit_text, Command, Line, State};
use mosaic::entries::{collect_entries, path_le, FsEntry};
use mosaic::keys::{KeyCode, KeyEvent, KeyModifiers};
use mosaic::memory::Cursor;

fn key(code: KeyCode) -> KeyEvent {
    KeyEvent { code, modifiers: KeyModifiers { bits: 0 } }
}

fn dir(name: &str, children: usize) -> FsEntry {
    FsEntry::Directory(name.as_bytes().to_vec(), children)
}

fn file(name: &str, size: u64) -> FsEntry {
    FsEntry::File(name.as_bytes().to_vec(), size)
}

fn listed(entries: Vec<FsEntry>) -> State {
    let mut s = State::new();
    s.refresh(entries.into_iter().map(Some).collect());
    s
}

#[test]
fn entries_sort_by_path_only() {
    let sorted = collect_entries(vec![Some(file("b.txt", 10)), Some(dir("a", 2))]);
    assert_eq!(sorted, vec![dir("a", 2), file("b.txt", 10)]);
}

#[test]
fn unreadable_entries_are_dropped() {
    let sorted = collect_entries(vec![Some(file("z", 1)), None, Some(file("m", 2)), None]);
    assert_eq!(sorted, vec![file("m", 2), file("z", 1)]);
}

#[test]
fn path_order_is_lexicographic() {
    assert!(path_le(&b"a".to_vec(), &b"a.b".to_vec()));
    assert!(!path_le(&b"b".to_vec(), &b"a.b".to_vec()));
    assert!(path_le(&b"".to_vec(), &b"".to_vec()));
    assert!(!path_le(&b"ab".to_vec(), &b"a".to_vec()));
}

#[test]
fn up_and_down_stay_in_range() {
    let mut s = listed(vec![file("a", 1), file("b", 1), file("c", 1)]);
    assert_eq!(s.handle_key(key(KeyCode::Up)), Command::Stay);
    assert_eq!(s.cursor.selected, 0);
    for _ in 0..5 {
        s.handle_key(key(KeyCode::Down));
    }
    assert_eq!(s.cursor.selected, 2);
    s.handle_key(key(KeyCode::Up));
    assert_eq!(s.cursor.selected, 1);
}

#[test]
fn empty_directory_is_safe() {
    let mut s = listed(vec![]);
    assert_eq!(s.handle_key(key(KeyCode::Down)), Command::Stay);
    assert_eq!(s.handle_key(key(KeyCode::Enter)), Command::Stay);
    assert_eq!(s.cursor.selected, 0);
    let lines = s.draw(4, 10);
    assert_eq!(lines.len(), 3);
    assert!(lines.iter().all(|l| l.is_none()));
}

#[test]
fn draw_scrolls_to_keep_selection_shown() {
    let names = ["a", "b", "c", "d", "e", "f"];
    let mut s = listed(names.iter().map(|n| file(n, 0)).collect());
    for _ in 0..4 {
        s.handle_key(key(KeyCode::Down));
    }
    let lines = s.draw(4, 3);
    assert_eq!(s.cursor, Cursor { selected: 4, scroll: 2 });
    assert_eq!(
        lines,
        vec![
            Some(Line { text: b"c  ".to_vec(), directory: false, selected: false }),
            Some(Line { text: b"d  ".to_vec(), directory: false, selected: false }),
            Some(Line { text: b"e  ".to_vec(), directory: false, selected: true }),
        ]
    );
    for _ in 0..4 {
        s.handle_key(key(KeyCode::Up));
    }
    s.draw(4, 3);
    assert_eq!(s.cursor, Cursor { selected: 0, scroll: 0 });
}

#[test]
fn draw_on_tiny_screens() {
    let mut s = listed(vec![file("a", 0), file("b", 0)]);
    s.handle_key(key(KeyCode::Down));
    assert!(s.draw(1, 5).is_empty());
    assert!(s.draw(0, 5).is_empty());
    let lines = s.draw(2, 2);
    assert_eq!(s.cursor, Cursor { selected: 1, scroll: 1 });
    assert_eq!(lines, vec![Some(Line { text: b"b ".to_vec(), directory: false, selected: true })]);
}

#[test]
fn lines_are_cut_and_padded() {
    assert_eq!(fit_text(&b"abcdef".to_vec(), 3), b"abc".to_vec());
    assert_eq!(fit_text(&b"ab".to_vec(), 4), b"ab  ".to_vec());
    assert_eq!(fit_text(&b"ab".to_vec(), 0), Vec::<u8>::new());
}

#[test]
fn enter_then_leave_restores_view() {
    let parent = || vec![file("a", 1), dir("b", 1), dir("c", 0), file("d", 3)];
    let mut s = listed(parent());
    s.handle_key(key(KeyCode::Down));
    s.handle_key(key(KeyCode::Down));
    s.draw(3, 4);
    let before = s.cursor;
    assert_eq!(before, Cursor { selected: 2, scroll: 1 });
    assert_eq!(s.handle_key(key(KeyCode::Right)), Command::Refresh);
    assert_eq!(s.current_dir(), b"./c".to_vec());
    s.refresh(vec![Some(file("x", 1)), Some(file("y", 1))]);
    assert_eq!(s.cursor, Cursor { selected: 0, scroll: 0 });
    s.handle_key(key(KeyCode::Down));
    assert_eq!(s.handle_key(key(KeyCode::Left)), Command::Refresh);
    assert_eq!(s.current_dir(), b".".to_vec());
    s.refresh(parent().into_iter().map(Some).collect());
    assert_eq!(s.cursor, before);
    assert_eq!(s.handle_key(key(KeyCode::Enter)), Command::Refresh);
    s.refresh(vec![Some(file("x", 1)), Some(file("y", 1))]);
    assert_eq!(s.cursor, Cursor { selected: 1, scroll: 0 });
}

#[test]
fn left_at_root_stays() {
    let mut s = listed(vec![file("a", 1)]);
    assert_eq!(s.handle_key(key(KeyCode::Left)), Command::Stay);
    assert_eq!(s.current_dir(), b".".to_vec());
}

#[test]
fn remembered_selection_is_clamped_to_a_shorter_listing() {
    let mut s = listed(vec![dir("a", 0), file("b", 1), file("c", 1)]);
    s.handle_key(key(KeyCode::Enter));
    s.handle_key(key(KeyCode::Left));
    s.refresh(vec![Some(dir("a", 0))]);
    assert_eq!(s.cursor.selected, 0);
    let mut t = listed(vec![file("a", 0), file("b", 1), dir("c", 1)]);
    t.handle_key(key(KeyCode::Down));
    t.handle_key(key(KeyCode::Down));
    t.handle_key(key(KeyCode::Enter));
    t.handle_key(key(KeyCode::Left));
    t.refresh(vec![Some(dir("c", 1))]);
    assert_eq!(t.cursor.selected, 0);
}

#[test]
fn enter_on_file_asks_to_open_it() {
    let mut s = listed(vec![dir("docs", 1)]);
    s.handle_key(key(KeyCode::Right));
    s.refresh(vec![Some(file("notes.txt", 12))]);
    assert_eq!(s.handle_key(key(KeyCode::Enter)), Command::OpenFile(b"./docs/notes.txt".to_vec()));
    assert_eq!(s.current_dir(), b"./docs".to_vec());
}

#[test]
fn other_keys_change_nothing() {
    let mut s = listed(vec![file("a", 1), file("b", 1)]);
    s.handle_key(key(KeyCode::Down));
    assert_eq!(s.handle_key(key(KeyCode::Char('x'))), Command::Stay);
    assert_eq!(s.handle_key(key(KeyCode::F(2))), Command::Stay);
    assert_eq!(s.cursor.selected, 1);
}

#[test]
fn directory_paths_join_segments() {
    assert_eq!(dir_path(&vec![]), b".".to_vec());
    assert_eq!(dir_path(&vec![b"a".to_vec(), b"bc".to_vec()]), b"./a/bc".to_vec());
}
