use mosaic::channel::{ChannelError, ChannelKind, Pipe};

#[test]
fn new_pipe_is_empty_fifo() {
    let p = Pipe::new();
    assert_eq!(p.size(), 0);
    assert_eq!(p.bytes_available(), 0);
    assert_eq!(p.kind, ChannelKind::Fifo);
}

#[test]
fn write_then_clear_leaves_nothing() {
    let mut p = Pipe::new();
    assert_eq!(p.write(b"hello"), 5);
    assert_eq!(p.size(), 5);
    p.clear();
    assert_eq!(p.size(), 0);
    assert!(p.buffer.is_empty());
}

#[test]
fn writes_append_in_order() {
    let mut p = Pipe::capturing();
    p.write(b"ab");
    p.write(b"");
    p.write(b"cd");
    assert_eq!(p.buffer, b"abcd".to_vec());
    assert_eq!(p.size(), 4);
}

#[test]
fn capturing_read_is_rejected() {
    let mut p = Pipe::capturing();
    p.write(b"output");
    assert_eq!(p.read(3), Err(ChannelError::ReadRejected));
    assert_eq!(p.read(0), Err(ChannelError::ReadRejected));
    assert_eq!(p.buffer, b"output".to_vec());
}

#[test]
fn fifo_read_consumes_from_the_front() {
    let mut p = Pipe::new();
    p.write(b"abcdef");
    assert_eq!(p.read(2), Ok(b"ab".to_vec()));
    assert_eq!(p.read(10), Ok(b"cdef".to_vec()));
    assert_eq!(p.read(10), Ok(Vec::new()));
    assert_eq!(p.size(), 0);
}

#[test]
fn seek_fails() {
    let p = Pipe::new();
    assert_eq!(p.seek(), Err(ChannelError::NotSeekable));
}

#[test]
fn set_len_cuts_and_pads() {
    let mut p = Pipe::new();
    p.write(b"abc");
    p.set_len(5);
    assert_eq!(p.buffer, vec![b'a', b'b', b'c', 0, 0]);
    p.set_len(1);
    assert_eq!(p.buffer, b"a".to_vec());
}
