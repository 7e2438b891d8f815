use mosaic::channel::Pipe;
use mosaic::frame::{queue_key, take_frame, take_open_request};

fn pipe_with(bytes: &[u8]) -> Pipe {
    let mut p = Pipe::capturing();
    p.write(bytes);
    p
}

#[test]
fn frame_lines_end_for_raw_mode() {
    let mut p = pipe_with(b"one\ntwo\n");
    assert_eq!(take_frame(&mut p), b"one\n\rtwo\n\r".to_vec());
    assert_eq!(p.size(), 0);
}

#[test]
fn frame_without_final_newline_gets_one() {
    let mut p = pipe_with(b"one\r\ntwo");
    assert_eq!(take_frame(&mut p), b"one\n\rtwo\n\r".to_vec());
}

#[test]
fn empty_frame_is_one_line_end() {
    let mut p = pipe_with(b"");
    assert_eq!(take_frame(&mut p), b"\n\r".to_vec());
}

#[test]
fn frames_do_not_accumulate() {
    let mut p = pipe_with(b"first\n");
    take_frame(&mut p);
    p.write(b"second\n");
    assert_eq!(take_frame(&mut p), b"second\n\r".to_vec());
}

#[test]
fn queued_key_replaces_stale_input() {
    let mut p = Pipe::new();
    queue_key(&mut p, b"{\"code\":\"Up\"}");
    queue_key(&mut p, b"{\"code\":\"Down\"}");
    assert_eq!(p.buffer, b"{\"code\":\"Down\"}\n".to_vec());
    assert_eq!(p.buffer.iter().filter(|b| **b == b'\n').count(), 1);
}

#[test]
fn open_request_takes_first_line() {
    let mut p = pipe_with(b"./docs/a.txt\r\nleftover\n");
    assert_eq!(take_open_request(&mut p, b"."), Some(b"././docs/a.txt".to_vec()));
    assert_eq!(p.size(), 0);
}

#[test]
fn open_request_without_newline() {
    let mut p = pipe_with(b"./b");
    assert_eq!(take_open_request(&mut p, b"/srv"), Some(b"/srv/./b".to_vec()));
}

#[test]
fn open_request_on_empty_channel_is_none() {
    let mut p = pipe_with(b"");
    assert_eq!(take_open_request(&mut p, b"."), None);
}
