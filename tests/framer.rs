use rawchatserver::framer::{read_line, LineEvent, LineFramer};

fn line(s: &str) -> LineEvent {
    LineEvent::Line(s.to_string())
}

#[test]
fn complete_line_is_cut_at_newline() {
    let mut f = LineFramer::new();
    assert_eq!(read_line(&mut f, b"hello\n"), line("hello"));
    assert_eq!(f.next_line(), LineEvent::Pending);
}

#[test]
fn partial_line_is_accumulated_across_reads() {
    let mut f = LineFramer::new();
    assert_eq!(read_line(&mut f, b"he"), LineEvent::Pending);
    assert_eq!(read_line(&mut f, b""), LineEvent::Pending);
    assert_eq!(read_line(&mut f, b"llo"), LineEvent::Pending);
    assert_eq!(read_line(&mut f, b"\n"), line("hello"));
}

#[test]
fn byte_by_byte_feeding_gives_the_same_line() {
    let mut f = LineFramer::new();
    let mut got = Vec::new();
    for b in b"ab\ncd\n" {
        match read_line(&mut f, &[*b]) {
            LineEvent::Pending => {}
            other => got.push(other),
        }
    }
    assert_eq!(got, vec![line("ab"), line("cd")]);
}

#[test]
fn bytes_after_newline_stay_for_the_next_line() {
    let mut f = LineFramer::new();
    assert_eq!(read_line(&mut f, b"one\ntwo\nthr"), line("one"));
    assert_eq!(f.next_line(), line("two"));
    assert_eq!(f.next_line(), LineEvent::Pending);
    assert_eq!(read_line(&mut f, b"ee\n"), line("three"));
}

#[test]
fn empty_line_is_a_line() {
    let mut f = LineFramer::new();
    assert_eq!(read_line(&mut f, b"\n"), line(""));
}

#[test]
fn nul_before_newline_closes_the_stream() {
    let mut f = LineFramer::new();
    assert_eq!(read_line(&mut f, b"x\0"), LineEvent::Closed);
}

#[test]
fn nul_sent_after_text_in_a_later_read_still_closes() {
    let mut f = LineFramer::new();
    assert_eq!(read_line(&mut f, b"x"), LineEvent::Pending);
    assert_eq!(read_line(&mut f, b"\0y\n"), LineEvent::Closed);
}

#[test]
fn closed_stream_stays_closed() {
    let mut f = LineFramer::new();
    assert_eq!(read_line(&mut f, b"\0"), LineEvent::Closed);
    assert_eq!(f.next_line(), LineEvent::Closed);
    assert_eq!(read_line(&mut f, b"more\n"), LineEvent::Closed);
}

#[test]
fn line_before_nul_is_still_delivered() {
    let mut f = LineFramer::new();
    assert_eq!(read_line(&mut f, b"ok\n\0"), line("ok"));
    assert_eq!(f.next_line(), LineEvent::Closed);
}

#[test]
fn each_byte_becomes_the_character_of_the_same_code() {
    let mut f = LineFramer::new();
    assert_eq!(read_line(&mut f, &[0x41, 0xE9, 0x0D, b'\n']), line("A\u{e9}\r"));
}
