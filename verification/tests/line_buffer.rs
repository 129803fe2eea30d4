use rapt::line_buffer::{Feedback, LineBuffer};
use rapt::serial::Serial;

#[test]
fn new_buffer_is_empty() {
    let mut storage = [0u8; 8];
    let buffer = LineBuffer::new(&mut storage);
    assert_eq!(buffer.len(), 0);
    assert!(buffer.is_empty());
    assert_eq!(buffer.capacity(), 8);
    assert_eq!(buffer.content(), b"");
}

#[test]
fn appends_are_stored_in_order() {
    let mut storage = [0u8; 8];
    let mut buffer = LineBuffer::new(&mut storage);
    let bytes = b"w13h ~ a";
    let mut count = 0;
    for &b in bytes.iter() {
        assert_eq!(buffer.append(b), Some(b));
        count += 1;
        assert_eq!(buffer.len(), count);
        assert_eq!(buffer.content(), &bytes[..count]);
    }
    assert_eq!(buffer.len(), 8);
    assert_eq!(buffer.content(), b"w13h ~ a");
}

#[test]
fn append_beyond_capacity_is_dropped() {
    let mut storage = [0u8; 3];
    let mut buffer = LineBuffer::new(&mut storage);
    assert_eq!(buffer.append(b'a'), Some(b'a'));
    assert_eq!(buffer.append(b'b'), Some(b'b'));
    assert_eq!(buffer.append(b'c'), Some(b'c'));
    assert_eq!(buffer.append(b'd'), None);
    assert_eq!(buffer.len(), 3);
    assert_eq!(buffer.content(), b"abc");
}

#[test]
fn append_to_a_buffer_without_room_is_dropped() {
    let mut storage = [0u8; 0];
    let mut buffer = LineBuffer::new(&mut storage);
    assert_eq!(buffer.append(b'a'), None);
    assert_eq!(buffer.len(), 0);
}

#[test]
fn append_accepts_space_to_tilde_only() {
    let mut storage = [0u8; 4];
    let mut buffer = LineBuffer::new(&mut storage);
    for b in [0u8, 7, 8, 9, 10, 13, 18, 27, 31, 127, 128, 200, 255] {
        assert_eq!(buffer.append(b), None);
        assert_eq!(buffer.len(), 0);
    }
    assert_eq!(buffer.append(b' '), Some(b' '));
    assert_eq!(buffer.append(b'~'), Some(b'~'));
    assert_eq!(buffer.content(), b" ~");
}

#[test]
fn pop_on_an_empty_buffer_gives_nothing() {
    let mut storage = [0u8; 4];
    let mut buffer = LineBuffer::new(&mut storage);
    assert_eq!(buffer.pop(), None);
    assert_eq!(buffer.len(), 0);
    assert_eq!(buffer.pop(), None);
    assert_eq!(buffer.len(), 0);
}

#[test]
fn pop_removes_the_last_character() {
    let mut storage = [0u8; 4];
    let mut buffer = LineBuffer::new(&mut storage);
    buffer.append(b'r');
    buffer.append(b'2');
    assert_eq!(buffer.pop(), Some(b'2'));
    assert_eq!(buffer.content(), b"r");
    assert_eq!(buffer.pop(), Some(b'r'));
    assert_eq!(buffer.content(), b"");
    assert_eq!(buffer.pop(), None);
}

#[test]
fn pop_then_append_gives_the_line_back() {
    let mut storage = [0u8; 4];
    let mut buffer = LineBuffer::new(&mut storage);
    buffer.append(b'w');
    buffer.append(b'3');
    buffer.append(b'h');
    let last = buffer.pop().unwrap();
    assert_eq!(last, b'h');
    assert_eq!(buffer.append(last), Some(b'h'));
    assert_eq!(buffer.len(), 3);
    assert_eq!(buffer.content(), b"w3h");
}

#[test]
fn clear_empties_the_line() {
    let mut storage = [0u8; 4];
    let mut buffer = LineBuffer::new(&mut storage);
    buffer.append(b'a');
    buffer.append(b'b');
    buffer.clear();
    assert_eq!(buffer.len(), 0);
    assert_eq!(buffer.content(), b"");
    assert_eq!(buffer.append(b'c'), Some(b'c'));
    assert_eq!(buffer.content(), b"c");
}

#[test]
fn feed_echoes_what_is_stored() {
    let mut storage = [0u8; 2];
    let mut buffer = LineBuffer::new(&mut storage);
    buffer.begin_line();
    assert_eq!(buffer.feed(b'r'), Feedback::Echo(b'r'));
    assert_eq!(buffer.feed(7), Feedback::Silent);
    assert_eq!(buffer.feed(200), Feedback::Silent);
    assert_eq!(buffer.feed(b'2'), Feedback::Echo(b'2'));
    assert_eq!(buffer.feed(b'3'), Feedback::Silent);
    assert_eq!(buffer.content(), b"r2");
    assert_eq!(buffer.feed(b'\r'), Feedback::Submitted);
    assert_eq!(buffer.content(), b"r2");
    assert_eq!(buffer.feed(b'\n'), Feedback::Submitted);
    assert_eq!(buffer.content(), b"r2");
}

#[test]
fn feed_erases_on_backspace_and_delete() {
    let mut storage = [0u8; 4];
    let mut buffer = LineBuffer::new(&mut storage);
    buffer.begin_line();
    assert_eq!(buffer.feed(8), Feedback::Silent);
    assert_eq!(buffer.feed(127), Feedback::Silent);
    buffer.feed(b'a');
    buffer.feed(b'b');
    assert_eq!(buffer.feed(8), Feedback::Erased);
    assert_eq!(buffer.content(), b"a");
    assert_eq!(buffer.feed(127), Feedback::Erased);
    assert_eq!(buffer.content(), b"");
    assert_eq!(buffer.feed(127), Feedback::Silent);
}

#[test]
fn recall_brings_the_previous_line_back() {
    let mut storage = [0u8; 8];
    let mut buffer = LineBuffer::new(&mut storage);
    buffer.begin_line();
    buffer.feed(b'r');
    buffer.feed(b'2');
    assert_eq!(buffer.feed(b'\n'), Feedback::Submitted);
    buffer.begin_line();
    assert_eq!(buffer.len(), 0);
    assert_eq!(buffer.feed(18), Feedback::Recalled);
    assert_eq!(buffer.len(), 2);
    assert_eq!(buffer.content(), b"r2");
    assert_eq!(buffer.feed(b'x'), Feedback::Echo(b'x'));
    assert_eq!(buffer.content(), b"r2x");
    assert_eq!(buffer.feed(18), Feedback::Silent);
    assert_eq!(buffer.content(), b"r2x");
}

#[test]
fn recall_is_silent_without_a_previous_line() {
    let mut storage = [0u8; 8];
    let mut buffer = LineBuffer::new(&mut storage);
    buffer.begin_line();
    assert_eq!(buffer.feed(18), Feedback::Silent);
    assert_eq!(buffer.len(), 0);
}

#[test]
fn recall_is_silent_once_something_is_typed() {
    let mut storage = [0u8; 8];
    let mut buffer = LineBuffer::new(&mut storage);
    buffer.begin_line();
    buffer.feed(b'r');
    buffer.feed(b'2');
    buffer.feed(b'\r');
    buffer.begin_line();
    buffer.feed(b'h');
    assert_eq!(buffer.feed(18), Feedback::Silent);
    assert_eq!(buffer.content(), b"h");
}

#[test]
fn recall_after_erasing_restores_the_storage_as_it_is() {
    let mut storage = [0u8; 8];
    let mut buffer = LineBuffer::new(&mut storage);
    buffer.begin_line();
    buffer.feed(b'r');
    buffer.feed(b'2');
    buffer.feed(b'\r');
    buffer.begin_line();
    buffer.feed(b'x');
    buffer.feed(8);
    assert_eq!(buffer.feed(18), Feedback::Recalled);
    assert_eq!(buffer.content(), b"x2");
}

#[test]
fn read_line_reads_up_to_the_terminator() {
    let mut storage = [0u8; 16];
    let mut buffer = LineBuffer::new(&mut storage);
    let mut serial = Serial::new(b"r2\nw3h\r".to_vec());
    assert_eq!(buffer.read_line(&mut serial), Some(2));
    assert_eq!(buffer.content(), b"r2");
    assert_eq!(serial.output(), b"r2\r\n");
    assert!(!serial.is_drained());
    assert_eq!(buffer.read_line(&mut serial), Some(3));
    assert_eq!(buffer.content(), b"w3h");
    assert_eq!(serial.output(), b"r2\r\nw3h\r\n");
    assert!(serial.is_drained());
}

#[test]
fn read_line_reports_an_empty_line() {
    let mut storage = [0u8; 16];
    let mut buffer = LineBuffer::new(&mut storage);
    let mut serial = Serial::new(b"\n".to_vec());
    assert_eq!(buffer.read_line(&mut serial), Some(0));
    assert_eq!(serial.output(), b"\r\n");
}

#[test]
fn read_line_stops_when_the_link_runs_dry() {
    let mut storage = [0u8; 16];
    let mut buffer = LineBuffer::new(&mut storage);
    let mut serial = Serial::new(b"r2".to_vec());
    assert_eq!(buffer.read_line(&mut serial), None);
    assert_eq!(buffer.content(), b"r2");
    assert_eq!(serial.output(), b"r2");
    assert!(serial.is_drained());
    assert_eq!(buffer.read_line(&mut serial), None);
    assert_eq!(buffer.content(), b"");
}

#[test]
fn read_line_echoes_the_erase_sequence() {
    let mut storage = [0u8; 16];
    let mut buffer = LineBuffer::new(&mut storage);
    let mut serial = Serial::new(b"\x08rx\x7f2\x08\x083\n".to_vec());
    assert_eq!(buffer.read_line(&mut serial), Some(1));
    assert_eq!(buffer.content(), b"3");
    assert_eq!(serial.output(), b"rx\x08 \x082\x08 \x08\x08 \x083\r\n");
}

#[test]
fn read_line_drops_what_does_not_fit_without_a_sound() {
    let mut storage = [0u8; 3];
    let mut buffer = LineBuffer::new(&mut storage);
    let mut serial = Serial::new(b"abcdef\x07\xff\r".to_vec());
    assert_eq!(buffer.read_line(&mut serial), Some(3));
    assert_eq!(buffer.content(), b"abc");
    assert_eq!(serial.output(), b"abc\r\n");
}

#[test]
fn read_line_recalls_the_previous_line() {
    let mut storage = [0u8; 16];
    let mut buffer = LineBuffer::new(&mut storage);
    let mut serial = Serial::new(b"r2\n\x12\x123\x12\n".to_vec());
    assert_eq!(buffer.read_line(&mut serial), Some(2));
    assert_eq!(buffer.content(), b"r2");
    assert_eq!(buffer.read_line(&mut serial), Some(3));
    assert_eq!(buffer.content(), b"r23");
    assert_eq!(serial.output(), b"r2\r\nr23\r\n");
}

#[test]
fn read_line_recalls_only_the_line_before() {
    let mut storage = [0u8; 16];
    let mut buffer = LineBuffer::new(&mut storage);
    let mut serial = Serial::new(b"r2\n\n\x12\n".to_vec());
    assert_eq!(buffer.read_line(&mut serial), Some(2));
    assert_eq!(buffer.read_line(&mut serial), Some(0));
    assert_eq!(buffer.read_line(&mut serial), Some(0));
    assert_eq!(buffer.content(), b"");
    assert_eq!(serial.output(), b"r2\r\n\r\n\r\n");
}

#[test]
fn serial_hands_bytes_out_in_order() {
    let mut serial = Serial::new(vec![1, 2]);
    assert!(!serial.is_drained());
    assert_eq!(serial.read(), Some(1));
    assert_eq!(serial.read(), Some(2));
    assert_eq!(serial.read(), None);
    assert!(serial.is_drained());
    serial.write_byte(9);
    serial.write(b"ab");
    assert_eq!(serial.output(), &[9, b'a', b'b']);
}

#[test]
fn echo_shows_each_feedback() {
    let mut storage = [0u8; 8];
    let mut buffer = LineBuffer::new(&mut storage);
    buffer.begin_line();
    let feedback = buffer.feed(b'r');
    assert_eq!(buffer.echo(feedback), b"r".to_vec());
    let feedback = buffer.feed(7);
    assert_eq!(buffer.echo(feedback), Vec::<u8>::new());
    let feedback = buffer.feed(b'2');
    assert_eq!(buffer.echo(feedback), b"2".to_vec());
    let feedback = buffer.feed(8);
    assert_eq!(buffer.echo(feedback), vec![8, 32, 8]);
    let feedback = buffer.feed(b'3');
    assert_eq!(buffer.echo(feedback), b"3".to_vec());
    let feedback = buffer.feed(b'\r');
    assert_eq!(buffer.echo(feedback), b"\r\n".to_vec());
    buffer.begin_line();
    let feedback = buffer.feed(18);
    assert_eq!(feedback, Feedback::Recalled);
    assert_eq!(buffer.echo(feedback), b"r3".to_vec());
}
