use rapt::line_buffer::{LineBuffer, Words};
use rapt::serial::Serial;

fn collect(mut words: Words<'_>) -> Vec<Vec<u8>> {
    let mut all = Vec::new();
    while let Some(word) = words.next() {
        all.push(word.to_vec());
    }
    assert_eq!(words.next(), None);
    all
}

#[test]
fn words_are_split_on_runs_of_spaces() {
    let mut storage = [0u8; 32];
    let mut buffer = LineBuffer::new(&mut storage);
    let mut serial = Serial::new(b"  r2   w3h \n".to_vec());
    assert_eq!(buffer.read_line(&mut serial), Some(11));
    assert_eq!(buffer.content(), b"  r2   w3h ");
    let words = collect(buffer.words());
    assert_eq!(words, vec![b"r2".to_vec(), b"w3h".to_vec()]);
}

#[test]
fn words_start_afresh_on_every_call() {
    let mut storage = [0u8; 32];
    let mut buffer = LineBuffer::new(&mut storage);
    for &b in b"h r2" {
        buffer.append(b);
    }
    {
        let mut words = buffer.words();
        assert_eq!(words.next(), Some(&b"h"[..]));
    }
    let words = collect(buffer.words());
    assert_eq!(words, vec![b"h".to_vec(), b"r2".to_vec()]);
}

#[test]
fn an_empty_line_has_no_words() {
    let mut storage = [0u8; 8];
    let mut buffer = LineBuffer::new(&mut storage);
    assert_eq!(collect(buffer.words()), Vec::<Vec<u8>>::new());
    for &b in b"    " {
        buffer.append(b);
    }
    assert_eq!(collect(buffer.words()), Vec::<Vec<u8>>::new());
}

#[test]
fn words_of_bytes_split_on_every_ascii_whitespace() {
    let words = collect(Words::new(b"a\tbc\nd\x0ce\rf g"));
    assert_eq!(
        words,
        vec![
            b"a".to_vec(),
            b"bc".to_vec(),
            b"d".to_vec(),
            b"e".to_vec(),
            b"f".to_vec(),
            b"g".to_vec()
        ]
    );
}

#[test]
fn vertical_tab_is_no_whitespace() {
    let words = collect(Words::new(b"a\x0bb c"));
    assert_eq!(words, vec![b"a\x0bb".to_vec(), b"c".to_vec()]);
}

#[test]
fn a_single_word_is_the_whole_line() {
    assert_eq!(collect(Words::new(b"w13h")), vec![b"w13h".to_vec()]);
    assert_eq!(collect(Words::new(b"w13h ")), vec![b"w13h".to_vec()]);
    assert_eq!(collect(Words::new(b" w13h")), vec![b"w13h".to_vec()]);
    assert_eq!(collect(Words::new(b"")), Vec::<Vec<u8>>::new());
}

#[test]
fn whitespace_is_what_the_standard_library_calls_ascii_whitespace() {
    let mut b: u8 = 0;
    loop {
        let line = [b'a', b, b'z'];
        let words = collect(Words::new(&line));
        if b.is_ascii_whitespace() {
            assert_eq!(words, vec![b"a".to_vec(), b"z".to_vec()]);
        } else {
            assert_eq!(words, vec![line.to_vec()]);
        }
        if b == 255 {
            break;
        }
        b += 1;
    }
}

#[test]
fn words_agree_with_split_and_filter() {
    let lines: [&[u8]; 8] = [
        b"",
        b" ",
        b"h",
        b"  r2   w3h ",
        b"r2\tw3h\r\n",
        b"a  b   c    d",
        b"\x0c\x0cw13L\x0c",
        b"one two\x0bthree  four ",
    ];
    for line in lines {
        let expected: Vec<Vec<u8>> = line
            .split(|b| b.is_ascii_whitespace())
            .filter(|w| !w.is_empty())
            .map(|w| w.to_vec())
            .collect();
        assert_eq!(collect(Words::new(line)), expected);
    }
}
