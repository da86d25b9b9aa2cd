use parser::codecs::lines::read_line;
use parser::errors::{AppError, IoFailure};
use std::io::BufRead;

fn lines_of(bytes: &[u8]) -> Vec<Option<String>> {
    let mut found = Vec::new();
    let mut pos = 0;
    while pos < bytes.len() {
        match read_line(bytes, pos) {
            Ok(line) => {
                assert!(line.next > pos && line.next <= bytes.len());
                assert_eq!(line.chars, line.text.chars().collect::<Vec<char>>());
                found.push(Some(line.text));
                pos = line.next;
            }
            Err(AppError::ReadError(IoFailure::InvalidData)) => {
                found.push(None);
                break;
            }
            Err(other) => panic!("{:?}", other),
        }
    }
    found
}

fn std_lines_of(bytes: &[u8]) -> Vec<Option<String>> {
    let mut found = Vec::new();
    for line in std::io::BufReader::new(bytes).lines() {
        match line {
            Ok(text) => found.push(Some(text)),
            Err(_) => {
                found.push(None);
                break;
            }
        }
    }
    found
}

#[test]
fn lines_agree_with_std() {
    let samples: [&[u8]; 16] = [
        b"",
        b"\n",
        b"\n\n",
        b"a",
        b"a\n",
        b"a\nb",
        b"a\r\nb\r\n",
        b"a\r",
        b"a\r\r\n",
        b"\r\n",
        b"\r",
        b"a\rb\n",
        b"one\n\ntwo\n",
        "h\u{e9}llo\n\u{65e5}\u{672c}\n".as_bytes(),
        b"ok\n\xff\xfe\nnever",
        b"cut \xc3\nnext",
    ];
    for sample in samples {
        assert_eq!(lines_of(sample), std_lines_of(sample), "{:?}", sample);
    }
}

#[test]
fn line_reports_where_the_next_starts() {
    let bytes = b"ab\r\ncd";
    let first = read_line(bytes, 0).expect("first line");
    assert_eq!(first.text, "ab");
    assert_eq!(first.next, 4);
    let second = read_line(bytes, first.next).expect("second line");
    assert_eq!(second.text, "cd");
    assert_eq!(second.next, 6);
}
