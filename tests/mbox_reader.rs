use bichon::mbox::MboxReader;

fn collect_entries(data: &[u8]) -> Vec<&[u8]> {
    let mut reader = MboxReader::new(data);
    let mut out = Vec::new();
    while let Some(e) = reader.next() {
        out.push(e.data);
    }
    out
}

#[test]
fn two_mails() {
    let data = b"From a\nmail1\nFrom b\nmail2\n";
    let e = collect_entries(data);
    assert_eq!(e, vec![b"mail1\n", b"mail2\n"]);
}

#[test]
fn no_trailing_newline() {
    let data = b"From a\nmail1";
    let e = collect_entries(data);
    assert_eq!(e, vec![b"mail1"]);
}

#[test]
fn from_inside_body() {
    let data = b"From a\nhello\nFrom is here\nbye\n";
    let e = collect_entries(data);
    assert_eq!(e.len(), 2);
}

#[test]
fn inline_from_not_separator() {
    let data = b"From a\nhello From world\n";
    let e = collect_entries(data);
    assert_eq!(e.len(), 1);
}

#[test]
fn realistic_mbox() {
    let data = b"From a\nH:1\n\nbody1\nFrom b\nH:2\n\nbody2\n";
    let e = collect_entries(data);
    assert_eq!(e.len(), 2);
}

#[test]
fn empty_body() {
    let data = b"From a\nFrom b\nbody\n";
    let e = collect_entries(data);
    assert_eq!(e[0], b"");
    assert_eq!(e[1], b"body\n");
}

#[test]
fn only_from_line() {
    let data = b"From a\n";
    let e = collect_entries(data);
    assert_eq!(e.len(), 1);
    assert_eq!(e[0], b"");
}

#[test]
fn windows_newlines() {
    let data = b"From a\r\nbody\r\nFrom b\r\nbody2\r\n";
    let e = collect_entries(data);
    assert_eq!(e.len(), 2);
}

#[test]
fn many_small_mails() {
    let mut data = Vec::new();
    for _ in 0..1000 {
        data.extend_from_slice(b"From a\nx\n");
    }
    let e = collect_entries(&data);
    assert_eq!(e.len(), 1000);
}

#[test]
fn entry_offsets_point_at_bodies() {
    let data = b"From a\nmail1\nFrom b\nmail2\n";
    let mut reader = MboxReader::new(data);
    let first = reader.next().unwrap();
    assert_eq!(first.offset, 7);
    let second = reader.next().unwrap();
    assert_eq!(second.offset, 20);
    assert!(reader.next().is_none());
    assert!(reader.next().is_none());
}

#[test]
fn no_from_line_gives_nothing() {
    let e = collect_entries(b"hello\nworld\n");
    assert!(e.is_empty());
    let e = collect_entries(b"");
    assert!(e.is_empty());
}

#[test]
fn from_line_detection() {
    let data = b"From a\nxFrom b\nFrom c";
    let reader = MboxReader::new(data);
    assert!(reader.is_from_line(0));
    assert!(!reader.is_from_line(8));
    assert!(reader.is_from_line(15));
    assert!(!reader.is_from_line(19));
    assert_eq!(reader.skip_from_line(0), 7);
    assert_eq!(reader.skip_from_line(15), data.len());
}
