use oma::read::Reader;
use oma::span::Source;

#[test]
fn is_empty() {
    let mut reader = Reader::new(&Source::new("abc"));
    reader.advance();
    assert_eq!(reader.is_empty(), false);
    reader.advance();
    assert_eq!(reader.is_empty(), true);
}

#[test]
fn peek() {
    let reader = Reader::new(&Source::new("abc"));
    assert_eq!(reader.peek(), Some((b'a', Some(b'b'))));
    assert_eq!(reader.peek(), Some((b'a', Some(b'b'))));
}

#[test]
fn advance() {
    let mut reader = Reader::new(&Source::new("abc"));
    assert_eq!(reader.advance(), Some((b'a', Some(b'b'))));
    assert_eq!(reader.advance(), Some((b'c', None)));
}

#[test]
fn expect() {
    let mut reader = Reader::new(&Source::new("abc"));
    assert_eq!(reader.expect((b'a', Some(b'b'))), Some((b'a', Some(b'b'))));
    assert_eq!(reader.expect((b'c', None)), Some((b'c', None)));
}

#[test]
fn reader_at_the_end_reads_nothing() {
    let mut reader = Reader::new(&Source::new("ab"));
    assert_eq!(reader.advance(), Some((b'a', Some(b'b'))));
    assert_eq!(reader.peek(), None);
    assert_eq!(reader.advance(), None);
    assert_eq!(reader.is_empty(), true);
}

#[test]
fn expect_reads_what_it_rejects() {
    let mut reader = Reader::new(&Source::new("abc"));
    assert_eq!(reader.expect((b'x', Some(b'b'))), None);
    assert_eq!(reader.peek(), Some((b'c', None)));
    assert_eq!(reader.expect((b'c', Some(b'd'))), None);
    assert_eq!(reader.is_empty(), true);
}
