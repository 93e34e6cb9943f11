use oma::span::{Source, Span, Spanned};

#[test]
fn a_span_reads_its_range_of_the_source() {
    let source = Source::new("let answer = 42;");
    assert_eq!(Span::new(source.clone(), 4, 10).as_str(), "answer");
    assert_eq!(Span::new(source.clone(), 0, 0).as_str(), "");
    assert_eq!(Span::new(source.clone(), 16, 16).as_str(), "");
    assert_eq!(Span::new(source.clone(), 0, 16).as_str(), "let answer = 42;");
    assert_eq!(Span::new(source.clone(), 13, 15).to_bytes(), b"42");
}

#[test]
fn a_span_may_end_between_any_two_characters() {
    let source = Source::new("aé€b");
    assert_eq!(source.len(), 7);
    assert_eq!(Span::new(source.clone(), 1, 3).as_str(), "é");
    assert_eq!(Span::new(source.clone(), 3, 6).as_str(), "€");
    assert_eq!(Span::new(source.clone(), 1, 7).as_str(), "é€b");
    assert_eq!(Span::new(source.clone(), 1, 2).to_bytes(), vec![0xc3]);
}

#[test]
fn combining_covers_both_spans() {
    let source = Source::new("0123456789");
    let left = Span::new(source.clone(), 2, 4);
    let right = Span::new(source.clone(), 6, 9);
    let combined = Span::combine(&left, &right);
    assert_eq!((combined.start(), combined.end()), (2, 9));
    assert_eq!(combined, Span::new(source.clone(), 2, 9));
    assert_eq!(Span::combine(&right, &left), combined);
    let inner = Span::new(source.clone(), 3, 4);
    let outer = Span::new(source.clone(), 1, 8);
    assert_eq!(Span::combine(&inner, &outer), outer);
    assert_eq!(Span::combine(&left, &left), left);
}

#[test]
fn sources_are_equal_when_they_are_one_text_in_memory() {
    let source = Source::new("same");
    let copy = source.clone();
    let twin = Source::new("same");
    assert!(source == copy);
    assert!(source.is(&copy));
    assert!(source != twin);
    assert!(!source.is(&twin));
    assert_eq!(copy.contents(), "same");
    assert_ne!(Span::new(source.clone(), 0, 1), Span::new(twin, 0, 1));
    assert_eq!(Span::new(source.clone(), 0, 1), Span::new(copy, 0, 1));
}

#[test]
fn a_source_is_indexed_by_byte() {
    let source = Source::new("héllo");
    assert_eq!(source.len(), 6);
    assert_eq!(source.get(0), Some(b'h'));
    assert_eq!(source.get(1), Some(0xc3));
    assert_eq!(source.get(5), Some(b'o'));
    assert_eq!(source.get(6), None);
    assert_eq!(source.slice(3, 6), "llo");
    assert_eq!(source.slice(0, 3), "hé");
    assert_eq!(source.contents(), "héllo");
    let empty = Source::new("");
    assert_eq!(empty.len(), 0);
    assert_eq!(empty.get(0), None);
    assert_eq!(empty.slice(0, 0), "");
}

#[test]
fn spanned_keeps_its_span_when_mapped() {
    let source = Source::new("12");
    let spanned = Spanned::new(12u8, Span::new(source.clone(), 0, 2));
    assert_eq!(*spanned.base(), 12);
    assert_eq!(*spanned.span(), Span::new(source.clone(), 0, 2));
    let copy = spanned.clone();
    assert_eq!(copy, spanned);
    let mapped = spanned.map(|value| u32::from(value) * 100);
    assert_eq!(*mapped.base(), 1200);
    assert_eq!(*mapped.span(), Span::new(source.clone(), 0, 2));
    assert_eq!(mapped.unwrap(), 1200);
}
