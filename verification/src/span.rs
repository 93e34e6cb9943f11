//! Source text and the byte ranges into it that tokens and diagnostics
//! carry.

use std::rc::Rc;
use vstd::prelude::*;
use vstd::std_specs::cmp::PartialEqSpecImpl;
use vstd::string::StringSliceAdditionalSpecFns;
use vstd::utf8::{
    encode_utf8, is_char_boundary, is_char_boundary_iff_not_is_continuation_byte,
    is_char_boundary_start_end_of_seq, valid_utf8, valid_utf8_split,
};

verus! {

/// Hands out another handle on the same text.
///
/// This is `Rc::clone`: the new handle points to the allocation of the old
/// one, so it holds the same string.
#[verifier::external_body]
fn share(text: &Rc<String>) -> (shared: Rc<String>)
    ensures
        shared == *text,
{
    Rc::clone(text)
}

/// Tells whether two handles are handles on one allocation.
///
/// This is `Rc::ptr_eq`. Two handles on one allocation hold the same
/// string; of two handles on different allocations nothing is claimed.
#[verifier::external_body]
fn same_allocation(left: &Rc<String>, right: &Rc<String>) -> (same: bool)
    ensures
        same ==> left == right,
{
    Rc::ptr_eq(left, right)
}

/// An immutable text, indexed by byte. Cloning it copies no text. Two
/// sources are equal when they are the same text in memory, not when they
/// read the same.
#[derive(Debug)]
pub struct Source {
    inner: Rc<String>,
}

impl View for Source {
    type V = Seq<u8>;

    /// The bytes of the text.
    closed spec fn view(&self) -> Seq<u8> {
        encode_utf8(self.inner@)
    }
}

impl Clone for Source {
    fn clone(&self) -> (source: Source)
        ensures
            source == *self,
    {
        Source { inner: share(&self.inner) }
    }
}

impl PartialEq for Source {
    fn eq(&self, other: &Source) -> (same: bool) {
        same_allocation(&self.inner, &other.inner)
    }
}

impl PartialEqSpecImpl for Source {
    /// Equality of sources is identity, which no function of their values
    /// decides: `==` promises nothing.
    open spec fn obeys_eq_spec() -> bool {
        false
    }

    open spec fn eq_spec(&self, other: &Source) -> bool {
        self@ == other@
    }
}

impl Source {
    /// The text as characters.
    pub closed spec fn text(&self) -> Seq<char> {
        self.inner@
    }

    /// Whether `index` falls between two characters of the text, or at one
    /// of its ends.
    pub open spec fn is_boundary(&self, index: int) -> bool {
        is_char_boundary(self@, index)
    }

    /// The bytes of a source are the bytes of a text.
    pub proof fn is_text(&self)
        ensures
            valid_utf8(self@),
            is_char_boundary(self@, 0),
            is_char_boundary(self@, self@.len() as int),
    {
        vstd::utf8::encode_utf8_valid_utf8(self.inner@);
        is_char_boundary_start_end_of_seq(self@);
    }

    /// A source that holds a copy of `source`.
    pub fn new(source: &str) -> (result: Source)
        ensures
            result@ == source.spec_bytes(),
            result.text() == source@,
    {
        Source { inner: Rc::new(source.to_owned()) }
    }

    /// Whether the two are one text in memory. Where they are, they read
    /// the same.
    pub fn is(&self, other: &Source) -> (same: bool)
        ensures
            same ==> *self == *other,
    {
        same_allocation(&self.inner, &other.inner)
    }

    /// The whole text.
    pub fn contents(&self) -> (contents: &str)
        ensures
            contents@ == self.text(),
            contents.spec_bytes() == self@,
    {
        self.inner.as_str()
    }

    /// The text from byte `start` up to byte `end`.
    pub fn slice(&self, start: usize, end: usize) -> (slice: &str)
        requires
            start <= end <= self@.len(),
            self.is_boundary(start as int),
            self.is_boundary(end as int),
        ensures
            slice.spec_bytes() == self@.subrange(start as int, end as int),
    {
        let whole = self.inner.as_str();
        proof {
            vstd::utf8::encode_utf8_valid_utf8(whole@);
            boundary_of_prefix(self@, start as int, end as int);
        }
        let (front, _) = whole.split_at(end);
        let (_, slice) = front.split_at(start);
        assert(self@.subrange(0, end as int).subrange(start as int, end as int) == self@.subrange(
            start as int,
            end as int,
        ));
        slice
    }

    /// The byte at `index`, if the text is that long.
    pub fn get(&self, index: usize) -> (byte: Option<u8>)
        ensures
            byte == if index < self@.len() {
                Some(self@[index as int])
            } else {
                None
            },
    {
        let bytes = self.inner.as_str().as_bytes();
        if index < bytes.len() {
            Some(bytes[index])
        } else {
            None
        }
    }

    /// The number of bytes in the text.
    pub fn len(&self) -> (len: usize)
        ensures
            len == self@.len(),
    {
        self.inner.as_str().as_bytes().len()
    }
}

/// A character boundary of a text is one of each prefix that reaches it.
pub proof fn boundary_of_prefix(bytes: Seq<u8>, index: int, end: int)
    requires
        valid_utf8(bytes),
        0 <= index <= end <= bytes.len(),
        is_char_boundary(bytes, index),
        is_char_boundary(bytes, end),
    ensures
        valid_utf8(bytes.subrange(0, end)),
        is_char_boundary(bytes.subrange(0, end), index),
{
    let prefix = bytes.subrange(0, end);
    valid_utf8_split(bytes, end);
    if index == end {
        is_char_boundary_start_end_of_seq(prefix);
    } else {
        is_char_boundary_iff_not_is_continuation_byte(bytes, index);
        is_char_boundary_iff_not_is_continuation_byte(prefix, index);
    }
}

/// In a text, a byte below 128 is a character by itself: there is a
/// boundary before it and one after it.
pub proof fn boundaries_around_ascii(bytes: Seq<u8>, index: int)
    requires
        valid_utf8(bytes),
        0 <= index < bytes.len(),
        bytes[index] < 128,
    ensures
        is_char_boundary(bytes, index),
        is_char_boundary(bytes, index + 1),
{
    is_char_boundary_iff_not_is_continuation_byte(bytes, index);
    valid_utf8_split(bytes, index);
    let suffix = bytes.subrange(index, bytes.len() as int);
    assert(suffix[0] == bytes[index]);
    assert(valid_utf8(vstd::utf8::pop_first_scalar(suffix))) by {
        reveal_with_fuel(valid_utf8, 2);
    }
    let rest = vstd::utf8::pop_first_scalar(suffix);
    assert(rest == bytes.subrange(index + 1, bytes.len() as int));
    if index + 1 == bytes.len() {
        is_char_boundary_start_end_of_seq(bytes);
    } else {
        assert(rest[0] == bytes[index + 1]);
        assert(vstd::utf8::valid_first_scalar(rest)) by {
            reveal_with_fuel(valid_utf8, 2);
        }
        is_char_boundary_iff_not_is_continuation_byte(bytes, index + 1);
    }
}

/// A span's source text and its two ends.
pub struct SpanView {
    pub source: Seq<u8>,
    pub start: int,
    pub end: int,
}

/// A range of bytes of a source: from `start` up to, and without, `end`.
#[derive(Debug, PartialEq)]
pub struct Span {
    source: Source,
    start: usize,
    end: usize,
}

impl Clone for Span {
    fn clone(&self) -> (span: Span)
        ensures
            span == *self,
    {
        proof {
            use_type_invariant(self);
        }
        Span { source: self.source.clone(), start: self.start, end: self.end }
    }
}

impl View for Span {
    type V = SpanView;

    closed spec fn view(&self) -> SpanView {
        SpanView { source: self.source@, start: self.start as int, end: self.end as int }
    }
}

impl SpanView {
    /// The bytes that the span covers.
    pub open spec fn bytes(self) -> Seq<u8> {
        self.source.subrange(self.start, self.end)
    }
}

impl Span {
    /// Every span lies within its source.
    #[verifier::type_invariant]
    pub open spec fn within_source(self) -> bool {
        0 <= self@.start <= self@.end <= self@.source.len()
    }

    /// The span of `source` from `start` to `end`.
    pub fn new(source: Source, start: usize, end: usize) -> (span: Span)
        requires
            start <= end <= source@.len(),
        ensures
            span@ == (SpanView { source: source@, start: start as int, end: end as int }),
    {
        Span { source, start, end }
    }

    /// The smallest span that covers both, which must be spans of sources
    /// that read the same. It is a span of `left`'s source.
    pub fn combine(left: &Span, right: &Span) -> (span: Span)
        requires
            left@.source == right@.source,
        ensures
            span@.source == left@.source,
            span@.start == if left@.start <= right@.start {
                left@.start
            } else {
                right@.start
            },
            span@.end == if left@.end >= right@.end {
                left@.end
            } else {
                right@.end
            },
    {
        proof {
            use_type_invariant(left);
            use_type_invariant(right);
        }
        let start = if left.start <= right.start {
            left.start
        } else {
            right.start
        };
        let end = if left.end >= right.end {
            left.end
        } else {
            right.end
        };
        Span { source: left.source.clone(), start, end }
    }

    /// The text that the span covers. Both ends must fall between
    /// characters.
    pub fn as_str(&self) -> (text: &str)
        requires
            is_char_boundary(self@.source, self@.start),
            is_char_boundary(self@.source, self@.end),
        ensures
            text.spec_bytes() == self@.bytes(),
    {
        proof {
            use_type_invariant(self);
        }
        self.source.slice(self.start, self.end)
    }

    /// The bytes that the span covers.
    pub fn to_bytes(&self) -> (bytes: Vec<u8>)
        ensures
            bytes@ == self@.bytes(),
    {
        proof {
            use_type_invariant(self);
        }
        let mut bytes = Vec::new();
        let mut index = self.start;
        while index < self.end
            invariant
                self.start <= index <= self.end <= self.source@.len(),
                bytes@ == self.source@.subrange(self.start as int, index as int),
            decreases self.end - index,
        {
            match self.source.get(index) {
                Some(byte) => bytes.push(byte),
                None => {},
            }
            index += 1;
        }
        bytes
    }

    /// The source that the span is a range of.
    pub fn source(&self) -> (source: &Source)
        ensures
            source@ == self@.source,
    {
        &self.source
    }

    /// The offset of the first byte.
    pub fn start(&self) -> (start: usize)
        ensures
            start == self@.start,
            start <= self@.end <= self@.source.len(),
    {
        proof {
            use_type_invariant(self);
        }
        self.start
    }

    /// The offset after the last byte.
    pub fn end(&self) -> (end: usize)
        ensures
            end == self@.end,
            self@.start <= end <= self@.source.len(),
    {
        proof {
            use_type_invariant(self);
        }
        self.end
    }
}

/// A value and the span of source that it was read from.
#[derive(Debug, PartialEq)]
pub struct Spanned<T> {
    pub base: T,
    pub span: Span,
}

/// The model of a [`Spanned`] value: the value, and the model of its span.
pub struct SpannedView<T> {
    pub base: T,
    pub span: SpanView,
}

impl<T> View for Spanned<T> {
    type V = SpannedView<T>;

    open spec fn view(&self) -> SpannedView<T> {
        SpannedView { base: self.base, span: self.span@ }
    }
}

impl<T: Clone> Clone for Spanned<T> {
    fn clone(&self) -> (spanned: Spanned<T>)
        ensures
            cloned(self.base, spanned.base),
            spanned.span == self.span,
    {
        Spanned { base: self.base.clone(), span: self.span.clone() }
    }
}

impl<T> Spanned<T> {
    /// `base`, read from `span`.
    pub fn new(base: T, span: Span) -> (spanned: Spanned<T>)
        ensures
            spanned.base == base,
            spanned.span == span,
    {
        Spanned { base, span }
    }

    /// The span.
    pub fn span(&self) -> (span: &Span)
        ensures
            *span == self.span,
    {
        &self.span
    }

    /// The value.
    pub fn base(&self) -> (base: &T)
        ensures
            *base == self.base,
    {
        &self.base
    }

    /// The value, without its span.
    pub fn unwrap(self) -> (base: T)
        ensures
            base == self.base,
    {
        self.base
    }

    /// What `f` makes of the value, with the same span.
    pub fn map<F, U>(self, f: F) -> (mapped: Spanned<U>) where F: FnOnce(T) -> U
        requires
            f.requires((self.base,)),
        ensures
            f.ensures((self.base,), mapped.base),
            mapped.span == self.span,
    {
        Spanned { base: f(self.base), span: self.span }
    }
}

} // verus!
