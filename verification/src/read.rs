//! A cursor that reads a source two bytes at a time.

use crate::span::Source;
use vstd::prelude::*;

verus! {

/// The byte at `offset` together with the one after it, if there is one;
/// nothing at the end of the text.
pub open spec fn pair_at(bytes: Seq<u8>, offset: int) -> Option<(u8, Option<u8>)> {
    if offset + 1 < bytes.len() {
        Some((bytes[offset], Some(bytes[offset + 1])))
    } else if offset < bytes.len() {
        Some((bytes[offset], None))
    } else {
        None
    }
}

/// How many bytes a pair holds.
pub open spec fn pair_len(pair: Option<(u8, Option<u8>)>) -> int {
    match pair {
        Some((_, Some(_))) => 2,
        Some((_, None)) => 1,
        None => 0,
    }
}

/// A reader's text and the offset of the next byte to read.
pub struct ReaderView {
    pub source: Seq<u8>,
    pub offset: int,
}

/// A cursor into a source.
pub struct Reader {
    source: Source,
    offset: usize,
}

impl View for Reader {
    type V = ReaderView;

    closed spec fn view(&self) -> ReaderView {
        ReaderView { source: self.source@, offset: self.offset as int }
    }
}

impl Reader {
    /// The cursor never leaves the text.
    #[verifier::type_invariant]
    pub open spec fn within_source(self) -> bool {
        0 <= self@.offset <= self@.source.len()
    }

    /// A reader at the start of `source`.
    pub fn new(source: &Source) -> (reader: Reader)
        ensures
            reader@ == (ReaderView { source: source@, offset: 0 }),
    {
        Reader { source: source.clone(), offset: 0 }
    }

    /// Whether everything was read.
    pub fn is_empty(&self) -> (empty: bool)
        ensures
            empty == (self@.offset == self@.source.len()),
    {
        self.offset == self.source.len()
    }

    /// The next two bytes, without reading them.
    pub fn peek(&self) -> (pair: Option<(u8, Option<u8>)>)
        ensures
            pair == pair_at(self@.source, self@.offset),
    {
        proof {
            use_type_invariant(self);
        }
        let len = self.source.len();
        match self.source.get(self.offset) {
            Some(first) => {
                if len - self.offset > 1 {
                    Some((first, self.source.get(self.offset + 1)))
                } else {
                    Some((first, None))
                }
            },
            None => None,
        }
    }

    /// Reads the next two bytes, or the last one.
    pub fn advance(&mut self) -> (pair: Option<(u8, Option<u8>)>)
        ensures
            pair == pair_at(old(self)@.source, old(self)@.offset),
            final(self)@ == (ReaderView {
                offset: old(self)@.offset + pair_len(pair),
                ..old(self)@
            }),
    {
        proof {
            use_type_invariant(&*self);
        }
        let len = self.source.len();
        let pair = self.peek();
        match pair {
            Some((_, Some(_))) => {
                self.offset += 2;
            },
            Some((_, None)) => {
                self.offset += 1;
            },
            None => {},
        }
        pair
    }

    /// Reads the next two bytes and tells whether they are `chars`: the
    /// answer is `chars` if they are, nothing if they are not. They are read
    /// either way.
    pub fn expect(&mut self, chars: (u8, Option<u8>)) -> (found: Option<(u8, Option<u8>)>)
        ensures
            found == if pair_at(old(self)@.source, old(self)@.offset) == Some(chars) {
                Some(chars)
            } else {
                None
            },
            final(self)@ == (ReaderView {
                offset: old(self)@.offset + pair_len(
                    pair_at(old(self)@.source, old(self)@.offset),
                ),
                ..old(self)@
            }),
    {
        match self.advance() {
            Some((first, second)) => {
                let same = first == chars.0 && match (second, chars.1) {
                    (Some(a), Some(b)) => a == b,
                    (None, None) => true,
                    _ => false,
                };
                if same {
                    Some(chars)
                } else {
                    None
                }
            },
            None => None,
        }
    }
}

} // verus!
