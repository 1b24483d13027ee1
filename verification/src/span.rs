//! Byte spans into source text.

use vstd::prelude::*;
use vstd::std_specs::convert::FromSpecImpl;
use vstd::string::StringSliceAdditionalSpecFns;
use vstd::utf8::*;

verus! {

/// A span together with the line it lies on and that line's start offset.
#[derive(Debug, Default, Clone, Copy, PartialEq, Eq, PartialOrd, Ord, Hash)]
pub struct FullSpan {
    pub line: u32,
    pub offset: u32,
    pub span: Span,
}

/// The half-open byte range `from..to` of a source text.
#[derive(Debug, Default, Clone, Copy, PartialEq, Eq, PartialOrd, Ord, Hash, Structural)]
pub struct Span {
    // `from` stays ahead of `to` so that the derived order sorts by start first.
    pub from: u32,
    pub to: u32,
}

impl From<(u32, u32)> for Span {
    fn from(pair: (u32, u32)) -> (span: Span) {
        Span::new(pair.0, pair.1)
    }
}

impl FromSpecImpl<(u32, u32)> for Span {
    open spec fn obeys_from_spec() -> bool {
        true
    }

    open spec fn from_spec(pair: (u32, u32)) -> Span {
        Span { from: pair.0, to: pair.1 }
    }
}

impl Span {
    /// The span lies inside `bytes` and both of its ends fall between characters.
    pub open spec fn fits(self, bytes: Seq<u8>) -> bool {
        &&& self.from <= self.to <= bytes.len()
        &&& is_char_boundary(bytes, self.from as int)
        &&& is_char_boundary(bytes, self.to as int)
    }

    /// The bytes of `bytes` that the span covers.
    pub open spec fn cut(self, bytes: Seq<u8>) -> Seq<u8> {
        bytes.subrange(self.from as int, self.to as int)
    }

    /// The part of `src` that the span covers.
    pub fn slice(self, src: &str) -> (text: &str)
        requires
            self.fits(src.spec_bytes()),
        ensures
            text.spec_bytes() == self.cut(src.spec_bytes()),
            text@ == decode_utf8(self.cut(src.spec_bytes())),
    {
        broadcast use group_utf8_lib;

        let ghost bytes = src.spec_bytes();
        let (head, _) = src.split_at(self.to as usize);
        proof {
            let prefix = bytes.subrange(0, self.to as int);
            assert(head.spec_bytes() == prefix);
            assert(valid_utf8(prefix));
            if self.from < self.to {
                assert(prefix[self.from as int] == bytes[self.from as int]);
                is_char_boundary_iff_not_is_continuation_byte(bytes, self.from as int);
                is_char_boundary_iff_not_is_continuation_byte(prefix, self.from as int);
            } else {
                is_char_boundary_start_end_of_seq(prefix);
            }
        }
        let (_, text) = head.split_at(self.from as usize);
        proof {
            assert(text.spec_bytes() =~= self.cut(bytes));
            encode_utf8_decode_utf8(text@);
        }
        text
    }

    /// The span from the start of `self` to the end of `other`.
    pub fn to(self, other: Span) -> (joined: Span)
        ensures
            joined == (Span { from: self.from, to: other.to }),
    {
        Span { from: self.from, to: other.to }
    }

    /// The gap that lies after `self` and before `other`.
    pub fn between(self, other: Span) -> (gap: Span)
        ensures
            gap == (Span { from: self.to, to: other.from }),
    {
        Span { from: self.to, to: other.from }
    }

    /// The one-byte span at `pos`.
    pub fn point(pos: u32) -> (span: Span)
        requires
            pos < u32::MAX,
        ensures
            span == (Span { from: pos, to: (pos + 1) as u32 }),
    {
        Span { from: pos, to: pos + 1 }
    }

    pub fn new(from: u32, to: u32) -> (span: Span)
        ensures
            span == (Span { from, to }),
    {
        Span { from, to }
    }

    /// The span moved right by `offset` bytes.
    pub fn offset(self, offset: u32) -> (moved: Span)
        requires
            self.from + offset <= u32::MAX,
            self.to + offset <= u32::MAX,
        ensures
            moved == (Span { from: (self.from + offset) as u32, to: (self.to + offset) as u32 }),
    {
        Span { from: self.from + offset, to: self.to + offset }
    }

    /// The number of bytes covered.
    pub fn len(&self) -> (n: u32)
        requires
            self.from <= self.to,
        ensures
            n == self.to - self.from,
    {
        self.to - self.from
    }

    pub fn is_empty(&self) -> (empty: bool)
        requires
            self.from <= self.to,
        ensures
            empty == (self.from == self.to),
    {
        self.len() == 0
    }
}

} // verus!
