//! The lexer: a cursor over source text that hands out one lexeme at a
//! time, with a single slot of lookahead.

pub use crate::scan::{Advance, DigitBase, Lexeme};
use crate::scan::{
    comment_end, dec_digit, digit, digits_end, digits_found, has, id_continue, id_start,
    ident_end, lemma_ends, lemma_lexeme_boundary, lemma_lexeme_bounds, lexeme_at, number_end,
    other_at, other_end, string_end, ws_end, ws_width, BACKSLASH, CARRIAGE_RETURN, CLOSE_BRACKET,
    COLON, COMMA, FORM_FEED, NEWLINE, OPEN_BRACKET, QUOTE, SEMICOLON, SPACE, TAB, UNDERSCORE,
    VERTICAL_TAB,
};
use crate::span::Span;
use vstd::prelude::*;
use vstd::string::StringSliceAdditionalSpecFns;
use vstd::utf8::*;

verus! {

/// Where a lexer stands: the offset of the next byte to scan, the number of
/// the line it lies on, the offset at which that line starts, and the
/// lexeme that was looked at but not yet taken.
pub struct LexState {
    pub pos: u32,
    pub line: u32,
    pub line_start: u32,
    pub prev: Option<Advance>,
}

impl LexState {
    /// The state before anything was scanned.
    pub open spec fn start() -> LexState {
        LexState { pos: 0, line: 0, line_start: 0, prev: None }
    }

    /// The state is one that scanning `src` can reach: the cursor stands
    /// between two characters of the text, and a lexeme held back lies in it.
    pub open spec fn wf(self, src: Seq<u8>) -> bool {
        &&& valid_utf8(src)
        &&& src.len() < u32::MAX
        &&& self.pos <= src.len()
        &&& self.line <= self.pos
        &&& self.line_start <= self.pos
        &&& is_char_boundary(src, self.pos as int)
        &&& match self.prev {
            Some(ad) => sound(src, ad),
            None => true,
        }
    }

    /// The lexeme that starts at the cursor and the state behind it. At the
    /// end of the input that is the end-of-file lexeme, a point span at the
    /// end, and the state stays.
    pub open spec fn scan(self, src: Seq<u8>) -> (Advance, LexState) {
        if self.pos >= src.len() {
            (
                Advance {
                    lex: Lexeme::Eof,
                    line: self.line,
                    offset: self.line_start,
                    span: Span { from: self.pos, to: (self.pos + 1) as u32 },
                },
                self,
            )
        } else {
            let (lex, end) = lexeme_at(src, self.pos as int);
            let ad = Advance {
                lex,
                line: self.line,
                offset: self.line_start,
                span: Span { from: self.pos, to: end as u32 },
            };
            if lex is Eol {
                (
                    ad,
                    LexState {
                        pos: end as u32,
                        line: (self.line + 1) as u32,
                        line_start: end as u32,
                        prev: self.prev,
                    },
                )
            } else {
                (ad, LexState { pos: end as u32, ..self })
            }
        }
    }

    /// The next lexeme, taken: the one held back if there is one, else the
    /// one scanned at the cursor.
    pub open spec fn advance(self, src: Seq<u8>) -> (Advance, LexState) {
        match self.prev {
            Some(ad) => (ad, LexState { prev: None, ..self }),
            None => self.scan(src),
        }
    }

    /// The next lexeme, looked at: it is held back for the next call.
    pub open spec fn peek(self, src: Seq<u8>) -> (Advance, LexState) {
        match self.prev {
            Some(ad) => (ad, self),
            None => (self.scan(src).0, LexState { prev: Some(self.scan(src).0), ..self.scan(src).1 }),
        }
    }

    /// The state without the lexeme held back.
    pub open spec fn pop_peek(self) -> LexState {
        LexState { prev: None, ..self }
    }

    /// How much is left before the end of the input is reached: the bytes
    /// not yet scanned, and one more for a lexeme held back.
    pub open spec fn left(self, src: Seq<u8>) -> nat {
        (src.len() - self.pos + if self.prev is Some {
            1int
        } else {
            0int
        }) as nat
    }
}

/// A lexeme lies in the text: it is the end-of-file lexeme, or its span is a
/// piece of the text that is text itself.
pub open spec fn sound(src: Seq<u8>, ad: Advance) -> bool {
    ad.lex is Eof || (ad.span.from < ad.span.to && ad.span.fits(src))
}

/// Scanning keeps a state well-formed, yields a lexeme that lies in the
/// text and starts at the cursor, and moves the cursor to its end; only at
/// the end of the input does it yield the end-of-file lexeme.
pub proof fn lemma_scan(src: Seq<u8>, t: LexState)
    requires
        t.wf(src),
    ensures
        t.scan(src).1.wf(src),
        sound(src, t.scan(src).0),
        t.scan(src).1.prev == t.prev,
        t.scan(src).0.span.from == t.pos,
        t.scan(src).0.lex is Eof <==> t.pos == src.len(),
        t.scan(src).0.lex is Eof ==> t.scan(src).1 == t,
        !(t.scan(src).0.lex is Eof) ==> t.scan(src).0.span.to == t.scan(src).1.pos && t.pos
            < t.scan(src).1.pos,
{
    if t.pos < src.len() {
        lemma_lexeme_bounds(src, t.pos as int);
        lemma_lexeme_boundary(src, t.pos as int);
    }
}

/// The lexemes of `src` from state `t` on, up to the end of the input.
pub open spec fn lexemes_from(src: Seq<u8>, t: LexState) -> Seq<Advance>
    decreases src.len() - t.pos,
{
    if t.pos < src.len() < u32::MAX {
        proof {
            lemma_lexeme_bounds(src, t.pos as int);
        }
        seq![t.scan(src).0] + lexemes_from(src, t.scan(src).1)
    } else {
        Seq::empty()
    }
}

/// The lexemes of `src`.
pub open spec fn lexemes(src: Seq<u8>) -> Seq<Advance> {
    lexemes_from(src, LexState::start())
}

/// The bytes that the spans of `ads` cover, one span after the other.
pub open spec fn joined(src: Seq<u8>, ads: Seq<Advance>) -> Seq<u8>
    decreases ads.len(),
{
    if ads.len() == 0 {
        Seq::empty()
    } else {
        ads[0].span.cut(src) + joined(src, ads.drop_first())
    }
}

/// The spans of the lexemes from a state on make up the rest of the text.
pub(crate) proof fn lemma_lexemes_join(src: Seq<u8>, t: LexState)
    requires
        t.wf(src),
    ensures
        joined(src, lexemes_from(src, t)) == src.subrange(t.pos as int, src.len() as int),
        forall|k: int| 0 <= k < lexemes_from(src, t).len() ==> sound(src, #[trigger] lexemes_from(src, t)[k]),
    decreases src.len() - t.pos,
{
    if t.pos < src.len() {
        lemma_scan(src, t);
        let (ad, next) = t.scan(src);
        lemma_lexemes_join(src, next);
        let rest = lexemes_from(src, next);
        let all = lexemes_from(src, t);
        assert(all == seq![ad] + rest);
        assert(all.drop_first() =~= rest);
        assert(joined(src, all) =~= src.subrange(t.pos as int, src.len() as int));
        assert forall|k: int| 0 <= k < all.len() implies sound(src, #[trigger] all[k]) by {
            if k > 0 {
                assert(all[k] == rest[k - 1]);
            }
        }
    } else {
        assert(joined(src, lexemes_from(src, t)) =~= src.subrange(
            t.pos as int,
            src.len() as int,
        ));
    }
}

/// Lexer completeness: the spans of the lexemes of a text, one after the
/// other, cover the text exactly, and each of them is a piece of text.
pub proof fn lemma_lexer_complete(src: &str)
    requires
        src.spec_bytes().len() < u32::MAX,
    ensures
        joined(src.spec_bytes(), lexemes(src.spec_bytes())) == src.spec_bytes(),
        forall|k: int|
            0 <= k < lexemes(src.spec_bytes()).len() ==> (#[trigger] lexemes(
                src.spec_bytes(),
            )[k]).span.fits(src.spec_bytes()),
{
    let bytes = src.spec_bytes();
    encode_utf8_valid_utf8(src@);
    lemma_lexemes_join(bytes, LexState::start());
    assert(bytes.subrange(0, bytes.len() as int) =~= bytes);
    lemma_lexemes_no_eof(bytes, LexState::start());
}

/// None of the lexemes before the end of the input is the end-of-file lexeme.
pub(crate) proof fn lemma_lexemes_no_eof(src: Seq<u8>, t: LexState)
    requires
        t.wf(src),
    ensures
        forall|k: int| 0 <= k < lexemes_from(src, t).len() ==> !((#[trigger] lexemes_from(src, t)[k]).lex is Eof),
    decreases src.len() - t.pos,
{
    if t.pos < src.len() {
        lemma_scan(src, t);
        let (ad, next) = t.scan(src);
        lemma_lexemes_no_eof(src, next);
        let rest = lexemes_from(src, next);
        let all = lexemes_from(src, t);
        assert(all == seq![ad] + rest);
        assert forall|k: int| 0 <= k < all.len() implies !((#[trigger] all[k]).lex is Eof) by {
            if k > 0 {
                assert(all[k] == rest[k - 1]);
            }
        }
    }
}

/// A source of lexemes with one slot of lookahead.
pub trait Lexer {
    /// The bytes of the text that is scanned.
    spec fn source(&self) -> Seq<u8>;

    /// Where the lexer stands.
    spec fn state(&self) -> LexState;

    /// Drops the lexeme held back, if there is one, and returns it. The next
    /// call scans at the cursor again.
    fn pop_peek(&mut self) -> (held: Option<Advance>)
        requires
            old(self).state().wf(old(self).source()),
        ensures
            final(self).source() == old(self).source(),
            final(self).state() == old(self).state().pop_peek(),
            final(self).state().wf(final(self).source()),
            held == old(self).state().prev,
    ;

    /// Returns the next lexeme and holds it back for the next call.
    fn peek(&mut self) -> (ad: Advance)
        requires
            old(self).state().wf(old(self).source()),
        ensures
            final(self).source() == old(self).source(),
            final(self).state() == old(self).state().peek(old(self).source()).1,
            final(self).state().wf(final(self).source()),
            ad == old(self).state().peek(old(self).source()).0,
            sound(final(self).source(), ad),
    ;

    /// Takes the next lexeme.
    fn advance(&mut self) -> (ad: Advance)
        requires
            old(self).state().wf(old(self).source()),
        ensures
            final(self).source() == old(self).source(),
            final(self).state() == old(self).state().advance(old(self).source()).1,
            final(self).state().wf(final(self).source()),
            ad == old(self).state().advance(old(self).source()).0,
            sound(final(self).source(), ad),
    ;
}

/// The lexer proper.
#[derive(Debug, Clone)]
pub struct BaseLexer<'a> {
    pub src: &'a str,
    prev: Option<Advance>,
    pos: u32,
    line: u32,
    line_start: u32,
}

fn is_id_start(first: u8) -> (yes: bool)
    ensures
        yes == id_start(first),
{
    (0x61 <= first && first <= 0x7A) || (0x41 <= first && first <= 0x5A) || first == UNDERSCORE
}

fn is_id_continue(ch: u8) -> (yes: bool)
    ensures
        yes == id_continue(ch),
{
    is_id_start(ch) || is_dec_digit(ch)
}

fn is_dec_digit(ch: u8) -> (yes: bool)
    ensures
        yes == dec_digit(ch),
{
    0x30 <= ch && ch <= 0x39
}

fn is_digit(ch: u8, hex: bool) -> (yes: bool)
    ensures
        yes == digit(ch, hex),
{
    is_dec_digit(ch) || (hex && ((0x61 <= ch && ch <= 0x66) || (0x41 <= ch && ch <= 0x46)))
}

/// The width of the whitespace character other than a line break that
/// starts at byte `i`, zero if none does.
fn ws_not_nl(bytes: &[u8], i: usize) -> (width: u32)
    requires
        i < bytes@.len(),
    ensures
        width == ws_width(bytes@, i as int),
{
    let b = bytes[i];
    let n = bytes.len();
    if b == TAB || b == VERTICAL_TAB || b == FORM_FEED || b == CARRIAGE_RETURN || b == SPACE {
        1
    } else if b == 0xC2 && n - i > 1 && bytes[i + 1] == 0x85 {
        2
    } else if b == 0xE2 && n - i > 2 && bytes[i + 1] == 0x80 && (bytes[i + 2] == 0x8E || bytes[i
        + 2] == 0x8F || bytes[i + 2] == 0xA8 || bytes[i + 2] == 0xA9) {
        3
    } else {
        0
    }
}

/// Whether no recognised lexeme starts at byte `i`.
fn is_other(bytes: &[u8], i: usize) -> (yes: bool)
    requires
        i < bytes@.len(),
    ensures
        yes == other_at(bytes@, i as int),
{
    let b = bytes[i];
    !(ws_not_nl(bytes, i) > 0 || is_id_start(b) || is_dec_digit(b) || b == NEWLINE || b == COMMA
        || b == OPEN_BRACKET || b == CLOSE_BRACKET || b == COLON || b == QUOTE || b == SEMICOLON)
}

impl<'a> BaseLexer<'a> {
    /// The bytes of the text.
    spec fn bytes(&self) -> Seq<u8> {
        self.src.spec_bytes()
    }

    /// The cursor lies in the text, and the text is short enough for spans.
    spec fn in_text(&self) -> bool {
        self.pos <= self.bytes().len() < u32::MAX
    }

    /// The lexer with its cursor at `pos`.
    spec fn at(&self, pos: int) -> BaseLexer<'a> {
        BaseLexer { pos: pos as u32, ..*self }
    }

    /// The offset of the next byte to scan.
    spec fn cursor(&self) -> int {
        self.pos as int
    }

    /// A lexer at the start of `src`. Offsets are kept in 32 bits, so the
    /// text must be shorter than that reaches.
    pub fn new(src: &'a str) -> (lexer: BaseLexer<'a>)
        requires
            src.len() < u32::MAX,
        ensures
            lexer.source() == src.spec_bytes(),
            lexer.state() == LexState::start(),
            lexer.state().wf(lexer.source()),
    {
        // Taking the length of the bytes shows that it fits a machine word.
        let _len = src.as_bytes().len();
        proof {
            encode_utf8_valid_utf8(src@);
            is_char_boundary_start_end_of_seq(src.spec_bytes());
        }
        BaseLexer { src, prev: None, pos: 0, line: 0, line_start: 0 }
    }

    fn whitespace(&mut self) -> (lex: Lexeme)
        requires
            old(self).in_text(),
        ensures
            lex == Lexeme::Whitespace,
            *final(self) == old(self).at(ws_end(old(self).bytes(), old(self).cursor())),
    {
        let bytes = self.src.as_bytes();
        proof {
            lemma_ends(bytes@, self.pos as int);
        }
        while (self.pos as usize) < bytes.len()
            invariant
                bytes@ == self.bytes(),
                self.in_text(),
                *self == old(self).at(self.cursor()),
                ws_end(bytes@, old(self).cursor()) == ws_end(bytes@, self.cursor()),
            ensures
                *self == old(self).at(ws_end(bytes@, old(self).cursor())),
            decreases bytes@.len() - self.pos,
        {
            let width = ws_not_nl(bytes, self.pos as usize);
            if width == 0 {
                break;
            }
            self.pos += width;
        }
        Lexeme::Whitespace
    }

    fn ident(&mut self) -> (lex: Lexeme)
        requires
            old(self).in_text(),
        ensures
            lex == Lexeme::Ident,
            *final(self) == old(self).at(ident_end(old(self).bytes(), old(self).cursor())),
    {
        let bytes = self.src.as_bytes();
        while (self.pos as usize) < bytes.len() && is_id_continue(bytes[self.pos as usize])
            invariant
                bytes@ == self.bytes(),
                self.in_text(),
                *self == old(self).at(self.cursor()),
                ident_end(bytes@, old(self).cursor()) == ident_end(bytes@, self.cursor()),
            decreases bytes@.len() - self.pos,
        {
            self.pos += 1;
        }
        Lexeme::Ident
    }

    /// Scans the rest of a comment, up to the line break behind it.
    fn comment(&mut self) -> (lex: Lexeme)
        requires
            old(self).in_text(),
        ensures
            lex == Lexeme::Eol(true),
            *final(self) == old(self).at(comment_end(old(self).bytes(), old(self).cursor())),
    {
        let bytes = self.src.as_bytes();
        while !self.is_eof() && bytes[self.pos as usize] != NEWLINE
            invariant
                bytes@ == self.bytes(),
                self.in_text(),
                *self == old(self).at(self.cursor()),
                comment_end(bytes@, old(self).cursor()) == comment_end(bytes@, self.cursor()),
            decreases bytes@.len() - self.pos,
        {
            self.pos += 1;
        }
        Lexeme::Eol(true)
    }

    /// Scans the rest of a string literal, the closing quote included.
    fn string(&mut self) -> (lex: Lexeme)
        requires
            old(self).in_text(),
        ensures
            lex == Lexeme::Str,
            *final(self) == old(self).at(string_end(old(self).bytes(), old(self).cursor())),
    {
        let bytes = self.src.as_bytes();
        while !self.is_eof()
            invariant_except_break
                string_end(bytes@, old(self).cursor()) == string_end(bytes@, self.cursor()),
            invariant
                bytes@ == self.bytes(),
                self.in_text(),
                *self == old(self).at(self.cursor()),
            ensures
                *self == old(self).at(string_end(bytes@, old(self).cursor())),
            decreases bytes@.len() - self.pos,
        {
            let c = bytes[self.pos as usize];
            self.pos += 1;
            if c == QUOTE {
                break;
            }
            if c == BACKSLASH && (self.pos as usize) < bytes.len() {
                let next = bytes[self.pos as usize];
                if next == BACKSLASH || next == QUOTE {
                    // Skip the escaped character.
                    self.pos += 1;
                }
            }
        }
        Lexeme::Str
    }

    /// Scans the rest of a run of unrecognised bytes.
    fn other(&mut self) -> (lex: Lexeme)
        requires
            old(self).in_text(),
        ensures
            lex == Lexeme::Other,
            *final(self) == old(self).at(other_end(old(self).bytes(), old(self).cursor())),
    {
        let bytes = self.src.as_bytes();
        while (self.pos as usize) < bytes.len() && is_other(bytes, self.pos as usize)
            invariant
                bytes@ == self.bytes(),
                self.in_text(),
                *self == old(self).at(self.cursor()),
                other_end(bytes@, old(self).cursor()) == other_end(bytes@, self.cursor()),
            decreases bytes@.len() - self.pos,
        {
            self.pos += 1;
        }
        Lexeme::Other
    }

    /// Scans a run of decimal digits and underscores; tells whether it held
    /// a digit.
    fn eat_decimal_digits(&mut self) -> (has_digits: bool)
        requires
            old(self).in_text(),
        ensures
            has_digits == digits_found(old(self).bytes(), old(self).cursor(), false),
            *final(self) == old(self).at(digits_end(old(self).bytes(), old(self).cursor(), false)),
    {
        self.eat_digits(false)
    }

    /// Scans a run of hexadecimal digits and underscores; tells whether it
    /// held a digit.
    fn eat_hexadecimal_digits(&mut self) -> (has_digits: bool)
        requires
            old(self).in_text(),
        ensures
            has_digits == digits_found(old(self).bytes(), old(self).cursor(), true),
            *final(self) == old(self).at(digits_end(old(self).bytes(), old(self).cursor(), true)),
    {
        self.eat_digits(true)
    }

    fn eat_digits(&mut self, hex: bool) -> (has_digits: bool)
        requires
            old(self).in_text(),
        ensures
            has_digits == digits_found(old(self).bytes(), old(self).cursor(), hex),
            *final(self) == old(self).at(digits_end(old(self).bytes(), old(self).cursor(), hex)),
    {
        let bytes = self.src.as_bytes();
        let mut has_digits = false;
        while (self.pos as usize) < bytes.len()
            invariant
                bytes@ == self.bytes(),
                self.in_text(),
                *self == old(self).at(self.cursor()),
                digits_end(bytes@, old(self).cursor(), hex) == digits_end(
                    bytes@,
                    self.cursor(),
                    hex,
                ),
                digits_found(bytes@, old(self).cursor(), hex) == (has_digits || digits_found(
                    bytes@,
                    self.cursor(),
                    hex,
                )),
            ensures
                *self == old(self).at(digits_end(bytes@, old(self).cursor(), hex)),
                has_digits == digits_found(bytes@, old(self).cursor(), hex),
            decreases bytes@.len() - self.pos,
        {
            let b = bytes[self.pos as usize];
            if is_digit(b, hex) {
                has_digits = true;
            } else if b != UNDERSCORE {
                break;
            }
            self.pos += 1;
        }
        has_digits
    }

    /// Scans the rest of a number whose first digit was `first_digit`.
    fn number(&mut self, first_digit: u8) -> (base: DigitBase)
        requires
            old(self).in_text(),
            has(old(self).bytes(), old(self).cursor() - 1, first_digit),
        ensures
            base == number_end(old(self).bytes(), old(self).cursor()).0,
            *final(self) == old(self).at(number_end(old(self).bytes(), old(self).cursor()).1),
    {
        if first_digit == 0x30 {
            let start = self.pos;
            let (base, hex) = match self.first() {
                Some(0x62) => (DigitBase::Binary, false),
                Some(0x6F) => (DigitBase::Octal, false),
                Some(0x78) => (DigitBase::Hex, true),
                _ => {
                    self.eat_decimal_digits();
                    return DigitBase::Decimal;
                },
            };
            self.bump();
            if self.eat_digits(hex) {
                base
            } else {
                // No digit behind the prefix: the number is the zero alone.
                self.pos = start;
                DigitBase::Decimal
            }
        } else {
            self.eat_decimal_digits();
            DigitBase::Decimal
        }
    }

    /// The byte at the cursor.
    fn first(&self) -> (b: Option<u8>)
        requires
            self.in_text(),
        ensures
            match b {
                Some(b) => has(self.bytes(), self.cursor(), b),
                None => self.cursor() == self.bytes().len(),
            },
    {
        let bytes = self.src.as_bytes();
        if (self.pos as usize) < bytes.len() {
            Some(bytes[self.pos as usize])
        } else {
            None
        }
    }

    /// Moves the cursor over one byte.
    fn bump(&mut self)
        requires
            old(self).in_text(),
            old(self).cursor() < old(self).bytes().len(),
        ensures
            *final(self) == old(self).at(old(self).cursor() + 1),
    {
        self.pos += 1;
    }

    /// Whether there is nothing more to scan.
    fn is_eof(&self) -> (eof: bool)
        requires
            self.in_text(),
        ensures
            eof == (self.cursor() == self.bytes().len()),
    {
        self.pos as usize >= self.src.as_bytes().len()
    }

    fn pos(&self) -> (pos: u32)
        ensures
            pos == self.cursor(),
    {
        self.pos
    }
}

impl<'a> Lexer for BaseLexer<'a> {
    closed spec fn source(&self) -> Seq<u8> {
        self.src.spec_bytes()
    }

    closed spec fn state(&self) -> LexState {
        LexState { pos: self.pos, line: self.line, line_start: self.line_start, prev: self.prev }
    }

    fn pop_peek(&mut self) -> (held: Option<Advance>) {
        let held = self.prev;
        self.prev = None;
        held
    }

    fn peek(&mut self) -> (ad: Advance) {
        match self.prev {
            Some(prev) => prev,
            None => {
                let next = self.advance();
                self.prev = Some(next);
                next
            },
        }
    }

    fn advance(&mut self) -> (ad: Advance) {
        match self.prev {
            Some(prev) => {
                self.prev = None;
                return prev;
            },
            None => {},
        }
        proof {
            lemma_scan(self.source(), self.state());
            if self.pos < self.source().len() {
                lemma_lexeme_bounds(self.source(), self.pos as int);
                lemma_ends(self.source(), self.pos + 1);
            }
        }
        let line = self.line;
        let offset = self.line_start;
        let start = self.pos();
        let first_char = match self.first() {
            Some(first_char) => first_char,
            None => {
                return Advance { lex: Lexeme::Eof, line, offset, span: Span::point(start) };
            },
        };
        let lex = if first_char == SEMICOLON {
            self.bump();
            self.comment()
        } else if ws_not_nl(self.src.as_bytes(), self.pos as usize) > 0 {
            self.whitespace()
        } else if is_id_start(first_char) {
            self.bump();
            self.ident()
        } else if is_dec_digit(first_char) {
            self.bump();
            Lexeme::Digit(self.number(first_char))
        } else if first_char == NEWLINE {
            self.bump();
            Lexeme::Eol(false)
        } else if first_char == COMMA {
            self.bump();
            Lexeme::Comma
        } else if first_char == OPEN_BRACKET {
            self.bump();
            Lexeme::OpenBracket
        } else if first_char == CLOSE_BRACKET {
            self.bump();
            Lexeme::CloseBracket
        } else if first_char == COLON {
            self.bump();
            Lexeme::Colon
        } else if first_char == QUOTE {
            self.bump();
            self.string()
        } else {
            self.bump();
            self.other()
        };
        match lex {
            Lexeme::Eol(_) => {
                self.line += 1;
                self.line_start = self.pos();
            },
            _ => {},
        }
        Advance { lex, line, offset, span: Span::new(start, self.pos()) }
    }
}

impl<'a> Default for BaseLexer<'a> {
    /// A lexer on the empty text.
    fn default() -> (lexer: BaseLexer<'a>)
        ensures
            lexer.source() == Seq::<u8>::empty(),
            lexer.state() == LexState::start(),
            lexer.state().wf(lexer.source()),
    {
        proof {
            reveal_strlit("");
            assert("".spec_bytes() =~= Seq::<u8>::empty());
        }
        BaseLexer::new("")
    }
}

/// A lexer that keeps a log of every lexeme it scans. A lexeme that was
/// looked at and is taken later is logged once, when it is scanned.
#[derive(Debug, Clone)]
pub struct RecordedLexer<'a> {
    pub base: BaseLexer<'a>,
    store: Vec<Advance>,
}

impl<'a> RecordedLexer<'a> {
    /// The log as a sequence.
    pub closed spec fn log(&self) -> Seq<Advance> {
        self.store@
    }

    /// A recording lexer at the start of `src`, with an empty log.
    pub fn new(src: &'a str) -> (lexer: RecordedLexer<'a>)
        requires
            src.len() < u32::MAX,
        ensures
            lexer.source() == src.spec_bytes(),
            lexer.state() == LexState::start(),
            lexer.state().wf(lexer.source()),
            lexer.log() == Seq::<Advance>::empty(),
    {
        let base = BaseLexer::new(src);
        let store = Vec::new();
        RecordedLexer { base, store }
    }

    /// The lexemes scanned so far, in the order in which they were scanned.
    pub fn store(&self) -> (log: &[Advance])
        ensures
            log@ == self.log(),
    {
        self.store.as_slice()
    }

    /// The lexer and its log.
    pub fn parts(self) -> (parts: (BaseLexer<'a>, Vec<Advance>))
        ensures
            parts.0.source() == self.source(),
            parts.0.state() == self.state(),
            parts.1@ == self.log(),
    {
        (self.base, self.store)
    }
}

impl<'a> Lexer for RecordedLexer<'a> {
    closed spec fn source(&self) -> Seq<u8> {
        self.base.source()
    }

    closed spec fn state(&self) -> LexState {
        self.base.state()
    }

    fn pop_peek(&mut self) -> (held: Option<Advance>)
        ensures
            final(self).log() == old(self).log(),
    {
        self.base.pop_peek()
    }

    fn peek(&mut self) -> (ad: Advance)
        ensures
            final(self).log() == if old(self).state().prev is Some {
                old(self).log()
            } else {
                old(self).log().push(ad)
            },
    {
        if self.base.prev.is_some() {
            self.base.peek()
        } else {
            let ad = self.base.peek();
            self.store.push(ad);
            ad
        }
    }

    fn advance(&mut self) -> (ad: Advance)
        ensures
            final(self).log() == if old(self).state().prev is Some {
                old(self).log()
            } else {
                old(self).log().push(ad)
            },
    {
        if self.base.prev.is_some() {
            self.base.advance()
        } else {
            let ad = self.base.advance();
            self.store.push(ad);
            ad
        }
    }
}

} // verus!
