//! The lexical grammar: what the first lexeme of a byte string is.
//!
//! Source text is taken as its UTF-8 bytes. Every recognised character is
//! ASCII but for five whitespace characters, which are recognised by their
//! encodings, so that spans count bytes.

use crate::span::Span;
use vstd::prelude::*;
use vstd::utf8::*;

verus! {

/// The base that the prefix of a number selects.
#[derive(Debug, Clone, Copy, PartialEq, Eq, Structural)]
pub enum DigitBase {
    Binary,
    Octal,
    Decimal,
    Hex,
}

/// The kind of a lexeme.
#[derive(Debug, Clone, Copy, PartialEq, Eq, Structural)]
pub enum Lexeme {
    Whitespace,
    Ident,
    Str,
    Comma,
    Colon,
    OpenBracket,
    CloseBracket,
    Digit(DigitBase),
    /// The end of a line: a line break, or with `true` a comment, which
    /// runs up to the line break behind it and leaves the break to be the
    /// next lexeme. Either one starts a new line in the lexer's count.
    Eol(bool),
    Eof,
    Other,
}

/// A lexeme as the lexer hands it out: its kind, the number of its line, the
/// offset at which that line starts, and its span.
#[derive(Debug, Clone, Copy, PartialEq, Eq, Structural)]
pub struct Advance {
    pub lex: Lexeme,
    pub line: u32,
    pub offset: u32,
    pub span: Span,
}

pub const TAB: u8 = 0x09;

pub const NEWLINE: u8 = 0x0A;

pub const VERTICAL_TAB: u8 = 0x0B;

pub const FORM_FEED: u8 = 0x0C;

pub const CARRIAGE_RETURN: u8 = 0x0D;

pub const SPACE: u8 = 0x20;

pub const QUOTE: u8 = 0x22;

pub const COMMA: u8 = 0x2C;

pub const COLON: u8 = 0x3A;

pub const SEMICOLON: u8 = 0x3B;

pub const OPEN_BRACKET: u8 = 0x5B;

pub const BACKSLASH: u8 = 0x5C;

pub const CLOSE_BRACKET: u8 = 0x5D;

pub const UNDERSCORE: u8 = 0x5F;

/// A letter or an underscore.
pub open spec fn id_start(b: u8) -> bool {
    0x61 <= b <= 0x7A || 0x41 <= b <= 0x5A || b == UNDERSCORE
}

/// A letter, a digit or an underscore.
pub open spec fn id_continue(b: u8) -> bool {
    id_start(b) || dec_digit(b)
}

pub open spec fn dec_digit(b: u8) -> bool {
    0x30 <= b <= 0x39
}

pub open spec fn hex_digit(b: u8) -> bool {
    dec_digit(b) || 0x61 <= b <= 0x66 || 0x41 <= b <= 0x46
}

/// A digit of a number: a hexadecimal one with `hex`, else a decimal one.
pub open spec fn digit(b: u8, hex: bool) -> bool {
    if hex {
        hex_digit(b)
    } else {
        dec_digit(b)
    }
}

/// Byte `i` of `s` exists and is `b`.
pub open spec fn has(s: Seq<u8>, i: int, b: u8) -> bool {
    0 <= i < s.len() && s[i] == b
}

/// The number of bytes of the whitespace character other than a line break
/// that starts at byte `i`, or zero when none starts there. Besides tab,
/// vertical tab, form feed, carriage return and space these are U+0085,
/// U+200E, U+200F, U+2028 and U+2029.
pub open spec fn ws_width(s: Seq<u8>, i: int) -> int {
    if !(0 <= i < s.len()) {
        0
    } else if s[i] == TAB || s[i] == VERTICAL_TAB || s[i] == FORM_FEED || s[i] == CARRIAGE_RETURN
        || s[i] == SPACE {
        1
    } else if s[i] == 0xC2 && has(s, i + 1, 0x85) {
        2
    } else if s[i] == 0xE2 && has(s, i + 1, 0x80) && (has(s, i + 2, 0x8E) || has(s, i + 2, 0x8F)
        || has(s, i + 2, 0xA8) || has(s, i + 2, 0xA9)) {
        3
    } else {
        0
    }
}

/// A byte at which none of the recognised lexemes starts.
pub open spec fn other_at(s: Seq<u8>, i: int) -> bool {
    &&& 0 <= i < s.len()
    &&& ws_width(s, i) == 0
    &&& !id_start(s[i])
    &&& !dec_digit(s[i])
    &&& s[i] != NEWLINE
    &&& s[i] != COMMA
    &&& s[i] != OPEN_BRACKET
    &&& s[i] != CLOSE_BRACKET
    &&& s[i] != COLON
    &&& s[i] != QUOTE
    &&& s[i] != SEMICOLON
}

/// Where the whitespace that starts at `i` ends.
pub open spec fn ws_end(s: Seq<u8>, i: int) -> int
    decreases s.len() - i,
{
    if ws_width(s, i) > 0 {
        ws_end(s, i + ws_width(s, i))
    } else {
        i
    }
}

/// Where the run of letters, digits and underscores that starts at `i` ends.
pub open spec fn ident_end(s: Seq<u8>, i: int) -> int
    decreases s.len() - i,
{
    if 0 <= i < s.len() && id_continue(s[i]) {
        ident_end(s, i + 1)
    } else {
        i
    }
}

/// Where the run of digits and underscores that starts at `i` ends.
pub open spec fn digits_end(s: Seq<u8>, i: int, hex: bool) -> int
    decreases s.len() - i,
{
    if 0 <= i < s.len() && (digit(s[i], hex) || s[i] == UNDERSCORE) {
        digits_end(s, i + 1, hex)
    } else {
        i
    }
}

/// Whether the run of digits and underscores that starts at `i` holds a digit.
pub open spec fn digits_found(s: Seq<u8>, i: int, hex: bool) -> bool
    decreases s.len() - i,
{
    if 0 <= i < s.len() && digit(s[i], hex) {
        true
    } else if 0 <= i < s.len() && s[i] == UNDERSCORE {
        digits_found(s, i + 1, hex)
    } else {
        false
    }
}

/// Where the comment whose text starts at `i` ends: at the next line break,
/// which is no part of it, or at the end of the input.
pub open spec fn comment_end(s: Seq<u8>, i: int) -> int
    decreases s.len() - i,
{
    if 0 <= i < s.len() && s[i] != NEWLINE {
        comment_end(s, i + 1)
    } else {
        i
    }
}

/// Where the string literal whose content starts at `i` ends: behind the
/// next quote that no backslash escapes, or at the end of the input. A
/// backslash escapes a quote or a backslash that follows it.
pub open spec fn string_end(s: Seq<u8>, i: int) -> int
    decreases s.len() - i,
{
    if !(0 <= i < s.len()) {
        i
    } else if s[i] == QUOTE {
        i + 1
    } else if s[i] == BACKSLASH && (has(s, i + 1, BACKSLASH) || has(s, i + 1, QUOTE)) {
        string_end(s, i + 2)
    } else {
        string_end(s, i + 1)
    }
}

/// Where the run of unrecognised bytes that starts at `i` ends.
pub open spec fn other_end(s: Seq<u8>, i: int) -> int
    decreases s.len() - i,
{
    if other_at(s, i) {
        other_end(s, i + 1)
    } else {
        i
    }
}

/// The base and the end of the number whose first digit lies just before
/// `i`. A leading `0` with `b`, `o` or `x` behind it selects a base if a
/// digit follows the letter; if none does the number is the `0` alone.
pub open spec fn number_end(s: Seq<u8>, i: int) -> (DigitBase, int) {
    if has(s, i - 1, 0x30) && has(s, i, 0x62) {
        if digits_found(s, i + 1, false) {
            (DigitBase::Binary, digits_end(s, i + 1, false))
        } else {
            (DigitBase::Decimal, i)
        }
    } else if has(s, i - 1, 0x30) && has(s, i, 0x6F) {
        if digits_found(s, i + 1, false) {
            (DigitBase::Octal, digits_end(s, i + 1, false))
        } else {
            (DigitBase::Decimal, i)
        }
    } else if has(s, i - 1, 0x30) && has(s, i, 0x78) {
        if digits_found(s, i + 1, true) {
            (DigitBase::Hex, digits_end(s, i + 1, true))
        } else {
            (DigitBase::Decimal, i)
        }
    } else {
        (DigitBase::Decimal, digits_end(s, i, false))
    }
}

/// The kind and the end of the lexeme that starts at byte `i` of `s`.
pub open spec fn lexeme_at(s: Seq<u8>, i: int) -> (Lexeme, int) {
    if s[i] == SEMICOLON {
        (Lexeme::Eol(true), comment_end(s, i + 1))
    } else if ws_width(s, i) > 0 {
        (Lexeme::Whitespace, ws_end(s, i))
    } else if id_start(s[i]) {
        (Lexeme::Ident, ident_end(s, i + 1))
    } else if dec_digit(s[i]) {
        (Lexeme::Digit(number_end(s, i + 1).0), number_end(s, i + 1).1)
    } else if s[i] == NEWLINE {
        (Lexeme::Eol(false), i + 1)
    } else if s[i] == COMMA {
        (Lexeme::Comma, i + 1)
    } else if s[i] == OPEN_BRACKET {
        (Lexeme::OpenBracket, i + 1)
    } else if s[i] == CLOSE_BRACKET {
        (Lexeme::CloseBracket, i + 1)
    } else if s[i] == COLON {
        (Lexeme::Colon, i + 1)
    } else if s[i] == QUOTE {
        (Lexeme::Str, string_end(s, i + 1))
    } else {
        (Lexeme::Other, other_end(s, i + 1))
    }
}

/// Every scan ends at or behind its start and inside the input.
pub proof fn lemma_ends(s: Seq<u8>, i: int)
    requires
        0 <= i <= s.len(),
    ensures
        i <= ws_end(s, i) <= s.len(),
        ws_width(s, i) > 0 ==> i < ws_end(s, i),
        i <= ident_end(s, i) <= s.len(),
        i <= digits_end(s, i, false) <= s.len(),
        i <= digits_end(s, i, true) <= s.len(),
        i <= comment_end(s, i) <= s.len(),
        i <= string_end(s, i) <= s.len(),
        i <= other_end(s, i) <= s.len(),
    decreases s.len() - i,
{
    if i < s.len() {
        lemma_ends(s, i + 1);
        if ws_width(s, i) > 0 {
            lemma_ends(s, i + ws_width(s, i));
        }
        if i + 2 <= s.len() {
            lemma_ends(s, i + 2);
        }
    }
}

/// A lexeme is not empty and ends inside the input.
pub proof fn lemma_lexeme_bounds(s: Seq<u8>, i: int)
    requires
        0 <= i < s.len(),
    ensures
        i < lexeme_at(s, i).1 <= s.len(),
{
    lemma_ends(s, i);
    lemma_ends(s, i + 1);
    if i + 2 <= s.len() {
        lemma_ends(s, i + 2);
    }
}

/// In UTF-8 text the character that starts at a character boundary ends at
/// one: one byte on for an ASCII byte, two or three bytes on for the leading
/// byte of a two-byte or three-byte encoding.
pub(crate) proof fn lemma_boundary_step(s: Seq<u8>, i: int)
    requires
        valid_utf8(s),
        0 <= i < s.len(),
        is_char_boundary(s, i),
    ensures
        s[i] <= 0x7F ==> is_char_boundary(s, i + 1),
        0xC0 <= s[i] <= 0xDF ==> i + 2 <= s.len() && is_char_boundary(s, i + 2),
        0xE0 <= s[i] <= 0xEF ==> i + 3 <= s.len() && is_char_boundary(s, i + 3),
{
    let suffix = s.subrange(i, s.len() as int);
    valid_utf8_split(s, i);
    assert(valid_first_scalar(suffix));
    let width = length_of_first_scalar(suffix);
    let rest = pop_first_scalar(suffix);
    assert(valid_utf8(rest));
    assert(suffix[0] == s[i]);
    if i + width == s.len() {
        is_char_boundary_start_end_of_seq(s);
    } else {
        assert(valid_first_scalar(rest));
        assert(rest[0] == s[i + width]);
        is_char_boundary_iff_not_is_continuation_byte(s, i + width);
    }
}

/// A byte of UTF-8 text that is ASCII stands at a character boundary, and
/// so does the byte behind it.
pub(crate) proof fn lemma_ascii_boundary(s: Seq<u8>, i: int)
    requires
        valid_utf8(s),
        0 <= i < s.len(),
        s[i] <= 0x7F,
    ensures
        is_char_boundary(s, i),
        is_char_boundary(s, i + 1),
{
    is_char_boundary_iff_not_is_continuation_byte(s, i);
    lemma_boundary_step(s, i);
}

proof fn lemma_ws_boundary(s: Seq<u8>, i: int)
    requires
        valid_utf8(s),
        0 <= i <= s.len(),
        is_char_boundary(s, i),
    ensures
        is_char_boundary(s, ws_end(s, i)),
    decreases s.len() - i,
{
    if ws_width(s, i) > 0 {
        lemma_boundary_step(s, i);
        lemma_ws_boundary(s, i + ws_width(s, i));
    }
}

proof fn lemma_ident_boundary(s: Seq<u8>, i: int)
    requires
        valid_utf8(s),
        0 <= i <= s.len(),
        is_char_boundary(s, i),
    ensures
        is_char_boundary(s, ident_end(s, i)),
    decreases s.len() - i,
{
    if i < s.len() && id_continue(s[i]) {
        lemma_boundary_step(s, i);
        lemma_ident_boundary(s, i + 1);
    }
}

proof fn lemma_digits_boundary(s: Seq<u8>, i: int, hex: bool)
    requires
        valid_utf8(s),
        0 <= i <= s.len(),
        is_char_boundary(s, i),
    ensures
        is_char_boundary(s, digits_end(s, i, hex)),
    decreases s.len() - i,
{
    if i < s.len() && (digit(s[i], hex) || s[i] == UNDERSCORE) {
        lemma_boundary_step(s, i);
        lemma_digits_boundary(s, i + 1, hex);
    }
}

proof fn lemma_comment_boundary(s: Seq<u8>, i: int)
    requires
        valid_utf8(s),
        0 <= i <= s.len(),
    ensures
        is_char_boundary(s, comment_end(s, i)),
    decreases s.len() - i,
{
    if i >= s.len() {
        is_char_boundary_start_end_of_seq(s);
    } else if s[i] == NEWLINE {
        lemma_ascii_boundary(s, i);
    } else {
        lemma_comment_boundary(s, i + 1);
    }
}

proof fn lemma_string_boundary(s: Seq<u8>, i: int)
    requires
        valid_utf8(s),
        0 <= i <= s.len(),
    ensures
        is_char_boundary(s, string_end(s, i)),
    decreases s.len() - i,
{
    if i >= s.len() {
        is_char_boundary_start_end_of_seq(s);
    } else if s[i] == QUOTE {
        lemma_ascii_boundary(s, i);
    } else if s[i] == BACKSLASH && (has(s, i + 1, BACKSLASH) || has(s, i + 1, QUOTE)) {
        lemma_string_boundary(s, i + 2);
    } else {
        lemma_string_boundary(s, i + 1);
    }
}

proof fn lemma_other_boundary(s: Seq<u8>, i: int)
    requires
        valid_utf8(s),
        0 <= i <= s.len(),
    ensures
        is_char_boundary(s, other_end(s, i)),
    decreases s.len() - i,
{
    if other_at(s, i) {
        lemma_other_boundary(s, i + 1);
    } else if i >= s.len() {
        is_char_boundary_start_end_of_seq(s);
    } else {
        is_char_boundary_iff_not_is_continuation_byte(s, i);
    }
}

/// In UTF-8 text a lexeme that starts between two characters ends between
/// two characters.
pub(crate) proof fn lemma_lexeme_boundary(s: Seq<u8>, i: int)
    requires
        valid_utf8(s),
        0 <= i < s.len(),
        is_char_boundary(s, i),
    ensures
        is_char_boundary(s, lexeme_at(s, i).1),
{
    lemma_ends(s, i);
    if s[i] == SEMICOLON {
        lemma_comment_boundary(s, i + 1);
    } else if ws_width(s, i) > 0 {
        lemma_ws_boundary(s, i);
    } else if id_start(s[i]) {
        lemma_boundary_step(s, i);
        lemma_ident_boundary(s, i + 1);
    } else if dec_digit(s[i]) {
        lemma_boundary_step(s, i);
        lemma_digits_boundary(s, i + 1, false);
        if i + 1 < s.len() && s[i + 1] <= 0x7F {
            lemma_boundary_step(s, i + 1);
            lemma_ends(s, i + 2);
            lemma_digits_boundary(s, i + 2, false);
            lemma_digits_boundary(s, i + 2, true);
        }
    } else if s[i] == QUOTE {
        lemma_string_boundary(s, i + 1);
    } else if other_at(s, i) {
        lemma_other_boundary(s, i + 1);
    } else {
        lemma_boundary_step(s, i);
    }
}

} // verus!
