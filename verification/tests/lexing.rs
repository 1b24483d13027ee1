use hex_vm::lex::{Advance, BaseLexer, DigitBase, Lexeme, Lexer, RecordedLexer};
use hex_vm::span::{FullSpan, Span};

fn lex_all(src: &str) -> Vec<Advance> {
    let mut lexer = BaseLexer::new(src);
    let mut all = Vec::new();
    loop {
        let ad = lexer.advance();
        all.push(ad);
        if ad.lex == Lexeme::Eof {
            return all;
        }
    }
}

fn kinds(src: &str) -> Vec<(Lexeme, &str)> {
    let all = lex_all(src);
    all[..all.len() - 1]
        .iter()
        .map(|ad| (ad.lex, ad.span.slice(src)))
        .collect()
}

#[test]
fn an_instruction_line_is_cut_into_its_lexemes() {
    assert_eq!(
        kinds("mov [bx], 0x1F ; set\nend:"),
        vec![
            (Lexeme::Ident, "mov"),
            (Lexeme::Whitespace, " "),
            (Lexeme::OpenBracket, "["),
            (Lexeme::Ident, "bx"),
            (Lexeme::CloseBracket, "]"),
            (Lexeme::Comma, ","),
            (Lexeme::Whitespace, " "),
            (Lexeme::Digit(DigitBase::Hex), "0x1F"),
            (Lexeme::Whitespace, " "),
            (Lexeme::Eol(true), "; set"),
            (Lexeme::Eol(false), "\n"),
            (Lexeme::Ident, "end"),
            (Lexeme::Colon, ":"),
        ]
    );
}

#[test]
fn the_end_of_the_input_is_permanent() {
    let mut lexer = BaseLexer::new("a\nb");
    for _ in 0..3 {
        lexer.advance();
    }
    let eof = Advance {
        lex: Lexeme::Eof,
        line: 1,
        offset: 2,
        span: Span::point(3),
    };
    assert_eq!(lexer.advance(), eof);
    assert_eq!(lexer.peek(), eof);
    assert_eq!(lexer.advance(), eof);
    assert_eq!(lexer.advance(), eof);
    assert_eq!(
        BaseLexer::new("").advance(),
        Advance {
            lex: Lexeme::Eof,
            line: 0,
            offset: 0,
            span: Span::new(0, 1)
        }
    );
    assert_eq!(BaseLexer::default().advance().lex, Lexeme::Eof);
}

#[test]
fn every_end_of_line_starts_a_new_line() {
    let all = lex_all("a ; one\n\nb\n; two");
    let places: Vec<(Lexeme, u32, u32, u32)> = all
        .iter()
        .map(|ad| (ad.lex, ad.line, ad.offset, ad.span.from))
        .collect();
    assert_eq!(
        places,
        vec![
            (Lexeme::Ident, 0, 0, 0),
            (Lexeme::Whitespace, 0, 0, 1),
            (Lexeme::Eol(true), 0, 0, 2),
            (Lexeme::Eol(false), 1, 7, 7),
            (Lexeme::Eol(false), 2, 8, 8),
            (Lexeme::Ident, 3, 9, 9),
            (Lexeme::Eol(false), 3, 9, 10),
            (Lexeme::Eol(true), 4, 11, 11),
            (Lexeme::Eof, 5, 16, 16),
        ]
    );
    assert_eq!(all[2].span, Span::new(2, 7));
    assert_eq!(all[7].span, Span::new(11, 16));
}

#[test]
fn a_comment_ends_before_the_line_break() {
    let mut lexer = BaseLexer::new("; c\nret");
    assert_eq!(
        lexer.advance(),
        Advance {
            lex: Lexeme::Eol(true),
            line: 0,
            offset: 0,
            span: Span::new(0, 3)
        }
    );
    assert_eq!(
        lexer.advance(),
        Advance {
            lex: Lexeme::Eol(false),
            line: 1,
            offset: 3,
            span: Span::new(3, 4)
        }
    );
    assert_eq!(
        lexer.advance(),
        Advance {
            lex: Lexeme::Ident,
            line: 2,
            offset: 4,
            span: Span::new(4, 7)
        }
    );
    assert_eq!(kinds(";"), vec![(Lexeme::Eol(true), ";")]);
    assert_eq!(
        kinds(";\n;; x"),
        vec![
            (Lexeme::Eol(true), ";"),
            (Lexeme::Eol(false), "\n"),
            (Lexeme::Eol(true), ";; x"),
        ]
    );
}

#[test]
fn numbers_take_their_base_from_the_prefix() {
    let digit = |b| Lexeme::Digit(b);
    assert_eq!(kinds("1_000"), vec![(digit(DigitBase::Decimal), "1_000")]);
    assert_eq!(kinds("0b1_01"), vec![(digit(DigitBase::Binary), "0b1_01")]);
    assert_eq!(kinds("0o777"), vec![(digit(DigitBase::Octal), "0o777")]);
    assert_eq!(kinds("0xdead_BEEF"), vec![(digit(DigitBase::Hex), "0xdead_BEEF")]);
    assert_eq!(kinds("0b19"), vec![(digit(DigitBase::Binary), "0b19")]);
    assert_eq!(kinds("007"), vec![(digit(DigitBase::Decimal), "007")]);
    assert_eq!(kinds("0_"), vec![(digit(DigitBase::Decimal), "0_")]);
    assert_eq!(kinds("0"), vec![(digit(DigitBase::Decimal), "0")]);
    assert_eq!(
        kinds("12ab"),
        vec![(digit(DigitBase::Decimal), "12"), (Lexeme::Ident, "ab")]
    );
    assert_eq!(
        kinds("0xfg"),
        vec![(digit(DigitBase::Hex), "0xf"), (Lexeme::Ident, "g")]
    );
    assert_eq!(
        kinds("1x2"),
        vec![(digit(DigitBase::Decimal), "1"), (Lexeme::Ident, "x2")]
    );
}

#[test]
fn a_prefix_without_digits_leaves_the_zero_alone() {
    let zero = (Lexeme::Digit(DigitBase::Decimal), "0");
    assert_eq!(kinds("0x"), vec![zero, (Lexeme::Ident, "x")]);
    assert_eq!(kinds("0b_"), vec![zero, (Lexeme::Ident, "b_")]);
    assert_eq!(kinds("0bx"), vec![zero, (Lexeme::Ident, "bx")]);
    assert_eq!(kinds("0o__g"), vec![zero, (Lexeme::Ident, "o__g")]);
    assert_eq!(
        kinds("0x,"),
        vec![zero, (Lexeme::Ident, "x"), (Lexeme::Comma, ",")]
    );
    assert_eq!(kinds("0b_1"), vec![(Lexeme::Digit(DigitBase::Binary), "0b_1")]);
    assert_eq!(kinds("0bf"), vec![zero, (Lexeme::Ident, "bf")]);
}

#[test]
fn a_string_runs_to_the_quote_that_is_not_escaped() {
    assert_eq!(
        kinds(r#""a\"b" "c\\" "d"#),
        vec![
            (Lexeme::Str, r#""a\"b""#),
            (Lexeme::Whitespace, " "),
            (Lexeme::Str, r#""c\\""#),
            (Lexeme::Whitespace, " "),
            (Lexeme::Str, r#""d"#),
        ]
    );
    assert_eq!(kinds("\"x\ny\""), vec![(Lexeme::Str, "\"x\ny\"")]);
    assert_eq!(kinds("\"\\"), vec![(Lexeme::Str, "\"\\")]);
    assert_eq!(kinds("\"\\n\""), vec![(Lexeme::Str, "\"\\n\"")]);
    assert_eq!(kinds("\"é; ü\"x"), vec![(Lexeme::Str, "\"é; ü\""), (Lexeme::Ident, "x")]);
}

#[test]
fn whitespace_of_all_kinds_is_one_lexeme() {
    let src = " \t\u{B}\u{C}\r\u{85}\u{200E}\u{200F}\u{2028}\u{2029}x";
    assert_eq!(
        kinds(src),
        vec![(Lexeme::Whitespace, &src[..src.len() - 1]), (Lexeme::Ident, "x")]
    );
    assert_eq!(lex_all(src)[0].span, Span::new(0, 19));
}

#[test]
fn what_is_not_recognised_runs_together() {
    assert_eq!(
        kinds("+-* a"),
        vec![
            (Lexeme::Other, "+-*"),
            (Lexeme::Whitespace, " "),
            (Lexeme::Ident, "a"),
        ]
    );
    assert_eq!(
        kinds("é\u{A0}\u{2003}é\u{2028}é:"),
        vec![
            (Lexeme::Other, "é\u{A0}\u{2003}é"),
            (Lexeme::Whitespace, "\u{2028}"),
            (Lexeme::Other, "é"),
            (Lexeme::Colon, ":"),
        ]
    );
    assert_eq!(kinds("\0"), vec![(Lexeme::Other, "\0")]);
}

#[test]
fn identifiers_hold_letters_digits_and_underscores() {
    assert_eq!(
        kinds("_a1 Zz_9-x"),
        vec![
            (Lexeme::Ident, "_a1"),
            (Lexeme::Whitespace, " "),
            (Lexeme::Ident, "Zz_9"),
            (Lexeme::Other, "-"),
            (Lexeme::Ident, "x"),
        ]
    );
}

#[test]
fn the_spans_of_the_lexemes_make_up_the_text() {
    for src in [
        "",
        "mov ax, 0x10 ; c\nloop:\n\tjmp [loop]\n",
        "\"open string ; é",
        "0b 0x__ 0o9 § ¶\u{85}\u{2029}\r\n; last",
        "a\u{200E}b\"\\\"\\\\\"0b1_0,,::[[]]",
    ] {
        let all = lex_all(src);
        let (eof, before) = all.split_last().unwrap();
        let mut text = String::new();
        let mut at = 0;
        for ad in before {
            assert_eq!(ad.span.from, at);
            assert!(!ad.span.is_empty());
            text.push_str(ad.span.slice(src));
            at = ad.span.to;
        }
        assert_eq!(text, src);
        assert_eq!(eof.span, Span::point(src.len() as u32));
    }
}

#[test]
fn a_peek_is_kept_until_it_is_taken_or_dropped() {
    let mut lexer = BaseLexer::new("a,b");
    let a = lexer.peek();
    assert_eq!((a.lex, a.span), (Lexeme::Ident, Span::new(0, 1)));
    assert_eq!(lexer.peek(), a);
    assert_eq!(lexer.advance(), a);
    assert_eq!(lexer.pop_peek(), None);
    let comma = lexer.peek();
    assert_eq!(comma.lex, Lexeme::Comma);
    assert_eq!(lexer.pop_peek(), Some(comma));
    assert_eq!(lexer.pop_peek(), None);
    let b = lexer.advance();
    assert_eq!((b.lex, b.span), (Lexeme::Ident, Span::new(2, 3)));
    assert_eq!(lexer.src, "a,b");
}

#[test]
fn a_recording_lexer_logs_each_scan_once() {
    let src = "a b\n";
    let mut lexer = RecordedLexer::new(src);
    assert!(lexer.store().is_empty());
    let a = lexer.peek();
    assert_eq!(lexer.store(), &[a]);
    assert_eq!(lexer.peek(), a);
    assert_eq!(lexer.advance(), a);
    assert_eq!(lexer.store(), &[a]);
    let ws = lexer.advance();
    let b = lexer.peek();
    assert_eq!(lexer.pop_peek(), Some(b));
    let eol = lexer.advance();
    let eof = lexer.advance();
    let again = lexer.advance();
    assert_eq!(eof, again);
    assert_eq!(lexer.store(), &[a, ws, b, eol, eof, again]);
    assert_eq!(lexer.store(), &lex_all(src).into_iter().chain([eof]).collect::<Vec<_>>()[..]);
    let (mut base, log) = lexer.parts();
    assert_eq!(log.len(), 6);
    assert_eq!(base.advance(), eof);
    assert_eq!(base.src, src);
}

#[test]
fn spans_are_cut_and_joined() {
    let a = Span::new(2, 5);
    let b = Span::new(7, 11);
    assert_eq!(a.to(b), Span::new(2, 11));
    assert_eq!(a.between(b), Span::new(5, 7));
    assert_eq!(Span::point(4), Span { from: 4, to: 5 });
    assert_eq!(a.offset(10), Span::new(12, 15));
    assert_eq!(a.len(), 3);
    assert!(!a.is_empty());
    assert!(Span::new(3, 3).is_empty());
    assert_eq!(Span::from((1, 2)), Span::new(1, 2));
    assert_eq!(Span::default(), Span::new(0, 0));
    assert_eq!(b.slice("0123456789abc"), "789a");
    assert_eq!(Span::new(0, 0).slice(""), "");
    assert_eq!(Span::new(1, 3).slice("aéb"), "é");
    assert!(a < b);
    assert!(Span::new(2, 4) < a);
    assert_eq!(
        FullSpan::default(),
        FullSpan { line: 0, offset: 0, span: Span::new(0, 0) }
    );
}

#[test]
fn a_digit_base_knows_its_radix() {
    assert_eq!(DigitBase::Binary.radix(), 2);
    assert_eq!(DigitBase::Octal.radix(), 8);
    assert_eq!(DigitBase::Decimal.radix(), 10);
    assert_eq!(DigitBase::Hex.radix(), 16);
}
