//! The parser: one pass over the lexemes of a source text, line by line,
//! that yields the instruction sequence, the label table and the symbol
//! table of a program, or the first error.

use crate::grammar::{
    address, address_value, bracketed, comma, end_of_line, error, hex, interned_as, lemma_advance,
    lemma_interned_as, lemma_line, lemma_non_ws, lemma_operands, lemma_peek, lemma_peek_non_ws,
    lemma_symbol, lemma_value, line, lines, non_ws, operands, peek_non_ws, symbol, text, value,
    Front, ParseState,
};
pub use crate::grammar::{ParseError, ParseErrorKind};
use crate::intern::{intern, interned, new_interner, Symbol, SymbolTable};
use crate::isa::{Address, HexSize, JmpKind, Register, Sequence, Value};
use crate::lex::{sound, BaseLexer, Lexer};
use crate::machine::Machine;
use crate::scan::{Advance, Lexeme};
use crate::token::{mnemonic, number, register, register_of, Mnemonic};
use crate::vm::HexVm;
use std::collections::HashMap;
use vstd::prelude::*;
use vstd::string::StringSliceAdditionalSpecFns;

verus! {

broadcast use vstd::std_specs::hash::group_hash_axioms;

/// A parser at work on a source text.
#[derive(Debug)]
pub struct Parser<'a, L> {
    pub si: SymbolTable,
    pub src: &'a str,
    pub lexer: L,
    pub seq: Vec<Sequence>,
    pub labels: HashMap<Symbol, HexSize>,
}

fn fail<T>(kind: ParseErrorKind, at: Advance) -> (failed: Result<T, ParseError>)
    ensures
        failed == Err::<T, ParseError>(error(kind, at)),
{
    Err(ParseError { kind, at })
}

impl<'a> Parser<'a, BaseLexer<'a>> {
    /// A parser at the start of `src`.
    pub fn new(src: &'a str) -> (parser: Self)
        requires
            src.len() < u32::MAX,
        ensures
            parser.wf(),
            parser.src == src,
            parser@ == ParseState::start(),
    {
        let parser = Parser {
            si: new_interner(),
            src,
            lexer: BaseLexer::new(src),
            seq: Vec::new(),
            labels: HashMap::new(),
        };
        assert(parser@.labels =~= Map::empty());
        parser
    }
}

impl<'a, L: Lexer> View for Parser<'a, L> {
    type V = ParseState;

    open spec fn view(&self) -> ParseState {
        ParseState {
            front: Front { lex: self.lexer.state(), strings: interned(self.si) },
            seq: self.seq@,
            labels: self.labels@,
        }
    }
}

impl<'a, L: Lexer> Parser<'a, L> {
    /// The bytes of the source text.
    pub open spec fn source(&self) -> Seq<u8> {
        self.src.spec_bytes()
    }

    /// The lexer scans the source text of the parser and stands in it.
    pub open spec fn ready(&self) -> bool {
        &&& self.lexer.source() == self.source()
        &&& self.lexer.state().wf(self.source())
    }

    /// The parser can go on: its lexer is ready, and its symbol table holds
    /// no string twice and has room for the names still to come.
    pub open spec fn wf(&self) -> bool {
        &&& self.ready()
        &&& self@.front.wf(self.source())
    }

    /// `self` is `before` but for the state of the lexer and the strings of
    /// the symbol table.
    pub open spec fn reads(&self, before: &Self, front: Front) -> bool {
        &&& self.src == before.src
        &&& self.lexer.source() == before.lexer.source()
        &&& self@ == (ParseState { front, ..before@ })
    }

    /// The text of a lexeme.
    fn slice(&self, ad: Advance) -> (word: &'a str)
        requires
            self.ready(),
            sound(self.source(), ad),
            !(ad.lex is Eof),
        ensures
            word@ == text(self.source(), ad),
            word.spec_bytes() == ad.span.cut(self.source()),
    {
        ad.span.slice(self.src)
    }

    /// Takes the next lexeme that is no whitespace.
    fn non_ws(&mut self) -> (ad: Advance)
        requires
            old(self).ready(),
        ensures
            final(self).ready(),
            final(self).reads(
                old(self),
                Front {
                    lex: non_ws(old(self).source(), old(self)@.front.lex).1,
                    strings: old(self)@.front.strings,
                },
            ),
            ad == non_ws(old(self).source(), old(self)@.front.lex).0,
            sound(old(self).source(), ad),
    {
        loop
            invariant
                self.ready(),
                self.reads(
                    old(self),
                    Front { lex: self.lexer.state(), strings: old(self)@.front.strings },
                ),
                non_ws(self.source(), old(self)@.front.lex) == non_ws(
                    self.source(),
                    self.lexer.state(),
                ),
            decreases self.lexer.state().left(self.source()),
        {
            proof {
                lemma_advance(self.source(), self.lexer.state());
            }
            let ad = self.lexer.advance();
            match ad.lex {
                Lexeme::Whitespace => {},
                _ => {
                    return ad;
                },
            }
        }
    }

    /// Looks at the next lexeme that is no whitespace.
    fn peek_non_ws(&mut self) -> (ad: Advance)
        requires
            old(self).ready(),
        ensures
            final(self).ready(),
            final(self).reads(
                old(self),
                Front {
                    lex: peek_non_ws(old(self).source(), old(self)@.front.lex).1,
                    strings: old(self)@.front.strings,
                },
            ),
            ad == peek_non_ws(old(self).source(), old(self)@.front.lex).0,
            sound(old(self).source(), ad),
    {
        loop
            invariant
                self.ready(),
                self.reads(
                    old(self),
                    Front { lex: self.lexer.state(), strings: old(self)@.front.strings },
                ),
                peek_non_ws(self.source(), old(self)@.front.lex) == peek_non_ws(
                    self.source(),
                    self.lexer.state(),
                ),
            decreases self.lexer.state().left(self.source()),
        {
            proof {
                lemma_peek(self.source(), self.lexer.state());
            }
            let ad = self.lexer.peek();
            match ad.lex {
                Lexeme::Whitespace => {
                    self.lexer.pop_peek();
                },
                _ => {
                    return ad;
                },
            }
        }
    }

    /// Takes the rest of the line, which must be empty.
    fn clear_line(&mut self) -> (done: Result<(), ParseError>)
        requires
            old(self).ready(),
        ensures
            match end_of_line(old(self).source(), old(self)@.front.lex) {
                Ok(lex) => done == Ok::<(), ParseError>(()) && final(self).ready() && final(self).reads(old(self), Front { lex, strings: old(self)@.front.strings }),
                Err(e) => done == Err::<(), ParseError>(e),
            },
    {
        let ad = self.non_ws();
        match ad.lex {
            Lexeme::Eol(_) | Lexeme::Eof => Ok(()),
            _ => fail(ParseErrorKind::TrailingTokens, ad),
        }
    }

    /// Takes a comma.
    fn expect_comma(&mut self) -> (done: Result<(), ParseError>)
        requires
            old(self).ready(),
        ensures
            match comma(old(self).source(), old(self)@.front.lex) {
                Ok(lex) => done == Ok::<(), ParseError>(()) && final(self).ready() && final(self).reads(old(self), Front { lex, strings: old(self)@.front.strings }),
                Err(e) => done == Err::<(), ParseError>(e),
            },
    {
        let ad = self.non_ws();
        match ad.lex {
            Lexeme::Comma => Ok(()),
            _ => fail(ParseErrorKind::UnexpectedLexeme, ad),
        }
    }

    /// Interns the text of a lexeme.
    fn symbol(&mut self, ad: Advance) -> (sym: Symbol)
        requires
            old(self).ready(),
            sound(old(self).source(), ad),
            !(ad.lex is Eof),
            old(self)@.front.strings.no_duplicates(),
            old(self)@.front.strings.len() < u32::MAX,
        ensures
            final(self).ready(),
            final(self).reads(
                old(self),
                Front {
                    lex: old(self)@.front.lex,
                    strings: interned_as(old(self)@.front.strings, text(old(self).source(), ad)).1,
                },
            ),
            sym == interned_as(old(self)@.front.strings, text(old(self).source(), ad)).0,
    {
        let word = self.slice(ad);
        proof {
            lemma_interned_as(self@.front.strings, word@);
        }
        intern(&mut self.si, word)
    }

    /// The register that a lexeme names, or the id of its text, interned.
    fn try_reg(&mut self, ad: Advance) -> (found: Result<Register, Symbol>)
        requires
            old(self).ready(),
            sound(old(self).source(), ad),
            !(ad.lex is Eof),
            old(self)@.front.strings.no_duplicates(),
            old(self)@.front.strings.len() < u32::MAX,
        ensures
            final(self).ready(),
            match register_of(text(old(self).source(), ad)) {
                Some(r) => found == Ok::<Register, Symbol>(r) && final(self).reads(
                    old(self),
                    old(self)@.front,
                ),
                None => found == Err::<Register, Symbol>(
                    interned_as(old(self)@.front.strings, text(old(self).source(), ad)).0,
                ) && final(self).reads(
                    old(self),
                    Front {
                        lex: old(self)@.front.lex,
                        strings: interned_as(
                            old(self)@.front.strings,
                            text(old(self).source(), ad),
                        ).1,
                    },
                ),
            },
    {
        match register(self.slice(ad)) {
            Some(r) => Ok(r),
            None => Err(self.symbol(ad)),
        }
    }

    /// The register that a lexeme names.
    fn reg(&self, ad: Advance) -> (found: Result<Register, ParseError>)
        requires
            self.ready(),
            sound(self.source(), ad),
            !(ad.lex is Eof),
        ensures
            found == match register_of(text(self.source(), ad)) {
                Some(r) => Ok::<Register, ParseError>(r),
                None => Err::<Register, ParseError>(error(ParseErrorKind::MalformedOperand, ad)),
            },
    {
        match register(self.slice(ad)) {
            Some(r) => Ok(r),
            None => fail(ParseErrorKind::MalformedOperand, ad),
        }
    }

    /// Reads what stands between brackets, and the closing bracket.
    fn after_bracket(&mut self) -> (found: Result<Value, ParseError>)
        requires
            old(self).ready(),
        ensures
            match bracketed(old(self).source(), old(self)@.front.lex) {
                Ok((v, lex)) => found == Ok::<Value, ParseError>(v) && final(self).ready() && final(self).reads(old(self), Front { lex, strings: old(self)@.front.strings }),
                Err(e) => found == Err::<Value, ParseError>(e),
            },
    {
        let first = self.non_ws();
        let index = match first.lex {
            Lexeme::Digit(base) => match number(self.slice(first), base) {
                Some(index) => Some(index),
                None => {
                    return fail(ParseErrorKind::InvalidInteger, first);
                },
            },
            Lexeme::Ident => None,
            _ => {
                return fail(ParseErrorKind::UnexpectedLexeme, first);
            },
        };
        let close = self.non_ws();
        match close.lex {
            Lexeme::CloseBracket => {},
            _ => {
                return fail(ParseErrorKind::UnexpectedLexeme, close);
            },
        }
        match index {
            Some(index) => Ok(Value::Address(Address::Stack(index))),
            None => {
                let r = self.reg(first)?;
                Ok(Value::Address(Address::Register(r, true)))
            },
        }
    }

    /// Reads an operand; returns it with the lexeme at which it starts.
    fn value(&mut self) -> (found: Result<(Value, Advance), ParseError>)
        requires
            old(self).wf(),
        ensures
            match value(old(self).source(), old(self)@.front) {
                Ok((v, front)) => found == Ok::<(Value, Advance), ParseError>(
                    (v, non_ws(old(self).source(), old(self)@.front.lex).0),
                ) && final(self).wf() && final(self).reads(old(self), front),
                Err(e) => found == Err::<(Value, Advance), ParseError>(e),
            },
    {
        proof {
            lemma_value(self.source(), self@.front);
            lemma_non_ws(self.source(), self@.front.lex);
        }
        let ad = self.non_ws();
        match ad.lex {
            Lexeme::Eol(_) | Lexeme::Eof => fail(ParseErrorKind::MalformedOperand, ad),
            Lexeme::Ident => match self.try_reg(ad) {
                Ok(r) => Ok((Value::Address(Address::Register(r, false)), ad)),
                Err(sym) => Ok((Value::Address(Address::Ident(sym)), ad)),
            },
            Lexeme::Digit(base) => match number(self.slice(ad), base) {
                Some(n) => Ok((Value::Hex(n), ad)),
                None => fail(ParseErrorKind::InvalidInteger, ad),
            },
            Lexeme::OpenBracket => {
                let v = self.after_bracket()?;
                Ok((v, ad))
            },
            _ => fail(ParseErrorKind::UnexpectedLexeme, ad),
        }
    }

    /// Reads an operand.
    fn expect_value(&mut self) -> (found: Result<Value, ParseError>)
        requires
            old(self).wf(),
        ensures
            match value(old(self).source(), old(self)@.front) {
                Ok((v, front)) => found == Ok::<Value, ParseError>(v) && final(self).wf() && final(self).reads(old(self), front),
                Err(e) => found == Err::<Value, ParseError>(e),
            },
    {
        let (v, _) = self.value()?;
        Ok(v)
    }

    /// Reads an operand that must be an address.
    fn expect_address(&mut self) -> (found: Result<Address, ParseError>)
        requires
            old(self).wf(),
        ensures
            match address(old(self).source(), old(self)@.front) {
                Ok((add, front)) => found == Ok::<Address, ParseError>(add) && final(self).wf()
                    && final(self).reads(old(self), front),
                Err(e) => found == Err::<Address, ParseError>(e),
            },
    {
        match self.value()? {
            (Value::Address(add), _) => Ok(add),
            (_, ad) => fail(ParseErrorKind::MalformedOperand, ad),
        }
    }

    /// Reads an operand that must be an integer literal.
    fn expect_hex(&mut self) -> (found: Result<HexSize, ParseError>)
        requires
            old(self).wf(),
        ensures
            match hex(old(self).source(), old(self)@.front) {
                Ok((h, front)) => found == Ok::<HexSize, ParseError>(h) && final(self).wf() && final(self).reads(old(self), front),
                Err(e) => found == Err::<HexSize, ParseError>(e),
            },
    {
        match self.value()? {
            (Value::Hex(h), _) => Ok(h),
            (_, ad) => fail(ParseErrorKind::MalformedOperand, ad),
        }
    }

    /// Reads an address, a comma and an operand.
    fn expect_address_value(&mut self) -> (found: Result<(Address, Value), ParseError>)
        requires
            old(self).wf(),
        ensures
            match address_value(old(self).source(), old(self)@.front) {
                Ok((add, v, front)) => found == Ok::<(Address, Value), ParseError>((add, v))
                    && final(self).wf() && final(self).reads(old(self), front),
                Err(e) => found == Err::<(Address, Value), ParseError>(e),
            },
    {
        let address = self.expect_address()?;
        proof {
            lemma_non_ws(self.source(), self@.front.lex);
        }
        self.expect_comma()?;
        let val = self.expect_value()?;
        Ok((address, val))
    }

    /// Reads an operand that must be a lexeme of kind `kind`, and interns
    /// its text.
    fn expect_symbol(&mut self, kind: Lexeme) -> (found: Result<Symbol, ParseError>)
        requires
            old(self).wf(),
            !(kind is Eof),
        ensures
            match symbol(old(self).source(), old(self)@.front, kind) {
                Ok((sym, front)) => found == Ok::<Symbol, ParseError>(sym) && final(self).wf()
                    && final(self).reads(old(self), front),
                Err(e) => found == Err::<Symbol, ParseError>(e),
            },
    {
        proof {
            lemma_symbol(self.source(), self@.front, kind);
            lemma_non_ws(self.source(), self@.front.lex);
        }
        let ad = self.non_ws();
        if ad.lex == kind {
            Ok(self.symbol(ad))
        } else {
            fail(ParseErrorKind::UnexpectedLexeme, ad)
        }
    }

    /// Reads the operands that a mnemonic asks for.
    fn operands(&mut self, m: Mnemonic) -> (found: Result<Sequence, ParseError>)
        requires
            old(self).wf(),
        ensures
            match operands(old(self).source(), old(self)@.front, m) {
                Ok((ins, front)) => found == Ok::<Sequence, ParseError>(ins) && final(self).wf()
                    && final(self).reads(old(self), front),
                Err(e) => found == Err::<Sequence, ParseError>(e),
            },
    {
        match m {
            Mnemonic::Push => Ok(Sequence::Push(self.expect_value()?)),
            Mnemonic::Jump(kind) => {
                let v = self.expect_value()?;
                Ok(
                    match kind {
                        JmpKind::Jmp => Sequence::Jmp(v),
                        JmpKind::Je => Sequence::Je(v),
                        JmpKind::Jne => Sequence::Jne(v),
                        JmpKind::Jl => Sequence::Jl(v),
                        JmpKind::Jle => Sequence::Jle(v),
                        JmpKind::Jg => Sequence::Jg(v),
                        JmpKind::Jge => Sequence::Jge(v),
                    },
                )
            },
            Mnemonic::Call => Ok(Sequence::Call(self.expect_symbol(Lexeme::Ident)?)),
            Mnemonic::Ret => Ok(Sequence::Ret),
            Mnemonic::Mul => Ok(Sequence::Mul(self.expect_value()?)),
            Mnemonic::Div => Ok(Sequence::Div(self.expect_value()?)),
            Mnemonic::Mod => Ok(Sequence::Mod(self.expect_value()?)),
            Mnemonic::Pop => Ok(Sequence::Pop(self.expect_address()?)),
            Mnemonic::Inc => Ok(Sequence::Inc(self.expect_address()?)),
            Mnemonic::Dec => Ok(Sequence::Dec(self.expect_address()?)),
            Mnemonic::Str => Ok(Sequence::Str(self.expect_symbol(Lexeme::Str)?)),
            Mnemonic::Mov => {
                let (address, val) = self.expect_address_value()?;
                Ok(Sequence::Mov(address, val))
            },
            Mnemonic::Compare => {
                let v1 = self.expect_value()?;
                proof {
                    lemma_non_ws(self.source(), self@.front.lex);
                }
                self.expect_comma()?;
                let v2 = self.expect_value()?;
                Ok(Sequence::Cmp(v1, v2))
            },
            Mnemonic::Add => {
                let (address, val) = self.expect_address_value()?;
                Ok(Sequence::Add(address, val))
            },
            Mnemonic::Sub => {
                let (address, val) = self.expect_address_value()?;
                Ok(Sequence::Sub(address, val))
            },
            Mnemonic::Print => {
                let address = self.expect_address()?;
                proof {
                    lemma_non_ws(self.source(), self@.front.lex);
                }
                self.expect_comma()?;
                let hex = self.expect_hex()?;
                Ok(Sequence::Print(address, hex))
            },
        }
    }

    /// The index that the next instruction will have.
    fn next_index(&self) -> (index: HexSize)
        ensures
            index == self@.seq.len() as HexSize,
    {
        self.seq.len() as HexSize
    }

    /// Reads a line whose first lexeme is the name `first`. Returns the
    /// instruction of an instruction line, and `None` for the definition of
    /// a label, which it enters in the label table.
    fn parse_line(&mut self, first: Advance) -> (found: Result<Option<Sequence>, ParseError>)
        requires
            old(self).ready(),
            old(self)@.front.strings.no_duplicates(),
            old(self)@.front.load(old(self).source()) + 1 < u32::MAX,
            sound(old(self).source(), first),
            !(first.lex is Eof),
        ensures
            match line(old(self).source(), old(self)@, first) {
                Ok(q) => found is Ok && final(self).wf() && final(self).src == old(self).src
                    && final(self).lexer.source() == old(self).lexer.source() && match found->Ok_0 {
                    Some(ins) => q == (ParseState { seq: final(self)@.seq.push(ins), ..final(self)@ })
                        && final(self)@.seq == old(self)@.seq,
                    None => q == final(self)@,
                },
                Err(e) => found == Err::<Option<Sequence>, ParseError>(e),
            },
    {
        proof {
            lemma_line(self.source(), self@, first);
            lemma_peek_non_ws(self.source(), self@.front.lex);
        }
        let second = self.peek_non_ws();
        match second.lex {
            Lexeme::Colon => {
                self.lexer.pop_peek();
                self.clear_line()?;
                let name = self.symbol(first);
                if self.labels.contains_key(&name) {
                    return fail(ParseErrorKind::DuplicateLabel, first);
                }
                let index = self.next_index();
                self.labels.insert(name, index);
                return Ok(None);
            },
            _ => {},
        }
        let m = match mnemonic(self.slice(first)) {
            Some(m) => m,
            None => {
                return fail(ParseErrorKind::UnknownMnemonic, first);
            },
        };
        proof {
            lemma_operands(self.source(), self@.front, m);
        }
        let ins = self.operands(m)?;
        self.clear_line()?;
        Ok(Some(ins))
    }

    /// Reads all lines to the end of the input.
    fn parse_inner(&mut self) -> (done: Result<(), ParseError>)
        requires
            old(self).wf(),
        ensures
            match lines(old(self).source(), old(self)@) {
                Ok(p) => done == Ok::<(), ParseError>(()) && final(self)@ == p,
                Err(e) => done == Err::<(), ParseError>(e),
            },
    {
        loop
            invariant
                self.wf(),
                self.src == old(self).src,
                lines(self.source(), old(self)@) == lines(self.source(), self@),
            decreases self@.front.lex.left(self.source()),
        {
            proof {
                lemma_advance(self.source(), self@.front.lex);
            }
            let ghost before = self@;
            let ad = self.lexer.advance();
            match ad.lex {
                Lexeme::Whitespace => {},
                Lexeme::Ident => {
                    proof {
                        lemma_line(self.source(), self@, ad);
                    }
                    match self.parse_line(ad)? {
                        Some(value) => {
                            self.seq.push(value);
                        },
                        None => {},
                    }
                },
                Lexeme::Eol(_) => {},
                Lexeme::Eof => {
                    return Ok(());
                },
                _ => {
                    return fail(ParseErrorKind::UnexpectedLexeme, ad);
                },
            }
        }
    }

    /// Parses the source text to its end and returns the machine that is
    /// about to run the program: its instructions, its label table and its
    /// symbol table. The first line that breaks the grammar ends the parse
    /// with its error.
    pub fn parse(self) -> (parsed: Result<HexVm, ParseError>)
        requires
            self.wf(),
        ensures
            match lines(self.source(), self@) {
                Ok(p) => parsed is Ok && parsed->Ok_0@ == Machine::boot(
                    p.seq,
                    p.labels,
                    p.front.strings,
                ),
                Err(e) => parsed == Err::<HexVm, ParseError>(e),
            },
    {
        let mut parser = self;
        parser.parse_inner()?;
        Ok(HexVm::with_symbols(parser.si, parser.seq, parser.labels))
    }
}

} // verus!
