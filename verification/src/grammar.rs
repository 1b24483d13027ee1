//! The grammar of the assembly language, as functions on the bytes of the
//! source text and the state of a lexer.
//!
//! A program is a sequence of lines. A line is blank, defines a label with
//! `name:`, or holds one instruction: a mnemonic and the operands that the
//! mnemonic asks for, separated by a comma. Comments and whitespace count for
//! nothing. The first line that is none of these ends the parse.

use crate::intern::Symbol;
use crate::isa::{Address, HexSize, Sequence, Value};
use crate::lex::{lemma_scan, sound, LexState};
use crate::scan::{Advance, Lexeme};
use crate::token::{literal, mnemonic_of, register_of, Mnemonic};
use vstd::prelude::*;
use vstd::utf8::decode_utf8;

verus! {

/// What is wrong with a line.
#[derive(Debug, Clone, Copy, PartialEq, Eq, Structural)]
pub enum ParseErrorKind {
    /// A lexeme stands where the grammar allows another.
    UnexpectedLexeme,
    /// The first word of the line is no mnemonic.
    UnknownMnemonic,
    /// An integer literal has a digit that its base lacks, or is too large.
    InvalidInteger,
    /// The label is defined a second time.
    DuplicateLabel,
    /// An operand is missing or is not of the kind that the mnemonic asks for.
    MalformedOperand,
    /// Something follows the instruction or the label on its line.
    TrailingTokens,
}

/// A parse error: what is wrong, and the lexeme at which it was found.
#[derive(Debug, Clone, Copy, PartialEq, Eq, Structural)]
pub struct ParseError {
    pub kind: ParseErrorKind,
    pub at: Advance,
}

/// What reading operands changes: the state of the lexer and the strings of
/// the symbol table.
pub struct Front {
    pub lex: LexState,
    pub strings: Seq<Seq<char>>,
}

/// One line of a program that is not blank.
pub enum Line {
    Label(Symbol),
    Instruction(Sequence),
}

/// What parsing changes.
pub struct ParseState {
    pub front: Front,
    /// The instructions read so far.
    pub seq: Seq<Sequence>,
    /// The label table: for each name defined so far the index of the
    /// instruction that follows its definition.
    pub labels: Map<Symbol, HexSize>,
}

pub open spec fn error(kind: ParseErrorKind, at: Advance) -> ParseError {
    ParseError { kind, at }
}

/// The text of a lexeme.
pub open spec fn text(src: Seq<u8>, ad: Advance) -> Seq<char> {
    decode_utf8(ad.span.cut(src))
}

/// The next lexeme that is no whitespace, taken.
pub open spec fn non_ws(src: Seq<u8>, t: LexState) -> (Advance, LexState)
    decreases t.left(src),
    when t.wf(src)
{
    let (ad, next) = t.advance(src);
    if ad.lex is Whitespace {
        proof {
            lemma_scan(src, t);
        }
        non_ws(src, next)
    } else {
        (ad, next)
    }
}

/// The next lexeme that is no whitespace, looked at and held back.
pub open spec fn peek_non_ws(src: Seq<u8>, t: LexState) -> (Advance, LexState)
    decreases t.left(src),
    when t.wf(src)
{
    let (ad, next) = t.peek(src);
    if ad.lex is Whitespace {
        proof {
            lemma_scan(src, t);
        }
        peek_non_ws(src, next.pop_peek())
    } else {
        (ad, next)
    }
}

/// The rest of a line must be empty.
pub open spec fn end_of_line(src: Seq<u8>, t: LexState) -> Result<LexState, ParseError> {
    let (ad, next) = non_ws(src, t);
    if ad.lex is Eol || ad.lex is Eof {
        Ok(next)
    } else {
        Err(error(ParseErrorKind::TrailingTokens, ad))
    }
}

/// A comma must come next.
pub open spec fn comma(src: Seq<u8>, t: LexState) -> Result<LexState, ParseError> {
    let (ad, next) = non_ws(src, t);
    if ad.lex is Comma {
        Ok(next)
    } else {
        Err(error(ParseErrorKind::UnexpectedLexeme, ad))
    }
}

/// The id of `name` and the strings of the symbol table once it is interned:
/// a name that the table holds keeps its id, a new one goes to the end.
pub open spec fn interned_as(strings: Seq<Seq<char>>, name: Seq<char>) -> (Symbol, Seq<Seq<char>>) {
    if strings.contains(name) {
        (strings.index_of(name) as Symbol, strings)
    } else {
        (strings.len() as Symbol, strings.push(name))
    }
}

/// What stands between brackets: a register name, for the cell that the
/// register points to, or an integer literal, for the cell at that index.
pub open spec fn bracketed(src: Seq<u8>, t: LexState) -> Result<(Value, LexState), ParseError> {
    let (first, inner) = non_ws(src, t);
    let (close, next) = non_ws(src, inner);
    match first.lex {
        Lexeme::Digit(base) => match literal(first.span.cut(src), base) {
            None => Err(error(ParseErrorKind::InvalidInteger, first)),
            Some(index) => if close.lex is CloseBracket {
                Ok((Value::Address(Address::Stack(index)), next))
            } else {
                Err(error(ParseErrorKind::UnexpectedLexeme, close))
            },
        },
        Lexeme::Ident => if !(close.lex is CloseBracket) {
            Err(error(ParseErrorKind::UnexpectedLexeme, close))
        } else {
            match register_of(text(src, first)) {
                Some(r) => Ok((Value::Address(Address::Register(r, true)), next)),
                None => Err(error(ParseErrorKind::MalformedOperand, first)),
            }
        },
        _ => Err(error(ParseErrorKind::UnexpectedLexeme, first)),
    }
}

/// An operand: a register name, a bracketed address, an integer literal or
/// any other name, which is interned and stands for the cell of the label of
/// that name.
pub open spec fn value(src: Seq<u8>, f: Front) -> Result<(Value, Front), ParseError> {
    let (ad, next) = non_ws(src, f.lex);
    match ad.lex {
        Lexeme::Eol(_) | Lexeme::Eof => Err(error(ParseErrorKind::MalformedOperand, ad)),
        Lexeme::Ident => match register_of(text(src, ad)) {
            Some(r) => Ok(
                (Value::Address(Address::Register(r, false)), Front { lex: next, strings: f.strings }),
            ),
            None => {
                let (sym, strings) = interned_as(f.strings, text(src, ad));
                Ok((Value::Address(Address::Ident(sym)), Front { lex: next, strings }))
            },
        },
        Lexeme::Digit(base) => match literal(ad.span.cut(src), base) {
            Some(n) => Ok((Value::Hex(n), Front { lex: next, strings: f.strings })),
            None => Err(error(ParseErrorKind::InvalidInteger, ad)),
        },
        Lexeme::OpenBracket => match bracketed(src, next) {
            Ok((v, after)) => Ok((v, Front { lex: after, strings: f.strings })),
            Err(e) => Err(e),
        },
        _ => Err(error(ParseErrorKind::UnexpectedLexeme, ad)),
    }
}

/// An operand that must be an address.
pub open spec fn address(src: Seq<u8>, f: Front) -> Result<(Address, Front), ParseError> {
    match value(src, f) {
        Ok((Value::Address(add), after)) => Ok((add, after)),
        Ok(_) => Err(error(ParseErrorKind::MalformedOperand, non_ws(src, f.lex).0)),
        Err(e) => Err(e),
    }
}

/// An operand that must be an integer literal.
pub open spec fn hex(src: Seq<u8>, f: Front) -> Result<(HexSize, Front), ParseError> {
    match value(src, f) {
        Ok((Value::Hex(h), after)) => Ok((h, after)),
        Ok(_) => Err(error(ParseErrorKind::MalformedOperand, non_ws(src, f.lex).0)),
        Err(e) => Err(e),
    }
}

/// An operand that must be a lexeme of kind `kind`, whose text is interned.
pub open spec fn symbol(src: Seq<u8>, f: Front, kind: Lexeme) -> Result<(Symbol, Front), ParseError> {
    let (ad, next) = non_ws(src, f.lex);
    if ad.lex == kind {
        let (sym, strings) = interned_as(f.strings, text(src, ad));
        Ok((sym, Front { lex: next, strings }))
    } else {
        Err(error(ParseErrorKind::UnexpectedLexeme, ad))
    }
}

/// An address, a comma and an operand.
pub open spec fn address_value(src: Seq<u8>, f: Front) -> Result<(Address, Value, Front), ParseError> {
    match address(src, f) {
        Err(e) => Err(e),
        Ok((add, f1)) => match comma(src, f1.lex) {
            Err(e) => Err(e),
            Ok(t) => match value(src, Front { lex: t, strings: f1.strings }) {
                Err(e) => Err(e),
                Ok((v, f2)) => Ok((add, v, f2)),
            },
        },
    }
}

/// The operands of mnemonic `m`, as the instruction they make.
pub open spec fn operands(src: Seq<u8>, f: Front, m: Mnemonic) -> Result<(Sequence, Front), ParseError> {
    match m {
        Mnemonic::Ret => Ok((Sequence::Ret, f)),
        Mnemonic::Push | Mnemonic::Mul | Mnemonic::Div | Mnemonic::Mod => match value(src, f) {
            Err(e) => Err(e),
            Ok((v, after)) => Ok(
                (
                    match m {
                        Mnemonic::Push => Sequence::Push(v),
                        Mnemonic::Mul => Sequence::Mul(v),
                        Mnemonic::Div => Sequence::Div(v),
                        _ => Sequence::Mod(v),
                    },
                    after,
                ),
            ),
        },
        Mnemonic::Jump(kind) => match value(src, f) {
            Err(e) => Err(e),
            Ok((v, after)) => Ok((jump(kind, v), after)),
        },
        Mnemonic::Pop | Mnemonic::Inc | Mnemonic::Dec => match address(src, f) {
            Err(e) => Err(e),
            Ok((add, after)) => Ok(
                (
                    match m {
                        Mnemonic::Pop => Sequence::Pop(add),
                        Mnemonic::Inc => Sequence::Inc(add),
                        _ => Sequence::Dec(add),
                    },
                    after,
                ),
            ),
        },
        Mnemonic::Call => match symbol(src, f, Lexeme::Ident) {
            Err(e) => Err(e),
            Ok((sym, after)) => Ok((Sequence::Call(sym), after)),
        },
        Mnemonic::Str => match symbol(src, f, Lexeme::Str) {
            Err(e) => Err(e),
            Ok((sym, after)) => Ok((Sequence::Str(sym), after)),
        },
        Mnemonic::Mov | Mnemonic::Add | Mnemonic::Sub => match address_value(src, f) {
            Err(e) => Err(e),
            Ok((add, v, after)) => Ok(
                (
                    match m {
                        Mnemonic::Mov => Sequence::Mov(add, v),
                        Mnemonic::Add => Sequence::Add(add, v),
                        _ => Sequence::Sub(add, v),
                    },
                    after,
                ),
            ),
        },
        Mnemonic::Compare => match value(src, f) {
            Err(e) => Err(e),
            Ok((a, f1)) => match comma(src, f1.lex) {
                Err(e) => Err(e),
                Ok(t) => match value(src, Front { lex: t, strings: f1.strings }) {
                    Err(e) => Err(e),
                    Ok((b, f2)) => Ok((compare(a, b), f2)),
                },
            },
        },
        Mnemonic::Print => match address(src, f) {
            Err(e) => Err(e),
            Ok((add, f1)) => match comma(src, f1.lex) {
                Err(e) => Err(e),
                Ok(t) => match hex(src, Front { lex: t, strings: f1.strings }) {
                    Err(e) => Err(e),
                    Ok((n, f2)) => Ok((Sequence::Print(add, n), f2)),
                },
            },
        },
    }
}

/// The instruction that compares two operands.
pub open spec fn compare(a: Value, b: Value) -> Sequence {
    Sequence::Cmp(a, b)
}

/// The jump of the given kind to `v`.
pub open spec fn jump(kind: crate::isa::JmpKind, v: Value) -> Sequence {
    match kind {
        crate::isa::JmpKind::Jmp => Sequence::Jmp(v),
        crate::isa::JmpKind::Je => Sequence::Je(v),
        crate::isa::JmpKind::Jne => Sequence::Jne(v),
        crate::isa::JmpKind::Jl => Sequence::Jl(v),
        crate::isa::JmpKind::Jle => Sequence::Jle(v),
        crate::isa::JmpKind::Jg => Sequence::Jg(v),
        crate::isa::JmpKind::Jge => Sequence::Jge(v),
    }
}

/// An instruction line whose first word is the mnemonic `m`: the operands,
/// and nothing more on the line.
pub open spec fn instruction(src: Seq<u8>, f: Front, m: Mnemonic) -> Result<(Sequence, Front), ParseError> {
    match operands(src, f, m) {
        Err(e) => Err(e),
        Ok((ins, after)) => match end_of_line(src, after.lex) {
            Err(e) => Err(e),
            Ok(t) => Ok((ins, Front { lex: t, strings: after.strings })),
        },
    }
}

/// A line whose first lexeme is the name `first`. With a colon behind the
/// name the line defines a label: the name is interned and bound to the
/// number of instructions read so far, unless it is bound already. Without
/// one the name must be a mnemonic, and the line adds an instruction.
pub open spec fn line(src: Seq<u8>, p: ParseState, first: Advance) -> Result<ParseState, ParseError> {
    let (second, peeked) = peek_non_ws(src, p.front.lex);
    if second.lex is Colon {
        match end_of_line(src, peeked.pop_peek()) {
            Err(e) => Err(e),
            Ok(t) => {
                let (sym, strings) = interned_as(p.front.strings, text(src, first));
                if p.labels.contains_key(sym) {
                    Err(error(ParseErrorKind::DuplicateLabel, first))
                } else {
                    Ok(
                        ParseState {
                            front: Front { lex: t, strings },
                            seq: p.seq,
                            labels: p.labels.insert(sym, p.seq.len() as HexSize),
                        },
                    )
                }
            },
        }
    } else {
        match mnemonic_of(text(src, first)) {
            None => Err(error(ParseErrorKind::UnknownMnemonic, first)),
            Some(m) => match instruction(src, Front { lex: peeked, strings: p.front.strings }, m) {
                Err(e) => Err(e),
                Ok((ins, after)) => Ok(
                    ParseState {
                        front: after,
                        seq: p.seq.push(ins),
                        labels: p.labels,
                    },
                ),
            },
        }
    }
}

impl Front {
    /// The strings of the symbol table and what is left of the input,
    /// counted together. Reading never makes this sum larger: a string is
    /// interned only for a lexeme that was taken.
    pub open spec fn load(self, src: Seq<u8>) -> nat {
        self.strings.len() + self.lex.left(src)
    }

    /// The lexer stands in the text, no string is interned twice, and the
    /// symbol table has room for what may still be interned.
    pub open spec fn wf(self, src: Seq<u8>) -> bool {
        &&& self.lex.wf(src)
        &&& self.strings.no_duplicates()
        &&& self.load(src) < u32::MAX
    }

    /// `self` is what reading made of `before`: well-formed again, no
    /// further from the end of the input, and with the strings of `before`
    /// at the start of its own.
    pub open spec fn follows(self, before: Front, src: Seq<u8>) -> bool {
        &&& self.wf(src)
        &&& self.lex.left(src) <= before.lex.left(src)
        &&& self.load(src) <= before.load(src)
        &&& before.strings.is_prefix_of(self.strings)
    }
}

/// Taking a lexeme keeps the lexer in the text and brings it no further from
/// the end; any lexeme but the last brings it nearer.
pub proof fn lemma_advance(src: Seq<u8>, t: LexState)
    requires
        t.wf(src),
    ensures
        t.advance(src).1.wf(src),
        t.advance(src).1.prev is None,
        sound(src, t.advance(src).0),
        t.advance(src).1.left(src) <= t.left(src),
        !(t.advance(src).0.lex is Eof) ==> t.advance(src).1.left(src) < t.left(src),
{
    lemma_scan(src, t);
}

/// Looking at a lexeme keeps the lexer in the text, and the lexeme looked at
/// is the one that is taken next.
pub(crate) proof fn lemma_peek(src: Seq<u8>, t: LexState)
    requires
        t.wf(src),
    ensures
        t.peek(src).1.wf(src),
        t.peek(src).1.prev == Some(t.peek(src).0),
        sound(src, t.peek(src).0),
        t.peek(src).1.left(src) <= t.left(src) + 1,
        !(t.peek(src).0.lex is Eof) ==> t.peek(src).1.left(src) <= t.left(src),
        t.peek(src).1.advance(src) == t.advance(src),
{
    lemma_scan(src, t);
}

/// What holds of taking a lexeme holds of taking the next one that is no
/// whitespace.
pub(crate) proof fn lemma_non_ws(src: Seq<u8>, t: LexState)
    requires
        t.wf(src),
    ensures
        non_ws(src, t).1.wf(src),
        non_ws(src, t).1.prev is None,
        sound(src, non_ws(src, t).0),
        !(non_ws(src, t).0.lex is Whitespace),
        non_ws(src, t).1.left(src) <= t.left(src),
        !(non_ws(src, t).0.lex is Eof) ==> non_ws(src, t).1.left(src) < t.left(src),
    decreases t.left(src),
{
    lemma_advance(src, t);
    if t.advance(src).0.lex is Whitespace {
        lemma_non_ws(src, t.advance(src).1);
    }
}

/// What holds of looking at a lexeme holds of looking at the next one that
/// is no whitespace.
pub(crate) proof fn lemma_peek_non_ws(src: Seq<u8>, t: LexState)
    requires
        t.wf(src),
    ensures
        peek_non_ws(src, t).1.wf(src),
        peek_non_ws(src, t).1.prev == Some(peek_non_ws(src, t).0),
        sound(src, peek_non_ws(src, t).0),
        !(peek_non_ws(src, t).0.lex is Whitespace),
        peek_non_ws(src, t).1.left(src) <= t.left(src) + 1,
        !(peek_non_ws(src, t).0.lex is Eof) ==> peek_non_ws(src, t).1.left(src) <= t.left(src),
    decreases t.left(src),
{
    lemma_peek(src, t);
    if t.peek(src).0.lex is Whitespace {
        lemma_peek_non_ws(src, t.peek(src).1.pop_peek());
    }
}

/// Interning keeps the strings distinct and in place, and the id it gives
/// is the place of the name.
pub(crate) proof fn lemma_interned_as(strings: Seq<Seq<char>>, name: Seq<char>)
    requires
        strings.no_duplicates(),
        strings.len() < u32::MAX,
    ensures
        interned_as(strings, name).1.no_duplicates(),
        strings.is_prefix_of(interned_as(strings, name).1),
        interned_as(strings, name).1.len() <= strings.len() + 1,
        interned_as(strings, name).0 < interned_as(strings, name).1.len(),
        interned_as(strings, name).1[interned_as(strings, name).0 as int] == name,
        forall|i: int| 0 <= i < strings.len() && strings[i] == name ==> i == interned_as(strings, name).0,
{
    if strings.contains(name) {
        let i = strings.index_of(name);
        assert(0 <= i < strings.len() && strings[i] == name);
    } else {
        let grown = strings.push(name);
        assert(strings =~= grown.subrange(0, strings.len() as int));
    }
}

/// An operand that is read takes at least one lexeme, and interns at most
/// one name for it.
pub(crate) proof fn lemma_value(src: Seq<u8>, f: Front)
    requires
        f.wf(src),
    ensures
        value(src, f) is Ok ==> value(src, f)->Ok_0.1.follows(f, src) && value(
            src,
            f,
        )->Ok_0.1.lex.left(src) < f.lex.left(src) && value(src, f)->Ok_0.1.lex.prev is None,
{
    lemma_non_ws(src, f.lex);
    let (ad, next) = non_ws(src, f.lex);
    lemma_non_ws(src, next);
    lemma_non_ws(src, non_ws(src, next).1);
    lemma_interned_as(f.strings, text(src, ad));
}

/// A name or string that is read is interned for the lexeme that was taken.
pub(crate) proof fn lemma_symbol(src: Seq<u8>, f: Front, kind: Lexeme)
    requires
        f.wf(src),
        !(kind is Eof),
    ensures
        symbol(src, f, kind) is Ok ==> symbol(src, f, kind)->Ok_0.1.follows(f, src) && symbol(
            src,
            f,
            kind,
        )->Ok_0.1.lex.prev is None,
{
    lemma_non_ws(src, f.lex);
    lemma_interned_as(f.strings, text(src, non_ws(src, f.lex).0));
}

/// The operands of an instruction leave a state from which reading can go on.
pub(crate) proof fn lemma_operands(src: Seq<u8>, f: Front, m: Mnemonic)
    requires
        f.wf(src),
    ensures
        operands(src, f, m) is Ok ==> operands(src, f, m)->Ok_0.1.follows(f, src),
{
    lemma_value(src, f);
    lemma_symbol(src, f, Lexeme::Ident);
    lemma_symbol(src, f, Lexeme::Str);
    if value(src, f) is Ok {
        let f1 = value(src, f)->Ok_0.1;
        lemma_non_ws(src, f1.lex);
        let t = non_ws(src, f1.lex).1;
        let f2 = Front { lex: t, strings: f1.strings };
        lemma_value(src, f2);
    }
}

/// An instruction leaves a state from which reading can go on, with no
/// lexeme held back.
pub(crate) proof fn lemma_instruction(src: Seq<u8>, f: Front, m: Mnemonic)
    requires
        f.wf(src),
    ensures
        instruction(src, f, m) is Ok ==> instruction(src, f, m)->Ok_0.1.follows(f, src)
            && instruction(src, f, m)->Ok_0.1.lex.prev is None,
{
    lemma_operands(src, f, m);
    if operands(src, f, m) is Ok {
        lemma_non_ws(src, operands(src, f, m)->Ok_0.1.lex);
    }
}

/// A line leaves a state from which reading can go on. It may intern the
/// name that was taken before it.
pub proof fn lemma_line(src: Seq<u8>, p: ParseState, first: Advance)
    requires
        p.front.lex.wf(src),
        p.front.strings.no_duplicates(),
        p.front.load(src) + 1 < u32::MAX,
    ensures
        line(src, p, first) is Ok ==> {
            let q = line(src, p, first)->Ok_0;
            &&& q.front.wf(src)
            &&& q.front.lex.prev is None
            &&& q.front.lex.left(src) <= p.front.lex.left(src)
            &&& q.front.load(src) <= p.front.load(src) + 1
            &&& p.front.strings.is_prefix_of(q.front.strings)
        },
{
    lemma_peek_non_ws(src, p.front.lex);
    let (second, peeked) = peek_non_ws(src, p.front.lex);
    if second.lex is Colon {
        lemma_non_ws(src, peeked.pop_peek());
        lemma_interned_as(p.front.strings, text(src, first));
    } else if mnemonic_of(text(src, first)) is Some {
        let f = Front { lex: peeked, strings: p.front.strings };
        lemma_instruction(src, f, mnemonic_of(text(src, first))->0);
    }
}

impl ParseState {
    /// The state before anything was read.
    pub open spec fn start() -> ParseState {
        ParseState {
            front: Front { lex: LexState::start(), strings: Seq::empty() },
            seq: Seq::empty(),
            labels: Map::empty(),
        }
    }

    /// The state with the lexer in state `lex`.
    pub open spec fn at(self, lex: LexState) -> ParseState {
        ParseState { front: Front { lex, strings: self.front.strings }, ..self }
    }
}

/// All lines from state `p` on, to the end of the input.
pub open spec fn lines(src: Seq<u8>, p: ParseState) -> Result<ParseState, ParseError>
    decreases p.front.lex.left(src),
    when p.front.wf(src)
{
    let (ad, next) = p.front.lex.advance(src);
    match ad.lex {
        Lexeme::Eof => Ok(p.at(next)),
        Lexeme::Whitespace | Lexeme::Eol(_) => {
            proof {
                lemma_advance(src, p.front.lex);
            }
            lines(src, p.at(next))
        },
        Lexeme::Ident => match line(src, p.at(next), ad) {
            Err(e) => Err(e),
            Ok(q) => {
                proof {
                    lemma_advance(src, p.front.lex);
                    lemma_line(src, p.at(next), ad);
                }
                lines(src, q)
            },
        },
        _ => Err(error(ParseErrorKind::UnexpectedLexeme, ad)),
    }
}

/// The program that a source text spells.
pub open spec fn program(src: Seq<u8>) -> Result<ParseState, ParseError> {
    lines(src, ParseState::start())
}

} // verus!
