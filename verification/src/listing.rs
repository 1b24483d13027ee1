//! The lines of a program in their order, and how the label table follows
//! from them.

use crate::grammar::{
    instruction, interned_as, lemma_advance, lemma_line, line, lines, peek_non_ws, program, text,
    Front, Line, ParseState,
};
use crate::intern::Symbol;
use crate::isa::{HexSize, Sequence};
use crate::scan::{Advance, Lexeme};
use crate::token::mnemonic_of;
use vstd::prelude::*;
use vstd::string::StringSliceAdditionalSpecFns;
use vstd::utf8::{encode_utf8_valid_utf8, is_char_boundary_start_end_of_seq};

verus! {

/// The line that is read where `line` succeeds: the label that it defines
/// or the instruction that it adds.
pub open spec fn line_read(src: Seq<u8>, p: ParseState, first: Advance) -> Line {
    let (second, peeked) = peek_non_ws(src, p.front.lex);
    if second.lex is Colon {
        Line::Label(interned_as(p.front.strings, text(src, first)).0)
    } else {
        Line::Instruction(
            instruction(
                src,
                Front { lex: peeked, strings: p.front.strings },
                mnemonic_of(text(src, first))->0,
            )->Ok_0.0,
        )
    }
}

/// The lines that are read from state `p` on, up to the end of the input
/// or the first error.
pub open spec fn listing(src: Seq<u8>, p: ParseState) -> Seq<Line>
    decreases p.front.lex.left(src),
    when p.front.wf(src)
{
    let (ad, next) = p.front.lex.advance(src);
    match ad.lex {
        Lexeme::Whitespace | Lexeme::Eol(_) => {
            proof {
                lemma_advance(src, p.front.lex);
            }
            listing(src, p.at(next))
        },
        Lexeme::Ident => match line(src, p.at(next), ad) {
            Err(_) => Seq::empty(),
            Ok(q) => {
                proof {
                    lemma_advance(src, p.front.lex);
                    lemma_line(src, p.at(next), ad);
                }
                seq![line_read(src, p.at(next), ad)] + listing(src, q)
            },
        },
        _ => Seq::empty(),
    }
}

/// The instructions among `ls`, in their order.
pub open spec fn instructions(ls: Seq<Line>) -> Seq<Sequence>
    decreases ls.len(),
{
    if ls.len() == 0 {
        Seq::empty()
    } else {
        match ls[0] {
            Line::Instruction(ins) => seq![ins] + instructions(ls.drop_first()),
            Line::Label(_) => instructions(ls.drop_first()),
        }
    }
}

/// Line `k` of `ls` defines the label `sym`.
pub open spec fn defines(ls: Seq<Line>, k: int, sym: Symbol) -> bool {
    0 <= k < ls.len() && ls[k] == Line::Label(sym)
}

/// `after` is what reading the lines `ls` makes of the instructions and the
/// label table of `before`: the instructions among them are added in their
/// order, and each label among them, which `before` does not hold, is bound
/// to the number of instructions that stand before its line.
pub open spec fn reads_lines(before: ParseState, after: ParseState, ls: Seq<Line>) -> bool {
    &&& after.seq == before.seq + instructions(ls)
    &&& forall|k: int, sym: Symbol| #[trigger]
        defines(ls, k, sym) ==> {
            &&& !before.labels.contains_key(sym)
            &&& after.labels.contains_key(sym)
            &&& after.labels[sym] == before.seq.len() + instructions(ls.take(k)).len()
        }
    &&& forall|sym: Symbol| #[trigger]
        before.labels.contains_key(sym) ==> after.labels.contains_key(sym) && after.labels[sym]
            == before.labels[sym]
    &&& forall|sym: Symbol| #[trigger]
        after.labels.contains_key(sym) ==> before.labels.contains_key(sym) || exists|k: int| #[trigger]
            defines(ls, k, sym)
}

proof fn lemma_reads_label(p: ParseState, q: ParseState, r: ParseState, sym: Symbol, rest: Seq<Line>)
    requires
        p.seq.len() <= HexSize::MAX,
        !p.labels.contains_key(sym),
        q.seq == p.seq,
        q.labels == p.labels.insert(sym, p.seq.len() as HexSize),
        reads_lines(q, r, rest),
    ensures
        reads_lines(p, r, seq![Line::Label(sym)] + rest),
{
    let ls = seq![Line::Label(sym)] + rest;
    assert(ls.drop_first() =~= rest);
    assert(q.labels.contains_key(sym));
    assert forall|k: int, s: Symbol| #[trigger] defines(ls, k, s) implies {
        &&& !p.labels.contains_key(s)
        &&& r.labels.contains_key(s)
        &&& r.labels[s] == p.seq.len() + instructions(ls.take(k)).len()
    } by {
        if k == 0 {
            assert(ls.take(0) =~= Seq::<Line>::empty());
        } else {
            assert(defines(rest, k - 1, s));
            assert(ls.take(k).drop_first() =~= rest.take(k - 1));
            assert(ls.take(k)[0] == Line::Label(sym));
        }
    }
    assert forall|s: Symbol| #[trigger] r.labels.contains_key(s) implies p.labels.contains_key(s)
        || exists|k: int| #[trigger] defines(ls, k, s) by {
        if q.labels.contains_key(s) {
            if s == sym {
                assert(defines(ls, 0, s));
            }
        } else {
            let k = choose|k: int| #[trigger] defines(rest, k, s);
            assert(defines(ls, k + 1, s));
        }
    }
    assert forall|s: Symbol| #[trigger] p.labels.contains_key(s) implies r.labels.contains_key(s)
        && r.labels[s] == p.labels[s] by {
        assert(q.labels.contains_key(s));
    }
}

proof fn lemma_reads_instruction(
    p: ParseState,
    q: ParseState,
    r: ParseState,
    ins: Sequence,
    rest: Seq<Line>,
)
    requires
        q.seq == p.seq.push(ins),
        q.labels == p.labels,
        reads_lines(q, r, rest),
    ensures
        reads_lines(p, r, seq![Line::Instruction(ins)] + rest),
{
    let ls = seq![Line::Instruction(ins)] + rest;
    assert(ls.drop_first() =~= rest);
    assert(r.seq =~= p.seq + instructions(ls));
    assert forall|k: int, s: Symbol| #[trigger] defines(ls, k, s) implies {
        &&& !p.labels.contains_key(s)
        &&& r.labels.contains_key(s)
        &&& r.labels[s] == p.seq.len() + instructions(ls.take(k)).len()
    } by {
        assert(k > 0);
        assert(defines(rest, k - 1, s));
        assert(ls.take(k).drop_first() =~= rest.take(k - 1));
        assert(ls.take(k)[0] == Line::Instruction(ins));
    }
    assert forall|s: Symbol| #[trigger] r.labels.contains_key(s) implies p.labels.contains_key(s)
        || exists|k: int| #[trigger] defines(ls, k, s) by {
        if !q.labels.contains_key(s) {
            let k = choose|k: int| #[trigger] defines(rest, k, s);
            assert(defines(ls, k + 1, s));
        }
    }
}

/// A parse that succeeds makes of its state what its lines say.
pub(crate) proof fn lemma_lines_listing(src: Seq<u8>, p: ParseState)
    requires
        p.front.wf(src),
        p.seq.len() + p.front.lex.left(src) <= HexSize::MAX,
        lines(src, p) is Ok,
    ensures
        reads_lines(p, lines(src, p)->Ok_0, listing(src, p)),
    decreases p.front.lex.left(src),
{
    let (ad, next) = p.front.lex.advance(src);
    let r = lines(src, p)->Ok_0;
    lemma_advance(src, p.front.lex);
    let here = p.at(next);
    match ad.lex {
        Lexeme::Eof => {
            assert(listing(src, p) =~= Seq::<Line>::empty());
            assert(r.seq =~= p.seq + instructions(listing(src, p)));
        },
        Lexeme::Whitespace | Lexeme::Eol(_) => {
            lemma_lines_listing(src, here);
        },
        Lexeme::Ident => {
            lemma_line(src, here, ad);
            let q = line(src, here, ad)->Ok_0;
            lemma_lines_listing(src, q);
            let rest = listing(src, q);
            match line_read(src, here, ad) {
                Line::Label(sym) => {
                    lemma_reads_label(here, q, r, sym, rest);
                },
                Line::Instruction(ins) => {
                    lemma_reads_instruction(here, q, r, ins, rest);
                },
            }
        },
        _ => {},
    }
}

/// Label indexing: in a program that parses, the instructions are those of
/// its lines in their order, and the label table binds each label that a
/// line defines, and nothing else, to the index of the instruction that
/// follows that line, which is the number of instructions if none follows.
pub proof fn lemma_label_indexing(src: &str)
    requires
        src.spec_bytes().len() < u32::MAX,
        program(src.spec_bytes()) is Ok,
    ensures
        program(src.spec_bytes())->Ok_0.seq == instructions(
            listing(src.spec_bytes(), ParseState::start()),
        ),
        forall|k: int, sym: Symbol| #[trigger]
            defines(listing(src.spec_bytes(), ParseState::start()), k, sym) ==> {
                &&& program(src.spec_bytes())->Ok_0.labels.contains_key(sym)
                &&& program(src.spec_bytes())->Ok_0.labels[sym] == instructions(
                    listing(src.spec_bytes(), ParseState::start()).take(k),
                ).len()
            },
        forall|sym: Symbol| #[trigger]
            program(src.spec_bytes())->Ok_0.labels.contains_key(sym) ==> exists|k: int| #[trigger]
                defines(listing(src.spec_bytes(), ParseState::start()), k, sym),
{
    let bytes = src.spec_bytes();
    encode_utf8_valid_utf8(src@);
    is_char_boundary_start_end_of_seq(bytes);
    let p = ParseState::start();
    assert(p.front.strings.no_duplicates());
    lemma_lines_listing(bytes, p);
    let r = program(bytes)->Ok_0;
    assert(r.seq =~= instructions(listing(bytes, p)));
}

} // verus!
