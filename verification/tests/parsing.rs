use hex_vm::lex::{Advance, BaseLexer, Lexeme, Lexer, RecordedLexer};
use hex_vm::parse::{ParseError, ParseErrorKind, Parser};
use hex_vm::span::Span;
use hex_vm::{Address, Fault, HexVm, Register, Sequence, Value};
use string_interner::{DefaultSymbol, Symbol as _};

const PROBLEM_1: &str = "\
; sum of the multiples of 3 or 5 below 1000
    mov ax, 0
    mov cx, 0
    mov dx, 0
loop:
    mov ax, cx
    mod 3
    je to_add
    mov ax, cx
    mod 5
    je to_add
to_inc:
    inc cx
    cmp cx, 1000
    jl loop
    jmp end
to_add:
    add dx, cx
    jmp to_inc
end:
";

const PROBLEM_2: &str = "\
; sum of the even fibonacci numbers below four million
    mov dx, 2
    push 1
    push 2
loop:
    pop cx
    pop bx
    mov ax, 0
    add ax, cx
    add ax, bx
    push cx
    push ax
    push ax
    mod 2
    cmp ax, 0
    pop ax
    je be
check:
    cmp ax, 4_000_000
    jl loop
    jmp 100
be:
    add dx, ax
    jmp check
end:
";

const PROBLEM_3: &str = "\
; largest prime factor of 600851475143
    mov cx, 600851475143
    mov bx, 2
loop:
    mov ax, bx
    mul ax
    cmp ax, cx
    jge end
    mov ax, cx
    mod bx
    cmp ax, 0
    jne be
    mov ax, cx
    div bx
    mov cx, ax
    jne loop
be:
    inc bx
    jmp loop
end:
";

const PROBLEM_4: &str = "\
; largest palindrome that is a product of two numbers below 1000
start:
    mov di, 0
    mov bx, 1000
outer:
    mov cx, bx
    dec bx
    cmp bx, 0
    je end
inner:
    dec cx
    cmp cx, 0
    je outer
do_check:
    mov ax, cx
    mul bx
    mov si, ax ; the product
    push bx
    push cx
    mov bx, 0
check_loop:
    mov cx, ax
    mod 10
    mov dx, ax
    mov ax, bx
    mul 10
    add ax, dx
    mov bx, ax
    mov ax, cx
    div 10
    cmp ax, 0
    jg check_loop
greater:
    cmp bx, si
    jne check_end
    cmp si, di
    jl check_end
    mov di, si
check_end:
    pop cx
    pop bx
    jmp inner
end:
";

fn parse(src: &str) -> Result<HexVm, ParseError> {
    Parser::new(src).parse()
}

fn show_symbol(sym: u32) -> String {
    format!("{:?}", DefaultSymbol::try_from_usize(sym as usize).unwrap())
}

fn show_address(add: &Address) -> String {
    match add {
        Address::Ident(sym) => format!("Ident({})", show_symbol(*sym)),
        other => format!("{other:?}"),
    }
}

fn show_value(value: &Value) -> String {
    match value {
        Value::Address(add) => format!("Address({})", show_address(add)),
        other => format!("{other:?}"),
    }
}

fn show(ins: &Sequence) -> String {
    match ins {
        Sequence::Mov(a, v) => format!("Mov({}, {})", show_address(a), show_value(v)),
        Sequence::Cmp(a, b) => format!("Cmp({}, {})", show_value(a), show_value(b)),
        Sequence::Jmp(v) => format!("Jmp({})", show_value(v)),
        Sequence::Je(v) => format!("Je({})", show_value(v)),
        Sequence::Jne(v) => format!("Jne({})", show_value(v)),
        Sequence::Jl(v) => format!("Jl({})", show_value(v)),
        Sequence::Jle(v) => format!("Jle({})", show_value(v)),
        Sequence::Jg(v) => format!("Jg({})", show_value(v)),
        Sequence::Jge(v) => format!("Jge({})", show_value(v)),
        Sequence::Call(sym) => format!("Call({})", show_symbol(*sym)),
        Sequence::Ret => format!("Ret"),
        Sequence::Push(v) => format!("Push({})", show_value(v)),
        Sequence::Pop(a) => format!("Pop({})", show_address(a)),
        Sequence::Add(a, v) => format!("Add({}, {})", show_address(a), show_value(v)),
        Sequence::Sub(a, v) => format!("Sub({}, {})", show_address(a), show_value(v)),
        Sequence::Inc(a) => format!("Inc({})", show_address(a)),
        Sequence::Dec(a) => format!("Dec({})", show_address(a)),
        Sequence::Mul(v) => format!("Mul({})", show_value(v)),
        Sequence::Div(v) => format!("Div({})", show_value(v)),
        Sequence::Mod(v) => format!("Mod({})", show_value(v)),
        Sequence::Str(sym) => format!("Str({})", show_symbol(*sym)),
        Sequence::Print(a, n) => format!("Print({}, {n})", show_address(a)),
    }
}

fn check(s: &str, expected: &str) {
    let h_ac = parse(s).unwrap();
    let mut label = h_ac
        .labels
        .iter()
        .map(|(s, i)| format!("{}: {i}", h_ac.si.resolve(*s).unwrap()))
        .collect::<Vec<_>>();
    label.sort();
    let seq_str = h_ac.seq.iter().map(show).collect::<Vec<_>>().join("\n");
    assert_eq!(format!("{label:#?}\n{seq_str}"), expected);
}

#[test]
fn pe1() {
    check(
        PROBLEM_1,
        r#"[
    "end: 15",
    "loop: 3",
    "to_add: 13",
    "to_inc: 9",
]
Mov(Register(Ax, false), Hex(0))
Mov(Register(Cx, false), Hex(0))
Mov(Register(Dx, false), Hex(0))
Mov(Register(Ax, false), Address(Register(Cx, false)))
Mod(Hex(3))
Je(Address(Ident(SymbolU32 { value: 2 })))
Mov(Register(Ax, false), Address(Register(Cx, false)))
Mod(Hex(5))
Je(Address(Ident(SymbolU32 { value: 2 })))
Inc(Register(Cx, false))
Cmp(Address(Register(Cx, false)), Hex(1000))
Jl(Address(Ident(SymbolU32 { value: 1 })))
Jmp(Address(Ident(SymbolU32 { value: 4 })))
Add(Register(Dx, false), Address(Register(Cx, false)))
Jmp(Address(Ident(SymbolU32 { value: 3 })))"#,
    );
}

#[test]
fn pe2() {
    check(
        PROBLEM_2,
        r#"[
    "be: 18",
    "check: 15",
    "end: 20",
    "loop: 3",
]
Mov(Register(Dx, false), Hex(2))
Push(Hex(1))
Push(Hex(2))
Pop(Register(Cx, false))
Pop(Register(Bx, false))
Mov(Register(Ax, false), Hex(0))
Add(Register(Ax, false), Address(Register(Cx, false)))
Add(Register(Ax, false), Address(Register(Bx, false)))
Push(Address(Register(Cx, false)))
Push(Address(Register(Ax, false)))
Push(Address(Register(Ax, false)))
Mod(Hex(2))
Cmp(Address(Register(Ax, false)), Hex(0))
Pop(Register(Ax, false))
Je(Address(Ident(SymbolU32 { value: 2 })))
Cmp(Address(Register(Ax, false)), Hex(4000000))
Jl(Address(Ident(SymbolU32 { value: 1 })))
Jmp(Hex(100))
Add(Register(Dx, false), Address(Register(Ax, false)))
Jmp(Address(Ident(SymbolU32 { value: 3 })))"#,
    );
}

#[test]
fn pe3() {
    check(
        PROBLEM_3,
        r#"[
    "be: 14",
    "end: 16",
    "loop: 2",
]
Mov(Register(Cx, false), Hex(600851475143))
Mov(Register(Bx, false), Hex(2))
Mov(Register(Ax, false), Address(Register(Bx, false)))
Mul(Address(Register(Ax, false)))
Cmp(Address(Register(Ax, false)), Address(Register(Cx, false)))
Jge(Address(Ident(SymbolU32 { value: 2 })))
Mov(Register(Ax, false), Address(Register(Cx, false)))
Mod(Address(Register(Bx, false)))
Cmp(Address(Register(Ax, false)), Hex(0))
Jne(Address(Ident(SymbolU32 { value: 3 })))
Mov(Register(Ax, false), Address(Register(Cx, false)))
Div(Address(Register(Bx, false)))
Mov(Register(Cx, false), Address(Register(Ax, false)))
Jne(Address(Ident(SymbolU32 { value: 1 })))
Inc(Register(Bx, false))
Jmp(Address(Ident(SymbolU32 { value: 1 })))"#,
    );
}

#[test]
fn pe4() {
    check(
        PROBLEM_4,
        r#"[
    "check_end: 31",
    "check_loop: 15",
    "do_check: 9",
    "end: 34",
    "greater: 26",
    "inner: 6",
    "outer: 2",
    "start: 0",
]
Mov(Register(Di, false), Hex(0))
Mov(Register(Bx, false), Hex(1000))
Mov(Register(Cx, false), Address(Register(Bx, false)))
Dec(Register(Bx, false))
Cmp(Address(Register(Bx, false)), Hex(0))
Je(Address(Ident(SymbolU32 { value: 3 })))
Dec(Register(Cx, false))
Cmp(Address(Register(Cx, false)), Hex(0))
Je(Address(Ident(SymbolU32 { value: 2 })))
Mov(Register(Ax, false), Address(Register(Cx, false)))
Mul(Address(Register(Bx, false)))
Mov(Register(Si, false), Address(Register(Ax, false)))
Push(Address(Register(Bx, false)))
Push(Address(Register(Cx, false)))
Mov(Register(Bx, false), Hex(0))
Mov(Register(Cx, false), Address(Register(Ax, false)))
Mod(Hex(10))
Mov(Register(Dx, false), Address(Register(Ax, false)))
Mov(Register(Ax, false), Address(Register(Bx, false)))
Mul(Hex(10))
Add(Register(Ax, false), Address(Register(Dx, false)))
Mov(Register(Bx, false), Address(Register(Ax, false)))
Mov(Register(Ax, false), Address(Register(Cx, false)))
Div(Hex(10))
Cmp(Address(Register(Ax, false)), Hex(0))
Jg(Address(Ident(SymbolU32 { value: 6 })))
Cmp(Address(Register(Bx, false)), Address(Register(Si, false)))
Jne(Address(Ident(SymbolU32 { value: 8 })))
Cmp(Address(Register(Si, false)), Address(Register(Di, false)))
Jl(Address(Ident(SymbolU32 { value: 8 })))
Mov(Register(Di, false), Address(Register(Si, false)))
Pop(Register(Cx, false))
Pop(Register(Bx, false))
Jmp(Address(Ident(SymbolU32 { value: 4 })))"#,
    );
}

fn run_to_end(vm: &mut HexVm) -> Result<(), Fault> {
    loop {
        if vm.run(1 << 20)? {
            return Ok(());
        }
    }
}

#[test]
fn parsed_sum_of_multiples_runs_to_233168() {
    let mut vm = parse(PROBLEM_1).unwrap();
    assert_eq!(run_to_end(&mut vm), Ok(()));
    assert_eq!(vm.reg.dx, 233168);
}

#[test]
fn parsed_even_fibonacci_sum_runs_to_4613732() {
    let mut vm = parse(PROBLEM_2).unwrap();
    assert_eq!(run_to_end(&mut vm), Ok(()));
    assert_eq!(vm.reg.dx, 4613732);
}

#[test]
fn parsed_largest_prime_factor_runs_to_6857() {
    let mut vm = parse(PROBLEM_3).unwrap();
    assert_eq!(run_to_end(&mut vm), Ok(()));
    assert_eq!(vm.reg.cx, 6857);
}

#[test]
fn parsed_largest_palindrome_runs_to_906609() {
    let mut vm = parse(PROBLEM_4).unwrap();
    assert_eq!(run_to_end(&mut vm), Ok(()));
    assert_eq!(vm.reg.di, 906609);
}

#[test]
fn parsed_divide_by_zero_faults_before_the_next_instruction() {
    let mut vm = parse("mov ax, 7\nmov bx, 0\ndiv bx\nmov cx, 1\n").unwrap();
    assert_eq!(vm.run(100), Err(Fault::DivideByZero));
    assert_eq!((vm.reg.ip, vm.reg.ax, vm.reg.cx), (2, 7, 0));
}

#[test]
fn parsed_indirect_write_is_seen_at_the_index() {
    let mut vm = parse("mov bx, 0x2A\nmov [bx], 99\nmov ax, [42]\nmov cx, [0b10_1010]").unwrap();
    assert_eq!(vm.run(100), Ok(true));
    assert_eq!((vm.mem[42], vm.reg.ax, vm.reg.cx), (99, 99, 99));
}

#[test]
fn a_label_is_bound_to_the_next_instruction() {
    let vm = parse("first:\n\n; nothing\nret\nsecond: ; here\nthird:\nret\nret\nlast:").unwrap();
    let index = |name: &str| {
        let sym = (0..vm.si.len() as u32)
            .find(|&s| vm.si.resolve(s) == Some(name))
            .unwrap();
        vm.labels[&sym]
    };
    assert_eq!(vm.seq.len(), 3);
    assert_eq!(index("first"), 0);
    assert_eq!(index("second"), 1);
    assert_eq!(index("third"), 1);
    assert_eq!(index("last"), 3);
    assert_eq!(vm.labels.len(), 4);
}

#[test]
fn a_forward_reference_interns_the_name_first() {
    let vm = parse("jmp far\ncall far\nfar:\nret").unwrap();
    assert_eq!(
        vm.seq,
        vec![
            Sequence::Jmp(Value::Address(Address::Ident(0))),
            Sequence::Call(0),
            Sequence::Ret
        ]
    );
    assert_eq!(vm.si.resolve(0), Some("far"));
    assert_eq!(vm.si.resolve(1), None);
    assert_eq!(vm.labels.get(&0), Some(&2));
}

#[test]
fn every_mnemonic_is_recognised() {
    let src = "mov ax, 1\ncmp ax, [bx]\njmp 1\nje 2\njne 3\njl 4\njle 5\njg 6\njge 7\ncall f\nret\n\
               push 0x10\npop [3]\nadd sp, 0o17\nsub bp, ip\ninc si\ndec di\nmul 2\ndiv cx\nmod dx\n\
               str \"hi\"\nprint sp, 2";
    let vm = parse(src).unwrap();
    let r = |r| Address::Register(r, false);
    assert_eq!(
        vm.seq,
        vec![
            Sequence::Mov(r(Register::Ax), Value::Hex(1)),
            Sequence::Cmp(
                Value::Address(r(Register::Ax)),
                Value::Address(Address::Register(Register::Bx, true))
            ),
            Sequence::Jmp(Value::Hex(1)),
            Sequence::Je(Value::Hex(2)),
            Sequence::Jne(Value::Hex(3)),
            Sequence::Jl(Value::Hex(4)),
            Sequence::Jle(Value::Hex(5)),
            Sequence::Jg(Value::Hex(6)),
            Sequence::Jge(Value::Hex(7)),
            Sequence::Call(0),
            Sequence::Ret,
            Sequence::Push(Value::Hex(16)),
            Sequence::Pop(Address::Stack(3)),
            Sequence::Add(r(Register::Sp), Value::Hex(15)),
            Sequence::Sub(r(Register::Bp), Value::Address(r(Register::Ip))),
            Sequence::Inc(r(Register::Si)),
            Sequence::Dec(r(Register::Di)),
            Sequence::Mul(Value::Hex(2)),
            Sequence::Div(Value::Address(r(Register::Cx))),
            Sequence::Mod(Value::Address(r(Register::Dx))),
            Sequence::Str(1),
            Sequence::Print(r(Register::Sp), 2),
        ]
    );
    assert_eq!(vm.si.resolve(1), Some("\"hi\""));
}

#[test]
fn a_staged_string_prints_in_order() {
    let mut vm = parse("str \"hello, world\"\nprint sp, 14").unwrap();
    assert_eq!(vm.run(10), Ok(true));
    assert_eq!(vm.out, "\"hello, world\"");
    let top = vm.mem.len();
    assert_eq!(vm.reg.sp as usize, top - 2);
    assert_eq!(vm.mem[top - 2], u64::from_be_bytes(*b"\"hello, "));
    assert_eq!(vm.mem[top - 1], u64::from_be_bytes(*b"world\"\0\0"));
}

#[test]
fn a_string_of_other_scripts_survives_the_stack() {
    let mut vm = parse("str \"größe ≠ 0\"\nprint sp, 15").unwrap();
    assert_eq!(vm.run(10), Ok(true));
    assert_eq!(vm.out, "\"größe ≠ 0\"");
}

fn error_of(src: &str) -> (ParseErrorKind, Lexeme, Span, u32) {
    let e = parse(src).unwrap_err();
    (e.kind, e.at.lex, e.at.span, e.at.line)
}

#[test]
fn an_unknown_mnemonic_is_an_error() {
    assert_eq!(
        error_of("ret\n  nop\n"),
        (ParseErrorKind::UnknownMnemonic, Lexeme::Ident, Span::new(6, 9), 1)
    );
}

#[test]
fn a_comment_and_its_line_break_each_count_a_line() {
    assert_eq!(
        error_of("ret ; done\nnop"),
        (ParseErrorKind::UnknownMnemonic, Lexeme::Ident, Span::new(11, 14), 2)
    );
    let vm = parse("; first\n;second\nhere: ; third\n\nret;fourth").unwrap();
    assert_eq!(vm.seq, vec![Sequence::Ret]);
    assert_eq!(vm.labels.get(&0), Some(&0));
}

#[test]
fn a_lexeme_out_of_place_is_an_error() {
    assert_eq!(
        error_of("mov ax 1"),
        (
            ParseErrorKind::UnexpectedLexeme,
            Lexeme::Digit(hex_vm::lex::DigitBase::Decimal),
            Span::new(7, 8),
            0
        )
    );
    assert_eq!(
        error_of("  $ret"),
        (ParseErrorKind::UnexpectedLexeme, Lexeme::Other, Span::new(2, 3), 0)
    );
    assert_eq!(
        error_of(", ret"),
        (ParseErrorKind::UnexpectedLexeme, Lexeme::Comma, Span::new(0, 1), 0)
    );
    assert_eq!(
        error_of("push ,"),
        (ParseErrorKind::UnexpectedLexeme, Lexeme::Comma, Span::new(5, 6), 0)
    );
    assert_eq!(
        error_of("push [ax"),
        (ParseErrorKind::UnexpectedLexeme, Lexeme::Eof, Span::new(8, 9), 0)
    );
    assert_eq!(
        error_of("push []"),
        (ParseErrorKind::UnexpectedLexeme, Lexeme::CloseBracket, Span::new(6, 7), 0)
    );
    assert_eq!(
        error_of("call 3"),
        (
            ParseErrorKind::UnexpectedLexeme,
            Lexeme::Digit(hex_vm::lex::DigitBase::Decimal),
            Span::new(5, 6),
            0
        )
    );
    assert_eq!(
        error_of("str hi"),
        (ParseErrorKind::UnexpectedLexeme, Lexeme::Ident, Span::new(4, 6), 0)
    );
}

#[test]
fn an_integer_that_is_none_is_an_error() {
    let digit = |b| Lexeme::Digit(b);
    assert_eq!(
        error_of("push 0b102"),
        (
            ParseErrorKind::InvalidInteger,
            digit(hex_vm::lex::DigitBase::Binary),
            Span::new(5, 10),
            0
        )
    );
    assert_eq!(
        error_of("push 0o8"),
        (
            ParseErrorKind::InvalidInteger,
            digit(hex_vm::lex::DigitBase::Octal),
            Span::new(5, 8),
            0
        )
    );
    assert_eq!(
        error_of("push 18446744073709551616"),
        (
            ParseErrorKind::InvalidInteger,
            digit(hex_vm::lex::DigitBase::Decimal),
            Span::new(5, 25),
            0
        )
    );
    assert_eq!(
        error_of("push [0x1_0000_0000_0000_0000]"),
        (
            ParseErrorKind::InvalidInteger,
            digit(hex_vm::lex::DigitBase::Hex),
            Span::new(6, 29),
            0
        )
    );
    assert_eq!(
        parse("push 18446744073709551615\npush 0xFFFF_ffff_FFFF_ffff\npush 0_0_7")
            .unwrap()
            .seq,
        vec![
            Sequence::Push(Value::Hex(u64::MAX)),
            Sequence::Push(Value::Hex(u64::MAX)),
            Sequence::Push(Value::Hex(7))
        ]
    );
}

#[test]
fn a_label_defined_twice_is_an_error() {
    assert_eq!(
        error_of("here:\nret\nhere:\n"),
        (ParseErrorKind::DuplicateLabel, Lexeme::Ident, Span::new(10, 14), 2)
    );
}

#[test]
fn an_operand_of_the_wrong_kind_is_an_error() {
    assert_eq!(
        error_of("mov 5, ax"),
        (
            ParseErrorKind::MalformedOperand,
            Lexeme::Digit(hex_vm::lex::DigitBase::Decimal),
            Span::new(4, 5),
            0
        )
    );
    assert_eq!(
        error_of("print ax, bx"),
        (ParseErrorKind::MalformedOperand, Lexeme::Ident, Span::new(10, 12), 0)
    );
    assert_eq!(
        error_of("push [total]"),
        (ParseErrorKind::MalformedOperand, Lexeme::Ident, Span::new(6, 11), 0)
    );
    assert_eq!(
        error_of("push ; nothing\n"),
        (ParseErrorKind::MalformedOperand, Lexeme::Eol(true), Span::new(5, 14), 0)
    );
    assert_eq!(
        error_of("inc"),
        (ParseErrorKind::MalformedOperand, Lexeme::Eof, Span::new(3, 4), 0)
    );
    assert_eq!(
        error_of("cmp ax, \n"),
        (ParseErrorKind::MalformedOperand, Lexeme::Eol(false), Span::new(8, 9), 0)
    );
}

#[test]
fn anything_behind_an_instruction_is_an_error() {
    assert_eq!(
        error_of("ret ret"),
        (ParseErrorKind::TrailingTokens, Lexeme::Ident, Span::new(4, 7), 0)
    );
    assert_eq!(
        error_of("push ax mov bx, 1"),
        (ParseErrorKind::TrailingTokens, Lexeme::Ident, Span::new(8, 11), 0)
    );
    assert_eq!(
        error_of("jmp 3, 4"),
        (ParseErrorKind::TrailingTokens, Lexeme::Comma, Span::new(5, 6), 0)
    );
    assert_eq!(
        error_of("here: ret"),
        (ParseErrorKind::TrailingTokens, Lexeme::Ident, Span::new(6, 9), 0)
    );
    assert!(parse("ret ; done\nhere:   ; a label\n ret\t\n").is_ok());
}

#[test]
fn a_name_is_an_operand_wherever_one_is_read() {
    let vm = parse("mov total, 1\npush total\npop other\ncmp total, other\nprint total, 3").unwrap();
    let total = Address::Ident(0);
    let other = Address::Ident(1);
    assert_eq!(
        vm.seq,
        vec![
            Sequence::Mov(total, Value::Hex(1)),
            Sequence::Push(Value::Address(total)),
            Sequence::Pop(other),
            Sequence::Cmp(Value::Address(total), Value::Address(other)),
            Sequence::Print(total, 3),
        ]
    );
    assert_eq!(vm.si.resolve(0), Some("total"));
    assert_eq!(vm.si.resolve(1), Some("other"));
    assert!(vm.labels.is_empty());
}

#[test]
fn a_label_serves_as_a_named_cell() {
    let mut vm = parse("counter:\n mov counter, 5\n add counter, 1\n mov ax, counter\n inc nowhere").unwrap();
    assert_eq!(vm.labels.get(&0), Some(&0));
    assert_eq!(vm.run(3), Ok(false));
    assert_eq!(vm.labels.get(&0), Some(&6));
    assert_eq!(vm.reg.ax, 6);
    assert_eq!(vm.run(1), Err(Fault::UndefinedLabel));
    assert_eq!(vm.reg.ip, 3);
}

#[test]
fn a_register_name_is_no_label() {
    let vm = parse("jmp ax\njmp [bx]\njmp axe").unwrap();
    assert_eq!(
        vm.seq,
        vec![
            Sequence::Jmp(Value::Address(Address::Register(Register::Ax, false))),
            Sequence::Jmp(Value::Address(Address::Register(Register::Bx, true))),
            Sequence::Jmp(Value::Address(Address::Ident(0))),
        ]
    );
    assert_eq!(vm.si.len(), 1);
}

#[test]
fn the_empty_text_is_the_empty_program() {
    let vm = parse("").unwrap();
    assert!(vm.seq.is_empty());
    assert!(vm.labels.is_empty());
    assert_eq!(vm.si.len(), 0);
    assert_eq!(vm, HexVm::new(vec![], Default::default()));
}

#[test]
fn a_recording_lexer_parses_like_the_base_lexer() {
    let recorded = Parser {
        si: hex_vm::SymbolTable::new(),
        src: PROBLEM_4,
        lexer: RecordedLexer::new(PROBLEM_4),
        seq: Vec::new(),
        labels: Default::default(),
    };
    assert_eq!(recorded.parse(), parse(PROBLEM_4));
}

#[test]
fn a_parser_goes_on_from_where_its_lexer_stands() {
    let src = "ret ret\npush 1";
    let mut lexer = BaseLexer::new(src);
    assert_eq!(lexer.advance().lex, Lexeme::Ident);
    let held: Advance = lexer.peek();
    assert_eq!(held.lex, Lexeme::Whitespace);
    let parser = Parser {
        si: hex_vm::SymbolTable::new(),
        src,
        lexer,
        seq: vec![Sequence::Inc(Address::Stack(0))],
        labels: Default::default(),
    };
    assert_eq!(
        parser.parse().unwrap().seq,
        vec![
            Sequence::Inc(Address::Stack(0)),
            Sequence::Ret,
            Sequence::Push(Value::Hex(1))
        ]
    );
}
