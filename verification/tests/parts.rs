use std::collections::HashMap;

use hex_vm::lex::DigitBase;
use hex_vm::stack::{pop, push};
use hex_vm::token::{mnemonic, number, register, same_text, Mnemonic};
use hex_vm::{
    Fault, FlagSet, HexVm, JmpKind, Op, Register, Sequence, SymbolTable, Value, HEX_MEM_SIZE,
    MEM_SIZE,
};

#[test]
fn the_symbol_table_gives_each_text_one_id() {
    let mut table = SymbolTable::new();
    assert_eq!(table.len(), 0);
    assert_eq!(table.resolve(0), None);
    assert_eq!(table.get_or_intern("loop"), Some(0));
    assert_eq!(table.get_or_intern("end"), Some(1));
    assert_eq!(table.get_or_intern("loop"), Some(0));
    assert_eq!(table.get_or_intern(""), Some(2));
    assert_eq!(table.len(), 3);
    assert_eq!(table.resolve(0), Some("loop"));
    assert_eq!(table.resolve(1), Some("end"));
    assert_eq!(table.resolve(2), Some(""));
    assert_eq!(table.resolve(3), None);
    assert_eq!(table.resolve(u32::MAX), None);
}

#[test]
fn a_machine_with_symbols_stages_their_text() {
    let mut table = SymbolTable::new();
    let short = table.get_or_intern("abc").unwrap();
    let exact = table.get_or_intern("12345678").unwrap();
    let none = table.get_or_intern("").unwrap();
    let mut vm = HexVm::with_symbols(
        table,
        vec![
            Sequence::Str(short),
            Sequence::Str(none),
            Sequence::Str(exact),
        ],
        HashMap::new(),
    );
    assert_eq!(vm.run(2), Ok(false));
    assert_eq!(vm.reg.sp, HEX_MEM_SIZE - 1);
    assert_eq!(vm.mem[MEM_SIZE - 1], 0x6162_6300_0000_0000);
    assert_eq!(vm.run(1), Ok(true));
    assert_eq!(vm.reg.sp, HEX_MEM_SIZE - 2);
    assert_eq!(vm.mem[MEM_SIZE - 2], 0x3132_3334_3536_3738);
}

#[test]
fn a_string_too_long_for_the_stack_is_staged_in_part() {
    let mut table = SymbolTable::new();
    let long = table.get_or_intern("0123456789abcdefXYZ").unwrap();
    let mut vm = HexVm::with_symbols(
        table,
        vec![
            Sequence::Mov(hex_vm::reg(Register::Sp, false), Value::Hex(2)),
            Sequence::Str(long),
        ],
        HashMap::new(),
    );
    assert_eq!(vm.run(5), Err(Fault::StackOverflow));
    assert_eq!(vm.reg.sp, 0);
    assert_eq!(vm.reg.ip, 1);
    assert_eq!(vm.mem[1], u64::from_be_bytes(*b"XYZ\0\0\0\0\0"));
    assert_eq!(vm.mem[0], u64::from_be_bytes(*b"89abcdef"));
}

#[test]
fn one_cycle_at_a_time() {
    let mut vm = HexVm::new(
        vec![
            Sequence::Push(Value::Hex(5)),
            Sequence::Jmp(Value::Hex(3)),
            Sequence::Ret,
            Sequence::Div(Value::Hex(0)),
        ],
        HashMap::new(),
    );
    assert!(!vm.halted());
    assert_eq!(vm.sequence(), Ok(()));
    assert_eq!((vm.reg.ip, vm.reg.sp), (1, HEX_MEM_SIZE - 1));
    assert_eq!(vm.sequence(), Ok(()));
    assert_eq!(vm.reg.ip, 3);
    assert_eq!(vm.sequence(), Err(Fault::DivideByZero));
    assert_eq!(vm.reg.ip, 3);
    assert!(!vm.halted());
    assert_eq!(vm.run(0), Ok(false));
}

#[test]
fn push_and_pop_move_the_stack_pointer() {
    let mut mem = [0u64; MEM_SIZE];
    let mut sp = HEX_MEM_SIZE;
    assert_eq!(pop(&mut sp, &mem), Err(Fault::StackUnderflow));
    assert_eq!(push(&mut sp, &mut mem, 7), Ok(()));
    assert_eq!(push(&mut sp, &mut mem, 8), Ok(()));
    assert_eq!(sp, HEX_MEM_SIZE - 2);
    assert_eq!(&mem[MEM_SIZE - 2..], &[8, 7]);
    assert_eq!(pop(&mut sp, &mem), Ok(8));
    assert_eq!(pop(&mut sp, &mem), Ok(7));
    assert_eq!(sp, HEX_MEM_SIZE);
    sp = 0;
    assert_eq!(push(&mut sp, &mut mem, 1), Err(Fault::StackOverflow));
    assert_eq!((sp, mem[0]), (0, 0));
    sp = HEX_MEM_SIZE + 1;
    assert_eq!(push(&mut sp, &mut mem, 1), Err(Fault::BadAddress));
    assert_eq!(sp, HEX_MEM_SIZE + 1);
    assert_eq!(pop(&mut sp, &mem), Err(Fault::StackUnderflow));
    sp = 1;
    assert_eq!(push(&mut sp, &mut mem, 9), Ok(()));
    assert_eq!((sp, mem[0]), (0, 9));
}

#[test]
fn arithmetic_sets_the_flags_by_its_rules() {
    let mut flg = FlagSet::default();
    assert_eq!(flg.math(3, 4, Op::Add), Ok(7));
    assert_eq!(flg, FlagSet { sf: false, cf: false, zf: false, of: true });
    assert_eq!(flg.math(u64::MAX, 1, Op::Add), Ok(0));
    assert_eq!(flg, FlagSet { sf: false, cf: true, zf: true, of: false });
    assert_eq!(flg.math(1 << 63, 0, Op::Add), Ok(1 << 63));
    assert_eq!(flg, FlagSet { sf: true, cf: false, zf: false, of: false });
    assert_eq!(flg.math(3, 4, Op::Sub), Ok(u64::MAX));
    assert_eq!(flg, FlagSet { sf: true, cf: true, zf: false, of: true });
    assert_eq!(flg.math(4, 4, Op::Sub), Ok(0));
    assert_eq!(flg, FlagSet { sf: false, cf: false, zf: true, of: false });
    assert_eq!(flg.math(3, 4, Op::Sub), Ok(u64::MAX));
    assert_eq!(flg.math(1 << 32, 1 << 32, Op::Mul), Ok(0));
    assert_eq!(flg, FlagSet { sf: false, cf: true, zf: true, of: true });
    assert_eq!(flg.math(u64::MAX, u64::MAX, Op::Mul), Ok(1));
    assert_eq!(flg.math(u64::MAX, 2, Op::Div), Ok((1 << 63) - 1));
    assert_eq!(flg, FlagSet { sf: false, cf: true, zf: false, of: true });
    assert_eq!(flg.math(u64::MAX, 1 << 63, Op::Mod), Ok((1 << 63) - 1));
    assert_eq!(flg.math(5, 0, Op::Div), Err(Fault::DivideByZero));
    assert_eq!(flg.math(5, 0, Op::Mod), Err(Fault::DivideByZero));
    assert_eq!(flg, FlagSet { sf: false, cf: true, zf: false, of: true });
    flg.do_cmp(1, 2);
    assert_eq!(flg, FlagSet { sf: true, cf: true, zf: false, of: false });
    flg.do_cmp(2, 2);
    assert_eq!(flg, FlagSet { sf: false, cf: false, zf: true, of: false });
    flg.do_cmp(3, 2);
    assert_eq!(flg, FlagSet::default());
}

#[test]
fn words_are_looked_up_exactly() {
    assert_eq!(mnemonic("mov"), Some(Mnemonic::Mov));
    assert_eq!(mnemonic("cmp"), Some(Mnemonic::Compare));
    assert_eq!(mnemonic("jle"), Some(Mnemonic::Jump(JmpKind::Jle)));
    assert_eq!(mnemonic("print"), Some(Mnemonic::Print));
    assert_eq!(mnemonic("MOV"), None);
    assert_eq!(mnemonic("mo"), None);
    assert_eq!(mnemonic("movs"), None);
    assert_eq!(mnemonic(""), None);
    assert_eq!(register("ax"), Some(Register::Ax));
    assert_eq!(register("ip"), Some(Register::Ip));
    assert_eq!(register("Ax"), None);
    assert_eq!(register("a"), None);
    assert_eq!(register("axe"), None);
    assert!(same_text("", ""));
    assert!(same_text("äx", "äx"));
    assert!(!same_text("ax", "bx"));
    assert!(!same_text("ax", "ax "));
}

#[test]
fn literals_are_read_in_their_base() {
    assert_eq!(number("0", DigitBase::Decimal), Some(0));
    assert_eq!(number("1_000_000", DigitBase::Decimal), Some(1_000_000));
    assert_eq!(number("0b1010", DigitBase::Binary), Some(10));
    assert_eq!(number("0o17", DigitBase::Octal), Some(15));
    assert_eq!(number("0xfF", DigitBase::Hex), Some(255));
    assert_eq!(number("0x_f_", DigitBase::Hex), Some(15));
    assert_eq!(number("0b2", DigitBase::Binary), None);
    assert_eq!(number("0o8", DigitBase::Octal), None);
    assert_eq!(number("12a", DigitBase::Decimal), None);
    assert_eq!(number("0x", DigitBase::Decimal), None);
    assert_eq!(number("0xg", DigitBase::Hex), None);
    assert_eq!(number("18446744073709551615", DigitBase::Decimal), Some(u64::MAX));
    assert_eq!(number("18446744073709551616", DigitBase::Decimal), None);
    assert_eq!(number("99999999999999999999999", DigitBase::Decimal), None);
    assert_eq!(
        number("0b1111111111111111111111111111111111111111111111111111111111111111", DigitBase::Binary),
        Some(u64::MAX)
    );
    assert_eq!(
        number("0b10000000000000000000000000000000000000000000000000000000000000000", DigitBase::Binary),
        None
    );
}
