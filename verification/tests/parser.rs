use asm_operands::error::ParseError;
use asm_operands::immediate::Immediate;
use asm_operands::instruction::Operand;
use asm_operands::memory::Memory;
use asm_operands::memory::Offset;
use asm_operands::parser::binary_digits;
use asm_operands::parser::decimal_digits;
use asm_operands::parser::digits;
use asm_operands::parser::from_binary;
use asm_operands::parser::from_decimal;
use asm_operands::parser::from_hex;
use asm_operands::parser::hex_digits;
use asm_operands::parser::immediate;
use asm_operands::parser::is_binary;
use asm_operands::parser::is_digit;
use asm_operands::parser::is_hex_digit;
use asm_operands::parser::memory;
use asm_operands::parser::register;
use asm_operands::parser::seg_register;
use asm_operands::register::Len;
use asm_operands::register::Register;

#[test]
fn test_register_parse() {
    let inputs = [" rax ", " ss ", "bx"];
    let expectes = [
        Register::AX(Len::Full),
        Register::SS,
        Register::BX(Len::Low16),
    ];
    for (input, expect) in inputs.iter().zip(expectes.iter()) {
        let (remain, reg) = register(input, 0).expect("cannot parse rax");
        assert_eq!(reg.get_register().unwrap(), *expect);
        assert!(input.len() - remain == 0);
    }
}

#[test]
fn test_digits_parse() {
    let inputs = ["0xdeadbeef", "31415926", "0b10010"];
    let expectes = [0xdeadbeefu64, 31415926, 0b10010];
    for (input, expect) in inputs.iter().zip(expectes.iter()) {
        let (remain, reg) = digits(input, 0).expect("cannot parse rax");
        assert_eq!(reg, *expect);
        assert!(input.len() - remain == 0);
    }
}

#[test]
fn test_memory_parse() {
    let inputs = ["[0x8000]", "[bx + 0x1]", "[bx + si + 0b10010]"];
    let expectes = [
        Memory::Offset(Offset::U16(0x8000)),
        Memory::BX(Offset::U8(1)),
        Memory::BXSI(Offset::U8(0b10010)),
    ];
    for (input, expect) in inputs.iter().zip(expectes.iter()) {
        let (remain, reg) = memory(input, 0).expect(&format!("cannot parse {}", input));
        assert_eq!(reg.get_memory().unwrap(), *expect);
        assert!(input.len() - remain == 0);
    }
}

#[test]
fn test_every_family_alias_parses() {
    let cases: Vec<(&str, Register)> = vec![
        ("rax", Register::AX(Len::Full)),
        ("eax", Register::AX(Len::Low32)),
        ("ax", Register::AX(Len::Low16)),
        ("ah", Register::AX(Len::High8)),
        ("al", Register::AX(Len::Low8)),
        ("rcx", Register::CX(Len::Full)),
        ("ecx", Register::CX(Len::Low32)),
        ("cx", Register::CX(Len::Low16)),
        ("ch", Register::CX(Len::High8)),
        ("cl", Register::CX(Len::Low8)),
        ("rdx", Register::DX(Len::Full)),
        ("edx", Register::DX(Len::Low32)),
        ("dx", Register::DX(Len::Low16)),
        ("dh", Register::DX(Len::High8)),
        ("dl", Register::DX(Len::Low8)),
        ("rbx", Register::BX(Len::Full)),
        ("ebx", Register::BX(Len::Low32)),
        ("bx", Register::BX(Len::Low16)),
        ("bh", Register::BX(Len::High8)),
        ("bl", Register::BX(Len::Low8)),
        ("rsp", Register::SP(Len::Full)),
        ("esp", Register::SP(Len::Low32)),
        ("sp", Register::SP(Len::Low16)),
        ("rbp", Register::BP(Len::Full)),
        ("ebp", Register::BP(Len::Low32)),
        ("bp", Register::BP(Len::Low16)),
        ("rsi", Register::SI(Len::Full)),
        ("esi", Register::SI(Len::Low32)),
        ("si", Register::SI(Len::Low16)),
        ("rdi", Register::DI(Len::Full)),
        ("edi", Register::DI(Len::Low32)),
        ("di", Register::DI(Len::Low16)),
    ];
    for (text, expect) in cases {
        let (remain, op) = register(text, 0).expect(&format!("cannot parse {}", text));
        assert_eq!(op.get_register().unwrap(), expect);
        assert_eq!(remain, text.len());
    }
}

#[test]
fn test_every_segment_alias_parses() {
    let cases: Vec<(&str, Register)> = vec![
        ("ss", Register::SS),
        ("cs", Register::CS),
        ("ds", Register::DS),
        ("es", Register::ES),
        ("gs", Register::GS),
        ("fs", Register::FS),
    ];
    for (text, expect) in cases {
        let (remain, op) = register(text, 0).expect(&format!("cannot parse {}", text));
        assert_eq!(op.get_register().unwrap(), expect);
        assert_eq!(remain, text.len());
    }
}

#[test]
fn test_seg_register_direct() {
    let (p, reg) = seg_register("cs", 0).unwrap();
    assert_eq!(p, 2);
    assert_eq!(reg, Register::CS);
    assert_eq!(seg_register("ax", 0), Err(ParseError::Tag));
}

#[test]
fn test_register_unknown_is_tag() {
    assert_eq!(register("zz", 0).unwrap_err(), ParseError::Tag);
    assert_eq!(register("", 0).unwrap_err(), ParseError::Tag);
    assert_eq!(register("123", 0).unwrap_err(), ParseError::Tag);
}

#[test]
fn test_register_consumes_prefix_only() {
    let (remain, op) = register("bx+si", 0).unwrap();
    assert_eq!(remain, 2);
    assert_eq!(op.get_register().unwrap(), Register::BX(Len::Low16));
}

#[test]
fn test_digits_partial_consumption() {
    assert_eq!(digits("123abc", 0), Ok((3, 123)));
    assert_eq!(digits("0x1g", 0), Ok((3, 1)));
    assert_eq!(digits("0b1012", 0), Ok((5, 0b101)));
}

#[test]
fn test_digits_empty_run_is_malformed() {
    assert_eq!(digits("", 0), Err(ParseError::Malformed));
    assert_eq!(digits("xyz", 0), Err(ParseError::Malformed));
    assert_eq!(digits("0b", 0), Err(ParseError::Malformed));
    assert_eq!(digits("0bz", 0), Err(ParseError::Malformed));
    assert_eq!(digits("0x", 0), Err(ParseError::Malformed));
}

#[test]
fn test_digits_overflow_is_malformed() {
    assert_eq!(
        digits("99999999999999999999999", 0),
        Err(ParseError::Malformed)
    );
    assert_eq!(digits("18446744073709551615", 0), Ok((20, u64::MAX)));
    assert_eq!(digits("18446744073709551616", 0), Err(ParseError::Malformed));
    assert_eq!(digits("0xffffffffffffffff", 0), Ok((18, u64::MAX)));
    assert_eq!(digits("0x10000000000000000", 0), Err(ParseError::Malformed));
}

#[test]
fn test_prefixed_digit_parsers() {
    assert_eq!(binary_digits("0b101", 0), Ok((5, 5)));
    assert_eq!(binary_digits("101", 0), Err(ParseError::Tag));
    assert_eq!(hex_digits("0xff", 0), Ok((4, 255)));
    assert_eq!(hex_digits("ff", 0), Err(ParseError::Tag));
    assert_eq!(decimal_digits("42x", 0), Ok((2, 42)));
    assert_eq!(decimal_digits("x", 0), Err(ParseError::Malformed));
}

#[test]
fn test_radix_conversions() {
    assert_eq!(from_decimal("123"), Ok(123));
    assert_eq!(from_binary("101"), Ok(5));
    assert_eq!(from_hex("ff"), Ok(255));
    assert_eq!(from_hex("FF"), Ok(255));
    assert_eq!(from_hex("deadbeef"), Ok(0xdeadbeef));
    assert_eq!(from_decimal(""), Err(ParseError::Malformed));
    assert_eq!(from_decimal("12a"), Err(ParseError::Malformed));
    assert_eq!(from_binary("102"), Err(ParseError::Malformed));
    assert_eq!(from_decimal("18446744073709551616"), Err(ParseError::Malformed));
}

#[test]
fn test_digit_classifiers() {
    assert!(is_binary('0') && is_binary('1'));
    assert!(!is_binary('2'));
    assert!(is_digit('0') && is_digit('9'));
    assert!(!is_digit('a'));
    assert!(is_hex_digit('0') && is_hex_digit('9'));
    assert!(is_hex_digit('a') && is_hex_digit('f'));
    assert!(is_hex_digit('A') && is_hex_digit('F'));
    assert!(!is_hex_digit('g') && !is_hex_digit('G'));
}

#[test]
fn test_immediate_operand() {
    let (remain, op) = immediate(" 42 ", 0).unwrap();
    assert_eq!(remain, 4);
    assert!(op.is_immediate());
    assert_eq!(op.get_immediate().unwrap(), Immediate(42));
    assert_eq!(immediate("x", 0).unwrap_err(), ParseError::Malformed);
}

#[test]
fn test_operand_capabilities() {
    let (_, reg) = register("ax", 0).unwrap();
    assert!(reg.is_register() && !reg.is_memory() && !reg.is_immediate());
    assert!(reg.get_memory().is_none() && reg.get_immediate().is_none());

    let (_, mem) = memory("[1]", 0).unwrap();
    assert!(mem.is_memory() && !mem.is_register() && !mem.is_immediate());
    assert!(mem.get_register().is_none() && mem.get_immediate().is_none());

    let (_, imm) = immediate("7", 0).unwrap();
    assert!(imm.is_immediate() && !imm.is_register() && !imm.is_memory());
    assert!(imm.get_register().is_none() && imm.get_memory().is_none());
}

#[test]
fn test_offset_try_from() {
    assert_eq!(Offset::try_from(Immediate(65536)), Err(ParseError::TooLarge));
    assert_eq!(Offset::try_from(Immediate(65535)), Ok(Offset::U16(65535)));
    assert_eq!(Offset::try_from(Immediate(256)), Ok(Offset::U16(256)));
    assert_eq!(Offset::try_from(Immediate(255)), Ok(Offset::U8(255)));
    assert_eq!(Offset::try_from(Immediate(0)), Ok(Offset::U8(0)));
    assert_eq!(
        Offset::try_from(Immediate(u64::MAX)),
        Err(ParseError::TooLarge)
    );
}

#[test]
fn test_offset_bounds_inside_brackets() {
    assert_eq!(memory("[65536]", 0).unwrap_err(), ParseError::TooLarge);
    let (_, op) = memory("[65535]", 0).unwrap();
    assert_eq!(op.get_memory().unwrap(), Memory::Offset(Offset::U16(65535)));
    let (_, op) = memory("[256]", 0).unwrap();
    assert_eq!(op.get_memory().unwrap(), Memory::Offset(Offset::U16(256)));
    let (_, op) = memory("[255]", 0).unwrap();
    assert_eq!(op.get_memory().unwrap(), Memory::Offset(Offset::U8(255)));
}

#[test]
fn test_memory_register_validation() {
    assert_eq!(memory("[cx + si + 1]", 0).unwrap_err(), ParseError::Verify);
    assert_eq!(memory("[bx + cx + 1]", 0).unwrap_err(), ParseError::Verify);
    assert_eq!(memory("[ax + 1]", 0).unwrap_err(), ParseError::Verify);
    assert_eq!(memory("[sp + 1]", 0).unwrap_err(), ParseError::Verify);
}

#[test]
fn test_memory_too_large_in_every_form() {
    assert_eq!(
        memory("[bx + si + 65536]", 0).unwrap_err(),
        ParseError::TooLarge
    );
    assert_eq!(memory("[bx + 65536]", 0).unwrap_err(), ParseError::TooLarge);
    assert_eq!(memory("[65536]", 0).unwrap_err(), ParseError::TooLarge);
}

#[test]
fn test_memory_all_addressing_modes() {
    let cases: Vec<(&str, Memory)> = vec![
        ("[bx + si + 1]", Memory::BXSI(Offset::U8(1))),
        ("[bx + di + 2]", Memory::BXDI(Offset::U8(2))),
        ("[bp + si + 3]", Memory::BPSI(Offset::U8(3))),
        ("[bp + di + 300]", Memory::BPDI(Offset::U16(300))),
        ("[si + 4]", Memory::SI(Offset::U8(4))),
        ("[di + 5]", Memory::DI(Offset::U8(5))),
        ("[bp + 6]", Memory::BP(Offset::U8(6))),
        ("[bx + 7]", Memory::BX(Offset::U8(7))),
        ("[8]", Memory::Offset(Offset::U8(8))),
    ];
    for (text, expect) in cases {
        let (remain, op) = memory(text, 0).expect(&format!("cannot parse {}", text));
        assert_eq!(op.get_memory().unwrap(), expect);
        assert_eq!(remain, text.len());
    }
}

#[test]
fn test_memory_surrounding_whitespace() {
    let (remain, op) = memory("  [ bx + 1 ]  ", 0).unwrap();
    assert_eq!(remain, 14);
    assert_eq!(op.get_memory().unwrap(), Memory::BX(Offset::U8(1)));
    let (remain, op) = memory(" [ 0x10 ] ", 0).unwrap();
    assert_eq!(remain, 10);
    assert_eq!(op.get_memory().unwrap(), Memory::Offset(Offset::U8(0x10)));
}

#[test]
fn test_memory_missing_brackets_is_tag() {
    assert_eq!(memory("bx", 0).unwrap_err(), ParseError::Tag);
    assert_eq!(memory("[bx + 1", 0).unwrap_err(), ParseError::Tag);
}

#[test]
fn test_reparse_of_remainder() {
    let input = "rax bx";
    let (remain, op) = register(input, 0).unwrap();
    assert_eq!(op.get_register().unwrap(), Register::AX(Len::Full));
    assert_eq!(remain, 4);
    let (remain2, op2) = register(input, remain).unwrap();
    assert_eq!(op2.get_register().unwrap(), Register::BX(Len::Low16));
    assert_eq!(remain2, input.len());
    let (shifted, op3) = register(&input[remain..], 0).unwrap();
    assert_eq!(op3, op2);
    assert_eq!(shifted + remain, remain2);
}

#[test]
fn test_error_messages_distinguish_kinds() {
    let msgs = [
        ParseError::Tag.message(),
        ParseError::Malformed.message(),
        ParseError::TooLarge.message(),
        ParseError::Verify.message(),
    ];
    for i in 0..msgs.len() {
        for j in 0..msgs.len() {
            if i != j {
                assert_ne!(msgs[i], msgs[j]);
            }
        }
    }
}
