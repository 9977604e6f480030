//! Listings of machine code.

use lower_ir_utils::disasm::{arch_for_isa, format_listing, Arch, Insn};
use lower_ir_utils::{format_disassembly, DisasmError};

#[test]
fn formats_x64_bytes() {
    // mov rax, rdi; ret
    let text = format_disassembly(&[0x48, 0x89, 0xf8, 0xc3], "x64").expect("x64 decodes");
    let lines: Vec<&str> = text.lines().collect();
    assert_eq!(lines.len(), 2, "{text}");
    assert!(lines.iter().all(|l| l.starts_with("0x")), "{text}");
    assert_eq!(lines[0], "0x0000  48 89 f8           mov rax, rdi");
    assert_eq!(lines[1], "0x0003  c3                 ret");
}

#[test]
fn unsupported_isa_is_an_error_naming_it() {
    let err = format_disassembly(&[0xc3], "mips").unwrap_err();
    assert!(matches!(err, DisasmError::UnsupportedArch(ref n) if n == "mips"));
    assert_eq!(err.message(), "disassembly not implemented for target ISA `mips`");
}

#[test]
fn isa_names_select_the_decoder() {
    assert_eq!(arch_for_isa("x64"), Some(Arch::X64));
    assert_eq!(arch_for_isa("aarch64"), Some(Arch::Aarch64));
    assert_eq!(arch_for_isa("riscv64"), Some(Arch::Riscv64));
    assert_eq!(arch_for_isa("s390x"), Some(Arch::S390x));
    assert_eq!(arch_for_isa("x86_64"), None);
    assert_eq!(arch_for_isa(""), None);
}

#[test]
fn listing_lines_pad_bytes_and_separate_operands() {
    let insns = vec![
        Insn { address: 0, bytes: vec![0xc3], mnemonic: Some("ret".into()), op_str: Some(String::new()) },
        Insn {
            address: 0x1234,
            bytes: vec![0x48, 0x89, 0xf8],
            mnemonic: Some("mov".into()),
            op_str: Some("rax, rdi".into()),
        },
        Insn { address: 0x10000, bytes: vec![0; 9], mnemonic: None, op_str: None },
    ];
    let text = format_listing(&insns);
    assert_eq!(
        text,
        "0x0000  c3                 ret\n\
         0x1234  48 89 f8           mov rax, rdi\n\
         0x10000  00 00 00 00 00 00 00 00 00  \n"
    );
}

#[test]
fn empty_code_lists_nothing() {
    assert_eq!(format_disassembly(&[], "x64").unwrap(), "");
}

#[test]
fn error_messages_carry_the_cause() {
    let cap = DisasmError::Capstone(capstone::Error::OutOfMemory);
    assert_eq!(cap.message(), "capstone error: Out-Of-Memory error");
    let fmt = DisasmError::from(std::fmt::Error);
    assert!(matches!(fmt, DisasmError::Fmt(_)));
    assert_eq!(fmt.message(), "format error: an error occurred when formatting an argument");
    assert!(matches!(DisasmError::from(capstone::Error::InvalidMode), DisasmError::Capstone(_)));
}
