//! Disassembly listings of JIT-compiled machine code.
//!
//! The decoder is Capstone, configured from the target ISA's name (x64,
//! aarch64, riscv64, s390x). Each decoded instruction becomes one line:
//! `0xADDR  hex bytes (padded)  mnemonic operands`.

use capstone::arch::{self, BuildsCapstone, BuildsCapstoneExtraMode, BuildsCapstoneSyntax};
use capstone::Capstone;
use vstd::prelude::*;
use vstd::string::*;

use crate::text::{digits, hex_nat, hex_padded, push_char, push_hex_padded, push_str};

verus! {

/// `capstone::Capstone`, a configured decoder, carried opaquely.
#[verifier::external_type_specification]
#[verifier::external_body]
pub struct ExCapstone(capstone::Capstone);

/// `capstone::Error`, carried opaquely.
#[verifier::external_type_specification]
#[verifier::external_body]
pub struct ExCapstoneError(capstone::Error);

/// `std::fmt::Error`, carried opaquely.
#[verifier::external_type_specification]
#[verifier::external_body]
pub struct ExFmtError(std::fmt::Error);

/// Captured artifacts from a JIT compile: the machine code and its
/// listing.
#[derive(Debug, Clone)]
pub struct JitDisasm {
    /// Final machine code of the compiled function.
    pub bytes: Vec<u8>,
    /// One Capstone instruction per line, `0xADDR  hex bytes  mnemonic
    /// operands`, as [`format_disassembly`] produces it.
    pub text: String,
}

/// Error of [`format_disassembly`].
#[derive(Debug)]
pub enum DisasmError {
    /// The target ISA isn't one Capstone is driven for here; carries the
    /// ISA's name.
    UnsupportedArch(String),
    /// Capstone failed to build its decoder or to decode the bytes.
    Capstone(capstone::Error),
    /// A formatting failure.
    Fmt(std::fmt::Error),
}

/// The instruction sets a decoder can be built for.
#[derive(Clone, Copy, Debug, PartialEq, Eq, Structural)]
pub enum Arch {
    X64,
    Aarch64,
    Riscv64,
    S390x,
}

/// The instruction set named by a target ISA name.
pub open spec fn arch_of(name: Seq<char>) -> Option<Arch> {
    if name == "x64"@ {
        Some(Arch::X64)
    } else if name == "aarch64"@ {
        Some(Arch::Aarch64)
    } else if name == "riscv64"@ {
        Some(Arch::Riscv64)
    } else if name == "s390x"@ {
        Some(Arch::S390x)
    } else {
        None
    }
}

/// Whether two strings hold the same characters.
fn same_text(a: &str, b: &str) -> (r: bool)
    ensures
        r == (a@ == b@),
{
    let n = a.unicode_len();
    if n != b.unicode_len() {
        return false;
    }
    let mut i: usize = 0;
    while i < n
        invariant
            n == a@.len(),
            n == b@.len(),
            i <= n,
            forall|j: int| 0 <= j < i ==> a@[j] == b@[j],
        decreases n - i,
    {
        if a.get_char(i) != b.get_char(i) {
            return false;
        }
        i = i + 1;
    }
    assert(a@ =~= b@);
    true
}

/// The instruction set named by `name`.
pub fn arch_for_isa(name: &str) -> (r: Option<Arch>)
    ensures
        r == arch_of(name@),
{
    proof {
        reveal_strlit("x64");
        reveal_strlit("aarch64");
        reveal_strlit("riscv64");
        reveal_strlit("s390x");
    }
    if same_text(name, "x64") {
        Some(Arch::X64)
    } else if same_text(name, "aarch64") {
        Some(Arch::Aarch64)
    } else if same_text(name, "riscv64") {
        Some(Arch::Riscv64)
    } else if same_text(name, "s390x") {
        Some(Arch::S390x)
    } else {
        None
    }
}

/// The instruction set a Capstone decoder was built for by one of the
/// builders below; each states it of the decoder it returns.
pub uninterp spec fn decoder_arch(cs: Capstone) -> Arch;

/// Capstone's builder: x86 in 64-bit mode, Intel syntax, no detail. A
/// decoder it returns is one for x86-64.
#[verifier::external_body]
fn build_x64() -> (r: Result<Capstone, capstone::Error>)
    ensures
        r matches Ok(cs) ==> decoder_arch(cs) == Arch::X64,
{
    Capstone::new().x86().mode(arch::x86::ArchMode::Mode64).syntax(arch::x86::ArchSyntax::Intel).detail(
        false,
    ).build()
}

/// Capstone's builder: ARM64, no detail. A decoder it returns is one for
/// ARM64.
#[verifier::external_body]
fn build_aarch64() -> (r: Result<Capstone, capstone::Error>)
    ensures
        r matches Ok(cs) ==> decoder_arch(cs) == Arch::Aarch64,
{
    Capstone::new().arm64().mode(arch::arm64::ArchMode::Arm).detail(false).build()
}

/// Capstone's builder: RISC-V 64 with compressed instructions, no detail.
/// A decoder it returns is one for RISC-V 64.
#[verifier::external_body]
fn build_riscv64() -> (r: Result<Capstone, capstone::Error>)
    ensures
        r matches Ok(cs) ==> decoder_arch(cs) == Arch::Riscv64,
{
    Capstone::new().riscv().mode(arch::riscv::ArchMode::RiscV64).extra_mode(
        std::iter::once(arch::riscv::ArchExtraMode::RiscVC),
    ).detail(false).build()
}

/// Capstone's builder: SystemZ, no detail. A decoder it returns is one for
/// SystemZ.
#[verifier::external_body]
fn build_s390x() -> (r: Result<Capstone, capstone::Error>)
    ensures
        r matches Ok(cs) ==> decoder_arch(cs) == Arch::S390x,
{
    Capstone::new().sysz().mode(arch::sysz::ArchMode::Default).detail(false).build()
}

/// A Capstone decoder for the instruction set of the ISA named `isa_name`.
pub fn capstone_for(isa_name: &str) -> (r: Result<Capstone, DisasmError>)
    ensures
        match arch_of(isa_name@) {
            None => r matches Err(DisasmError::UnsupportedArch(n)) && n@ == isa_name@,
            Some(a) => (r matches Ok(cs) ==> decoder_arch(cs) == a) && (r is Ok || r matches Err(
                DisasmError::Capstone(_),
            )),
        },
{
    let built = match arch_for_isa(isa_name) {
        None => return Err(DisasmError::UnsupportedArch(String::from_str(isa_name))),
        Some(Arch::X64) => build_x64(),
        Some(Arch::Aarch64) => build_aarch64(),
        Some(Arch::Riscv64) => build_riscv64(),
        Some(Arch::S390x) => build_s390x(),
    };
    match built {
        Ok(cs) => Ok(cs),
        Err(e) => Err(DisasmError::Capstone(e)),
    }
}

/// One decoded instruction.
#[derive(Debug, Clone)]
pub struct Insn {
    pub address: u64,
    pub bytes: Vec<u8>,
    pub mnemonic: Option<String>,
    pub op_str: Option<String>,
}

/// The mathematical content of an [`Insn`].
pub struct InsnV {
    pub address: u64,
    pub bytes: Seq<u8>,
    pub mnemonic: Seq<char>,
    pub op_str: Seq<char>,
}

/// An absent text counts as empty.
pub open spec fn text_or_empty(s: Option<String>) -> Seq<char> {
    match s {
        Some(t) => t@,
        None => seq![],
    }
}

impl View for Insn {
    type V = InsnV;

    open spec fn view(&self) -> InsnV {
        InsnV {
            address: self.address,
            bytes: self.bytes@,
            mnemonic: text_or_empty(self.mnemonic),
            op_str: text_or_empty(self.op_str),
        }
    }
}

pub open spec fn insns_view(v: Seq<Insn>) -> Seq<InsnV> {
    v.map_values(|i: Insn| i@)
}

/// The instructions Capstone decodes from `code`, starting at address 0,
/// when configured for `arch` as in [`capstone_for`] (x86-64 in Intel
/// syntax, ARM64, RISC-V 64 with compressed instructions, SystemZ).
pub uninterp spec fn disassembled(arch: Arch, code: Seq<u8>) -> Seq<InsnV>;

/// `Capstone::disasm_all` decoding all of `code` from address 0 with the
/// decoder `cs`, each instruction copied out as its address, bytes,
/// mnemonic and operand text. The instructions are a function of the
/// decoder's instruction set and the bytes, named [`disassembled`]; which
/// ones they are is Capstone's.
#[verifier::external_body]
fn decode(cs: &Capstone, code: &[u8]) -> (r: Result<Vec<Insn>, capstone::Error>)
    ensures
        r matches Ok(v) ==> insns_view(v@) == disassembled(decoder_arch(*cs), code@),
{
    cs.disasm_all(code, 0).map(|insns| {
        insns.iter().map(|i| Insn {
            address: i.address(),
            bytes: i.bytes().to_vec(),
            mnemonic: i.mnemonic().map(|s| s.to_string()),
            op_str: i.op_str().map(|s| s.to_string()),
        }).collect()
    })
}

/// The bytes as two-digit hex numbers separated by single spaces.
pub open spec fn hex_bytes(b: Seq<u8>) -> Seq<char>
    decreases b.len(),
{
    if b.len() == 0 {
        seq![]
    } else if b.len() == 1 {
        hex_padded(b[0] as nat, 2)
    } else {
        hex_bytes(b.drop_last()) + " "@ + hex_padded(b.last() as nat, 2)
    }
}

/// `s` left-aligned in a field of `w` columns.
pub open spec fn pad_right(s: Seq<char>, w: nat) -> Seq<char> {
    if s.len() < w {
        s + Seq::new((w - s.len()) as nat, |i: int| ' ')
    } else {
        s
    }
}

/// The listing line of one instruction, with its newline.
pub open spec fn listing_line(i: InsnV) -> Seq<char> {
    "0x"@ + hex_padded(i.address as nat, 4) + "  "@ + pad_right(hex_bytes(i.bytes), 17) + "  "@
        + i.mnemonic + (if i.op_str.len() == 0 {
        seq![]
    } else {
        " "@
    }) + i.op_str + "\n"@
}

/// The listing of a sequence of instructions.
pub open spec fn listing(insns: Seq<InsnV>) -> Seq<char>
    decreases insns.len(),
{
    if insns.len() == 0 {
        seq![]
    } else {
        listing(insns.drop_last()) + listing_line(insns.last())
    }
}

proof fn lemma_hex_bytes_len(b: Seq<u8>)
    ensures
        hex_bytes(b).len() == if b.len() == 0 {
            0
        } else {
            3 * b.len() - 1
        },
    decreases b.len(),
{
    reveal_strlit(" ");
    if b.len() > 0 {
        crate::text::lemma_hex_padded_byte(b.last());
        if b.len() > 1 {
            lemma_hex_bytes_len(b.drop_last());
        }
        crate::text::lemma_hex_padded_byte(b[0]);
    }
}

fn push_hex_bytes(s: &mut String, b: &Vec<u8>)
    ensures
        final(s)@ == old(s)@ + hex_bytes(b@),
{
    let mut i: usize = 0;
    while i < b.len()
        invariant
            i <= b@.len(),
            s@ == old(s)@ + hex_bytes(b@.take(i as int)),
        decreases b@.len() - i,
    {
        assert(b@.take(i + 1).drop_last() =~= b@.take(i as int));
        if i > 0 {
            push_str(s, " ");
        }
        push_hex_padded(s, b[i] as u64, 2);
        assert(s@ =~= old(s)@ + hex_bytes(b@.take(i + 1)));
        i = i + 1;
    }
    assert(b@.take(i as int) =~= b@);
}

/// Appends the hex bytes left-aligned in 17 columns.
fn push_hex_column(s: &mut String, b: &Vec<u8>)
    ensures
        final(s)@ == old(s)@ + pad_right(hex_bytes(b@), 17),
{
    push_hex_bytes(s, b);
    let len = b.len();
    let n: usize = if len == 0 {
        0
    } else if len <= 6 {
        3 * len - 1
    } else {
        17
    };
    proof {
        lemma_hex_bytes_len(b@);
    }
    let ghost h = hex_bytes(b@);
    let ghost before_pad = s@;
    let mut k = n;
    while k < 17
        invariant
            n <= k,
            n >= 17 ==> k == n,
            n < 17 ==> k <= 17,
            n < 17 ==> n == h.len(),
            n >= 17 ==> h.len() >= 17,
            s@ == before_pad + Seq::new((k - n) as nat, |i: int| ' '),
        decreases 17 - k,
    {
        push_char(s, ' ');
        assert(Seq::new((k + 1 - n) as nat, |i: int| ' ') =~= Seq::new((k - n) as nat, |i: int| ' ').push(' '));
        k = k + 1;
    }
    assert(s@ =~= old(s)@ + pad_right(h, 17));
}

/// Appends the mnemonic and, when present, a space and the operands.
fn push_mnemonic_ops(s: &mut String, m: &Option<String>, o: &Option<String>)
    ensures
        final(s)@ == old(s)@ + text_or_empty(*m) + (if text_or_empty(*o).len() == 0 {
            seq![]
        } else {
            " "@
        }) + text_or_empty(*o),
{
    match m {
        Some(t) => push_str(s, t.as_str()),
        None => {},
    }
    let ghost mid = s@;
    match o {
        Some(t) => {
            if t.as_str().unicode_len() > 0 {
                push_str(s, " ");
            }
            push_str(s, t.as_str());
        },
        None => {},
    }
    assert(s@ =~= old(s)@ + text_or_empty(*m) + (if text_or_empty(*o).len() == 0 {
        seq![]
    } else {
        " "@
    }) + text_or_empty(*o));
}

/// Appends the listing line of one instruction.
fn push_listing_line(s: &mut String, ins: &Insn)
    ensures
        final(s)@ == old(s)@ + listing_line(ins@),
{
    push_str(s, "0x");
    push_hex_padded(s, ins.address, 4);
    push_str(s, "  ");
    push_hex_column(s, &ins.bytes);
    push_str(s, "  ");
    push_mnemonic_ops(s, &ins.mnemonic, &ins.op_str);
    push_str(s, "\n");
    assert(s@ =~= old(s)@ + listing_line(ins@));
}

/// The listing of decoded instructions: one line each, in order.
pub fn format_listing(insns: &Vec<Insn>) -> (r: String)
    ensures
        r@ == listing(insns_view(insns@)),
{
    let mut out = String::new();
    let mut i: usize = 0;
    while i < insns.len()
        invariant
            i <= insns@.len(),
            out@ == listing(insns_view(insns@).take(i as int)),
        decreases insns@.len() - i,
    {
        assert(insns_view(insns@).take(i + 1).drop_last() =~= insns_view(insns@).take(i as int));
        push_listing_line(&mut out, &insns[i]);
        i = i + 1;
    }
    assert(insns_view(insns@).take(i as int) =~= insns_view(insns@));
    out
}

/// Formats machine code as a side-by-side listing, one instruction per
/// line. `isa_name` (the target ISA's name) only picks the decoder; the
/// bytes are decoded as a flat instruction stream from offset 0.
pub fn format_disassembly(bytes: &[u8], isa_name: &str) -> (r: Result<String, DisasmError>)
    ensures
        match arch_of(isa_name@) {
            None => r matches Err(DisasmError::UnsupportedArch(n)) && n@ == isa_name@,
            Some(a) => match r {
                Ok(text) => text@ == listing(disassembled(a, bytes@)),
                Err(e) => e is Capstone,
            },
        },
{
    let cs = capstone_for(isa_name)?;
    match decode(&cs, bytes) {
        Ok(insns) => Ok(format_listing(&insns)),
        Err(e) => Err(DisasmError::Capstone(e)),
    }
}

/// What `Display` prints for a Capstone error.
pub uninterp spec fn capstone_error_text(e: capstone::Error) -> Seq<char>;

/// What `Display` prints for a formatting error.
pub uninterp spec fn fmt_error_text(e: std::fmt::Error) -> Seq<char>;

/// `capstone::Error`'s `Display` text, a function of the error.
#[verifier::external_body]
fn capstone_error_string(e: &capstone::Error) -> (r: String)
    ensures
        r@ == capstone_error_text(*e),
{
    e.to_string()
}

/// `std::fmt::Error`'s `Display` text, a function of the error.
#[verifier::external_body]
fn fmt_error_string(e: &std::fmt::Error) -> (r: String)
    ensures
        r@ == fmt_error_text(*e),
{
    e.to_string()
}

/// The message of a [`DisasmError`].
pub open spec fn disasm_error_text(e: DisasmError) -> Seq<char> {
    match e {
        DisasmError::UnsupportedArch(a) => "disassembly not implemented for target ISA `"@ + a@ + "`"@,
        DisasmError::Capstone(c) => "capstone error: "@ + capstone_error_text(c),
        DisasmError::Fmt(f) => "format error: "@ + fmt_error_text(f),
    }
}

impl DisasmError {
    /// The error's message (what `Display` prints for it).
    pub fn message(&self) -> (r: String)
        ensures
            r@ == disasm_error_text(*self),
    {
        let mut s = String::new();
        match self {
            DisasmError::UnsupportedArch(a) => {
                push_str(&mut s, "disassembly not implemented for target ISA `");
                push_str(&mut s, a.as_str());
                push_str(&mut s, "`");
            },
            DisasmError::Capstone(c) => {
                push_str(&mut s, "capstone error: ");
                let t = capstone_error_string(c);
                push_str(&mut s, t.as_str());
            },
            DisasmError::Fmt(f) => {
                push_str(&mut s, "format error: ");
                let t = fmt_error_string(f);
                push_str(&mut s, t.as_str());
            },
        }
        assert(s@ =~= disasm_error_text(*self));
        s
    }
}

impl From<capstone::Error> for DisasmError {
    fn from(err: capstone::Error) -> (r: Self) {
        DisasmError::Capstone(err)
    }
}

impl vstd::std_specs::convert::FromSpecImpl<capstone::Error> for DisasmError {
    open spec fn obeys_from_spec() -> bool {
        true
    }

    open spec fn from_spec(v: capstone::Error) -> Self {
        DisasmError::Capstone(v)
    }
}

impl From<std::fmt::Error> for DisasmError {
    fn from(err: std::fmt::Error) -> (r: Self) {
        DisasmError::Fmt(err)
    }
}

impl vstd::std_specs::convert::FromSpecImpl<std::fmt::Error> for DisasmError {
    open spec fn obeys_from_spec() -> bool {
        true
    }

    open spec fn from_spec(v: std::fmt::Error) -> Self {
        DisasmError::Fmt(v)
    }
}


/// `16^k`.
pub open spec fn pow16(k: nat) -> nat
    decreases k,
{
    if k == 0 {
        1
    } else {
        16 * pow16((k - 1) as nat)
    }
}

proof fn lemma_hex_nat_len(n: nat, k: nat)
    requires
        k >= 1,
        n < pow16(k),
    ensures
        hex_nat(n).len() <= k,
    decreases k,
{
    if n >= 16 {
        let p = pow16((k - 1) as nat);
        assert(n / 16 < p) by (nonlinear_arith)
            requires
                n < 16 * p,
                n >= 16,
        ;
        if k == 1 {
            assert(false);
        }
        lemma_hex_nat_len(n / 16, (k - 1) as nat);
        assert(hex_nat(n) == digits(n / 16, 16).push(crate::text::digit_char(n % 16)));
    }
}

/// The columns of a listing line: `0x` and the address in at least four
/// hex digits, two spaces, the instruction's bytes as two-digit hex
/// numbers separated by spaces and padded with spaces to 17 characters,
/// two spaces, then the mnemonic from column 27, and a closing newline.
pub proof fn law_listing_columns(i: InsnV)
    requires
        i.address < 0x10000,
        1 <= i.bytes.len() <= 6,
    ensures
        listing_line(i).subrange(0, 2) == "0x"@,
        listing_line(i).subrange(2, 6) == hex_padded(i.address as nat, 4),
        listing_line(i).subrange(8, 8 + 3 * i.bytes.len() - 1) == hex_bytes(i.bytes),
        forall|j: int| 6 <= j < 8 || 8 + 3 * i.bytes.len() - 1 <= j < 27 ==> #[trigger] listing_line(i)[j] == ' ',
        listing_line(i).subrange(27, 27 + i.mnemonic.len() as int) == i.mnemonic,
        listing_line(i).last() == '\n',
{
    reveal_strlit("0x");
    reveal_strlit("  ");
    reveal_strlit(" ");
    reveal_strlit("\n");
    reveal_with_fuel(pow16, 5);
    assert(pow16(4) == 0x10000);
    lemma_hex_nat_len(i.address as nat, 4);
    lemma_hex_bytes_len(i.bytes);
    let h = hex_padded(i.address as nat, 4);
    assert(h.len() == 4);
    let hb = hex_bytes(i.bytes);
    let pad = pad_right(hb, 17);
    assert(pad.len() == 17);
    let line = listing_line(i);
    let pre = "0x"@ + h + "  "@ + pad + "  "@;
    assert(pre.len() == 27);
    assert(line.subrange(0, 2) =~= "0x"@);
    assert(line.subrange(2, 6) =~= h);
    assert(line.subrange(8, 8 + 3 * i.bytes.len() - 1) =~= hb);
    assert(line.subrange(27, 27 + i.mnemonic.len() as int) =~= i.mnemonic);
}

} // verus!
