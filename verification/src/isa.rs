//! The Bud instruction set: opcodes, ISA profiles and the 64-bit
//! instruction word format.
//!
//! Word layout (least significant bit first):
//! bits 0..8 opcode byte, 8..13 `rd`, 13..18 `rs1`, 18..23 `rs2`,
//! 23..55 `imm` (two's complement), 55..64 unused.
use vstd::prelude::*;

verus! {

/// One operation of the Bud VM.
#[derive(Debug, Clone, Copy, PartialEq, Eq, Structural)]
pub enum Opcode {
    Halt,
    Add,
    Sub,
    Mul,
    Div,
    Inv,
    And,
    Or,
    Xor,
    Not,
    Eq,
    Neq,
    Lt,
    Gt,
    Lte,
    Gte,
    Jmp,
    Jnz,
    Call,
    Ret,
    Load,
    Store,
    Push,
    Pop,
    Assert,
    Poseidon,
    Log,
    SRead,
    SWrite,
    Syscall,
    VerifyMerkle,
}

/// The byte that stands for an opcode in an instruction word.
pub open spec fn opcode_byte(op: Opcode) -> u8 {
    match op {
        Opcode::Halt => 0x00,
        Opcode::Add => 0x01,
        Opcode::Sub => 0x02,
        Opcode::Mul => 0x03,
        Opcode::Div => 0x04,
        Opcode::Inv => 0x05,
        Opcode::And => 0x06,
        Opcode::Or => 0x07,
        Opcode::Xor => 0x08,
        Opcode::Not => 0x09,
        Opcode::Eq => 0x0A,
        Opcode::Neq => 0x0B,
        Opcode::Lt => 0x0C,
        Opcode::Gt => 0x0D,
        Opcode::Lte => 0x0E,
        Opcode::Gte => 0x0F,
        Opcode::Jmp => 0x10,
        Opcode::Jnz => 0x11,
        Opcode::Call => 0x12,
        Opcode::Ret => 0x13,
        Opcode::Load => 0x14,
        Opcode::Store => 0x15,
        Opcode::Push => 0x16,
        Opcode::Pop => 0x17,
        Opcode::Assert => 0x18,
        Opcode::Poseidon => 0x19,
        Opcode::Log => 0x1A,
        Opcode::SRead => 0x1B,
        Opcode::SWrite => 0x1C,
        Opcode::Syscall => 0x1D,
        Opcode::VerifyMerkle => 0x1E,
    }
}

/// The opcode that a byte stands for; `None` for bytes above `0x1E`.
pub open spec fn opcode_of_byte(b: u8) -> Option<Opcode> {
    if b > 0x1E {
        None
    } else {
        Some(choose|op: Opcode| opcode_byte(op) == b)
    }
}

/// Debug name of an opcode (its variant name).
pub open spec fn opcode_name(op: Opcode) -> Seq<char> {
    match op {
        Opcode::Halt => "Halt"@,
        Opcode::Add => "Add"@,
        Opcode::Sub => "Sub"@,
        Opcode::Mul => "Mul"@,
        Opcode::Div => "Div"@,
        Opcode::Inv => "Inv"@,
        Opcode::And => "And"@,
        Opcode::Or => "Or"@,
        Opcode::Xor => "Xor"@,
        Opcode::Not => "Not"@,
        Opcode::Eq => "Eq"@,
        Opcode::Neq => "Neq"@,
        Opcode::Lt => "Lt"@,
        Opcode::Gt => "Gt"@,
        Opcode::Lte => "Lte"@,
        Opcode::Gte => "Gte"@,
        Opcode::Jmp => "Jmp"@,
        Opcode::Jnz => "Jnz"@,
        Opcode::Call => "Call"@,
        Opcode::Ret => "Ret"@,
        Opcode::Load => "Load"@,
        Opcode::Store => "Store"@,
        Opcode::Push => "Push"@,
        Opcode::Pop => "Pop"@,
        Opcode::Assert => "Assert"@,
        Opcode::Poseidon => "Poseidon"@,
        Opcode::Log => "Log"@,
        Opcode::SRead => "SRead"@,
        Opcode::SWrite => "SWrite"@,
        Opcode::Syscall => "Syscall"@,
        Opcode::VerifyMerkle => "VerifyMerkle"@,
    }
}

/// Distinct opcodes have distinct bytes, and every byte up to `0x1E` is one.
pub proof fn lemma_opcode_byte_bijective()
    ensures
        forall|a: Opcode, b: Opcode| opcode_byte(a) == opcode_byte(b) ==> a == b,
        forall|op: Opcode| #[trigger] opcode_byte(op) <= 0x1E,
        forall|b: u8|
            b <= 0x1E ==> #[trigger] opcode_of_byte(b) is Some && opcode_byte(
                opcode_of_byte(b)->Some_0,
            ) == b,
{
    assert forall|b: u8| b <= 0x1E implies #[trigger] opcode_of_byte(b) is Some && opcode_byte(
        opcode_of_byte(b)->Some_0,
    ) == b by {
        if b == 0x00 { assert(opcode_byte(Opcode::Halt) == b); }
        else if b == 0x01 { assert(opcode_byte(Opcode::Add) == b); }
        else if b == 0x02 { assert(opcode_byte(Opcode::Sub) == b); }
        else if b == 0x03 { assert(opcode_byte(Opcode::Mul) == b); }
        else if b == 0x04 { assert(opcode_byte(Opcode::Div) == b); }
        else if b == 0x05 { assert(opcode_byte(Opcode::Inv) == b); }
        else if b == 0x06 { assert(opcode_byte(Opcode::And) == b); }
        else if b == 0x07 { assert(opcode_byte(Opcode::Or) == b); }
        else if b == 0x08 { assert(opcode_byte(Opcode::Xor) == b); }
        else if b == 0x09 { assert(opcode_byte(Opcode::Not) == b); }
        else if b == 0x0A { assert(opcode_byte(Opcode::Eq) == b); }
        else if b == 0x0B { assert(opcode_byte(Opcode::Neq) == b); }
        else if b == 0x0C { assert(opcode_byte(Opcode::Lt) == b); }
        else if b == 0x0D { assert(opcode_byte(Opcode::Gt) == b); }
        else if b == 0x0E { assert(opcode_byte(Opcode::Lte) == b); }
        else if b == 0x0F { assert(opcode_byte(Opcode::Gte) == b); }
        else if b == 0x10 { assert(opcode_byte(Opcode::Jmp) == b); }
        else if b == 0x11 { assert(opcode_byte(Opcode::Jnz) == b); }
        else if b == 0x12 { assert(opcode_byte(Opcode::Call) == b); }
        else if b == 0x13 { assert(opcode_byte(Opcode::Ret) == b); }
        else if b == 0x14 { assert(opcode_byte(Opcode::Load) == b); }
        else if b == 0x15 { assert(opcode_byte(Opcode::Store) == b); }
        else if b == 0x16 { assert(opcode_byte(Opcode::Push) == b); }
        else if b == 0x17 { assert(opcode_byte(Opcode::Pop) == b); }
        else if b == 0x18 { assert(opcode_byte(Opcode::Assert) == b); }
        else if b == 0x19 { assert(opcode_byte(Opcode::Poseidon) == b); }
        else if b == 0x1A { assert(opcode_byte(Opcode::Log) == b); }
        else if b == 0x1B { assert(opcode_byte(Opcode::SRead) == b); }
        else if b == 0x1C { assert(opcode_byte(Opcode::SWrite) == b); }
        else if b == 0x1D { assert(opcode_byte(Opcode::Syscall) == b); }
        else { assert(opcode_byte(Opcode::VerifyMerkle) == b); }
    }
}

/// Reading back the byte of an opcode gives the opcode.
pub proof fn lemma_opcode_of_byte_inverse(op: Opcode)
    ensures
        opcode_of_byte(opcode_byte(op)) == Some(op),
{
    lemma_opcode_byte_bijective();
}

impl Opcode {
    /// The byte of this opcode in an instruction word.
    pub fn to_byte(&self) -> (b: u8)
        ensures
            b == opcode_byte(*self),
    {
        match self {
            Opcode::Halt => 0x00,
            Opcode::Add => 0x01,
            Opcode::Sub => 0x02,
            Opcode::Mul => 0x03,
            Opcode::Div => 0x04,
            Opcode::Inv => 0x05,
            Opcode::And => 0x06,
            Opcode::Or => 0x07,
            Opcode::Xor => 0x08,
            Opcode::Not => 0x09,
            Opcode::Eq => 0x0A,
            Opcode::Neq => 0x0B,
            Opcode::Lt => 0x0C,
            Opcode::Gt => 0x0D,
            Opcode::Lte => 0x0E,
            Opcode::Gte => 0x0F,
            Opcode::Jmp => 0x10,
            Opcode::Jnz => 0x11,
            Opcode::Call => 0x12,
            Opcode::Ret => 0x13,
            Opcode::Load => 0x14,
            Opcode::Store => 0x15,
            Opcode::Push => 0x16,
            Opcode::Pop => 0x17,
            Opcode::Assert => 0x18,
            Opcode::Poseidon => 0x19,
            Opcode::Log => 0x1A,
            Opcode::SRead => 0x1B,
            Opcode::SWrite => 0x1C,
            Opcode::Syscall => 0x1D,
            Opcode::VerifyMerkle => 0x1E,
        }
    }

    /// The opcode for a byte, or `None` when the byte names no opcode.
    pub fn from_byte(b: u8) -> (r: Option<Opcode>)
        ensures
            r == opcode_of_byte(b),
    {
        proof {
            lemma_opcode_byte_bijective();
        }
        let r = match b {
            0x00 => Some(Opcode::Halt),
            0x01 => Some(Opcode::Add),
            0x02 => Some(Opcode::Sub),
            0x03 => Some(Opcode::Mul),
            0x04 => Some(Opcode::Div),
            0x05 => Some(Opcode::Inv),
            0x06 => Some(Opcode::And),
            0x07 => Some(Opcode::Or),
            0x08 => Some(Opcode::Xor),
            0x09 => Some(Opcode::Not),
            0x0A => Some(Opcode::Eq),
            0x0B => Some(Opcode::Neq),
            0x0C => Some(Opcode::Lt),
            0x0D => Some(Opcode::Gt),
            0x0E => Some(Opcode::Lte),
            0x0F => Some(Opcode::Gte),
            0x10 => Some(Opcode::Jmp),
            0x11 => Some(Opcode::Jnz),
            0x12 => Some(Opcode::Call),
            0x13 => Some(Opcode::Ret),
            0x14 => Some(Opcode::Load),
            0x15 => Some(Opcode::Store),
            0x16 => Some(Opcode::Push),
            0x17 => Some(Opcode::Pop),
            0x18 => Some(Opcode::Assert),
            0x19 => Some(Opcode::Poseidon),
            0x1A => Some(Opcode::Log),
            0x1B => Some(Opcode::SRead),
            0x1C => Some(Opcode::SWrite),
            0x1D => Some(Opcode::Syscall),
            0x1E => Some(Opcode::VerifyMerkle),
            _ => None,
        };
        r
    }

    /// Opcodes that must not run under the Production ISA profile:
    /// `VerifyMerkle` alone.
    pub fn is_experimental(&self) -> (r: bool)
        ensures
            r == (*self == Opcode::VerifyMerkle),
    {
        match self {
            Opcode::VerifyMerkle => true,
            _ => false,
        }
    }

    /// The opcode's debug name, as `{:?}` prints it.
    pub fn name(&self) -> (s: &'static str)
        ensures
            s@ == opcode_name(*self),
    {
        match self {
            Opcode::Halt => "Halt",
            Opcode::Add => "Add",
            Opcode::Sub => "Sub",
            Opcode::Mul => "Mul",
            Opcode::Div => "Div",
            Opcode::Inv => "Inv",
            Opcode::And => "And",
            Opcode::Or => "Or",
            Opcode::Xor => "Xor",
            Opcode::Not => "Not",
            Opcode::Eq => "Eq",
            Opcode::Neq => "Neq",
            Opcode::Lt => "Lt",
            Opcode::Gt => "Gt",
            Opcode::Lte => "Lte",
            Opcode::Gte => "Gte",
            Opcode::Jmp => "Jmp",
            Opcode::Jnz => "Jnz",
            Opcode::Call => "Call",
            Opcode::Ret => "Ret",
            Opcode::Load => "Load",
            Opcode::Store => "Store",
            Opcode::Push => "Push",
            Opcode::Pop => "Pop",
            Opcode::Assert => "Assert",
            Opcode::Poseidon => "Poseidon",
            Opcode::Log => "Log",
            Opcode::SRead => "SRead",
            Opcode::SWrite => "SWrite",
            Opcode::Syscall => "Syscall",
            Opcode::VerifyMerkle => "VerifyMerkle",
        }
    }
}

/// Which opcodes a decoder admits.
#[derive(Debug, Clone, Copy, PartialEq, Eq, Structural)]
pub enum IsaProfile {
    Production,
    Experimental,
    Testing,
}

/// Debug name of a profile.
pub open spec fn profile_name(p: IsaProfile) -> Seq<char> {
    match p {
        IsaProfile::Production => "Production"@,
        IsaProfile::Experimental => "Experimental"@,
        IsaProfile::Testing => "Testing"@,
    }
}

impl IsaProfile {
    /// The profile's debug name, as `{:?}` prints it.
    pub fn name(&self) -> (s: &'static str)
        ensures
            s@ == profile_name(*self),
    {
        match self {
            IsaProfile::Production => "Production",
            IsaProfile::Experimental => "Experimental",
            IsaProfile::Testing => "Testing",
        }
    }
}

/// Why an instruction word was refused.
#[derive(Debug, Clone, Copy, PartialEq, Eq, Structural)]
pub enum DecodeError {
    InvalidOpcode(u8),
    ExperimentalOpcodeDisabled(Opcode, IsaProfile),
}

/// The upper-case hexadecimal digit for `n < 16`.
pub open spec fn hex_digit_char(n: int) -> char {
    if n < 10 {
        (('0' as int) + n) as char
    } else {
        (('A' as int) + n - 10) as char
    }
}

/// The text of a decode error, as its `Display` prints it.
pub open spec fn decode_error_message(e: DecodeError) -> Seq<char> {
    match e {
        DecodeError::InvalidOpcode(op) => "Unknown opcode 0x"@ + seq![
            hex_digit_char((op / 16) as int),
            hex_digit_char((op % 16) as int),
        ],
        DecodeError::ExperimentalOpcodeDisabled(op, profile) => "Opcode "@ + opcode_name(op)
            + " is experimental and disabled in "@ + profile_name(profile) + " profile"@,
    }
}

/// The upper-case hexadecimal digit for `n < 16`, as a one-character string.
fn hex_digit(n: u8) -> (s: &'static str)
    requires
        n < 16,
    ensures
        s@ == seq![hex_digit_char(n as int)],
{
    if n == 0 {
        proof { reveal_strlit("0"); }
        "0"
    } else if n == 1 {
        proof { reveal_strlit("1"); }
        "1"
    } else if n == 2 {
        proof { reveal_strlit("2"); }
        "2"
    } else if n == 3 {
        proof { reveal_strlit("3"); }
        "3"
    } else if n == 4 {
        proof { reveal_strlit("4"); }
        "4"
    } else if n == 5 {
        proof { reveal_strlit("5"); }
        "5"
    } else if n == 6 {
        proof { reveal_strlit("6"); }
        "6"
    } else if n == 7 {
        proof { reveal_strlit("7"); }
        "7"
    } else if n == 8 {
        proof { reveal_strlit("8"); }
        "8"
    } else if n == 9 {
        proof { reveal_strlit("9"); }
        "9"
    } else if n == 10 {
        proof { reveal_strlit("A"); }
        "A"
    } else if n == 11 {
        proof { reveal_strlit("B"); }
        "B"
    } else if n == 12 {
        proof { reveal_strlit("C"); }
        "C"
    } else if n == 13 {
        proof { reveal_strlit("D"); }
        "D"
    } else if n == 14 {
        proof { reveal_strlit("E"); }
        "E"
    } else {
        proof { reveal_strlit("F"); }
        "F"
    }
}

impl DecodeError {
    /// The error's text, as `Display` prints it.
    pub fn message(&self) -> (s: String)
        ensures
            s@ == decode_error_message(*self),
    {
        match self {
            DecodeError::InvalidOpcode(op) => {
                let mut s = String::from_str("Unknown opcode 0x");
                s.append(hex_digit(*op / 16));
                s.append(hex_digit(*op % 16));
                s
            },
            DecodeError::ExperimentalOpcodeDisabled(op, profile) => {
                let mut s = String::from_str("Opcode ");
                s.append(op.name());
                s.append(" is experimental and disabled in ");
                s.append(profile.name());
                s.append(" profile");
                s
            },
        }
    }
}

/// One decoded VM instruction.
#[derive(Debug, Clone, Copy, PartialEq, Eq, Structural)]
pub struct Instruction {
    pub opcode: Opcode,
    pub rd: u8,
    pub rs1: u8,
    pub rs2: u8,
    pub imm: i32,
}

/// The instruction word of `i`: each field shifted to its place and or-ed in.
pub open spec fn encode_word(i: Instruction) -> u64 {
    (opcode_byte(i.opcode) as u64) | ((i.rd as u64) << 8u64) | ((i.rs1 as u64) << 13u64) | ((
    i.rs2 as u64) << 18u64) | (((i.imm as u32) as u64) << 23u64)
}

/// What `decode_any` makes of a word: the opcode from the low byte, the three
/// 5-bit register fields and the 32-bit immediate.
pub open spec fn decode_word(val: u64) -> Result<Instruction, DecodeError> {
    let op_u8 = (val & 0xFF) as u8;
    match opcode_of_byte(op_u8) {
        None => Err(DecodeError::InvalidOpcode(op_u8)),
        Some(op) => Ok(
            Instruction {
                opcode: op,
                rd: ((val >> 8u64) & 0x1F) as u8,
                rs1: ((val >> 13u64) & 0x1F) as u8,
                rs2: ((val >> 18u64) & 0x1F) as u8,
                imm: ((val >> 23u64) & 0xFFFF_FFFF) as i32,
            },
        ),
    }
}

/// What `decode_for_profile` makes of a word: `decode_word`, then
/// `VerifyMerkle` is refused in every profile but `Testing`.
pub open spec fn decode_word_for_profile(val: u64, profile: IsaProfile) -> Result<
    Instruction,
    DecodeError,
> {
    match decode_word(val) {
        Err(e) => Err(e),
        Ok(inst) => if inst.opcode == Opcode::VerifyMerkle && profile != IsaProfile::Testing {
            Err(DecodeError::ExperimentalOpcodeDisabled(inst.opcode, profile))
        } else {
            Ok(inst)
        },
    }
}

/// An instruction whose register fields fit their 5-bit slots.
pub open spec fn fits_word(i: Instruction) -> bool {
    i.rd < 32 && i.rs1 < 32 && i.rs2 < 32
}

/// Decoding the word of an instruction whose registers fit their slots
/// gives the instruction back.
pub proof fn lemma_decode_encode_roundtrip(i: Instruction)
    requires
        fits_word(i),
    ensures
        decode_word(encode_word(i)) == Ok::<Instruction, DecodeError>(i),
{
    let op = opcode_byte(i.opcode) as u64;
    let rd = i.rd as u64;
    let rs1 = i.rs1 as u64;
    let rs2 = i.rs2 as u64;
    let imm = (i.imm as u32) as u64;
    lemma_opcode_byte_bijective();
    lemma_opcode_of_byte_inverse(i.opcode);
    let w = encode_word(i);
    assert(w == op | (rd << 8u64) | (rs1 << 13u64) | (rs2 << 18u64) | (imm << 23u64));
    assert(op < 256 && rd < 32 && rs1 < 32 && rs2 < 32 && imm <= 0xFFFF_FFFF ==> {
        let w = op | (rd << 8u64) | (rs1 << 13u64) | (rs2 << 18u64) | (imm << 23u64);
        &&& (w & 0xFF) == op
        &&& ((w >> 8u64) & 0x1F) == rd
        &&& ((w >> 13u64) & 0x1F) == rs1
        &&& ((w >> 18u64) & 0x1F) == rs2
        &&& ((w >> 23u64) & 0xFFFF_FFFF) == imm
    }) by (bit_vector);
    let imm32 = i.imm;
    assert(((imm32 as u32) as u64) as i32 == imm32) by (bit_vector);
}

/// A word that decodes and leaves its top nine bits clear is the word of
/// the instruction it decodes to: each valid word has one instruction.
pub proof fn lemma_encode_decode_roundtrip(val: u64)
    requires
        decode_word(val) is Ok,
        val >> 55u64 == 0,
    ensures
        fits_word(decode_word(val)->Ok_0),
        encode_word(decode_word(val)->Ok_0) == val,
{
    lemma_opcode_byte_bijective();
    let i = decode_word(val)->Ok_0;
    let op = (val & 0xFF) as u8;
    assert(opcode_byte(i.opcode) == op);
    assert(((val >> 8u64) & 0x1F) < 32 && ((val >> 13u64) & 0x1F) < 32 && ((val >> 18u64)
        & 0x1F) < 32) by (bit_vector);
    let imm64 = (val >> 23u64) & 0xFFFF_FFFF;
    assert(imm64 <= 0xFFFF_FFFF ==> ((imm64 as i32) as u32) as u64 == imm64) by (bit_vector);
    assert(imm64 <= 0xFFFF_FFFF) by (bit_vector)
        requires
            imm64 == (val >> 23u64) & 0xFFFF_FFFF,
    ;
    assert(val >> 55u64 == 0 ==> (((val & 0xFF) as u8) as u64) | ((((val >> 8u64) & 0x1F) as u8
        as u64) << 8u64) | ((((val >> 13u64) & 0x1F) as u8 as u64) << 13u64) | ((((val >> 18u64)
        & 0x1F) as u8 as u64) << 18u64) | (((val >> 23u64) & 0xFFFF_FFFF) << 23u64) == val)
        by (bit_vector);
}

/// A profile only narrows `decode_any`: what it admits decodes the same way,
/// `Testing` admits everything, and nothing it admits outside `Testing` is
/// experimental.
pub proof fn lemma_profile_narrows_decode(val: u64, profile: IsaProfile)
    ensures
        decode_word_for_profile(val, profile) is Ok ==> decode_word_for_profile(val, profile)
            == decode_word(val),
        profile == IsaProfile::Testing ==> decode_word_for_profile(val, profile) == decode_word(
            val,
        ),
        profile != IsaProfile::Testing && decode_word_for_profile(val, profile) is Ok
            ==> decode_word_for_profile(val, profile)->Ok_0.opcode != Opcode::VerifyMerkle,
        decode_word(val) is Err ==> decode_word_for_profile(val, profile) == decode_word(val),
{
}

/// A profile refuses only `VerifyMerkle`: a word that names any other
/// opcode decodes under every profile exactly as `decode_any` decodes it,
/// and `VerifyMerkle` is refused, naming itself and the profile, under every
/// profile but `Testing`.
pub proof fn lemma_profile_refuses_only_verify_merkle(val: u64, profile: IsaProfile)
    ensures
        decode_word(val) is Ok && decode_word(val)->Ok_0.opcode != Opcode::VerifyMerkle
            ==> decode_word_for_profile(val, profile) == decode_word(val),
        decode_word(val) is Ok && decode_word(val)->Ok_0.opcode == Opcode::VerifyMerkle
            ==> decode_word_for_profile(val, profile) == (if profile == IsaProfile::Testing {
            decode_word(val)
        } else {
            Err(DecodeError::ExperimentalOpcodeDisabled(Opcode::VerifyMerkle, profile))
        }),
{
}

/// The opcodes in the order the ISA numbers them, from `0x00` up.
pub open spec fn isa_order() -> Seq<Opcode> {
    seq![
        Opcode::Halt, Opcode::Add, Opcode::Sub, Opcode::Mul, Opcode::Div, Opcode::Inv,
        Opcode::And, Opcode::Or, Opcode::Xor, Opcode::Not, Opcode::Eq, Opcode::Neq, Opcode::Lt,
        Opcode::Gt, Opcode::Lte, Opcode::Gte, Opcode::Jmp, Opcode::Jnz, Opcode::Call, Opcode::Ret,
        Opcode::Load, Opcode::Store, Opcode::Push, Opcode::Pop, Opcode::Assert, Opcode::Poseidon,
        Opcode::Log, Opcode::SRead, Opcode::SWrite, Opcode::Syscall, Opcode::VerifyMerkle,
    ]
}

/// The ISA numbering: the `i`-th opcode of `isa_order` has byte `i`, and a
/// word whose low byte is `i` decodes to that opcode.
pub proof fn lemma_opcode_numbering(i: int)
    requires
        0 <= i < 31,
    ensures
        opcode_byte(isa_order()[i]) == i,
        opcode_of_byte(i as u8) == Some(isa_order()[i]),
{
    lemma_opcode_of_byte_inverse(isa_order()[i]);
}

/// Where the fields sit in a word, in plain arithmetic: the opcode is the
/// low byte (a word decodes exactly when that byte is at most `0x1E`), `rd`
/// the 5 bits from bit 8, `rs1` from bit 13, `rs2` from bit 18, and the
/// immediate the 32 bits from bit 23.
pub proof fn lemma_decode_fields(val: u64)
    ensures
        decode_word(val) is Ok <==> val % 256 <= 0x1E,
        decode_word(val) is Ok ==> {
            let i = decode_word(val)->Ok_0;
            &&& opcode_byte(i.opcode) == val % 256
            &&& i.rd == (val / 256) % 32
            &&& i.rs1 == (val / 8192) % 32
            &&& i.rs2 == (val / 262144) % 32
            &&& (i.imm as u32) == (val / 8388608) % 4294967296
        },
        decode_word(val) is Err ==> decode_word(val) == Err::<Instruction, DecodeError>(
            DecodeError::InvalidOpcode((val % 256) as u8),
        ),
{
    lemma_opcode_byte_bijective();
    assert(((val & 0xFF) as u8) == val % 256) by (bit_vector);
    assert(((val >> 8u64) & 0x1F) as u8 == (val / 256) % 32) by (bit_vector);
    assert(((val >> 13u64) & 0x1F) as u8 == (val / 8192) % 32) by (bit_vector);
    assert(((val >> 18u64) & 0x1F) as u8 == (val / 262144) % 32) by (bit_vector);
    assert(((((val >> 23u64) & 0xFFFF_FFFF) as i32) as u32) == (val / 8388608) % 4294967296)
        by (bit_vector);
    let b = (val & 0xFF) as u8;
    if b <= 0x1E {
        lemma_opcode_of_byte_inverse(opcode_of_byte(b)->Some_0);
    }
}

impl Instruction {
    /// Packs the instruction into its 64-bit word.
    pub fn encode(&self) -> (w: u64)
        ensures
            w == encode_word(*self),
    {
        let mut res: u64 = self.opcode.to_byte() as u64;
        res = res | ((self.rd as u64) << 8u64);
        res = res | ((self.rs1 as u64) << 13u64);
        res = res | ((self.rs2 as u64) << 18u64);
        res = res | (((self.imm as u32) as u64) << 23u64);
        res
    }

    /// Decodes a word whatever its opcode; refuses only bytes that name no opcode.
    pub fn decode_any(val: u64) -> (r: Result<Self, DecodeError>)
        ensures
            r == decode_word(val),
    {
        let op_u8 = (val & 0xFF) as u8;
        let opcode = match Opcode::from_byte(op_u8) {
            Some(op) => op,
            None => {
                return Err(DecodeError::InvalidOpcode(op_u8));
            },
        };
        let rd = ((val >> 8u64) & 0x1F) as u8;
        let rs1 = ((val >> 13u64) & 0x1F) as u8;
        let rs2 = ((val >> 18u64) & 0x1F) as u8;
        let imm = ((val >> 23u64) & 0xFFFF_FFFF) as i32;
        Ok(Instruction { opcode, rd, rs1, rs2, imm })
    }

    /// Decodes a word and refuses experimental opcodes where the profile
    /// does not admit them (everywhere but `Testing`).
    pub fn decode_for_profile(val: u64, profile: IsaProfile) -> (r: Result<Self, DecodeError>)
        ensures
            r == decode_word_for_profile(val, profile),
    {
        let inst = match Self::decode_any(val) {
            Ok(i) => i,
            Err(e) => {
                return Err(e);
            },
        };
        if inst.opcode.is_experimental() {
            if profile == IsaProfile::Production {
                return Err(DecodeError::ExperimentalOpcodeDisabled(inst.opcode, profile));
            }
            if profile == IsaProfile::Experimental {
                return Err(DecodeError::ExperimentalOpcodeDisabled(inst.opcode, profile));
            }
        }
        Ok(inst)
    }

    /// Decodes under the Production profile and renders a refusal as text.
    pub fn decode(val: u64) -> (r: Result<Self, String>)
        ensures
            match decode_word_for_profile(val, IsaProfile::Production) {
                Ok(i) => r == Ok::<Instruction, String>(i),
                Err(e) => r is Err && r->Err_0@ == decode_error_message(e),
            },
    {
        match Self::decode_for_profile(val, IsaProfile::Production) {
            Ok(i) => Ok(i),
            Err(e) => Err(e.message()),
        }
    }
}

} // verus!
