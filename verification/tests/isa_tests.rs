use bud_zkvm::isa::{DecodeError, Instruction, IsaProfile, Opcode};

#[test]
fn tur119_verify_merkle_disabled_in_production() {
    let raw = Instruction {
        opcode: Opcode::VerifyMerkle,
        rd: 1,
        rs1: 2,
        rs2: 3,
        imm: 0,
    }
    .encode();
    let err = Instruction::decode_for_profile(raw, IsaProfile::Production)
        .expect_err("VerifyMerkle must be disabled in Production");
    match err {
        DecodeError::ExperimentalOpcodeDisabled(Opcode::VerifyMerkle, IsaProfile::Production) => {}
        other => panic!("unexpected error: {other:?}"),
    }
    // decode_any still parses the opcode for experimental/test tooling.
    let inst = Instruction::decode_any(raw).unwrap();
    assert_eq!(inst.opcode, Opcode::VerifyMerkle);
    assert!(inst.opcode.is_experimental());
}

#[test]
fn tur119_plain_opcodes_still_decode_in_production() {
    let raw = Instruction {
        opcode: Opcode::Add,
        rd: 1,
        rs1: 2,
        rs2: 3,
        imm: 0,
    }
    .encode();
    let inst = Instruction::decode_for_profile(raw, IsaProfile::Production).unwrap();
    assert_eq!(inst.opcode, Opcode::Add);
}

#[test]
fn encode_places_each_field() {
    let i = Instruction { opcode: Opcode::Add, rd: 1, rs1: 2, rs2: 3, imm: 0 };
    assert_eq!(i.encode(), 0x01 | (1 << 8) | (2 << 13) | (3 << 18));
    let j = Instruction { opcode: Opcode::Jmp, rd: 0, rs1: 0, rs2: 0, imm: -1 };
    assert_eq!(j.encode(), 0x10 | (0xFFFF_FFFFu64 << 23));
    let h = Instruction { opcode: Opcode::Halt, rd: 0, rs1: 0, rs2: 0, imm: 0 };
    assert_eq!(h.encode(), 0);
}

#[test]
fn decode_roundtrips_fitting_instructions() {
    let cases = [
        Instruction { opcode: Opcode::Sub, rd: 31, rs1: 0, rs2: 17, imm: i32::MIN },
        Instruction { opcode: Opcode::Poseidon, rd: 5, rs1: 6, rs2: 7, imm: i32::MAX },
        Instruction { opcode: Opcode::SWrite, rd: 0, rs1: 31, rs2: 31, imm: -12345 },
    ];
    for i in cases {
        assert_eq!(Instruction::decode_any(i.encode()), Ok(i));
    }
}

#[test]
fn encode_roundtrips_canonical_words() {
    let w: u64 = 0x1B | (9 << 8) | (30 << 13) | (4 << 18) | (0xDEAD_BEEFu64 << 23);
    let i = Instruction::decode_any(w).unwrap();
    assert_eq!(i.opcode, Opcode::SRead);
    assert_eq!((i.rd, i.rs1, i.rs2), (9, 30, 4));
    assert_eq!(i.imm, 0xDEAD_BEEFu32 as i32);
    assert_eq!(i.encode(), w);
}

#[test]
fn decode_rejects_unknown_opcode_bytes() {
    assert_eq!(Instruction::decode_any(0x1F), Err(DecodeError::InvalidOpcode(0x1F)));
    assert_eq!(Instruction::decode_any(0xFF | (3 << 8)), Err(DecodeError::InvalidOpcode(0xFF)));
    assert_eq!(
        Instruction::decode_for_profile(0x20, IsaProfile::Testing),
        Err(DecodeError::InvalidOpcode(0x20))
    );
}

#[test]
fn profiles_gate_verify_merkle() {
    let raw = Instruction { opcode: Opcode::VerifyMerkle, rd: 1, rs1: 2, rs2: 3, imm: 7 }.encode();
    assert!(Instruction::decode_for_profile(raw, IsaProfile::Testing).is_ok());
    assert_eq!(
        Instruction::decode_for_profile(raw, IsaProfile::Experimental),
        Err(DecodeError::ExperimentalOpcodeDisabled(Opcode::VerifyMerkle, IsaProfile::Experimental))
    );
    assert!(!Opcode::Add.is_experimental());
    assert!(Opcode::VerifyMerkle.is_experimental());
}

#[test]
fn decode_renders_errors_as_text() {
    assert_eq!(Instruction::decode(0xAB), Err("Unknown opcode 0xAB".to_string()));
    assert_eq!(Instruction::decode(0x0F | 0x100), Ok(Instruction::decode_any(0x10F).unwrap()));
    let raw = Instruction { opcode: Opcode::VerifyMerkle, rd: 0, rs1: 0, rs2: 0, imm: 0 }.encode();
    assert_eq!(
        Instruction::decode(raw),
        Err("Opcode VerifyMerkle is experimental and disabled in Production profile".to_string())
    );
    assert_eq!(DecodeError::InvalidOpcode(0x0A).message(), "Unknown opcode 0x0A");
}

#[test]
fn opcode_bytes_cover_the_table() {
    for b in 0u8..=0x1E {
        let op = Opcode::from_byte(b).unwrap();
        assert_eq!(op.to_byte(), b);
    }
    assert_eq!(Opcode::from_byte(0x1F), None);
    assert_eq!(Opcode::from_byte(0x0D), Some(Opcode::Gt));
    assert_eq!(Opcode::Syscall.name(), "Syscall");
}
