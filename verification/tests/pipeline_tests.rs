use bud_zkvm::pipeline::{build_public_inputs, event_digest, load_arguments};
use tiny_keccak::{Hasher, Keccak};

fn keccak(data: &[u8]) -> [u8; 32] {
    let mut h = Keccak::v256();
    h.update(data);
    let mut out = [0u8; 32];
    h.finalize(&mut out);
    out
}

#[test]
fn arguments_fill_registers_from_one() {
    let mut regs = [7u64; 32];
    load_arguments(&mut regs, &[10, 20, 30]);
    assert_eq!(regs[0], 7);
    assert_eq!(regs[1], 10);
    assert_eq!(regs[2], 20);
    assert_eq!(regs[3], 30);
    assert_eq!(regs[4], 7);
    assert_eq!(regs[31], 7);
}

#[test]
fn arguments_past_the_thirty_first_are_ignored() {
    let args: Vec<u64> = (100..140).collect();
    let mut regs = [0u64; 32];
    load_arguments(&mut regs, &args);
    assert_eq!(regs[0], 0);
    for i in 0..31 {
        assert_eq!(regs[i + 1], 100 + i as u64);
    }
}

#[test]
fn no_arguments_leave_registers_alone() {
    let mut regs = [3u64; 32];
    load_arguments(&mut regs, &[]);
    assert_eq!(regs, [3u64; 32]);
}

#[test]
fn public_inputs_of_a_run() {
    let program = [0x0102u64, 0xffff_0000_0000_0001];
    let events = [5u64];
    let pi = build_public_inputs(9, &program, [1; 32], [2; 32], 42, 3, 77, 1000, 55, 12, &events);
    let mut program_le = Vec::new();
    for w in program.iter() {
        program_le.extend_from_slice(&w.to_le_bytes());
    }
    assert_eq!(pi.chain_id, 9);
    assert_eq!(pi.program_hash, keccak(&program_le));
    assert_eq!(pi.initial_state_root, [1; 32]);
    assert_eq!(pi.final_state_root, [2; 32]);
    assert_eq!(pi.sender, 42);
    assert_eq!(pi.nonce, 3);
    assert_eq!(pi.block_height, 77);
    assert_eq!(pi.gas_limit, 1000);
    assert_eq!(pi.gas_used, 55);
    assert_eq!(pi.exit_code, 0);
    assert_eq!(pi.trace_len, 12);
    let mut expected = [0u8; 32];
    expected[0..4].copy_from_slice(&5u32.to_le_bytes());
    assert_eq!(pi.event_digest, expected);
}

#[test]
fn no_events_give_the_zero_digest() {
    let pi = build_public_inputs(1, &[], [0; 32], [0; 32], 0, 0, 0, 0, 0, 0, &[]);
    assert_eq!(pi.event_digest, [0u8; 32]);
    assert_eq!(pi.program_hash, keccak(&[]));
    assert_eq!(pi.program_hash[0], 0xc5);
}

#[test]
fn one_logged_seven_gives_limb_zero_seven() {
    let mut expected = [0u8; 32];
    expected[0..4].copy_from_slice(&7u32.to_le_bytes());
    assert_eq!(event_digest(&[7]), expected);
}

#[test]
fn event_limb_sums_modulo_two_to_the_32() {
    let d = event_digest(&[0xFFFF_FFFF, 2, 0x1_0000_0005]);
    let mut expected = [0u8; 32];
    expected[0..4].copy_from_slice(&6u32.to_le_bytes());
    assert_eq!(d, expected);
    let d = event_digest(&[0x0102_0304, 0x1000_0000]);
    assert_eq!(&d[0..4], &0x1102_0304u32.to_le_bytes());
    assert_eq!(&d[4..], &[0u8; 28]);
}
