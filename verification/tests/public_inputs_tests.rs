use bud_zkvm::bytecode::{program_from_bytes, program_to_bytes, words_digest};
use bud_zkvm::public_inputs::ExecutionPublicInputs;
use tiny_keccak::{Hasher, Keccak};

fn keccak(data: &[u8]) -> [u8; 32] {
    let mut h = Keccak::v256();
    h.update(data);
    let mut out = [0u8; 32];
    h.finalize(&mut out);
    out
}

fn sample() -> ExecutionPublicInputs {
    ExecutionPublicInputs {
        chain_id: 1,
        program_hash: [0x11; 32],
        initial_state_root: [0x22; 32],
        final_state_root: [0x33; 32],
        sender: 0x0102_0304_0506_0708,
        nonce: 2,
        block_height: 3,
        gas_limit: 4,
        gas_used: 5,
        exit_code: 0,
        trace_len: 7,
        event_digest: [0x44; 32],
    }
}

#[test]
fn canonical_bytes_layout() {
    let b = sample().to_canonical_bytes();
    assert_eq!(b.len(), 192);
    assert_eq!(&b[0..8], &1u64.to_le_bytes());
    assert_eq!(&b[8..40], &[0x11; 32]);
    assert_eq!(&b[40..72], &[0x22; 32]);
    assert_eq!(&b[72..104], &[0x33; 32]);
    assert_eq!(&b[104..112], &[8, 7, 6, 5, 4, 3, 2, 1]);
    assert_eq!(&b[112..120], &2u64.to_le_bytes());
    assert_eq!(&b[152..160], &7u64.to_le_bytes());
    assert_eq!(&b[160..192], &[0x44; 32]);
}

#[test]
fn canonical_bytes_distinguish_fields() {
    let a = sample();
    let mut b = sample();
    b.exit_code = 1;
    assert_ne!(a.to_canonical_bytes(), b.to_canonical_bytes());
    assert_ne!(a.hash(), b.hash());
}

#[test]
fn hash_is_keccak_of_canonical_bytes() {
    let pi = sample();
    assert_eq!(pi.hash(), keccak(&pi.to_canonical_bytes()));
    assert_ne!(pi.hash().to_vec(), pi.to_canonical_bytes()[..32].to_vec());
}

#[test]
fn words_digest_of_nothing_is_keccak_of_empty() {
    let d = words_digest(&[]);
    assert_eq!(
        d,
        [
            0xc5, 0xd2, 0x46, 0x01, 0x86, 0xf7, 0x23, 0x3c, 0x92, 0x7e, 0x7d, 0xb2, 0xdc, 0xc7,
            0x03, 0xc0, 0xe5, 0x00, 0xb6, 0x53, 0xca, 0x82, 0x27, 0x3b, 0x7b, 0xfa, 0xd8, 0x04,
            0x5d, 0x85, 0xa4, 0x70
        ]
    );
    let words = [1u64, 0xFFFF_FFFF_FFFF_FFFF];
    assert_eq!(words_digest(&words), keccak(&program_to_bytes(&words)));
}

#[test]
fn program_bytes_are_little_endian_words() {
    let b = program_to_bytes(&[0x0102_0304_0506_0708, 0x10]);
    assert_eq!(b, vec![8, 7, 6, 5, 4, 3, 2, 1, 0x10, 0, 0, 0, 0, 0, 0, 0]);
    assert_eq!(program_to_bytes(&[]), Vec::<u8>::new());
}

#[test]
fn program_bytes_roundtrip() {
    let p = vec![0u64, 42, u64::MAX, 0x1234_5678_9ABC_DEF0];
    let b = program_to_bytes(&p);
    assert_eq!(program_from_bytes(&b), Ok(p));
    let raw: Vec<u8> = (0u8..24).collect();
    assert_eq!(program_to_bytes(&program_from_bytes(&raw).unwrap()), raw);
}

#[test]
fn program_from_bytes_rejects_partial_words() {
    assert_eq!(
        program_from_bytes(&[1, 2, 3, 4, 5, 6, 7]),
        Err("Invalid bytecode: file size must be a multiple of 8 bytes".to_string())
    );
    assert_eq!(program_from_bytes(&[]), Ok(vec![]));
}
