//! The parts of an execution run that are pure computation: how the call
//! arguments reach the machine's registers, and what the public inputs of a
//! finished run are. Loading the state, running the machine, proving and
//! committing are done by the caller around these.
use crate::bytecode::{program_bytes, words_digest};
use crate::public_inputs::{keccak256, ExecutionPublicInputs};
use vstd::arithmetic::div_mod::lemma_add_mod_noop;
use vstd::prelude::*;

verus! {

/// The register that receives argument `i` holds it after the load:
/// argument `i` goes to register `i + 1`, for the first 31 arguments;
/// register 0 and the registers past the last argument keep their value.
pub open spec fn loaded_register(old_reg: Seq<u64>, args: Seq<u64>, j: int) -> u64 {
    if 1 <= j && j - 1 < args.len() && j - 1 < 31 {
        args[j - 1]
    } else {
        old_reg[j]
    }
}

/// Writes the call arguments into the registers: argument `i` into
/// register `i + 1`, while `i < 31`; further arguments are ignored.
pub fn load_arguments(registers: &mut [u64; 32], args: &[u64])
    ensures
        forall|j: int|
            0 <= j < 32 ==> #[trigger] final(registers)@[j] == loaded_register(
                old(registers)@,
                args@,
                j,
            ),
{
    let ghost r0 = registers@;
    let mut i: usize = 0;
    while i < args.len()
        invariant
            i <= args@.len(),
            r0.len() == 32,
            forall|j: int|
                0 <= j < 32 ==> #[trigger] registers@[j] == (if 1 <= j && j - 1 < i && j - 1
                    < 31 {
                    args@[j - 1]
                } else {
                    r0[j]
                }),
        decreases args@.len() - i,
    {
        if i < 31 {
            registers[i + 1] = args[i];
        }
        i = i + 1;
    }
}

/// The sum of the events, as an integer.
pub open spec fn event_sum(events: Seq<u64>) -> int
    decreases events.len(),
{
    if events.len() == 0 {
        0
    } else {
        event_sum(events.drop_last()) + events.last()
    }
}

/// Limb 0 of the event accumulator: the sum of the events modulo 2^32
/// (each Log adds the low 32 bits of its value).
pub open spec fn event_limb(events: Seq<u64>) -> u32 {
    (event_sum(events) % 0x1_0000_0000) as u32
}

/// The 4 little-endian bytes of `x`.
pub open spec fn u32_le(x: u32) -> Seq<u8> {
    seq![(x & 0xff) as u8, ((x >> 8u32) & 0xff) as u8, ((x >> 16u32) & 0xff) as u8, ((x >> 24u32) & 0xff) as u8]
}

/// The event digest the proof binds: eight 32-bit little-endian limbs, of
/// which limb 0 is `event_limb` and the other seven are 0.
pub open spec fn event_digest_bytes(events: Seq<u64>) -> Seq<u8> {
    u32_le(event_limb(events)) + Seq::new(28, |i: int| 0u8)
}

/// The event digest of a run whose Log instructions emitted `events`: limb 0
/// accumulates the events modulo 2^32, the other limbs stay 0.
pub fn event_digest(events: &[u64]) -> (d: [u8; 32])
    ensures
        d@ == event_digest_bytes(events@),
{
    let mut acc: u64 = 0;
    let mut i: usize = 0;
    proof {
        assert(events@.subrange(0, 0) =~= Seq::<u64>::empty());
    }
    while i < events.len()
        invariant
            i <= events@.len(),
            acc < 0x1_0000_0000,
            acc == event_sum(events@.subrange(0, i as int)) % 0x1_0000_0000,
        decreases events@.len() - i,
    {
        proof {
            let pre = events@.subrange(0, i as int);
            assert(events@.subrange(0, i + 1).drop_last() =~= pre);
            lemma_add_mod_noop(event_sum(pre), events@[i as int] as int, 0x1_0000_0000);
        }
        acc = (acc + events[i] % 0x1_0000_0000) % 0x1_0000_0000;
        i = i + 1;
    }
    proof {
        assert(events@.subrange(0, events@.len() as int) =~= events@);
    }
    let limb = acc as u32;
    let mut d = [0u8; 32];
    d[0] = (limb & 0xff) as u8;
    d[1] = ((limb >> 8u32) & 0xff) as u8;
    d[2] = ((limb >> 16u32) & 0xff) as u8;
    d[3] = ((limb >> 24u32) & 0xff) as u8;
    proof {
        assert(d@ =~= event_digest_bytes(events@));
    }
    d
}

/// The public inputs of a run: the program hash is the Keccak-256 digest of
/// the program's byte form, the event digest is the accumulator form of
/// `event_digest`, the exit code is 0, and every other field is taken as
/// given.
pub fn build_public_inputs(
    chain_id: u64,
    bytecode: &[u64],
    initial_state_root: [u8; 32],
    final_state_root: [u8; 32],
    sender: u64,
    nonce: u64,
    block_height: u64,
    gas_limit: u64,
    gas_used: u64,
    trace_len: u64,
    events: &[u64],
) -> (pi: ExecutionPublicInputs)
    ensures
        pi.chain_id == chain_id,
        pi.program_hash@ == keccak256(program_bytes(bytecode@)),
        pi.initial_state_root == initial_state_root,
        pi.final_state_root == final_state_root,
        pi.sender == sender,
        pi.nonce == nonce,
        pi.block_height == block_height,
        pi.gas_limit == gas_limit,
        pi.gas_used == gas_used,
        pi.exit_code == 0,
        pi.trace_len == trace_len,
        pi.event_digest@ == event_digest_bytes(events@),
{
    let program_hash = words_digest(bytecode);
    let event_digest = event_digest(events);
    ExecutionPublicInputs {
        chain_id,
        program_hash,
        initial_state_root,
        final_state_root,
        sender,
        nonce,
        block_height,
        gas_limit,
        gas_used,
        exit_code: 0,
        trace_len,
        event_digest,
    }
}

} // verus!
