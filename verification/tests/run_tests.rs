use bud_zkvm::run::{start, step, RunAction, RunError, RunEvent, RunStage, RunState};

fn drive(mut s: RunState, events: &[RunEvent]) -> (RunState, Vec<RunAction>) {
    let mut actions = Vec::new();
    for e in events {
        let (s1, a) = step(s, *e);
        s = s1;
        actions.push(a);
    }
    (s, actions)
}

#[test]
fn committing_run_with_new_sender() {
    let (s, a) = start(Some(9), None, Some(5), true);
    assert_eq!(a, RunAction::LoadState);
    let (s, acts) = drive(
        s,
        &[
            RunEvent::Loaded { account_nonce: None },
            RunEvent::Done,
            RunEvent::Executed { success: true },
            RunEvent::SenderRead { nonce: Some(0) },
            RunEvent::Done,
            RunEvent::Proved { ok: true },
            RunEvent::Verified { ok: true },
            RunEvent::Committed { ok: true },
        ],
    );
    assert_eq!(
        acts,
        vec![
            RunAction::CreateDefaultAccount { sender: 9 },
            RunAction::Execute { sender: Some(9), nonce: Some(0), block_height: Some(5) },
            RunAction::BeginTransaction { read_sender: Some(9) },
            RunAction::SetSenderNonce { sender: 9, nonce: 1 },
            RunAction::Prove { post_root_from_state: true },
            RunAction::Verify,
            RunAction::Commit,
            RunAction::Finish,
        ]
    );
    assert_eq!(s.stage, RunStage::Done);
}

#[test]
fn explicit_nonce_wins_over_the_account() {
    let (s, _) = start(Some(3), Some(40), None, false);
    let (_, a) = step(s, RunEvent::Loaded { account_nonce: Some(7) });
    assert_eq!(a, RunAction::Execute { sender: Some(3), nonce: Some(40), block_height: None });
    let (s, _) = start(Some(3), None, None, false);
    let (_, a) = step(s, RunEvent::Loaded { account_nonce: Some(7) });
    assert_eq!(a, RunAction::Execute { sender: Some(3), nonce: Some(7), block_height: None });
    let (s, _) = start(None, None, None, false);
    let (_, a) = step(s, RunEvent::Loaded { account_nonce: None });
    assert_eq!(a, RunAction::Execute { sender: None, nonce: None, block_height: None });
}

#[test]
fn proving_only_run_keeps_the_initial_root() {
    let (s, _) = start(None, None, None, false);
    let (s, acts) = drive(
        s,
        &[
            RunEvent::Loaded { account_nonce: None },
            RunEvent::Executed { success: true },
            RunEvent::Proved { ok: true },
            RunEvent::Verified { ok: true },
        ],
    );
    assert_eq!(acts[1], RunAction::Prove { post_root_from_state: false });
    assert_eq!(acts[3], RunAction::Finish);
    assert_eq!(s.stage, RunStage::Done);
}

#[test]
fn failures() {
    let (s, _) = start(None, None, None, true);
    let (s, acts) = drive(s, &[RunEvent::Loaded { account_nonce: None }, RunEvent::Executed { success: false }]);
    assert_eq!(acts[1], RunAction::Fail(RunError::ExecutionFailed));
    assert_eq!(s.stage, RunStage::Failed);

    let (s, _) = start(Some(1), None, None, true);
    let (_, acts) = drive(
        s,
        &[
            RunEvent::Loaded { account_nonce: Some(2) },
            RunEvent::Executed { success: true },
            RunEvent::SenderRead { nonce: None },
        ],
    );
    assert_eq!(acts[2], RunAction::Fail(RunError::SenderAccountMissing));

    let (s, _) = start(None, None, None, false);
    let (_, acts) = drive(
        s,
        &[
            RunEvent::Loaded { account_nonce: None },
            RunEvent::Executed { success: true },
            RunEvent::Proved { ok: false },
        ],
    );
    assert_eq!(acts[2], RunAction::Fail(RunError::ProofFailed));
}

#[test]
fn failed_verification_rolls_back_a_committing_run() {
    let (s, _) = start(None, None, None, true);
    let (s, acts) = drive(
        s,
        &[
            RunEvent::Loaded { account_nonce: None },
            RunEvent::Executed { success: true },
            RunEvent::SenderRead { nonce: None },
            RunEvent::Proved { ok: true },
            RunEvent::Verified { ok: false },
            RunEvent::Done,
        ],
    );
    assert_eq!(acts[2], RunAction::Prove { post_root_from_state: true });
    assert_eq!(acts[4], RunAction::Rollback);
    assert_eq!(acts[5], RunAction::Fail(RunError::VerificationFailed));
    assert_eq!(s.stage, RunStage::Failed);

    let (s, _) = start(None, None, None, false);
    let (_, acts) = drive(
        s,
        &[
            RunEvent::Loaded { account_nonce: None },
            RunEvent::Executed { success: true },
            RunEvent::Proved { ok: true },
            RunEvent::Verified { ok: false },
        ],
    );
    assert_eq!(acts[3], RunAction::Fail(RunError::VerificationFailed));
}

#[test]
fn failed_commit() {
    let (s, _) = start(None, None, None, true);
    let (_, acts) = drive(
        s,
        &[
            RunEvent::Loaded { account_nonce: None },
            RunEvent::Executed { success: true },
            RunEvent::SenderRead { nonce: None },
            RunEvent::Proved { ok: true },
            RunEvent::Verified { ok: true },
            RunEvent::Committed { ok: false },
        ],
    );
    assert_eq!(acts[4], RunAction::Commit);
    assert_eq!(acts[5], RunAction::Fail(RunError::CommitFailed));
}
