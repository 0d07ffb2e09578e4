//! The decisions of an execution run, as a state machine. The caller loads
//! the state, runs the machine, proves, verifies and commits; after each
//! piece of outside work it hands the outcome to `step`, which says what to
//! do next. The order is: load the state; create the sender's default
//! account if it has none; execute; when committing, open a transaction and
//! raise the sender's nonce; prove; verify; then commit, or roll back and
//! fail.
use vstd::prelude::*;

verus! {

/// Where a run stands: which outcome it waits for.
#[derive(Debug, Clone, Copy, PartialEq, Eq, Structural)]
pub enum RunStage {
    Loading,
    CreatingAccount,
    Executing,
    ReadingSender,
    SettingNonce,
    Proving,
    Verifying,
    RollingBack,
    Committing,
    Done,
    Failed,
}

/// Why a run failed.
#[derive(Debug, Clone, Copy, PartialEq, Eq, Structural)]
pub enum RunError {
    /// The machine did not finish successfully.
    ExecutionFailed,
    /// The sender's account was gone when its nonce was to be raised.
    SenderAccountMissing,
    /// No proof could be made.
    ProofFailed,
    /// The proof just made did not verify.
    VerificationFailed,
    /// The state transaction could not be committed.
    CommitFailed,
}

/// A run: what it was asked to do, and where it stands.
#[derive(Debug, Clone, Copy, PartialEq, Eq, Structural)]
pub struct RunState {
    pub stage: RunStage,
    pub sender: Option<u64>,
    pub nonce: Option<u64>,
    pub block_height: Option<u64>,
    pub commit_state: bool,
    /// The nonce the execution context gets, once the state is loaded.
    pub context_nonce: Option<u64>,
}

/// The outside work to do next.
#[derive(Debug, Clone, Copy, PartialEq, Eq, Structural)]
pub enum RunAction {
    /// Load the state; answer `Loaded` with the sender's account nonce, if
    /// the sender has an account.
    LoadState,
    /// Give `sender` the default account (balance 1000, nonce 0, zero code
    /// hash and storage root); answer `Done`.
    CreateDefaultAccount { sender: u64 },
    /// Run the program with these context values (`None`: the machine's
    /// default); answer `Executed`.
    Execute { sender: Option<u64>, nonce: Option<u64>, block_height: Option<u64> },
    /// Open a state transaction and read the nonce of `read_sender`'s
    /// account (none when there is no sender); answer `SenderRead`.
    BeginTransaction { read_sender: Option<u64> },
    /// Store `nonce` as the sender's account nonce; answer `Done`.
    SetSenderNonce { sender: u64, nonce: u64 },
    /// Build the public inputs, the final state root being the state's root
    /// when `post_root_from_state` and the initial root otherwise, and
    /// prove; answer `Proved`.
    Prove { post_root_from_state: bool },
    /// Verify the proof just made; answer `Verified`.
    Verify,
    /// Roll the state transaction back; answer `Done`.
    Rollback,
    /// Commit the state transaction; answer `Committed`.
    Commit,
    /// The run succeeded.
    Finish,
    /// The run failed.
    Fail(RunError),
}

/// The outcome of the last action.
#[derive(Debug, Clone, Copy, PartialEq, Eq, Structural)]
pub enum RunEvent {
    Loaded { account_nonce: Option<u64> },
    Done,
    Executed { success: bool },
    SenderRead { nonce: Option<u64> },
    Proved { ok: bool },
    Verified { ok: bool },
    Committed { ok: bool },
}

/// Whether `e` is the outcome a run in `stage` waits for.
pub open spec fn awaits(stage: RunStage, e: RunEvent) -> bool {
    match stage {
        RunStage::Loading => e is Loaded,
        RunStage::CreatingAccount => e is Done,
        RunStage::Executing => e is Executed,
        RunStage::ReadingSender => e is SenderRead,
        RunStage::SettingNonce => e is Done,
        RunStage::Proving => e is Proved,
        RunStage::Verifying => e is Verified,
        RunStage::RollingBack => e is Done,
        RunStage::Committing => e is Committed,
        RunStage::Done => false,
        RunStage::Failed => false,
    }
}

/// The nonce the execution context gets: the one asked for, else the
/// sender's account nonce (0 for a new account), else none.
pub open spec fn chosen_nonce(
    sender: Option<u64>,
    explicit: Option<u64>,
    account_nonce: Option<u64>,
) -> Option<u64> {
    match explicit {
        Some(n) => Some(n),
        None => match sender {
            Some(_) => match account_nonce {
                Some(n) => Some(n),
                None => Some(0),
            },
            None => None,
        },
    }
}

/// `s` moved on to `stage` with the rest unchanged.
pub open spec fn at(s: RunState, stage: RunStage) -> RunState {
    RunState { stage, ..s }
}

/// The action that runs the program from `s`.
pub open spec fn execute_action(s: RunState) -> RunAction {
    RunAction::Execute { sender: s.sender, nonce: s.context_nonce, block_height: s.block_height }
}

/// The next state and action of run `s` on outcome `e`.
pub open spec fn next(s: RunState, e: RunEvent) -> (RunState, RunAction) {
    match (s.stage, e) {
        (RunStage::Loading, RunEvent::Loaded { account_nonce }) => {
            let s1 = RunState {
                context_nonce: chosen_nonce(s.sender, s.nonce, account_nonce),
                ..s
            };
            match (s.sender, account_nonce) {
                (Some(x), None) => (
                    at(s1, RunStage::CreatingAccount),
                    RunAction::CreateDefaultAccount { sender: x },
                ),
                _ => (at(s1, RunStage::Executing), execute_action(s1)),
            }
        },
        (RunStage::CreatingAccount, RunEvent::Done) => (
            at(s, RunStage::Executing),
            execute_action(s),
        ),
        (RunStage::Executing, RunEvent::Executed { success }) => if !success {
            (at(s, RunStage::Failed), RunAction::Fail(RunError::ExecutionFailed))
        } else if s.commit_state {
            (at(s, RunStage::ReadingSender), RunAction::BeginTransaction { read_sender: s.sender })
        } else {
            (at(s, RunStage::Proving), RunAction::Prove { post_root_from_state: false })
        },
        (RunStage::ReadingSender, RunEvent::SenderRead { nonce }) => match s.sender {
            None => (at(s, RunStage::Proving), RunAction::Prove { post_root_from_state: true }),
            Some(x) => match nonce {
                None => (
                    at(s, RunStage::Failed),
                    RunAction::Fail(RunError::SenderAccountMissing),
                ),
                Some(n) => (
                    at(s, RunStage::SettingNonce),
                    RunAction::SetSenderNonce { sender: x, nonce: (n + 1) as u64 },
                ),
            },
        },
        (RunStage::SettingNonce, RunEvent::Done) => (
            at(s, RunStage::Proving),
            RunAction::Prove { post_root_from_state: true },
        ),
        (RunStage::Proving, RunEvent::Proved { ok }) => if ok {
            (at(s, RunStage::Verifying), RunAction::Verify)
        } else {
            (at(s, RunStage::Failed), RunAction::Fail(RunError::ProofFailed))
        },
        (RunStage::Verifying, RunEvent::Verified { ok }) => if !ok {
            if s.commit_state {
                (at(s, RunStage::RollingBack), RunAction::Rollback)
            } else {
                (at(s, RunStage::Failed), RunAction::Fail(RunError::VerificationFailed))
            }
        } else if s.commit_state {
            (at(s, RunStage::Committing), RunAction::Commit)
        } else {
            (at(s, RunStage::Done), RunAction::Finish)
        },
        (RunStage::RollingBack, RunEvent::Done) => (
            at(s, RunStage::Failed),
            RunAction::Fail(RunError::VerificationFailed),
        ),
        (RunStage::Committing, RunEvent::Committed { ok }) => if ok {
            (at(s, RunStage::Done), RunAction::Finish)
        } else {
            (at(s, RunStage::Failed), RunAction::Fail(RunError::CommitFailed))
        },
        _ => (s, RunAction::Fail(RunError::ExecutionFailed)),
    }
}

/// Whether the outcome `e` can be handed to run `s`: it is the one the run
/// waits for, and a sender nonce read for raising is below `u64::MAX` (the
/// raise by one is not allowed to overflow).
pub open spec fn step_allowed(s: RunState, e: RunEvent) -> bool {
    &&& awaits(s.stage, e)
    &&& (s.stage == RunStage::ReadingSender && s.sender is Some) ==> match e {
        RunEvent::SenderRead { nonce: Some(n) } => n < u64::MAX,
        _ => true,
    }
}

/// A new run, asked to execute with these context values and, when
/// `commit_state`, to commit its state change; it starts by loading the state.
pub fn start(
    sender: Option<u64>,
    nonce: Option<u64>,
    block_height: Option<u64>,
    commit_state: bool,
) -> (r: (RunState, RunAction))
    ensures
        r.0 == (RunState {
            stage: RunStage::Loading,
            sender,
            nonce,
            block_height,
            commit_state,
            context_nonce: None,
        }),
        r.1 == RunAction::LoadState,
{
    (
        RunState {
            stage: RunStage::Loading,
            sender,
            nonce,
            block_height,
            commit_state,
            context_nonce: None,
        },
        RunAction::LoadState,
    )
}

/// The next state and action of run `s` on the outcome `e` of its last action.
pub fn step(s: RunState, e: RunEvent) -> (r: (RunState, RunAction))
    requires
        step_allowed(s, e),
    ensures
        r == next(s, e),
{
    match (s.stage, e) {
        (RunStage::Loading, RunEvent::Loaded { account_nonce }) => {
            let context_nonce = match s.nonce {
                Some(n) => Some(n),
                None => match s.sender {
                    Some(_) => match account_nonce {
                        Some(n) => Some(n),
                        None => Some(0),
                    },
                    None => None,
                },
            };
            let s1 = RunState { context_nonce, ..s };
            match (s.sender, account_nonce) {
                (Some(x), None) => (
                    RunState { stage: RunStage::CreatingAccount, ..s1 },
                    RunAction::CreateDefaultAccount { sender: x },
                ),
                _ => (
                    RunState { stage: RunStage::Executing, ..s1 },
                    RunAction::Execute {
                        sender: s1.sender,
                        nonce: s1.context_nonce,
                        block_height: s1.block_height,
                    },
                ),
            }
        },
        (RunStage::CreatingAccount, RunEvent::Done) => (
            RunState { stage: RunStage::Executing, ..s },
            RunAction::Execute {
                sender: s.sender,
                nonce: s.context_nonce,
                block_height: s.block_height,
            },
        ),
        (RunStage::Executing, RunEvent::Executed { success }) => if !success {
            (RunState { stage: RunStage::Failed, ..s }, RunAction::Fail(RunError::ExecutionFailed))
        } else if s.commit_state {
            (
                RunState { stage: RunStage::ReadingSender, ..s },
                RunAction::BeginTransaction { read_sender: s.sender },
            )
        } else {
            (
                RunState { stage: RunStage::Proving, ..s },
                RunAction::Prove { post_root_from_state: false },
            )
        },
        (RunStage::ReadingSender, RunEvent::SenderRead { nonce }) => match s.sender {
            None => (
                RunState { stage: RunStage::Proving, ..s },
                RunAction::Prove { post_root_from_state: true },
            ),
            Some(x) => match nonce {
                None => (
                    RunState { stage: RunStage::Failed, ..s },
                    RunAction::Fail(RunError::SenderAccountMissing),
                ),
                Some(n) => (
                    RunState { stage: RunStage::SettingNonce, ..s },
                    RunAction::SetSenderNonce { sender: x, nonce: n + 1 },
                ),
            },
        },
        (RunStage::SettingNonce, RunEvent::Done) => (
            RunState { stage: RunStage::Proving, ..s },
            RunAction::Prove { post_root_from_state: true },
        ),
        (RunStage::Proving, RunEvent::Proved { ok }) => if ok {
            (RunState { stage: RunStage::Verifying, ..s }, RunAction::Verify)
        } else {
            (RunState { stage: RunStage::Failed, ..s }, RunAction::Fail(RunError::ProofFailed))
        },
        (RunStage::Verifying, RunEvent::Verified { ok }) => if !ok {
            if s.commit_state {
                (RunState { stage: RunStage::RollingBack, ..s }, RunAction::Rollback)
            } else {
                (
                    RunState { stage: RunStage::Failed, ..s },
                    RunAction::Fail(RunError::VerificationFailed),
                )
            }
        } else if s.commit_state {
            (RunState { stage: RunStage::Committing, ..s }, RunAction::Commit)
        } else {
            (RunState { stage: RunStage::Done, ..s }, RunAction::Finish)
        },
        (RunStage::RollingBack, RunEvent::Done) => (
            RunState { stage: RunStage::Failed, ..s },
            RunAction::Fail(RunError::VerificationFailed),
        ),
        (RunStage::Committing, RunEvent::Committed { ok }) => if ok {
            (RunState { stage: RunStage::Done, ..s }, RunAction::Finish)
        } else {
            (RunState { stage: RunStage::Failed, ..s }, RunAction::Fail(RunError::CommitFailed))
        },
        _ => (s, RunAction::Fail(RunError::ExecutionFailed)),
    }
}

/// The state is committed only after the proof of the run verified, and
/// only when the run was asked to commit.
pub proof fn lemma_commit_only_after_verification(s: RunState, e: RunEvent)
    requires
        step_allowed(s, e),
    ensures
        next(s, e).1 == RunAction::Commit ==> (s.stage == RunStage::Verifying && e
            == (RunEvent::Verified { ok: true }) && s.commit_state),
{
}

/// A proof that does not verify ends the run in failure: a committing run
/// rolls its transaction back first, and nothing is committed.
pub proof fn lemma_failed_verification_rolls_back(s: RunState)
    requires
        s.stage == RunStage::Verifying,
    ensures
        next(s, (RunEvent::Verified { ok: false })).1 == (if s.commit_state {
            RunAction::Rollback
        } else {
            RunAction::Fail(RunError::VerificationFailed)
        }),
        next(at(s, RunStage::RollingBack), RunEvent::Done).1 == RunAction::Fail(
            RunError::VerificationFailed,
        ),
{
}

/// The program runs with the nonce that was asked for, whatever the
/// sender's account holds; without one, with the account's nonce (0 for a
/// new account).
pub proof fn lemma_execution_nonce(s: RunState, account_nonce: Option<u64>)
    requires
        s.stage == RunStage::Loading,
    ensures
        ({
            let (s1, a) = next(s, RunEvent::Loaded { account_nonce });
            let exec = if a is CreateDefaultAccount {
                next(s1, RunEvent::Done).1
            } else {
                a
            };
            &&& exec is Execute
            &&& exec->Execute_nonce == (match s.nonce {
                Some(n) => Some(n),
                None => if s.sender is Some {
                    Some(if account_nonce is Some { account_nonce->0 } else { 0 })
                } else {
                    None
                },
            })
        }),
{
}

/// Committing raises the sender's account nonce by one before proving.
pub proof fn lemma_commit_raises_nonce(s: RunState, n: u64)
    requires
        s.stage == RunStage::ReadingSender,
        s.sender is Some,
        n < u64::MAX,
    ensures
        next(s, (RunEvent::SenderRead { nonce: Some(n) })).1 == (RunAction::SetSenderNonce {
            sender: s.sender->0,
            nonce: (n + 1) as u64,
        }),
{
}

/// A sender without an account always gets the default account before the
/// program runs, whatever nonce was asked for and whether or not the run
/// commits; a sender with an account, or no sender, goes straight to
/// execution.
pub proof fn lemma_new_sender_gets_default_account(s: RunState, account_nonce: Option<u64>)
    requires
        s.stage == RunStage::Loading,
    ensures
        s.sender is Some && account_nonce is None ==> next(
            s,
            (RunEvent::Loaded { account_nonce }),
        ).1 == (RunAction::CreateDefaultAccount { sender: s.sender->0 }),
        s.sender is Some && account_nonce is None ==> next(
            s,
            (RunEvent::Loaded { account_nonce }),
        ).0.stage == RunStage::CreatingAccount,
        !(s.sender is Some && account_nonce is None) ==> next(
            s,
            (RunEvent::Loaded { account_nonce }),
        ).1 is Execute,
{
}

/// After the default account is made, the program runs with the asked nonce
/// if there is one and with the new account's nonce 0 otherwise.
pub proof fn lemma_new_account_runs_next(s: RunState, x: u64, nonce: Option<u64>)
    requires
        s.stage == RunStage::Loading,
        s.sender == Some(x),
        s.nonce == nonce,
    ensures
        ({
            let s1 = next(s, (RunEvent::Loaded { account_nonce: None })).0;
            next(s1, RunEvent::Done).1 == (RunAction::Execute {
                sender: Some(x),
                nonce: Some(if nonce is Some { nonce->0 } else { 0 }),
                block_height: s.block_height,
            })
        }),
{
}

} // verus!
