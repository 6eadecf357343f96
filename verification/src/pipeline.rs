//! The acquisition pipeline: a state machine over the two sandboxed
//! stages (fetch with network, checkout without), fingerprint
//! verification, the heuristic scan and the trust gates.
//!
//! The library decides; the caller performs.  Each call to `step`
//! consumes the outcome of the previous action and returns the next
//! action to perform: run a stage, ask the user, verify, scan,
//! materialize, record, or stop.  All I/O — creating the workspace,
//! running the sandboxed tool, prompting, copying, persisting — is the
//! caller's, so the decisions here are checkable without any of it.

use vstd::prelude::*;
use vstd::string::StringExecFns;
use crate::policy::{TrustMode, DecisionPoint, TrustContext, Action, spec_decide, decide};

verus! {

/// Why an acquisition stopped.
#[derive(Clone, Copy, Debug, PartialEq, Eq, Structural)]
pub enum PipelineError {
    /// The isolation mechanism is not installed; checked before any
    /// workspace exists, and never worked around by running unsandboxed.
    IsolationUnavailable,
    /// Verification was demanded but no fingerprint is known for the
    /// source; checked before any sandboxed work begins.
    NoFingerprintOnRequiredVerify,
    /// The fetch stage exited non-zero or timed out.
    FetchFailed,
    /// The checkout stage exited non-zero or timed out.
    CheckoutFailed,
}

/// The two sandboxed stages.
#[derive(Clone, Copy, Debug, PartialEq, Eq, Structural)]
pub enum Stage {
    Fetch,
    Checkout,
}

/// One sandboxed invocation the caller must run: which stage, and
/// whether the sandbox may reach the network.
#[derive(Clone, Copy, Debug, PartialEq, Eq, Structural)]
pub struct StageRequest {
    pub stage: Stage,
    pub allow_network: bool,
}

/// Result of comparing the tree against the known fingerprint.
#[derive(Clone, Copy, Debug, PartialEq, Eq, Structural)]
pub enum VerifyOutcome {
    /// No fingerprint is known for this source; nothing was checked.
    NotChecked,
    /// Every entry matched.
    FullMatch,
    /// Some entry was modified, missing or unexpected.
    Mismatch,
}

/// Where the pipeline stands.
#[derive(Clone, Copy, Debug, PartialEq, Eq, Structural)]
pub enum PipelineState {
    Start,
    AwaitingFetchApproval,
    Fetching,
    CheckingOut,
    Verifying,
    AwaitingVerifyApproval,
    Scanning,
    AwaitingScanApproval,
    AwaitingMaterializeApproval,
    Materializing,
    Done,
    Cancelled,
    Failed,
}

/// What the caller reports back to the pipeline.
#[derive(Clone, Copy, Debug, PartialEq, Eq, Structural)]
pub enum PipelineEvent {
    /// Start the acquisition; says whether the isolation mechanism is
    /// installed.
    Begin { isolation_available: bool },
    /// The user's answer to the last prompt.
    PromptAnswered { yes: bool },
    /// The last requested stage finished.
    StageCompleted { success: bool },
    /// Fingerprint verification finished.
    Verified { outcome: VerifyOutcome },
    /// The heuristic scan finished.
    Scanned { found_issues: bool },
    /// The tree was (or was not) copied to the working directory.
    Materialized { copied: bool },
}

/// What the caller must do next.
#[derive(Clone, Copy, Debug, PartialEq, Eq, Structural)]
pub enum PipelineAction {
    /// Run the given sandboxed stage and report `StageCompleted`.
    RunStage(StageRequest),
    /// Put the question for this gate to the user and report
    /// `PromptAnswered`.
    AskUser(DecisionPoint),
    /// Diff the checked-out tree against the known fingerprint, if
    /// any, and report `Verified`.
    VerifyFingerprint,
    /// Scan the tree and report `Scanned`.
    RunScan,
    /// Copy the tree to the working directory and report
    /// `Materialized`.
    Materialize,
    /// Append the acquisition record; `verified` says whether
    /// integrity verification fully matched.  Terminal.
    RecordResult { verified: bool },
    /// The user declined; stop with exit status zero, removing the
    /// workspace when one was created.  Terminal.
    Cancel { cleanup: bool },
    /// Stop with the given error, removing the workspace when one was
    /// created.  Terminal.
    Fail { error: PipelineError, cleanup: bool },
    /// The event does not belong to the current state; nothing to do.
    Ignore,
}

/// One acquisition in progress: the per-invocation facts and the
/// current state.
#[derive(Clone, Copy, Debug, PartialEq, Eq, Structural)]
pub struct AcquisitionPipeline {
    pub trust_mode: TrustMode,
    pub verify_checksum_required: bool,
    pub has_known_fingerprint: bool,
    pub state: PipelineState,
    pub workspace_created: bool,
    pub integrity_verified: bool,
}

/// The facts handed to the trust policy on behalf of this pipeline.
pub open spec fn spec_context(
    p: AcquisitionPipeline,
    verification_failed: bool,
    scan_found_issues: bool,
) -> TrustContext {
    TrustContext {
        has_known_fingerprint: p.has_known_fingerprint,
        verification_failed,
        scan_found_issues,
    }
}

/// Next state and action once the scan gate is passed: the materialize
/// gate, prompting only when the policy says so.
pub open spec fn spec_materialize_gate(p: AcquisitionPipeline) -> (
    AcquisitionPipeline,
    PipelineAction,
) {
    if spec_decide(p.trust_mode, DecisionPoint::BeforeMaterialize, spec_context(p, false, false))
        == Action::Prompt {
        (
            AcquisitionPipeline { state: PipelineState::AwaitingMaterializeApproval, ..p },
            PipelineAction::AskUser(DecisionPoint::BeforeMaterialize),
        )
    } else {
        (
            AcquisitionPipeline { state: PipelineState::Materializing, ..p },
            PipelineAction::Materialize,
        )
    }
}

/// The transition relation of the pipeline, one event at a time.
pub open spec fn spec_step(p: AcquisitionPipeline, event: PipelineEvent) -> (
    AcquisitionPipeline,
    PipelineAction,
) {
    match (p.state, event) {
        (PipelineState::Start, PipelineEvent::Begin { isolation_available }) => {
            if !isolation_available {
                (
                    AcquisitionPipeline { state: PipelineState::Failed, ..p },
                    PipelineAction::Fail {
                        error: PipelineError::IsolationUnavailable,
                        cleanup: false,
                    },
                )
            } else if p.verify_checksum_required && !p.has_known_fingerprint {
                (
                    AcquisitionPipeline { state: PipelineState::Failed, ..p },
                    PipelineAction::Fail {
                        error: PipelineError::NoFingerprintOnRequiredVerify,
                        cleanup: false,
                    },
                )
            } else if spec_decide(
                p.trust_mode,
                DecisionPoint::BeforeFetch,
                spec_context(p, false, false),
            ) == Action::Prompt {
                (
                    AcquisitionPipeline { state: PipelineState::AwaitingFetchApproval, ..p },
                    PipelineAction::AskUser(DecisionPoint::BeforeFetch),
                )
            } else {
                (
                    AcquisitionPipeline {
                        state: PipelineState::Fetching,
                        workspace_created: true,
                        ..p
                    },
                    PipelineAction::RunStage(
                        StageRequest { stage: Stage::Fetch, allow_network: true },
                    ),
                )
            }
        },
        (PipelineState::AwaitingFetchApproval, PipelineEvent::PromptAnswered { yes }) => {
            if yes {
                (
                    AcquisitionPipeline {
                        state: PipelineState::Fetching,
                        workspace_created: true,
                        ..p
                    },
                    PipelineAction::RunStage(
                        StageRequest { stage: Stage::Fetch, allow_network: true },
                    ),
                )
            } else {
                (
                    AcquisitionPipeline { state: PipelineState::Cancelled, ..p },
                    PipelineAction::Cancel { cleanup: false },
                )
            }
        },
        (PipelineState::Fetching, PipelineEvent::StageCompleted { success }) => {
            if success {
                (
                    AcquisitionPipeline { state: PipelineState::CheckingOut, ..p },
                    PipelineAction::RunStage(
                        StageRequest { stage: Stage::Checkout, allow_network: false },
                    ),
                )
            } else {
                (
                    AcquisitionPipeline { state: PipelineState::Failed, ..p },
                    PipelineAction::Fail { error: PipelineError::FetchFailed, cleanup: true },
                )
            }
        },
        (PipelineState::CheckingOut, PipelineEvent::StageCompleted { success }) => {
            if success {
                (
                    AcquisitionPipeline { state: PipelineState::Verifying, ..p },
                    PipelineAction::VerifyFingerprint,
                )
            } else {
                (
                    AcquisitionPipeline { state: PipelineState::Failed, ..p },
                    PipelineAction::Fail { error: PipelineError::CheckoutFailed, cleanup: true },
                )
            }
        },
        (PipelineState::Verifying, PipelineEvent::Verified { outcome }) => {
            let p2 = AcquisitionPipeline {
                integrity_verified: outcome == VerifyOutcome::FullMatch,
                ..p
            };
            if outcome == VerifyOutcome::Mismatch && spec_decide(
                p.trust_mode,
                DecisionPoint::AfterVerificationFailed,
                spec_context(p, true, false),
            ) == Action::Prompt {
                (
                    AcquisitionPipeline { state: PipelineState::AwaitingVerifyApproval, ..p2 },
                    PipelineAction::AskUser(DecisionPoint::AfterVerificationFailed),
                )
            } else {
                (
                    AcquisitionPipeline { state: PipelineState::Scanning, ..p2 },
                    PipelineAction::RunScan,
                )
            }
        },
        (PipelineState::AwaitingVerifyApproval, PipelineEvent::PromptAnswered { yes }) => {
            if yes {
                (
                    AcquisitionPipeline { state: PipelineState::Scanning, ..p },
                    PipelineAction::RunScan,
                )
            } else {
                (
                    AcquisitionPipeline { state: PipelineState::Cancelled, ..p },
                    PipelineAction::Cancel { cleanup: true },
                )
            }
        },
        (PipelineState::Scanning, PipelineEvent::Scanned { found_issues }) => {
            if spec_decide(
                p.trust_mode,
                DecisionPoint::AfterScanFindings,
                spec_context(p, false, found_issues),
            ) == Action::Prompt {
                (
                    AcquisitionPipeline { state: PipelineState::AwaitingScanApproval, ..p },
                    PipelineAction::AskUser(DecisionPoint::AfterScanFindings),
                )
            } else {
                spec_materialize_gate(p)
            }
        },
        (PipelineState::AwaitingScanApproval, PipelineEvent::PromptAnswered { yes }) => {
            if yes {
                spec_materialize_gate(p)
            } else {
                (
                    AcquisitionPipeline { state: PipelineState::Cancelled, ..p },
                    PipelineAction::Cancel { cleanup: true },
                )
            }
        },
        (PipelineState::AwaitingMaterializeApproval, PipelineEvent::PromptAnswered { yes }) => {
            if yes {
                (
                    AcquisitionPipeline { state: PipelineState::Materializing, ..p },
                    PipelineAction::Materialize,
                )
            } else {
                // Declined: the tree stays in the workspace; the
                // acquisition is still recorded.
                (
                    AcquisitionPipeline { state: PipelineState::Done, ..p },
                    PipelineAction::RecordResult { verified: p.integrity_verified },
                )
            }
        },
        (PipelineState::Materializing, PipelineEvent::Materialized { copied: _ }) => {
            (
                AcquisitionPipeline { state: PipelineState::Done, ..p },
                PipelineAction::RecordResult { verified: p.integrity_verified },
            )
        },
        _ => (p, PipelineAction::Ignore),
    }
}

impl AcquisitionPipeline {
    /// A fresh pipeline for one acquisition.
    pub fn new(trust_mode: TrustMode, verify_checksum_required: bool, has_known_fingerprint: bool)
        -> (p: AcquisitionPipeline)
        ensures
            p == (AcquisitionPipeline {
                trust_mode,
                verify_checksum_required,
                has_known_fingerprint,
                state: PipelineState::Start,
                workspace_created: false,
                integrity_verified: false,
            }),
    {
        AcquisitionPipeline {
            trust_mode,
            verify_checksum_required,
            has_known_fingerprint,
            state: PipelineState::Start,
            workspace_created: false,
            integrity_verified: false,
        }
    }

    /// Feeds one event to the pipeline; the new state and returned
    /// action are exactly the transition relation's.
    pub fn step(&mut self, event: PipelineEvent) -> (a: PipelineAction)
        ensures
            (*final(self), a) == spec_step(*old(self), event),
    {
        let p = *self;
        let (next, action): (AcquisitionPipeline, PipelineAction) = match (p.state, event) {
            (PipelineState::Start, PipelineEvent::Begin { isolation_available }) => {
                if !isolation_available {
                    (
                        AcquisitionPipeline { state: PipelineState::Failed, ..p },
                        PipelineAction::Fail {
                            error: PipelineError::IsolationUnavailable,
                            cleanup: false,
                        },
                    )
                } else if p.verify_checksum_required && !p.has_known_fingerprint {
                    (
                        AcquisitionPipeline { state: PipelineState::Failed, ..p },
                        PipelineAction::Fail {
                            error: PipelineError::NoFingerprintOnRequiredVerify,
                            cleanup: false,
                        },
                    )
                } else {
                    let d = decide(
                        p.trust_mode,
                        DecisionPoint::BeforeFetch,
                        TrustContext {
                            has_known_fingerprint: p.has_known_fingerprint,
                            verification_failed: false,
                            scan_found_issues: false,
                        },
                    );
                    if d == Action::Prompt {
                        (
                            AcquisitionPipeline {
                                state: PipelineState::AwaitingFetchApproval,
                                ..p
                            },
                            PipelineAction::AskUser(DecisionPoint::BeforeFetch),
                        )
                    } else {
                        (
                            AcquisitionPipeline {
                                state: PipelineState::Fetching,
                                workspace_created: true,
                                ..p
                            },
                            PipelineAction::RunStage(
                                StageRequest { stage: Stage::Fetch, allow_network: true },
                            ),
                        )
                    }
                }
            },
            (PipelineState::AwaitingFetchApproval, PipelineEvent::PromptAnswered { yes }) => {
                if yes {
                    (
                        AcquisitionPipeline {
                            state: PipelineState::Fetching,
                            workspace_created: true,
                            ..p
                        },
                        PipelineAction::RunStage(
                            StageRequest { stage: Stage::Fetch, allow_network: true },
                        ),
                    )
                } else {
                    (
                        AcquisitionPipeline { state: PipelineState::Cancelled, ..p },
                        PipelineAction::Cancel { cleanup: false },
                    )
                }
            },
            (PipelineState::Fetching, PipelineEvent::StageCompleted { success }) => {
                if success {
                    (
                        AcquisitionPipeline { state: PipelineState::CheckingOut, ..p },
                        PipelineAction::RunStage(
                            StageRequest { stage: Stage::Checkout, allow_network: false },
                        ),
                    )
                } else {
                    (
                        AcquisitionPipeline { state: PipelineState::Failed, ..p },
                        PipelineAction::Fail { error: PipelineError::FetchFailed, cleanup: true },
                    )
                }
            },
            (PipelineState::CheckingOut, PipelineEvent::StageCompleted { success }) => {
                if success {
                    (
                        AcquisitionPipeline { state: PipelineState::Verifying, ..p },
                        PipelineAction::VerifyFingerprint,
                    )
                } else {
                    (
                        AcquisitionPipeline { state: PipelineState::Failed, ..p },
                        PipelineAction::Fail {
                            error: PipelineError::CheckoutFailed,
                            cleanup: true,
                        },
                    )
                }
            },
            (PipelineState::Verifying, PipelineEvent::Verified { outcome }) => {
                let p2 = AcquisitionPipeline {
                    integrity_verified: outcome == VerifyOutcome::FullMatch,
                    ..p
                };
                let failed = outcome == VerifyOutcome::Mismatch;
                let d = decide(
                    p.trust_mode,
                    DecisionPoint::AfterVerificationFailed,
                    TrustContext {
                        has_known_fingerprint: p.has_known_fingerprint,
                        verification_failed: true,
                        scan_found_issues: false,
                    },
                );
                if failed && d == Action::Prompt {
                    (
                        AcquisitionPipeline { state: PipelineState::AwaitingVerifyApproval, ..p2 },
                        PipelineAction::AskUser(DecisionPoint::AfterVerificationFailed),
                    )
                } else {
                    (
                        AcquisitionPipeline { state: PipelineState::Scanning, ..p2 },
                        PipelineAction::RunScan,
                    )
                }
            },
            (PipelineState::AwaitingVerifyApproval, PipelineEvent::PromptAnswered { yes }) => {
                if yes {
                    (
                        AcquisitionPipeline { state: PipelineState::Scanning, ..p },
                        PipelineAction::RunScan,
                    )
                } else {
                    (
                        AcquisitionPipeline { state: PipelineState::Cancelled, ..p },
                        PipelineAction::Cancel { cleanup: true },
                    )
                }
            },
            (PipelineState::Scanning, PipelineEvent::Scanned { found_issues }) => {
                let d = decide(
                    p.trust_mode,
                    DecisionPoint::AfterScanFindings,
                    TrustContext {
                        has_known_fingerprint: p.has_known_fingerprint,
                        verification_failed: false,
                        scan_found_issues: found_issues,
                    },
                );
                if d == Action::Prompt {
                    (
                        AcquisitionPipeline { state: PipelineState::AwaitingScanApproval, ..p },
                        PipelineAction::AskUser(DecisionPoint::AfterScanFindings),
                    )
                } else {
                    Self::materialize_gate(p)
                }
            },
            (PipelineState::AwaitingScanApproval, PipelineEvent::PromptAnswered { yes }) => {
                if yes {
                    Self::materialize_gate(p)
                } else {
                    (
                        AcquisitionPipeline { state: PipelineState::Cancelled, ..p },
                        PipelineAction::Cancel { cleanup: true },
                    )
                }
            },
            (
                PipelineState::AwaitingMaterializeApproval,
                PipelineEvent::PromptAnswered { yes },
            ) => {
                if yes {
                    (
                        AcquisitionPipeline { state: PipelineState::Materializing, ..p },
                        PipelineAction::Materialize,
                    )
                } else {
                    (
                        AcquisitionPipeline { state: PipelineState::Done, ..p },
                        PipelineAction::RecordResult { verified: p.integrity_verified },
                    )
                }
            },
            (PipelineState::Materializing, PipelineEvent::Materialized { copied: _ }) => {
                (
                    AcquisitionPipeline { state: PipelineState::Done, ..p },
                    PipelineAction::RecordResult { verified: p.integrity_verified },
                )
            },
            _ => (p, PipelineAction::Ignore),
        };
        *self = next;
        action
    }

    /// The materialize gate, shared by the two ways of leaving the
    /// scan gate.
    fn materialize_gate(p: AcquisitionPipeline) -> (r: (AcquisitionPipeline, PipelineAction))
        ensures
            r == spec_materialize_gate(p),
    {
        let d = decide(
            p.trust_mode,
            DecisionPoint::BeforeMaterialize,
            TrustContext {
                has_known_fingerprint: p.has_known_fingerprint,
                verification_failed: false,
                scan_found_issues: false,
            },
        );
        if d == Action::Prompt {
            (
                AcquisitionPipeline { state: PipelineState::AwaitingMaterializeApproval, ..p },
                PipelineAction::AskUser(DecisionPoint::BeforeMaterialize),
            )
        } else {
            (
                AcquisitionPipeline { state: PipelineState::Materializing, ..p },
                PipelineAction::Materialize,
            )
        }
    }
}

/// The version-control arguments of each stage: a no-checkout clone of
/// the source, and a forced checkout of the fetched revision.
pub fn stage_git_args(stage: Stage, repo_url: &String) -> (r: Vec<String>)
    ensures
        stage == Stage::Fetch ==> r@.len() == 3 && r@[0]@ == ("clone")@ && r@[1]@ == (
        "--no-checkout")@ && r@[2]@ == repo_url@,
        stage == Stage::Checkout ==> r@.len() == 3 && r@[0]@ == ("checkout")@ && r@[1]@ == (
        "--force")@ && r@[2]@ == ("HEAD")@,
{
    let mut out: Vec<String> = Vec::new();
    match stage {
        Stage::Fetch => {
            out.push(String::from_str("clone"));
            out.push(String::from_str("--no-checkout"));
            out.push(repo_url.clone());
        },
        Stage::Checkout => {
            out.push(String::from_str("checkout"));
            out.push(String::from_str("--force"));
            out.push(String::from_str("HEAD"));
        },
    }
    out
}

/// Whether an action asks the caller to run a sandboxed stage.
pub open spec fn is_stage_request(a: PipelineAction) -> bool {
    match a {
        PipelineAction::RunStage(_) => true,
        _ => false,
    }
}

/// The workspace flag agrees with the state: nothing is created before
/// the fetch stage is requested, and everything after fetch has it.
pub open spec fn workspace_consistent(p: AcquisitionPipeline) -> bool {
    match p.state {
        PipelineState::Start => !p.workspace_created,
        PipelineState::AwaitingFetchApproval => !p.workspace_created,
        PipelineState::Fetching => p.workspace_created,
        PipelineState::CheckingOut => p.workspace_created,
        PipelineState::Verifying => p.workspace_created,
        PipelineState::AwaitingVerifyApproval => p.workspace_created,
        PipelineState::Scanning => p.workspace_created,
        PipelineState::AwaitingScanApproval => p.workspace_created,
        PipelineState::AwaitingMaterializeApproval => p.workspace_created,
        PipelineState::Materializing => p.workspace_created,
        PipelineState::Done => true,
        PipelineState::Cancelled => true,
        PipelineState::Failed => true,
    }
}

/// Every stage the pipeline ever requests carries the right network
/// profile: the fetch stage runs with network access, the checkout
/// stage — the one that materializes untrusted content — never does.
pub proof fn lemma_stage_network_profile(p: AcquisitionPipeline, event: PipelineEvent)
    ensures
        match spec_step(p, event).1 {
            PipelineAction::RunStage(r) => (r.stage == Stage::Checkout ==> !r.allow_network) && (
            r.stage == Stage::Fetch ==> r.allow_network),
            _ => true,
        },
{
}

/// When verification is demanded and no fingerprint is known, the
/// pipeline fails fast with `NoFingerprintOnRequiredVerify` (or with
/// `IsolationUnavailable` at the earlier pre-flight check), before any
/// sandboxed stage is requested and with no workspace to clean up.
pub proof fn lemma_required_verify_fails_fast(p: AcquisitionPipeline, avail: bool)
    requires
        p.state == PipelineState::Start,
        p.verify_checksum_required,
        !p.has_known_fingerprint,
    ensures
        forall|e: PipelineEvent| !is_stage_request(spec_step(p, e).1),
        spec_step(p, PipelineEvent::Begin { isolation_available: avail }).1 == (if avail {
            PipelineAction::Fail {
                error: PipelineError::NoFingerprintOnRequiredVerify,
                cleanup: false,
            }
        } else {
            PipelineAction::Fail { error: PipelineError::IsolationUnavailable, cleanup: false }
        }),
        spec_step(p, PipelineEvent::Begin { isolation_available: avail }).0.state
            == PipelineState::Failed,
{
}

/// The stopped states are terminal: no event moves the pipeline out of
/// `Done`, `Cancelled` or `Failed`, and nothing more is requested.
pub proof fn lemma_terminal_states(p: AcquisitionPipeline, event: PipelineEvent)
    requires
        p.state == PipelineState::Done || p.state == PipelineState::Cancelled || p.state
            == PipelineState::Failed,
    ensures
        spec_step(p, event) == (p, PipelineAction::Ignore),
{
}

/// Every stop order carries the right cleanup directive: the workspace
/// is removed exactly when one was created, so no failing or cancelled
/// acquisition leaves a half-checked-out tree behind, and the
/// pre-flight failures clean nothing (nothing exists yet).
pub proof fn lemma_cleanup_matches_workspace(p: AcquisitionPipeline, event: PipelineEvent)
    requires
        workspace_consistent(p),
    ensures
        workspace_consistent(spec_step(p, event).0),
        match spec_step(p, event).1 {
            PipelineAction::Fail { error: _, cleanup } => cleanup == p.workspace_created,
            PipelineAction::Cancel { cleanup } => cleanup == p.workspace_created,
            _ => true,
        },
{
}

/// In yolo mode the pipeline never asks the user anything.
pub proof fn lemma_yolo_pipeline_never_prompts(p: AcquisitionPipeline, event: PipelineEvent)
    requires
        p.trust_mode == TrustMode::Yolo,
    ensures
        match spec_step(p, event).1 {
            PipelineAction::AskUser(_) => false,
            _ => true,
        },
{
}

/// The recorded verification status is honest: what `RecordResult`
/// reports is the pipeline's verification flag, and that flag is set
/// exactly when verification fully matched — never when it was skipped
/// or failed.
pub proof fn lemma_records_verification_honestly(
    p: AcquisitionPipeline,
    event: PipelineEvent,
    outcome: VerifyOutcome,
)
    ensures
        match spec_step(p, event).1 {
            PipelineAction::RecordResult { verified } => verified == spec_step(
                p,
                event,
            ).0.integrity_verified,
            _ => true,
        },
        p.state == PipelineState::Verifying ==> spec_step(
            p,
            PipelineEvent::Verified { outcome },
        ).0.integrity_verified == (outcome == VerifyOutcome::FullMatch),
{
}

} // verus!
