//! The trust-decision policy: a pure function from trust mode and the
//! boolean facts at a gate to the action the pipeline must take there.
//!
//! The mode governs prompting density only; it never governs whether
//! isolation is used.

use vstd::prelude::*;

verus! {

/// User-selected trust mode, supplied per invocation.
#[derive(Clone, Copy, Debug, PartialEq, Eq, Structural)]
pub enum TrustMode {
    Paranoid,
    Normal,
    Yolo,
}

/// The gates at which the policy is consulted.
#[derive(Clone, Copy, Debug, PartialEq, Eq, Structural)]
pub enum DecisionPoint {
    BeforeFetch,
    AfterVerificationFailed,
    AfterScanFindings,
    BeforeMaterialize,
}

/// The facts relevant to a decision.
#[derive(Clone, Copy, Debug, PartialEq, Eq, Structural)]
pub struct TrustContext {
    pub has_known_fingerprint: bool,
    pub verification_failed: bool,
    pub scan_found_issues: bool,
}

/// What the pipeline does at a gate.
#[derive(Clone, Copy, Debug, PartialEq, Eq, Structural)]
pub enum Action {
    Proceed,
    Prompt,
    Abort,
}

/// A gate is live — a prompt could be owed there — when the fact it
/// guards actually holds: verification really failed, the scan really
/// found something.  The fetch and materialize gates are always live.
pub open spec fn prompt_eligible(point: DecisionPoint, ctx: TrustContext) -> bool {
    match point {
        DecisionPoint::BeforeFetch => true,
        DecisionPoint::AfterVerificationFailed => ctx.verification_failed,
        DecisionPoint::AfterScanFindings => ctx.scan_found_issues,
        DecisionPoint::BeforeMaterialize => true,
    }
}

/// The decision table.
///
/// | gate                  | Paranoid | Normal                      | Yolo    |
/// |-----------------------|----------|-----------------------------|---------|
/// | before fetch          | Prompt   | Prompt if no known          | Proceed |
/// |                       |          | fingerprint, else Proceed   |         |
/// | verification failed   | Prompt   | Prompt                      | Proceed |
/// | scan found issues     | Prompt   | Proceed (surfaced only)     | Proceed |
/// | before materializing  | Prompt   | Proceed                     | Proceed |
///
/// A gate that is not live yields `Proceed`.
pub open spec fn spec_decide(mode: TrustMode, point: DecisionPoint, ctx: TrustContext) -> Action {
    if !prompt_eligible(point, ctx) {
        Action::Proceed
    } else {
        match point {
            DecisionPoint::BeforeFetch => match mode {
                TrustMode::Paranoid => Action::Prompt,
                TrustMode::Normal => if ctx.has_known_fingerprint {
                    Action::Proceed
                } else {
                    Action::Prompt
                },
                TrustMode::Yolo => Action::Proceed,
            },
            DecisionPoint::AfterVerificationFailed => match mode {
                TrustMode::Paranoid => Action::Prompt,
                TrustMode::Normal => Action::Prompt,
                TrustMode::Yolo => Action::Proceed,
            },
            DecisionPoint::AfterScanFindings => match mode {
                TrustMode::Paranoid => Action::Prompt,
                TrustMode::Normal => Action::Proceed,
                TrustMode::Yolo => Action::Proceed,
            },
            DecisionPoint::BeforeMaterialize => match mode {
                TrustMode::Paranoid => Action::Prompt,
                TrustMode::Normal => Action::Proceed,
                TrustMode::Yolo => Action::Proceed,
            },
        }
    }
}

/// Decides the action at a gate; exactly the decision table.
pub fn decide(mode: TrustMode, point: DecisionPoint, ctx: TrustContext) -> (a: Action)
    ensures
        a == spec_decide(mode, point, ctx),
{
    let live = match point {
        DecisionPoint::BeforeFetch => true,
        DecisionPoint::AfterVerificationFailed => ctx.verification_failed,
        DecisionPoint::AfterScanFindings => ctx.scan_found_issues,
        DecisionPoint::BeforeMaterialize => true,
    };
    if !live {
        return Action::Proceed;
    }
    match mode {
        TrustMode::Paranoid => Action::Prompt,
        TrustMode::Yolo => Action::Proceed,
        TrustMode::Normal => match point {
            DecisionPoint::BeforeFetch => if ctx.has_known_fingerprint {
                Action::Proceed
            } else {
                Action::Prompt
            },
            DecisionPoint::AfterVerificationFailed => Action::Prompt,
            DecisionPoint::AfterScanFindings => Action::Proceed,
            DecisionPoint::BeforeMaterialize => Action::Proceed,
        },
    }
}

/// In paranoid mode, every live gate prompts: the pipeline never
/// proceeds at a prompt-eligible decision point without having offered
/// a prompt first.
pub proof fn lemma_paranoid_always_prompts(point: DecisionPoint, ctx: TrustContext)
    requires
        prompt_eligible(point, ctx),
    ensures
        spec_decide(TrustMode::Paranoid, point, ctx) == Action::Prompt,
{
}

/// In yolo mode, no gate ever prompts.
pub proof fn lemma_yolo_never_prompts(point: DecisionPoint, ctx: TrustContext)
    ensures
        spec_decide(TrustMode::Yolo, point, ctx) != Action::Prompt,
{
}

/// The policy by itself never aborts: an abort only ever follows from a
/// declined prompt or from a failed hard precondition.
pub proof fn lemma_decide_never_aborts(mode: TrustMode, point: DecisionPoint, ctx: TrustContext)
    ensures
        spec_decide(mode, point, ctx) != Action::Abort,
{
}

} // verus!
