use gitfetch::policy::{TrustMode, DecisionPoint, TrustContext, Action, decide};
use gitfetch::pipeline::{AcquisitionPipeline, PipelineAction, PipelineError, PipelineEvent,
    PipelineState, Stage, StageRequest, VerifyOutcome, stage_git_args};

fn ctx(fp: bool, vf: bool, scan: bool) -> TrustContext {
    TrustContext { has_known_fingerprint: fp, verification_failed: vf, scan_found_issues: scan }
}

#[test]
fn paranoid_prompts_at_every_live_gate() {
    for fp in [false, true] {
        assert_eq!(
            decide(TrustMode::Paranoid, DecisionPoint::BeforeFetch, ctx(fp, false, false)),
            Action::Prompt
        );
        assert_eq!(
            decide(TrustMode::Paranoid, DecisionPoint::AfterVerificationFailed, ctx(fp, true, false)),
            Action::Prompt
        );
        assert_eq!(
            decide(TrustMode::Paranoid, DecisionPoint::AfterScanFindings, ctx(fp, false, true)),
            Action::Prompt
        );
        assert_eq!(
            decide(TrustMode::Paranoid, DecisionPoint::BeforeMaterialize, ctx(fp, false, false)),
            Action::Prompt
        );
    }
}

#[test]
fn yolo_never_prompts() {
    for point in [
        DecisionPoint::BeforeFetch,
        DecisionPoint::AfterVerificationFailed,
        DecisionPoint::AfterScanFindings,
        DecisionPoint::BeforeMaterialize,
    ] {
        for fp in [false, true] {
            for vf in [false, true] {
                for scan in [false, true] {
                    assert_ne!(decide(TrustMode::Yolo, point, ctx(fp, vf, scan)), Action::Prompt);
                }
            }
        }
    }
}

#[test]
fn normal_mode_follows_the_table() {
    // Before fetch: prompt only without a known fingerprint.
    assert_eq!(
        decide(TrustMode::Normal, DecisionPoint::BeforeFetch, ctx(false, false, false)),
        Action::Prompt
    );
    assert_eq!(
        decide(TrustMode::Normal, DecisionPoint::BeforeFetch, ctx(true, false, false)),
        Action::Proceed
    );
    // Verification failure prompts.
    assert_eq!(
        decide(TrustMode::Normal, DecisionPoint::AfterVerificationFailed, ctx(true, true, false)),
        Action::Prompt
    );
    // Scan findings are surfaced, not gated.
    assert_eq!(
        decide(TrustMode::Normal, DecisionPoint::AfterScanFindings, ctx(true, false, true)),
        Action::Proceed
    );
    // Materializing proceeds.
    assert_eq!(
        decide(TrustMode::Normal, DecisionPoint::BeforeMaterialize, ctx(true, false, false)),
        Action::Proceed
    );
}

#[test]
fn gates_that_are_not_live_proceed() {
    assert_eq!(
        decide(TrustMode::Paranoid, DecisionPoint::AfterVerificationFailed, ctx(true, false, false)),
        Action::Proceed
    );
    assert_eq!(
        decide(TrustMode::Paranoid, DecisionPoint::AfterScanFindings, ctx(true, false, false)),
        Action::Proceed
    );
}

#[test]
fn required_verify_without_fingerprint_aborts_before_any_stage() {
    let mut p = AcquisitionPipeline::new(TrustMode::Normal, true, false);
    let a = p.step(PipelineEvent::Begin { isolation_available: true });
    assert_eq!(
        a,
        PipelineAction::Fail {
            error: PipelineError::NoFingerprintOnRequiredVerify,
            cleanup: false
        }
    );
    assert_eq!(p.state, PipelineState::Failed);
    // The pipeline is finished: nothing further is ever requested.
    let again = p.step(PipelineEvent::StageCompleted { success: true });
    assert_eq!(again, PipelineAction::Ignore);
}

#[test]
fn missing_isolation_mechanism_is_fatal_preflight() {
    let mut p = AcquisitionPipeline::new(TrustMode::Yolo, false, false);
    let a = p.step(PipelineEvent::Begin { isolation_available: false });
    assert_eq!(
        a,
        PipelineAction::Fail { error: PipelineError::IsolationUnavailable, cleanup: false }
    );
    assert_eq!(p.state, PipelineState::Failed);
}

#[test]
fn checkout_stage_runs_with_network_disabled() {
    // A fake executor records the network flag of each requested stage.
    let mut p = AcquisitionPipeline::new(TrustMode::Normal, false, true);
    let mut stages: Vec<StageRequest> = Vec::new();
    let a = p.step(PipelineEvent::Begin { isolation_available: true });
    match a {
        PipelineAction::RunStage(r) => stages.push(r),
        other => panic!("expected a stage request, got {:?}", other),
    }
    let a = p.step(PipelineEvent::StageCompleted { success: true });
    match a {
        PipelineAction::RunStage(r) => stages.push(r),
        other => panic!("expected a stage request, got {:?}", other),
    }
    assert_eq!(stages.len(), 2);
    assert_eq!(stages[0].stage, Stage::Fetch);
    assert!(stages[0].allow_network);
    assert_eq!(stages[1].stage, Stage::Checkout);
    assert!(!stages[1].allow_network);
}

#[test]
fn full_run_records_verified_acquisition() {
    let mut p = AcquisitionPipeline::new(TrustMode::Normal, false, true);
    assert_eq!(
        p.step(PipelineEvent::Begin { isolation_available: true }),
        PipelineAction::RunStage(StageRequest { stage: Stage::Fetch, allow_network: true })
    );
    assert_eq!(
        p.step(PipelineEvent::StageCompleted { success: true }),
        PipelineAction::RunStage(StageRequest { stage: Stage::Checkout, allow_network: false })
    );
    assert_eq!(
        p.step(PipelineEvent::StageCompleted { success: true }),
        PipelineAction::VerifyFingerprint
    );
    assert_eq!(
        p.step(PipelineEvent::Verified { outcome: VerifyOutcome::FullMatch }),
        PipelineAction::RunScan
    );
    assert_eq!(
        p.step(PipelineEvent::Scanned { found_issues: false }),
        PipelineAction::Materialize
    );
    assert_eq!(
        p.step(PipelineEvent::Materialized { copied: true }),
        PipelineAction::RecordResult { verified: true }
    );
    assert_eq!(p.state, PipelineState::Done);
}

#[test]
fn failed_verification_is_recorded_unverified_in_yolo() {
    let mut p = AcquisitionPipeline::new(TrustMode::Yolo, false, true);
    p.step(PipelineEvent::Begin { isolation_available: true });
    p.step(PipelineEvent::StageCompleted { success: true });
    p.step(PipelineEvent::StageCompleted { success: true });
    // Yolo proceeds without a prompt even on a mismatch.
    assert_eq!(
        p.step(PipelineEvent::Verified { outcome: VerifyOutcome::Mismatch }),
        PipelineAction::RunScan
    );
    assert_eq!(
        p.step(PipelineEvent::Scanned { found_issues: true }),
        PipelineAction::Materialize
    );
    assert_eq!(
        p.step(PipelineEvent::Materialized { copied: true }),
        PipelineAction::RecordResult { verified: false }
    );
}

#[test]
fn fetch_failure_cleans_up_the_workspace() {
    let mut p = AcquisitionPipeline::new(TrustMode::Normal, false, true);
    p.step(PipelineEvent::Begin { isolation_available: true });
    assert_eq!(
        p.step(PipelineEvent::StageCompleted { success: false }),
        PipelineAction::Fail { error: PipelineError::FetchFailed, cleanup: true }
    );
}

#[test]
fn checkout_failure_cleans_up_the_workspace() {
    let mut p = AcquisitionPipeline::new(TrustMode::Normal, false, true);
    p.step(PipelineEvent::Begin { isolation_available: true });
    p.step(PipelineEvent::StageCompleted { success: true });
    assert_eq!(
        p.step(PipelineEvent::StageCompleted { success: false }),
        PipelineAction::Fail { error: PipelineError::CheckoutFailed, cleanup: true }
    );
}

#[test]
fn declined_fetch_prompt_cancels_without_cleanup() {
    let mut p = AcquisitionPipeline::new(TrustMode::Paranoid, false, true);
    assert_eq!(
        p.step(PipelineEvent::Begin { isolation_available: true }),
        PipelineAction::AskUser(DecisionPoint::BeforeFetch)
    );
    assert_eq!(
        p.step(PipelineEvent::PromptAnswered { yes: false }),
        PipelineAction::Cancel { cleanup: false }
    );
    assert_eq!(p.state, PipelineState::Cancelled);
}

#[test]
fn paranoid_walks_every_gate() {
    let mut p = AcquisitionPipeline::new(TrustMode::Paranoid, false, true);
    assert_eq!(
        p.step(PipelineEvent::Begin { isolation_available: true }),
        PipelineAction::AskUser(DecisionPoint::BeforeFetch)
    );
    assert_eq!(
        p.step(PipelineEvent::PromptAnswered { yes: true }),
        PipelineAction::RunStage(StageRequest { stage: Stage::Fetch, allow_network: true })
    );
    p.step(PipelineEvent::StageCompleted { success: true });
    p.step(PipelineEvent::StageCompleted { success: true });
    assert_eq!(
        p.step(PipelineEvent::Verified { outcome: VerifyOutcome::Mismatch }),
        PipelineAction::AskUser(DecisionPoint::AfterVerificationFailed)
    );
    assert_eq!(p.step(PipelineEvent::PromptAnswered { yes: true }), PipelineAction::RunScan);
    assert_eq!(
        p.step(PipelineEvent::Scanned { found_issues: true }),
        PipelineAction::AskUser(DecisionPoint::AfterScanFindings)
    );
    assert_eq!(
        p.step(PipelineEvent::PromptAnswered { yes: true }),
        PipelineAction::AskUser(DecisionPoint::BeforeMaterialize)
    );
    // Declining the copy still records the acquisition, unverified.
    assert_eq!(
        p.step(PipelineEvent::PromptAnswered { yes: false }),
        PipelineAction::RecordResult { verified: false }
    );
    assert_eq!(p.state, PipelineState::Done);
}

#[test]
fn declined_scan_prompt_cancels_with_cleanup() {
    let mut p = AcquisitionPipeline::new(TrustMode::Paranoid, false, true);
    p.step(PipelineEvent::Begin { isolation_available: true });
    p.step(PipelineEvent::PromptAnswered { yes: true });
    p.step(PipelineEvent::StageCompleted { success: true });
    p.step(PipelineEvent::StageCompleted { success: true });
    p.step(PipelineEvent::Verified { outcome: VerifyOutcome::FullMatch });
    p.step(PipelineEvent::Scanned { found_issues: true });
    assert_eq!(
        p.step(PipelineEvent::PromptAnswered { yes: false }),
        PipelineAction::Cancel { cleanup: true }
    );
}

#[test]
fn stage_arguments_match_the_protocol() {
    let url = "https://github.com/a/b".to_string();
    let fetch = stage_git_args(Stage::Fetch, &url);
    assert_eq!(fetch, vec!["clone".to_string(), "--no-checkout".to_string(), url.clone()]);
    let checkout = stage_git_args(Stage::Checkout, &url);
    assert_eq!(checkout, vec!["checkout".to_string(), "--force".to_string(), "HEAD".to_string()]);
}
