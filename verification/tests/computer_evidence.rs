use maestro::acceptance::{
    CodingAcceptanceContract, CodingCommandResult, CodingCompletionSubmission, CodingOutputFile,
};
use maestro::computer::{
    CodingWorkspaceBaselineKind, CodingWorkspaceOutput, CodingWorkspaceReadiness,
    CodingWorkspaceRequest, CodingWorkspaceResponse, ComputerCodingProof, CODING_WORKSPACE_SCHEMA,
};
use maestro::computer_evidence::{
    validate_computer_completion, ComputerCodingEvidence, ComputerCodingExecution,
    ComputerCodingFence,
};
use sha2::{Digest, Sha256};

const DIGEST: &str = "contract-digest";

fn base_fixture() -> (CodingAcceptanceContract, CodingCompletionSubmission) {
    let contract = CodingAcceptanceContract {
        task_id: "task".into(),
        repository_id: "project".into(),
        generation: 1,
        required_assertion_ids: vec!["works".into()],
        require_review: true,
        require_behavior: true,
        readiness_requirements: vec!["test".into()],
        output_paths: vec![],
        authorized_dispositions: vec![],
    };
    let submission = CodingCompletionSubmission {
        task_id: "task".into(),
        work_id: "work".into(),
        repository_id: "project".into(),
        contract_digest: DIGEST.into(),
        generation: 1,
        revision: "a".repeat(40),
        implementation_session_id: "session".into(),
        commands: vec![CodingCommandResult {
            command: "cargo test".into(),
            exit_code: Some(0),
            evidence_refs: vec![],
        }],
        readiness: vec![],
        review: None,
        behavior: None,
        handoff_items: vec![],
        outputs: vec![],
        computer_proof: None,
    };
    (contract, submission)
}

fn fixture() -> (
    ComputerCodingEvidence,
    ComputerCodingProof,
    CodingAcceptanceContract,
    CodingCompletionSubmission,
) {
    let (mut contract, mut submission) = base_fixture();
    contract.output_paths = vec!["answer.py".into()];
    submission.contract_digest = DIGEST.into();
    submission.outputs = vec![CodingOutputFile {
        path: "answer.py".into(),
        content: "answer\n".into(),
    }];
    submission.commands[0].evidence_refs = vec!["receipt:tool-execution:ready".into()];
    let base = "b".repeat(40);
    let revision = submission.revision.clone();
    let response = |id: &str| CodingWorkspaceResponse {
        owner_lease_epoch: 1,
        schema: CODING_WORKSPACE_SCHEMA.into(),
        project_resource_id: "project".into(),
        accepted_snapshot_id: "snapshot".into(),
        source_workspace_id: "source".into(),
        task_computer_id: "computer".into(),
        run_id: "maestro-run".into(),
        tool_execution_id: id.into(),
        base_revision: base.clone(),
        revision: revision.clone(),
        baseline_kind: CodingWorkspaceBaselineKind::AcceptedSnapshot,
        clean: true,
        readiness: None,
        outputs: vec![],
    };
    let mut baseline = response("baseline");
    baseline.revision = base.clone();
    let mut readiness = response("ready");
    readiness.readiness = Some(CodingWorkspaceReadiness {
        command: "cargo test".into(),
        revision_before: revision.clone(),
        revision_after: revision.clone(),
        exit_code: 0,
        stdout: "passed".into(),
        stderr: String::new(),
        truncated: false,
        timed_out: false,
    });
    let mut outputs = response("outputs");
    outputs.outputs = vec![CodingWorkspaceOutput {
        path: "answer.py".into(),
        content: "answer\n".into(),
        sha256: format!("{:x}", Sha256::digest(b"answer\n")),
        git_blob_id: "c".repeat(40),
    }];
    let evidence = ComputerCodingEvidence {
        fence: ComputerCodingFence {
            organization_id: "org-1".into(),
            workspace_id: "workspace-1".into(),
            actor_id: "actor".into(),
            work_id: submission.work_id.clone(),
            runtime_run_id: "runtime".into(),
            maestro_run_id: "maestro-run".into(),
            maestro_session_id: submission.implementation_session_id.clone(),
            session_epoch: 1,
            runtime_generation: 1,
            task_id: "task".into(),
            task_computer_id: "computer".into(),
            project_resource_id: "project".into(),
            accepted_snapshot_id: "snapshot".into(),
            source_workspace_id: "source".into(),
        },
        executions: vec![
            ComputerCodingExecution {
                request: CodingWorkspaceRequest::Baseline {
                    idempotency_key: "baseline-key".into(),
                },
                response: baseline,
            },
            ComputerCodingExecution {
                request: CodingWorkspaceRequest::Inspect {
                    expected_base_revision: base.clone(),
                },
                response: response("inspection"),
            },
            ComputerCodingExecution {
                request: CodingWorkspaceRequest::Readiness {
                    idempotency_key: "ready-key".into(),
                    expected_revision: revision.clone(),
                    command: "cargo test".into(),
                    timeout_ms: 5000,
                },
                response: readiness,
            },
            ComputerCodingExecution {
                request: CodingWorkspaceRequest::Outputs {
                    expected_base_revision: base,
                    expected_revision: revision,
                    paths: vec!["answer.py".into()],
                },
                response: outputs,
            },
        ],
    };
    let proof = ComputerCodingProof {
        baseline_execution_id: "baseline".into(),
        inspection_execution_id: "inspection".into(),
        outputs_execution_id: Some("outputs".into()),
        readiness_execution_ids: vec!["ready".into()],
    };
    (evidence, proof, contract, submission)
}

#[test]
fn computer_completion_requires_exact_owner_bytes_commands_and_scope() {
    let (evidence, proof, contract, submission) = fixture();
    assert!(validate_computer_completion(&evidence, &proof, &contract, DIGEST, &submission).is_ok());
    let mut wrong = submission.clone();
    wrong.outputs[0].content = "forged\n".into();
    assert!(validate_computer_completion(&evidence, &proof, &contract, DIGEST, &wrong).is_err());
    let mut wrong = submission.clone();
    wrong.commands[0].evidence_refs = vec!["unrelated-receipt".into()];
    assert!(validate_computer_completion(&evidence, &proof, &contract, DIGEST, &wrong).is_err());
    let mut wrong = submission.clone();
    wrong.implementation_session_id = "other-session".into();
    assert!(validate_computer_completion(&evidence, &proof, &contract, DIGEST, &wrong).is_err());
    let mut wrong = evidence.clone();
    wrong.executions[3].response.accepted_snapshot_id = "other-snapshot".into();
    assert!(validate_computer_completion(&wrong, &proof, &contract, DIGEST, &submission).is_err());
    let mut wrong = evidence.clone();
    wrong.executions[2].response.readiness.as_mut().unwrap().timed_out = true;
    assert!(validate_computer_completion(&wrong, &proof, &contract, DIGEST, &submission).is_err());
    let mut wrong = evidence.clone();
    wrong.executions[0].response.owner_lease_epoch += 1;
    assert!(validate_computer_completion(&wrong, &proof, &contract, DIGEST, &submission).is_err());
    let mut wrong = proof.clone();
    wrong.readiness_execution_ids.clear();
    assert!(validate_computer_completion(&evidence, &wrong, &contract, DIGEST, &submission).is_err());
}

#[test]
fn computer_owner_evidence_replay_cannot_replace_first_result() {
    let (mut evidence, _, _, _) = fixture();
    let last = evidence.executions.last().unwrap().clone();
    assert!(!evidence.record(last.clone()).unwrap());
    let mut wrong = last;
    wrong.response.outputs[0].git_blob_id = "d".repeat(40);
    assert!(evidence.record(wrong).is_err());
}

#[test]
fn completion_errors_name_the_failing_check() {
    let (evidence, proof, contract, submission) = fixture();
    let check = |e: &ComputerCodingEvidence, p: &ComputerCodingProof, s: &CodingCompletionSubmission| {
        validate_computer_completion(e, p, &contract, DIGEST, s)
    };
    assert_eq!(
        validate_computer_completion(&evidence, &proof, &contract, "other-digest", &submission),
        Err("coding Computer completion does not match its owner fence")
    );
    let mut wrong = evidence.clone();
    wrong.executions.push(wrong.executions[1].clone());
    assert_eq!(
        check(&wrong, &proof, &submission),
        Err("coding Computer execution does not match admitted source")
    );
    let mut wrong = proof.clone();
    wrong.readiness_execution_ids = vec!["inspection".into()];
    assert_eq!(
        check(&evidence, &wrong, &submission),
        Err("coding Computer proof repeats or omits execution identities")
    );
    let mut wrong = proof.clone();
    wrong.baseline_execution_id = "absent".into();
    assert_eq!(check(&evidence, &wrong, &submission), Err("missing coding baseline execution"));
    let mut wrong = proof.clone();
    wrong.inspection_execution_id = "absent".into();
    assert_eq!(check(&evidence, &wrong, &submission), Err("missing coding inspection execution"));
    let mut wrong = submission.clone();
    wrong.revision = "e".repeat(40);
    assert_eq!(
        check(&evidence, &proof, &wrong),
        Err("coding Computer revision is not the inspected admitted revision")
    );
    let mut wrong = proof.clone();
    wrong.outputs_execution_id = None;
    assert_eq!(check(&evidence, &wrong, &submission), Err("missing coding output execution"));
    let mut wrong = proof.clone();
    wrong.outputs_execution_id = Some("absent".into());
    assert_eq!(check(&evidence, &wrong, &submission), Err("unknown coding output execution"));
    let mut wrong = submission.clone();
    wrong.outputs.push(wrong.outputs[0].clone());
    assert_eq!(
        check(&evidence, &proof, &wrong),
        Err("coding Computer output bytes do not match the owner capture")
    );
    let mut wrong = submission.clone();
    wrong.commands.clear();
    let mut wrong_proof = proof.clone();
    wrong_proof.readiness_execution_ids.clear();
    assert_eq!(
        check(&evidence, &wrong_proof, &wrong),
        Err("coding Computer command proof is incomplete")
    );
    let mut wrong = proof.clone();
    wrong.readiness_execution_ids = vec!["absent".into()];
    assert_eq!(check(&evidence, &wrong, &submission), Err("unknown coding readiness execution"));
    let mut wrong = submission.clone();
    wrong.commands[0].exit_code = None;
    assert_eq!(
        check(&evidence, &proof, &wrong),
        Err("coding Computer readiness is not a successful owner execution")
    );
}

#[test]
fn no_output_contract_rejects_unrequested_outputs() {
    let (evidence, mut proof, mut contract, mut submission) = fixture();
    contract.output_paths.clear();
    assert_eq!(
        validate_computer_completion(&evidence, &proof, &contract, DIGEST, &submission),
        Err("unrequested coding Computer output")
    );
    proof.outputs_execution_id = None;
    submission.outputs.clear();
    assert_eq!(validate_computer_completion(&evidence, &proof, &contract, DIGEST, &submission), Ok(()));
}

#[test]
fn recording_appends_new_results_and_refuses_strangers() {
    let (mut evidence, _, _, _) = fixture();
    let mut fresh = evidence.executions[2].clone();
    fresh.response.tool_execution_id = "ready-again".into();
    assert_eq!(evidence.record(fresh.clone()), Ok(true));
    assert_eq!(evidence.executions.len(), 5);
    assert_eq!(evidence.record(fresh.clone()), Ok(false));
    assert_eq!(evidence.executions.len(), 5);
    let mut stranger = fresh.clone();
    stranger.response.tool_execution_id = "stranger".into();
    stranger.response.run_id = "other-run".into();
    assert_eq!(
        evidence.record(stranger),
        Err("coding Computer result belongs to a different task or source")
    );
    let mut invalid = fresh;
    invalid.response.owner_lease_epoch = 0;
    assert_eq!(evidence.record(invalid), Err("invalid coding workspace identity"));
    assert_eq!(evidence.executions.len(), 5);
}

#[test]
fn recording_stops_at_the_evidence_limit() {
    let (mut evidence, _, _, _) = fixture();
    let template = evidence.executions[2].clone();
    let mut n = 0;
    while evidence.executions.len() < 32 {
        let mut next = template.clone();
        next.response.tool_execution_id = format!("ready-{n}");
        assert_eq!(evidence.record(next), Ok(true));
        n += 1;
    }
    let mut next = template;
    next.response.tool_execution_id = "one-too-many".into();
    assert_eq!(evidence.record(next), Err("coding Computer evidence limit reached"));
    assert_eq!(evidence.executions.len(), 32);
}

#[test]
fn evidence_rebuilt_through_recording_still_validates() {
    let (evidence, proof, contract, submission) = fixture();
    let mut rebuilt = ComputerCodingEvidence { fence: evidence.fence.clone(), executions: vec![] };
    for execution in &evidence.executions {
        assert_eq!(rebuilt.record(execution.clone()), Ok(true));
    }
    assert_eq!(rebuilt, evidence);
    for execution in &evidence.executions {
        assert_eq!(rebuilt.record(execution.clone()), Ok(false));
    }
    assert_eq!(rebuilt, evidence);
    assert_eq!(validate_computer_completion(&rebuilt, &proof, &contract, DIGEST, &submission), Ok(()));
}
