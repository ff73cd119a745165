use maestro::acceptance::{
    CodingAcceptanceChildRecord, CodingAcceptanceContract, CodingAssertionResult,
    CodingHandoffDisposition, CodingHandoffItem, CodingValidationReport, CodingValidationRole,
    CodingVerificationStatus,
};
use maestro::computer::{
    CodingWorkspaceBaselineKind, CodingWorkspaceReadiness, CodingWorkspaceRequest,
    CodingWorkspaceResponse, CODING_WORKSPACE_SCHEMA,
};
use maestro::computer_evidence::{
    validate_computer_completion, ComputerCodingEvidence, ComputerCodingExecution,
    ComputerCodingFence,
};
use maestro::hosted::{
    complete, project_hosted_coding_action, HostedCodingAction, HostedCodingContext,
    HostedCodingOutcome,
};

type Child = (CodingAcceptanceChildRecord, CodingValidationReport, String);

fn contract() -> CodingAcceptanceContract {
    CodingAcceptanceContract {
        task_id: "task".into(),
        repository_id: "project".into(),
        generation: 1,
        required_assertion_ids: vec!["works".into()],
        require_review: true,
        require_behavior: true,
        readiness_requirements: vec!["test".into()],
        output_paths: vec![],
        authorized_dispositions: vec![],
    }
}

fn evidence() -> ComputerCodingEvidence {
    let base = "a".repeat(40);
    let revision = "b".repeat(40);
    let response = CodingWorkspaceResponse {
        owner_lease_epoch: 1,
        schema: CODING_WORKSPACE_SCHEMA.into(),
        project_resource_id: "project".into(),
        accepted_snapshot_id: "snapshot".into(),
        source_workspace_id: "source".into(),
        task_computer_id: "computer".into(),
        run_id: "run".into(),
        tool_execution_id: "baseline".into(),
        base_revision: base.clone(),
        revision: base.clone(),
        baseline_kind: CodingWorkspaceBaselineKind::AcceptedSnapshot,
        clean: true,
        readiness: None,
        outputs: vec![],
    };
    let mut inspected = response.clone();
    inspected.tool_execution_id = "inspect".into();
    inspected.revision = revision.clone();
    let mut ready = inspected.clone();
    ready.tool_execution_id = "ready".into();
    ready.readiness = Some(CodingWorkspaceReadiness {
        command: "test".into(),
        revision_before: revision.clone(),
        revision_after: revision.clone(),
        exit_code: 0,
        stdout: String::new(),
        stderr: String::new(),
        truncated: false,
        timed_out: false,
    });
    ComputerCodingEvidence {
        fence: ComputerCodingFence {
            organization_id: "org".into(),
            workspace_id: "workspace".into(),
            actor_id: "actor".into(),
            work_id: "work".into(),
            runtime_run_id: "runtime".into(),
            maestro_run_id: "run".into(),
            maestro_session_id: "parent".into(),
            session_epoch: 1,
            runtime_generation: 1,
            task_id: "task".into(),
            task_computer_id: "computer".into(),
            project_resource_id: "project".into(),
            accepted_snapshot_id: "snapshot".into(),
            source_workspace_id: "source".into(),
        },
        executions: vec![
            ComputerCodingExecution {
                request: CodingWorkspaceRequest::Baseline { idempotency_key: "baseline".into() },
                response,
            },
            ComputerCodingExecution {
                request: CodingWorkspaceRequest::Inspect { expected_base_revision: base },
                response: inspected,
            },
            ComputerCodingExecution {
                request: CodingWorkspaceRequest::Readiness {
                    idempotency_key: "ready".into(),
                    expected_revision: revision,
                    command: "test".into(),
                    timeout_ms: 1000,
                },
                response: ready,
            },
        ],
    }
}

fn children() -> Vec<Child> {
    [(CodingValidationRole::Review, "review"), (CodingValidationRole::Behavior, "behavior")]
        .into_iter()
        .map(|(role, id)| {
            let report = CodingValidationReport {
                child_id: id.into(),
                session_id: format!("session-{id}"),
                revision: "b".repeat(40),
                status: CodingVerificationStatus::Passed,
                assertions: vec![CodingAssertionResult {
                    assertion_id: "works".into(),
                    status: CodingVerificationStatus::Passed,
                    evidence_refs: vec!["observed".into()],
                }],
                evidence_refs: vec!["observed".into()],
            };
            let digest = format!("report-digest-{id}");
            let record = CodingAcceptanceChildRecord {
                organization_id: "org".into(),
                workspace_id: "workspace".into(),
                work_id: "work".into(),
                parent_session_id: "parent".into(),
                child_id: id.into(),
                session_id: report.session_id.clone(),
                role,
                revision: report.revision.clone(),
                completed_successfully: true,
                report_digest: digest.clone(),
            };
            (record, report, digest)
        })
        .collect()
}

fn context<'a>(
    contract: &'a CodingAcceptanceContract,
    evidence: &'a ComputerCodingEvidence,
    bindings: &'a [(String, String)],
    children: &'a [Child],
    session_id: &'a str,
) -> HostedCodingContext<'a> {
    HostedCodingContext {
        contract,
        contract_digest: "contract-digest",
        contract_check: Ok(()),
        work_id: "work",
        session_id,
        evidence,
        readiness_bindings: bindings,
        children,
        handoff_items: &[],
    }
}

fn accept_all(_: &maestro::acceptance::CodingCompletionSubmission) -> bool {
    true
}

#[test]
fn hosted_completion_projects_only_owner_results_and_child_records() {
    let contract = contract();
    let evidence = evidence();
    let bindings = vec![("test".to_string(), "ready".to_string())];
    let children = children();
    let context = context(&contract, &evidence, &bindings, &children, "parent");
    let Ok(HostedCodingOutcome::Complete(result)) =
        project_hosted_coding_action(HostedCodingAction::Complete {}, &context, accept_all)
    else {
        panic!("completion expected")
    };
    assert_eq!(result.readiness[0].status, CodingVerificationStatus::Passed);
    assert_eq!(result.commands[0].evidence_refs, vec!["receipt:tool-execution:ready"]);
    assert_eq!(result.computer_proof.unwrap().inspection_execution_id, "inspect");
}

#[test]
fn missing_children_failed_readiness_and_wrong_session_fail_closed() {
    let contract = contract();
    let bindings = vec![("test".to_string(), "ready".to_string())];
    let children = children();
    for scenario in 0..3 {
        let mut evidence = evidence();
        if scenario == 1 {
            evidence.executions[2].response.readiness.as_mut().unwrap().exit_code = 1;
        }
        let no_children: Vec<Child> = vec![];
        let context = context(
            &contract,
            &evidence,
            &bindings,
            if scenario == 0 { &no_children } else { &children },
            if scenario == 2 { "other" } else { "parent" },
        );
        assert!(
            project_hosted_coding_action(HostedCodingAction::Complete {}, &context, accept_all)
                .is_err()
        );
    }
}

#[test]
fn readiness_binding_must_name_an_admitted_category_and_real_execution() {
    let contract = contract();
    let evidence = evidence();
    let bindings: Vec<(String, String)> = vec![];
    let context = context(&contract, &evidence, &bindings, &[], "parent");
    assert!(
        project_hosted_coding_action(
            HostedCodingAction::Readiness {
                requirement_id: Some("test".into()),
                execution_id: Some("ready".into())
            },
            &context,
            accept_all
        )
        .is_ok()
    );
    for (requirement, id) in [("test", "inspect"), ("test", "forged"), ("build", "ready")] {
        assert!(
            project_hosted_coding_action(
                HostedCodingAction::Readiness {
                    requirement_id: Some(requirement.into()),
                    execution_id: Some(id.into())
                },
                &context,
                accept_all
            )
            .is_err()
        );
    }
}

#[test]
fn completion_assembles_the_submission_from_owner_records() {
    let contract = contract();
    let evidence = evidence();
    let bindings = vec![("test".to_string(), "ready".to_string())];
    let children = children();
    let context = context(&contract, &evidence, &bindings, &children, "parent");
    let submission = complete(&context, accept_all).unwrap();
    assert_eq!(submission.task_id, "task");
    assert_eq!(submission.work_id, "work");
    assert_eq!(submission.contract_digest, "contract-digest");
    assert_eq!(submission.revision, "b".repeat(40));
    assert_eq!(submission.implementation_session_id, "parent");
    assert_eq!(submission.commands.len(), 1);
    assert_eq!(submission.commands[0].command, "test");
    assert_eq!(submission.commands[0].exit_code, Some(0));
    assert_eq!(submission.readiness[0].assertion_id, "test");
    assert_eq!(submission.review.as_ref().unwrap().child_id, "review");
    assert_eq!(submission.behavior.as_ref().unwrap().child_id, "behavior");
    assert!(submission.outputs.is_empty());
    let proof = submission.computer_proof.unwrap();
    assert_eq!(proof.baseline_execution_id, "baseline");
    assert_eq!(proof.outputs_execution_id, None);
    assert_eq!(proof.readiness_execution_ids, vec!["ready"]);
}

#[test]
fn completion_shares_one_command_per_owner_execution() {
    let mut contract = contract();
    contract.readiness_requirements = vec!["test".into(), "build".into()];
    let evidence = evidence();
    let bindings = vec![
        ("test".to_string(), "ready".to_string()),
        ("build".to_string(), "ready".to_string()),
    ];
    let children = children();
    let context = context(&contract, &evidence, &bindings, &children, "parent");
    let submission = complete(&context, accept_all).unwrap();
    assert_eq!(submission.readiness.len(), 2);
    assert_eq!(submission.commands.len(), 1);
}

#[test]
fn completion_refused_by_the_evaluator_is_an_error() {
    let contract = contract();
    let evidence = evidence();
    let bindings = vec![("test".to_string(), "ready".to_string())];
    let children = children();
    let context = context(&contract, &evidence, &bindings, &children, "parent");
    assert_eq!(
        complete(&context, |_: &maestro::acceptance::CodingCompletionSubmission| false),
        Err("coding completion was not accepted by the existing contract evaluator")
    );
}

#[test]
fn completion_requires_validator_reports_with_matching_digests() {
    let contract = contract();
    let evidence = evidence();
    let bindings = vec![("test".to_string(), "ready".to_string())];
    let mut children = children();
    children[1].2 = "tampered".into();
    let context = context(&contract, &evidence, &bindings, &children, "parent");
    assert_eq!(
        complete(&context, accept_all),
        Err("missing actual independent validator completion")
    );
}

#[test]
fn status_reports_missing_readiness_at_the_inspected_revision() {
    let mut contract = contract();
    contract.readiness_requirements = vec!["test".into(), "build".into()];
    let evidence = evidence();
    let bindings = vec![("test".to_string(), "ready".to_string())];
    let context = context(&contract, &evidence, &bindings, &[], "parent");
    let outcome =
        project_hosted_coding_action(HostedCodingAction::Status {}, &context, accept_all).unwrap();
    assert_eq!(
        outcome,
        HostedCodingOutcome::Status {
            revision: "b".repeat(40),
            missing_readiness: vec!["build".into()],
        }
    );
    let partial = HostedCodingAction::Readiness { requirement_id: Some("test".into()), execution_id: None };
    assert_eq!(
        project_hosted_coding_action(partial, &context, accept_all),
        Err("readiness requires both requirement_id and execution_id")
    );
    assert_eq!(
        project_hosted_coding_action(
            HostedCodingAction::Validate { role: CodingValidationRole::Review },
            &context,
            accept_all
        ),
        Err("required readiness has no owner execution")
    );
}

#[test]
fn begin_requires_the_admitted_contract_and_an_owner_baseline() {
    let contract = contract();
    let evidence = evidence();
    let context = context(&contract, &evidence, &[], &[], "parent");
    let begin = |mission: &str, work: &str, contract: CodingAcceptanceContract| HostedCodingAction::Begin {
        mission_id: mission.into(),
        work_id: work.into(),
        contract,
    };
    let outcome =
        project_hosted_coding_action(begin("mission", "work", contract.clone()), &context, accept_all)
            .unwrap();
    let HostedCodingOutcome::Begin { base_revision, repository_id, .. } = outcome else {
        panic!("begin expected")
    };
    assert_eq!(base_revision, "a".repeat(40));
    assert_eq!(repository_id, "project");
    let mut other = contract.clone();
    other.generation = 2;
    for action in [
        begin(" ", "work", contract.clone()),
        begin("mission", "other", contract.clone()),
        begin("mission", "work", other),
    ] {
        assert_eq!(
            project_hosted_coding_action(action, &context, accept_all),
            Err("coding_task begin does not match the admitted work contract")
        );
    }
}

#[test]
fn handoff_needs_evidence_and_authorization_to_defer() {
    let mut contract = contract();
    contract.authorized_dispositions = vec!["later".into()];
    let evidence = evidence();
    let context = context(&contract, &evidence, &[], &[], "parent");
    let item = |id: &str, disposition, refs: Vec<&str>| CodingHandoffItem {
        id: id.into(),
        disposition,
        evidence_refs: refs.into_iter().map(String::from).collect(),
    };
    let project = |i| project_hosted_coding_action(HostedCodingAction::Handoff { item: i }, &context, accept_all);
    assert!(project(item("later", CodingHandoffDisposition::Deferred, vec!["ref"])).is_ok());
    assert!(project(item("now", CodingHandoffDisposition::Resolved, vec!["ref"])).is_ok());
    assert!(project(item("now", CodingHandoffDisposition::Dismissed, vec!["ref"])).is_err());
    assert!(project(item("later", CodingHandoffDisposition::Deferred, vec![])).is_err());
    assert!(project(item("", CodingHandoffDisposition::Resolved, vec!["ref"])).is_err());
}

#[test]
fn projection_refuses_foreign_scope_and_invalid_contracts() {
    let contract = contract();
    let evidence = evidence();
    let mut context = context(&contract, &evidence, &[], &[], "other");
    assert_eq!(
        project_hosted_coding_action(HostedCodingAction::Status {}, &context, accept_all),
        Err("coding_task owner scope does not match this session and work")
    );
    context.session_id = "parent";
    context.contract_check = Err("invalid coding acceptance contract");
    assert_eq!(
        project_hosted_coding_action(HostedCodingAction::Status {}, &context, accept_all),
        Err("invalid coding acceptance contract")
    );
}

#[test]
fn assembled_completion_passes_the_owner_completion_check() {
    let contract = contract();
    let evidence = evidence();
    let bindings = vec![("test".to_string(), "ready".to_string())];
    let children = children();
    let context = context(&contract, &evidence, &bindings, &children, "parent");
    let submission = complete(&context, accept_all).unwrap();
    let proof = submission.computer_proof.clone().unwrap();
    assert_eq!(
        validate_computer_completion(&evidence, &proof, &contract, "contract-digest", &submission),
        Ok(())
    );
    assert!(validate_computer_completion(&evidence, &proof, &contract, "other-digest", &submission)
        .is_err());
}

#[test]
fn bound_readiness_names_a_successful_owner_run_at_the_inspected_revision() {
    let contract = contract();
    let evidence = evidence();
    let bindings: Vec<(String, String)> = vec![];
    let context = context(&contract, &evidence, &bindings, &[], "parent");
    let Ok(HostedCodingOutcome::ReadinessBinding { requirement_id, execution_id }) =
        project_hosted_coding_action(
            HostedCodingAction::Readiness {
                requirement_id: Some("test".into()),
                execution_id: Some("ready".into()),
            },
            &context,
            accept_all,
        )
    else {
        panic!("binding expected")
    };
    assert_eq!((requirement_id.as_str(), execution_id.as_str()), ("test", "ready"));
    let ready = evidence
        .executions
        .iter()
        .find(|e| e.response.tool_execution_id == execution_id)
        .unwrap();
    let readiness = ready.response.readiness.as_ref().unwrap();
    assert_eq!(readiness.exit_code, 0);
    assert!(!readiness.timed_out && !readiness.truncated && ready.response.clean);
    assert_eq!(ready.response.revision, evidence.executions[1].response.revision);
}
