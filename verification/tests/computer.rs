use maestro::computer::{
    CodingWorkspaceBaselineKind, CodingWorkspaceOutput, CodingWorkspaceReadiness,
    CodingWorkspaceRequest, CodingWorkspaceResponse, CODING_WORKSPACE_SCHEMA,
};
use sha2::{Digest, Sha256};

fn response() -> CodingWorkspaceResponse {
    CodingWorkspaceResponse {
        schema: CODING_WORKSPACE_SCHEMA.into(),
        project_resource_id: "project".into(),
        accepted_snapshot_id: "snapshot".into(),
        source_workspace_id: "source".into(),
        task_computer_id: "task".into(),
        run_id: "run".into(),
        tool_execution_id: "execution".into(),
        owner_lease_epoch: 1,
        base_revision: "a".repeat(40),
        revision: "b".repeat(40),
        baseline_kind: CodingWorkspaceBaselineKind::AcceptedSnapshot,
        clean: true,
        readiness: None,
        outputs: vec![],
    }
}

fn hex(content: &str) -> String {
    format!("{:x}", Sha256::digest(content.as_bytes()))
}

#[test]
fn baseline_can_reobserve_clean_committed_progress() {
    let request = CodingWorkspaceRequest::Baseline {
        idempotency_key: "fresh-owner-execution".into(),
    };
    let mut result = response();
    assert_ne!(result.base_revision, result.revision);
    assert!(result.validate_for(&request).is_ok());
    result.clean = false;
    assert!(result.validate_for(&request).is_err());
    result.clean = true;
    result.owner_lease_epoch = 0;
    assert!(result.validate_for(&request).is_err());
}

#[test]
fn coding_workspace_result_rejects_wrong_revision_content_and_shape() {
    let mut no_lease = response();
    no_lease.owner_lease_epoch = 0;
    assert!(no_lease.validate().is_err());
    let request = CodingWorkspaceRequest::Outputs {
        expected_base_revision: "a".repeat(40),
        expected_revision: "b".repeat(40),
        paths: vec!["answer.py".into()],
    };
    let mut result = response();
    assert!(result.validate_for(&request).is_err());
    result.outputs.push(CodingWorkspaceOutput {
        path: "answer.py".into(),
        content: "answer\n".into(),
        sha256: format!("{:x}", Sha256::digest(b"answer\n")),
        git_blob_id: "c".repeat(40),
    });
    assert!(result.validate_for(&request).is_ok());
    let mut wrong = result.clone();
    wrong.revision = "d".repeat(40);
    assert!(wrong.validate_for(&request).is_err());
    let mut wrong = result.clone();
    wrong.outputs[0].content.push('!');
    assert!(wrong.validate_for(&request).is_err());
    let mut wrong = result.clone();
    wrong.outputs[0].path = "unexpected.py".into();
    assert!(wrong.validate_for(&request).is_err());
    let mut wrong = result.clone();
    wrong.clean = false;
    assert!(wrong.validate_for(&request).is_err());
    let mut wrong = result.clone();
    wrong.outputs.push(wrong.outputs[0].clone());
    assert!(wrong.validate_for(&request).is_err());
    let mut wrong = result.clone();
    wrong.outputs[0].content = "x".repeat(8193);
    assert!(wrong.validate_for(&request).is_err());
    let mut wrong = result;
    wrong.schema = "caller-observation".into();
    assert!(wrong.validate_for(&request).is_err());
    assert!(
        CodingWorkspaceRequest::Readiness {
            idempotency_key: "fixture".into(),
            expected_revision: "b".repeat(40),
            command: "test".into(),
            timeout_ms: 120001
        }
        .validate()
        .is_err()
    );
}

#[test]
fn coding_workspace_mutations_require_owner_idempotency_before_validation() {
    let mut request = CodingWorkspaceRequest::Baseline {
        idempotency_key: String::new(),
    };
    assert!(request.validate().is_err());
    if let CodingWorkspaceRequest::Baseline { idempotency_key } = &mut request {
        *idempotency_key = "client-tool:owner-execution".into();
    }
    assert!(request.validate().is_ok());
}

#[test]
fn request_errors_name_the_request() {
    let request = CodingWorkspaceRequest::Inspect {
        expected_base_revision: "not-a-revision".into(),
    };
    assert_eq!(request.validate(), Err("invalid coding workspace request"));
    let request = CodingWorkspaceRequest::Inspect {
        expected_base_revision: "A".repeat(64),
    };
    assert_eq!(request.validate(), Ok(()));
    let request = CodingWorkspaceRequest::Inspect {
        expected_base_revision: "g".repeat(40),
    };
    assert!(request.validate().is_err());
}

#[test]
fn idempotency_keys_reject_white_space_control_and_excess_length() {
    for key in ["a b", "a\tb", "a\u{7f}b", "a\u{3000}b"] {
        let request = CodingWorkspaceRequest::Baseline { idempotency_key: key.into() };
        assert!(request.validate().is_err(), "{key:?}");
    }
    let request = CodingWorkspaceRequest::Baseline { idempotency_key: "k".repeat(256) };
    assert!(request.validate().is_ok());
    let request = CodingWorkspaceRequest::Baseline { idempotency_key: "k".repeat(257) };
    assert!(request.validate().is_err());
    // 86 three-byte characters are 258 bytes.
    let request = CodingWorkspaceRequest::Baseline { idempotency_key: "\u{20ac}".repeat(86) };
    assert!(request.validate().is_err());
}

#[test]
fn readiness_requests_bound_command_and_timeout() {
    let readiness = |command: &str, timeout_ms: u64| CodingWorkspaceRequest::Readiness {
        idempotency_key: "key".into(),
        expected_revision: "b".repeat(40),
        command: command.into(),
        timeout_ms,
    };
    assert!(readiness("cargo test", 1).validate().is_ok());
    assert!(readiness("cargo test", 120_000).validate().is_ok());
    assert!(readiness("cargo test", 0).validate().is_err());
    assert!(readiness(" \t\n", 1000).validate().is_err());
    assert!(readiness("a\0b", 1000).validate().is_err());
    assert!(readiness(&"x".repeat(16_384), 1000).validate().is_ok());
    assert!(readiness(&"x".repeat(16_385), 1000).validate().is_err());
}

#[test]
fn output_requests_require_distinct_relative_paths() {
    let outputs = |paths: Vec<&str>| CodingWorkspaceRequest::Outputs {
        expected_base_revision: "a".repeat(40),
        expected_revision: "b".repeat(40),
        paths: paths.into_iter().map(String::from).collect(),
    };
    assert!(outputs(vec!["answer.py", "src/lib.rs"]).validate().is_ok());
    assert!(outputs(vec![]).validate().is_err());
    assert!(outputs(vec!["a"; 2]).validate().is_err());
    assert!(outputs(vec!["1", "2", "3", "4", "5", "6", "7", "8"]).validate().is_ok());
    assert!(outputs(vec!["1", "2", "3", "4", "5", "6", "7", "8", "9"]).validate().is_err());
    for bad in [
        ".dex-source.json",
        "/etc/passwd",
        "../escape",
        "a/../b",
        "a/./b",
        "a//b",
        "a/",
        "",
        "a\\b",
        "a\nb",
    ] {
        assert!(outputs(vec![bad]).validate().is_err(), "{bad:?}");
    }
    let same = CodingWorkspaceRequest::Outputs {
        expected_base_revision: "a".repeat(40),
        expected_revision: "a".repeat(40),
        paths: vec!["answer.py".into()],
    };
    assert!(same.validate().is_err());
}

#[test]
fn response_errors_name_the_failing_part() {
    let mut result = response();
    result.run_id = "  ".into();
    assert_eq!(result.validate(), Err("invalid coding workspace identity"));
    let mut result = response();
    result.readiness = Some(CodingWorkspaceReadiness {
        command: "cargo test".into(),
        revision_before: "b".repeat(40),
        revision_after: "b".repeat(40),
        exit_code: 0,
        stdout: "x".repeat(10_000),
        stderr: "y".repeat(6_385),
        truncated: false,
        timed_out: false,
    });
    assert_eq!(result.validate(), Err("invalid coding readiness result"));
    let mut result = response();
    let content = "x".repeat(8_192);
    for path in ["a", "b", "c"] {
        result.outputs.push(CodingWorkspaceOutput {
            path: path.into(),
            sha256: hex(&content),
            content: content.clone(),
            git_blob_id: "c".repeat(40),
        });
    }
    assert_eq!(result.validate(), Err("invalid coding output manifest"));
    result.outputs.pop();
    assert_eq!(result.validate(), Ok(()));
    result.outputs[1].sha256 = hex("other");
    assert_eq!(result.validate(), Err("invalid coding output content"));
}

#[test]
fn readiness_results_must_answer_the_admitted_command() {
    let request = CodingWorkspaceRequest::Readiness {
        idempotency_key: "key".into(),
        expected_revision: "b".repeat(40),
        command: "cargo test".into(),
        timeout_ms: 1000,
    };
    let mut result = response();
    assert_eq!(
        result.validate_for(&request),
        Err("coding workspace result does not match admitted operation")
    );
    result.readiness = Some(CodingWorkspaceReadiness {
        command: "cargo test".into(),
        revision_before: "b".repeat(40),
        revision_after: "b".repeat(40),
        exit_code: 1,
        stdout: String::new(),
        stderr: String::new(),
        truncated: false,
        timed_out: false,
    });
    assert_eq!(result.validate_for(&request), Ok(()));
    result.readiness.as_mut().unwrap().command = "cargo build".into();
    assert!(result.validate_for(&request).is_err());
}

#[test]
fn inspection_results_must_report_the_expected_base() {
    let request = CodingWorkspaceRequest::Inspect {
        expected_base_revision: "a".repeat(40),
    };
    let mut result = response();
    result.clean = false;
    assert_eq!(result.validate_for(&request), Ok(()));
    result.base_revision = "e".repeat(40);
    assert!(result.validate_for(&request).is_err());
}
