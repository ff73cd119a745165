use maestro::deployment::{
    disconnected_deployment_contract, DisconnectedAuthority, DisconnectedProfile,
    DisconnectedRoute, ManagedPolicyMetadata,
};

fn metadata() -> ManagedPolicyMetadata {
    ManagedPolicyMetadata {
        org_id: "customer-org".into(),
        workspace_id: Some("customer-workspace".into()),
        policy_version: 1,
        issued_at: 1,
        expires_at: u64::MAX,
        key_id: "operator-key".into(),
        policy_hash: "verified-by-policy-owner".into(),
        kill_switch: false,
    }
}

fn private_profile() -> DisconnectedProfile {
    DisconnectedProfile {
        routes: vec![DisconnectedRoute {
            model: "ollama/customer-model".into(),
            endpoint: "http://127.0.0.1:11434/v1".into(),
            credential_env: None,
        }],
        authority: None,
    }
}

#[test]
fn disconnected_deployment_contract_reports_signed_destinations_without_credentials() {
    let mut profile = private_profile();
    profile.routes[0].credential_env = Some("CUSTOMER_MODEL_API_KEY".into());
    profile.authority = Some(DisconnectedAuthority {
        endpoint: "https://identity.customer.example".into(),
        credential_env: "CUSTOMER_CODE_ACCESS_TOKEN".into(),
        ca_pem: None,
    });
    let contract = disconnected_deployment_contract(Ok(Some((profile, metadata())))).unwrap();
    assert_eq!(contract.schema_version, 1);
    assert_eq!(contract.policy.policy_version, 1);
    assert_eq!(contract.model_routes[0].endpoint, "http://127.0.0.1:11434/v1");
    assert!(contract.model_routes[0].credential_required);
    let authority = contract.customer_authority.as_ref().unwrap();
    assert_eq!(authority.endpoint, "https://identity.customer.example");
    assert!(!authority.custom_ca_configured);
    assert_eq!(contract.enrolled_tools, "customer_authority_required");
    assert_eq!(contract.external_process_network, "operator_enforced");
    assert_eq!(contract.deployment_qualification, "not_assessed");
    let rendered = format!("{contract:?}");
    assert!(!rendered.contains("CUSTOMER_MODEL_API_KEY"));
    assert!(!rendered.contains("CUSTOMER_CODE_ACCESS_TOKEN"));
    assert!(!rendered.contains("ca_pem"));
}

#[test]
fn disconnected_deployment_contract_requires_valid_installed_policy() {
    assert!(disconnected_deployment_contract(Ok(None)).is_err());
    assert!(disconnected_deployment_contract(Ok(Some((private_profile(), metadata()))))
        .unwrap()
        .customer_authority
        .is_none());
    assert_eq!(
        disconnected_deployment_contract(Err("managed policy signature is invalid".into())),
        Err("managed policy signature is invalid".to_string())
    );
}

#[test]
fn deployment_contract_declares_the_profile_behavior() {
    let contract = disconnected_deployment_contract(Ok(Some((private_profile(), metadata())))).unwrap();
    assert_eq!(
        contract.declared_disabled_first_party_services,
        vec![
            "identity",
            "session_history_capture",
            "telemetry_outbox",
            "updates",
            "remote_catalog_refresh",
            "hosted_commands"
        ]
    );
    assert_eq!(contract.local_sessions, "existing_local_store");
    assert_eq!(contract.customer_telemetry, "separately_configured");
    assert!(!contract.model_routes[0].credential_required);
    assert_eq!(
        disconnected_deployment_contract(Ok(None)),
        Err("No administrator-managed disconnected profile is installed".to_string())
    );
}
