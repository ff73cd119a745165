use std::collections::HashMap;

use maestro::authority::{
    authority_host_port, certificates, check_verified_tenant, checked_addresses, validate_request_target,
    verification_scope, AuthorityIp, RequestTarget, ResolvedAddress,
};
use maestro::deployment::{DisconnectedAuthority, ManagedPolicyMetadata};

fn metadata() -> ManagedPolicyMetadata {
    ManagedPolicyMetadata {
        org_id: "customer-org".into(),
        workspace_id: Some("customer-workspace".into()),
        policy_version: 1,
        issued_at: 1,
        expires_at: u64::MAX,
        key_id: "operator-key".into(),
        policy_hash: "verified-by-policy-owner".into(),
        kill_switch: false,
    }
}

fn authority(endpoint: &str, ca_pem: Option<String>) -> DisconnectedAuthority {
    DisconnectedAuthority {
        endpoint: endpoint.into(),
        credential_env: "CUSTOMER_CODE_TOKEN".into(),
        ca_pem,
    }
}

#[test]
fn private_code_authority_never_falls_back_to_vendor_credentials_or_tenant_hints() {
    let config = authority("https://customer.invalid", None);
    let env: HashMap<String, String> = HashMap::from([
        ("MAESTRO_EVALOPS_ACCESS_TOKEN".into(), "vendor-token".into()),
        ("MAESTRO_EVALOPS_ORG_ID".into(), "customer-org".into()),
    ]);
    assert!(verification_scope(&metadata(), env.get(&config.credential_env))
        .unwrap_err()
        .contains("credential is unavailable"));
    let mut scope = metadata();
    scope.workspace_id = None;
    assert!(verification_scope(&scope, env.get(&config.credential_env))
        .unwrap_err()
        .contains("signed workspace"));
}

#[test]
fn verification_scope_uses_only_the_signed_credential() {
    let env: HashMap<String, String> = HashMap::from([
        ("CUSTOMER_CODE_TOKEN".into(), "customer-token".into()),
        ("MAESTRO_EVALOPS_ACCESS_TOKEN".into(), "vendor-token".into()),
    ]);
    assert_eq!(
        verification_scope(&metadata(), env.get("CUSTOMER_CODE_TOKEN")),
        Ok(("customer-workspace".to_string(), "customer-token".to_string()))
    );
    let blank = String::from("  ");
    assert_eq!(
        verification_scope(&metadata(), Some(&blank)),
        Err("Customer Code authority credential is unavailable")
    );
    let mut scope = metadata();
    scope.org_id = " ".into();
    assert_eq!(
        verification_scope(&scope, env.get("CUSTOMER_CODE_TOKEN")),
        Err("Customer Code authority requires signed organization scope")
    );
}

#[test]
fn verified_tenant_must_be_the_signed_tenant() {
    let workspace = String::from("customer-workspace");
    assert_eq!(
        check_verified_tenant("customer-org", Some(&workspace), "customer-org", "customer-workspace"),
        Ok(())
    );
    assert!(check_verified_tenant("other-org", Some(&workspace), "customer-org", "customer-workspace").is_err());
    assert!(check_verified_tenant("customer-org", None, "customer-org", "customer-workspace").is_err());
}

#[test]
fn request_target_must_match_signed_policy() {
    let signed = Some((authority("https://identity.customer.example//", None), metadata()));
    assert_eq!(
        validate_request_target(signed.clone(), "https://identity.customer.example", "customer-org", "customer-workspace"),
        Ok(RequestTarget::SignedCustomerAuthority)
    );
    for (base, org, workspace) in [
        ("https://other.example", "customer-org", "customer-workspace"),
        ("https://identity.customer.example", "other-org", "customer-workspace"),
        ("https://identity.customer.example", "customer-org", "other-workspace"),
    ] {
        assert_eq!(
            validate_request_target(signed.clone(), base, org, workspace),
            Err("Code authority no longer matches signed customer policy")
        );
    }
    assert_eq!(
        validate_request_target(None, "https://identity.evalops.dev", "org", "ws"),
        Ok(RequestTarget::VendorNetwork)
    );
}

#[test]
fn signed_ca_bundles_are_bounded_and_must_parse() {
    assert!(matches!(certificates(&authority("https://a", None)), Ok(None)));
    assert_eq!(
        certificates(&authority("https://a", Some("x".repeat(65537)))).err(),
        Some("Customer Identity CA exceeds size limit")
    );
    assert_eq!(
        certificates(&authority("https://a", Some("no certificates here".into()))).err(),
        Some("Customer Identity CA contains no certificates")
    );
}

fn v4(a: u8, b: u8, c: u8, d: u8, port: u16, guard_blocked: bool) -> ResolvedAddress {
    ResolvedAddress { ip: AuthorityIp::V4([a, b, c, d]), port, guard_blocked }
}

fn v6(segments: [u16; 8], guard_blocked: bool) -> ResolvedAddress {
    ResolvedAddress { ip: AuthorityIp::V6(segments), port: 443, guard_blocked }
}

#[test]
fn resolved_addresses_must_all_be_allowed() {
    let good = v4(10, 1, 2, 3, 443, true);
    for forbidden in [
        v4(169, 254, 169, 254, 443, true),
        v4(100, 100, 100, 200, 443, true),
        v4(0, 0, 0, 0, 443, true),
        v6([0xfe80, 0, 0, 0, 0, 0, 0, 1], true),
        v6([0xfd00, 0x0ec2, 0, 0, 0, 0, 0, 0x254], false),
        v6([0xfd00, 0x0ec2, 0, 0, 0, 0, 0, 0x254], true),
    ] {
        assert!(checked_addresses(vec![good, forbidden], 443).is_err(), "{forbidden:?}");
    }
    for allowed in [
        v4(10, 1, 2, 3, 443, true),
        v4(172, 16, 0, 1, 443, true),
        v4(192, 168, 0, 1, 443, true),
        v4(127, 0, 0, 1, 443, true),
        v6([0, 0, 0, 0, 0, 0, 0, 1], true),
        v6([0xfd12, 0, 0, 0, 0, 0, 0, 1], true),
        v4(8, 8, 8, 8, 443, false),
    ] {
        assert_eq!(checked_addresses(vec![allowed], 443), Ok(vec![allowed]));
    }
    assert!(checked_addresses(vec![], 443).is_err());
    assert!(checked_addresses(vec![v4(10, 1, 2, 3, 80, true)], 443).is_err());
}

#[test]
fn authority_endpoint_yields_host_and_port() {
    assert_eq!(
        authority_host_port("https://identity.customer.example"),
        Ok(("identity.customer.example".to_string(), 443))
    );
    assert_eq!(authority_host_port("https://[::1]:8443/"), Ok(("::1".to_string(), 8443)));
    assert_eq!(authority_host_port("https://10.1.2.3:9443"), Ok(("10.1.2.3".to_string(), 9443)));
    assert_eq!(
        authority_host_port("not a url"),
        Err("Customer Identity endpoint is not a valid URL")
    );
}

const CUSTOMER_CA: &str = "-----BEGIN CERTIFICATE-----\n\
MIIBoDCCAUWgAwIBAgIUHslYlF9Lc+KQXpgA1FifkZ/NE5AwCgYIKoZIzj0EAwIw\n\
JDEiMCAGA1UEAwwZaWRlbnRpdHkuY3VzdG9tZXIuZXhhbXBsZTAgFw0yNjExMTcw\n\
NTIzNTlaGA8yMTI2MTAyNDA1MjM1OVowJDEiMCAGA1UEAwwZaWRlbnRpdHkuY3Vz\n\
dG9tZXIuZXhhbXBsZTBZMBMGByqGSM49AgEGCCqGSM49AwEHA0IABNCeiTpz9tlA\n\
FwdfdSNgE7QmBJ1AkmDWXq4LJcWBZCtsA3GzfQwCptWehAWigX85Ok20FWGx9NUn\n\
97N/dZ6w+VSjUzBRMB0GA1UdDgQWBBSwSYivMbmH47XDqHKymQqUKrvJgzAfBgNV\n\
HSMEGDAWgBSwSYivMbmH47XDqHKymQqUKrvJgzAPBgNVHRMBAf8EBTADAQH/MAoG\n\
CCqGSM49BAMCA0kAMEYCIQDmdywDq3kt9O0RnO6y/txlkDcMx7WpS50XMSzeG7K5\n\
fwIhAPCn6bxGZcOvYRjbFAWphGfOGsOE8W+dJyLNKvhtybRG\n\
-----END CERTIFICATE-----\n";

#[test]
fn signed_ca_bundle_yields_each_certificate() {
    let one = certificates(&authority("https://a", Some(CUSTOMER_CA.into()))).unwrap().unwrap();
    assert_eq!(one.len(), 1);
    let two = format!("{CUSTOMER_CA}{CUSTOMER_CA}");
    let both = certificates(&authority("https://a", Some(two))).unwrap().unwrap();
    assert_eq!(both.len(), 2);
}
