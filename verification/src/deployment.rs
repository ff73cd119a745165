//! Offline inventory of the administrator-managed disconnected profile.

use vstd::prelude::*;

use crate::computer::option_string_view;
use crate::text::copy_string;

verus! {

/// Metadata of a verified, signed machine policy.
#[derive(Clone, Debug, PartialEq, Eq)]
pub struct ManagedPolicyMetadata {
    pub org_id: String,
    pub workspace_id: Option<String>,
    pub policy_version: u64,
    pub issued_at: u64,
    pub expires_at: u64,
    pub key_id: String,
    pub policy_hash: String,
    pub kill_switch: bool,
}

/// The customer Identity authority a signed profile designates.
#[derive(Clone, Debug, PartialEq, Eq)]
pub struct DisconnectedAuthority {
    pub endpoint: String,
    pub credential_env: String,
    pub ca_pem: Option<String>,
}

/// A model route a signed profile allows.
#[derive(Clone, Debug, PartialEq, Eq)]
pub struct DisconnectedRoute {
    pub model: String,
    pub endpoint: String,
    pub credential_env: Option<String>,
}

/// The disconnected profile of a verified, signed machine policy.
#[derive(Clone, Debug, PartialEq, Eq)]
pub struct DisconnectedProfile {
    pub routes: Vec<DisconnectedRoute>,
    pub authority: Option<DisconnectedAuthority>,
}

/// Read-only projection of verified policy. This is configuration evidence, not
/// a reachability probe, tool grant, network sandbox or deployment qualification.
#[derive(Clone, Debug, PartialEq, Eq)]
pub struct DisconnectedDeploymentContract {
    pub schema_version: u32,
    pub policy: ManagedPolicyMetadata,
    pub model_routes: Vec<DisconnectedModelDestination>,
    pub customer_authority: Option<DisconnectedAuthorityDestination>,
    /// Declared profile behavior, not an observation of traffic or worker state.
    pub declared_disabled_first_party_services: Vec<&'static str>,
    pub local_sessions: &'static str,
    pub enrolled_tools: &'static str,
    pub external_process_network: &'static str,
    pub customer_telemetry: &'static str,
    pub deployment_qualification: &'static str,
}

#[derive(Clone, Debug, PartialEq, Eq)]
pub struct DisconnectedModelDestination {
    pub model: String,
    pub endpoint: String,
    pub credential_required: bool,
}

#[derive(Clone, Debug, PartialEq, Eq)]
pub struct DisconnectedAuthorityDestination {
    pub endpoint: String,
    pub custom_ca_configured: bool,
}

// ----------------------------------------------------------------------------
// Mathematical models
// ----------------------------------------------------------------------------

pub struct ManagedPolicyMetadataView {
    pub org_id: Seq<char>,
    pub workspace_id: Option<Seq<char>>,
    pub policy_version: u64,
    pub issued_at: u64,
    pub expires_at: u64,
    pub key_id: Seq<char>,
    pub policy_hash: Seq<char>,
    pub kill_switch: bool,
}

impl View for ManagedPolicyMetadata {
    type V = ManagedPolicyMetadataView;

    open spec fn view(&self) -> ManagedPolicyMetadataView {
        ManagedPolicyMetadataView {
            org_id: self.org_id@,
            workspace_id: option_string_view(self.workspace_id),
            policy_version: self.policy_version,
            issued_at: self.issued_at,
            expires_at: self.expires_at,
            key_id: self.key_id@,
            policy_hash: self.policy_hash@,
            kill_switch: self.kill_switch,
        }
    }
}

pub struct DisconnectedModelDestinationView {
    pub model: Seq<char>,
    pub endpoint: Seq<char>,
    pub credential_required: bool,
}

pub struct DisconnectedAuthorityDestinationView {
    pub endpoint: Seq<char>,
    pub custom_ca_configured: bool,
}

pub struct DisconnectedDeploymentContractView {
    pub schema_version: u32,
    pub policy: ManagedPolicyMetadataView,
    pub model_routes: Seq<DisconnectedModelDestinationView>,
    pub customer_authority: Option<DisconnectedAuthorityDestinationView>,
    pub declared_disabled_first_party_services: Seq<Seq<char>>,
    pub local_sessions: Seq<char>,
    pub enrolled_tools: Seq<char>,
    pub external_process_network: Seq<char>,
    pub customer_telemetry: Seq<char>,
    pub deployment_qualification: Seq<char>,
}

impl View for DisconnectedDeploymentContract {
    type V = DisconnectedDeploymentContractView;

    open spec fn view(&self) -> DisconnectedDeploymentContractView {
        DisconnectedDeploymentContractView {
            schema_version: self.schema_version,
            policy: self.policy@,
            model_routes: self.model_routes@.map_values(
                |d: DisconnectedModelDestination| DisconnectedModelDestinationView {
                    model: d.model@,
                    endpoint: d.endpoint@,
                    credential_required: d.credential_required,
                },
            ),
            customer_authority: match self.customer_authority {
                Some(a) => Some(
                    DisconnectedAuthorityDestinationView {
                        endpoint: a.endpoint@,
                        custom_ca_configured: a.custom_ca_configured,
                    },
                ),
                None => None,
            },
            declared_disabled_first_party_services: self.declared_disabled_first_party_services@.map_values(
                |s: &'static str| s@,
            ),
            local_sessions: self.local_sessions@,
            enrolled_tools: self.enrolled_tools@,
            external_process_network: self.external_process_network@,
            customer_telemetry: self.customer_telemetry@,
            deployment_qualification: self.deployment_qualification@,
        }
    }
}

/// The inventory of a verified profile: every route by model, endpoint and
/// whether a credential is required (never which one), the authority by
/// endpoint and whether a custom CA is pinned (never the CA or credential), and
/// the profile's declared behavior.
pub open spec fn inventory(
    profile: DisconnectedProfile,
    metadata: ManagedPolicyMetadata,
) -> DisconnectedDeploymentContractView {
    DisconnectedDeploymentContractView {
        schema_version: 1,
        policy: metadata@,
        model_routes: profile.routes@.map_values(
            |r: DisconnectedRoute| DisconnectedModelDestinationView {
                model: r.model@,
                endpoint: r.endpoint@,
                credential_required: r.credential_env is Some,
            },
        ),
        customer_authority: match profile.authority {
            Some(a) => Some(
                DisconnectedAuthorityDestinationView {
                    endpoint: a.endpoint@,
                    custom_ca_configured: a.ca_pem is Some,
                },
            ),
            None => None,
        },
        declared_disabled_first_party_services: seq![
            "identity"@,
            "session_history_capture"@,
            "telemetry_outbox"@,
            "updates"@,
            "remote_catalog_refresh"@,
            "hosted_commands"@,
        ],
        local_sessions: "existing_local_store"@,
        enrolled_tools: "customer_authority_required"@,
        external_process_network: "operator_enforced"@,
        customer_telemetry: "separately_configured"@,
        deployment_qualification: "not_assessed"@,
    }
}

fn copy_metadata(m: &ManagedPolicyMetadata) -> (r: ManagedPolicyMetadata)
    ensures
        r@ == m@,
{
    ManagedPolicyMetadata {
        org_id: copy_string(&m.org_id),
        workspace_id: match &m.workspace_id {
            Some(w) => Some(copy_string(w)),
            None => None,
        },
        policy_version: m.policy_version,
        issued_at: m.issued_at,
        expires_at: m.expires_at,
        key_id: copy_string(&m.key_id),
        policy_hash: copy_string(&m.policy_hash),
        kill_switch: m.kill_switch,
    }
}

/// Builds the inventory of the installed profile. `installed` is what loading
/// and verifying the signed machine policy produced. Never reads credentials,
/// resolves DNS, probes a server or loads repository configuration: all
/// destinations come from the same verified signed envelope.
pub fn disconnected_deployment_contract(
    installed: Result<Option<(DisconnectedProfile, ManagedPolicyMetadata)>, String>,
) -> (r: Result<DisconnectedDeploymentContract, String>)
    ensures
        match installed {
            Err(e) => r matches Err(x) && x@ == e@,
            Ok(None) => r matches Err(x) && x@
                == "No administrator-managed disconnected profile is installed"@,
            Ok(Some((profile, metadata))) => r matches Ok(c) && c@ == inventory(profile, metadata),
        },
{
    let (profile, metadata) = match installed {
        Err(e) => {
            return Err(e);
        },
        Ok(None) => {
            return Err("No administrator-managed disconnected profile is installed".to_owned());
        },
        Ok(Some(found)) => found,
    };
    let mut model_routes: Vec<DisconnectedModelDestination> = Vec::new();
    let mut i: usize = 0;
    while i < profile.routes.len()
        invariant
            i <= profile.routes.len(),
            model_routes@.len() == i,
            forall|j: int|
                #![trigger model_routes@[j]]
                0 <= j < i ==> {
                    &&& model_routes@[j].model@ == profile.routes@[j].model@
                    &&& model_routes@[j].endpoint@ == profile.routes@[j].endpoint@
                    &&& model_routes@[j].credential_required == profile.routes@[j].credential_env is Some
                },
        decreases profile.routes.len() - i,
    {
        let route = &profile.routes[i];
        model_routes.push(
            DisconnectedModelDestination {
                model: copy_string(&route.model),
                endpoint: copy_string(&route.endpoint),
                credential_required: route.credential_env.is_some(),
            },
        );
        i = i + 1;
    }
    let customer_authority = match &profile.authority {
        Some(authority) => Some(
            DisconnectedAuthorityDestination {
                endpoint: copy_string(&authority.endpoint),
                custom_ca_configured: authority.ca_pem.is_some(),
            },
        ),
        None => None,
    };
    let mut services: Vec<&'static str> = Vec::new();
    services.push("identity");
    services.push("session_history_capture");
    services.push("telemetry_outbox");
    services.push("updates");
    services.push("remote_catalog_refresh");
    services.push("hosted_commands");
    let contract = DisconnectedDeploymentContract {
        schema_version: 1,
        policy: copy_metadata(&metadata),
        model_routes,
        customer_authority,
        declared_disabled_first_party_services: services,
        local_sessions: "existing_local_store",
        enrolled_tools: "customer_authority_required",
        external_process_network: "operator_enforced",
        customer_telemetry: "separately_configured",
        deployment_qualification: "not_assessed",
    };
    assert(contract@.model_routes =~= inventory(profile, metadata).model_routes);
    assert(contract@.declared_disabled_first_party_services
        =~= inventory(profile, metadata).declared_disabled_first_party_services);
    Ok(contract)
}


// ----------------------------------------------------------------------------
// Laws
// ----------------------------------------------------------------------------

/// An inventory built from a verified profile reports the profile as it is:
/// the signed policy metadata, one destination per route in order with its
/// model and endpoint and whether the route names a credential, and the
/// authority's endpoint with a custom CA reported exactly when the signed
/// authority carries a CA bundle; no authority is reported when the profile
/// has none.
pub proof fn lemma_inventory_mirrors_profile(
    profile: DisconnectedProfile,
    metadata: ManagedPolicyMetadata,
    c: DisconnectedDeploymentContract,
)
    requires
        c@ == inventory(profile, metadata),
    ensures
        c.policy@ == metadata@,
        c.model_routes.len() == profile.routes.len(),
        forall|k: int|
            0 <= k < profile.routes.len() ==> {
                &&& (#[trigger] c.model_routes@[k]).model@ == profile.routes@[k].model@
                &&& c.model_routes@[k].endpoint@ == profile.routes@[k].endpoint@
                &&& c.model_routes@[k].credential_required == (profile.routes@[k].credential_env is Some)
            },
        (c.customer_authority is Some) == (profile.authority is Some),
        match (profile.authority, c.customer_authority) {
            (Some(a), Some(d)) => d.endpoint@ == a.endpoint@ && d.custom_ca_configured == (a.ca_pem is Some),
            _ => true,
        },
{
    assert(c@.model_routes.len() == profile.routes@.len());
    assert forall|k: int| 0 <= k < profile.routes.len() implies {
        &&& (#[trigger] c.model_routes@[k]).model@ == profile.routes@[k].model@
        &&& c.model_routes@[k].endpoint@ == profile.routes@[k].endpoint@
        &&& c.model_routes@[k].credential_required == (profile.routes@[k].credential_env is Some)
    } by {
        assert(c@.model_routes[k] == inventory(profile, metadata).model_routes[k]);
    }
}

} // verus!
