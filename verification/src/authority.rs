//! The customer-cell Identity authority: which target a request may use, the
//! signed scope a credential is verified under, the pinned CA, and which
//! resolved addresses the authority may be reached at. Signed machine policy
//! chooses the endpoint and tenant; Identity still verifies tokens, device
//! proofs, scope, revocation and tool decisions.

use vstd::prelude::*;

use crate::deployment::{DisconnectedAuthority, ManagedPolicyMetadata};
use crate::text::{blank, chars_of, copy_string, is_blank, same_text};
use vstd::string::StrSliceExecFns;
use vstd::utf8::encode_utf8;

verus! {

/// The largest signed CA bundle or Identity response accepted, in bytes.
pub const MAX_RESPONSE_BYTES: usize = 65536;

#[verifier::external_type_specification]
#[verifier::external_body]
pub struct ExCertificate(reqwest::Certificate);

#[verifier::external_type_specification]
#[verifier::external_body]
pub struct ExReqwestError(reqwest::Error);

/// Where a request to the Code authority must go.
#[derive(Clone, Copy, Debug, PartialEq, Eq, Structural)]
pub enum RequestTarget {
    /// The signed customer authority the request names.
    SignedCustomerAuthority,
    /// No customer authority is signed: the vendor network must be allowed.
    VendorNetwork,
}

// ----------------------------------------------------------------------------
// Request target
// ----------------------------------------------------------------------------

/// `s` without its trailing slashes.
pub open spec fn trim_end_slashes(s: Seq<char>) -> Seq<char>
    decreases s.len(),
{
    if s.len() > 0 && s.last() == '/' {
        trim_end_slashes(s.drop_last())
    } else {
        s
    }
}

fn trimmed_endpoint(s: &str) -> (r: String)
    ensures
        r@ == trim_end_slashes(s@),
{
    let cs = chars_of(s);
    let mut n: usize = cs.len();
    assert(s@.take(n as int) =~= s@);
    while n > 0 && cs[n - 1] == '/'
        invariant
            cs@ == s@,
            n <= cs.len(),
            trim_end_slashes(s@) == trim_end_slashes(s@.take(n as int)),
        decreases n,
    {
        assert(s@.take(n as int).drop_last() =~= s@.take(n - 1));
        n = n - 1;
    }
    assert(trim_end_slashes(s@.take(n as int)) == s@.take(n as int));
    s.substring_char(0, n).to_owned()
}

/// The request to `base` for `organization` and `workspace` still matches the
/// signed customer authority, when there is one.
pub open spec fn request_target_result(
    signed: Option<(Seq<char>, Seq<char>, Option<Seq<char>>)>,
    base: Seq<char>,
    organization: Seq<char>,
    workspace: Seq<char>,
) -> Result<RequestTarget, Seq<char>> {
    match signed {
        Some((endpoint, org_id, workspace_id)) => {
            if trim_end_slashes(endpoint) != base || org_id != organization || workspace_id != Some(
                workspace,
            ) {
                Err("Code authority no longer matches signed customer policy"@)
            } else {
                Ok(RequestTarget::SignedCustomerAuthority)
            }
        },
        None => Ok(RequestTarget::VendorNetwork),
    }
}

pub open spec fn signed_scope(signed: Option<(DisconnectedAuthority, ManagedPolicyMetadata)>) -> Option<(Seq<char>, Seq<char>, Option<Seq<char>>)> {
    match signed {
        Some((config, metadata)) => Some(
            (config.endpoint@, metadata.org_id@, crate::computer::option_string_view(metadata.workspace_id)),
        ),
        None => None,
    }
}

/// Recheck signed policy immediately before every authority exchange. `signed`
/// is the customer authority of the currently verified machine policy.
pub fn validate_request_target(
    signed: Option<(DisconnectedAuthority, ManagedPolicyMetadata)>,
    base: &str,
    organization: &str,
    workspace: &str,
) -> (r: Result<RequestTarget, &'static str>)
    ensures
        match r {
            Ok(t) => request_target_result(signed_scope(signed), base@, organization@, workspace@) == Ok::<RequestTarget, Seq<char>>(t),
            Err(e) => request_target_result(signed_scope(signed), base@, organization@, workspace@) == Err::<RequestTarget, Seq<char>>(e@),
        },
{
    match &signed {
        Some((config, metadata)) => {
            let endpoint = trimmed_endpoint(config.endpoint.as_str());
            let workspace_matches = match &metadata.workspace_id {
                Some(w) => same_text(w.as_str(), workspace),
                None => false,
            };
            if !same_text(endpoint.as_str(), base) || !same_text(metadata.org_id.as_str(), organization)
                || !workspace_matches {
                return Err("Code authority no longer matches signed customer policy");
            }
            Ok(RequestTarget::SignedCustomerAuthority)
        },
        None => Ok(RequestTarget::VendorNetwork),
    }
}

// ----------------------------------------------------------------------------
// Credential scope
// ----------------------------------------------------------------------------

/// The signed scope and the customer credential a verification uses: the
/// signed workspace, then the signed organization, then the credential named
/// by the signed profile. No vendor token or tenant hint is ever consulted.
pub open spec fn verification_scope_result(
    metadata: ManagedPolicyMetadata,
    credential: Option<Seq<char>>,
) -> Result<(Seq<char>, Seq<char>), Seq<char>> {
    match metadata.workspace_id {
        None => Err("Customer Code authority requires signed workspace scope"@),
        Some(w) => {
            if is_blank(w@) {
                Err("Customer Code authority requires signed workspace scope"@)
            } else if is_blank(metadata.org_id@) {
                Err("Customer Code authority requires signed organization scope"@)
            } else {
                match credential {
                    None => Err("Customer Code authority credential is unavailable"@),
                    Some(token) => {
                        if is_blank(token) {
                            Err("Customer Code authority credential is unavailable"@)
                        } else {
                            Ok((w@, token))
                        }
                    },
                }
            }
        },
    }
}

/// Checks the signed scope and picks the credential a verification will
/// present. `credential` is the value of the environment variable the signed
/// profile names, if it is set. Returns the signed workspace and the token.
pub fn verification_scope(
    metadata: &ManagedPolicyMetadata,
    credential: Option<&String>,
) -> (r: Result<(String, String), &'static str>)
    ensures
        match r {
            Ok((w, t)) => verification_scope_result(*metadata, ref_string_view(credential)) == Ok::<(Seq<char>, Seq<char>), Seq<char>>((w@, t@)),
            Err(e) => verification_scope_result(*metadata, ref_string_view(credential)) == Err::<(Seq<char>, Seq<char>), Seq<char>>(e@),
        },
{
    let workspace = match &metadata.workspace_id {
        Some(w) => {
            if blank(w.as_str()) {
                return Err("Customer Code authority requires signed workspace scope");
            }
            w
        },
        None => {
            return Err("Customer Code authority requires signed workspace scope");
        },
    };
    if blank(metadata.org_id.as_str()) {
        return Err("Customer Code authority requires signed organization scope");
    }
    let token = match credential {
        Some(t) => {
            if blank(t.as_str()) {
                return Err("Customer Code authority credential is unavailable");
            }
            t
        },
        None => {
            return Err("Customer Code authority credential is unavailable");
        },
    };
    Ok((copy_string(workspace), copy_string(token)))
}

pub open spec fn ref_string_view(o: Option<&String>) -> Option<Seq<char>> {
    match o {
        Some(s) => Some(s@),
        None => None,
    }
}

pub open spec fn tenant_matches(
    organization: Seq<char>,
    workspace: Option<Seq<char>>,
    expected_organization: Seq<char>,
    expected_workspace: Seq<char>,
) -> bool {
    organization == expected_organization && workspace == Some(expected_workspace)
}

/// Identity verified the token for exactly the signed organization and workspace.
pub fn check_verified_tenant(
    verified_organization: &str,
    verified_workspace: Option<&String>,
    expected_organization: &str,
    expected_workspace: &str,
) -> (r: Result<(), &'static str>)
    ensures
        match r {
            Ok(()) => tenant_matches(verified_organization@, ref_string_view(verified_workspace), expected_organization@, expected_workspace@),
            Err(e) => e@ == "Customer Identity token does not match signed policy tenant scope"@
                && !tenant_matches(verified_organization@, ref_string_view(verified_workspace), expected_organization@, expected_workspace@),
        },
{
    let workspace_matches = match verified_workspace {
        Some(w) => same_text(w.as_str(), expected_workspace),
        None => false,
    };
    if !same_text(verified_organization, expected_organization) || !workspace_matches {
        return Err("Customer Identity token does not match signed policy tenant scope");
    }
    Ok(())
}

// ----------------------------------------------------------------------------
// Pinned certificate authority
// ----------------------------------------------------------------------------

/// How many certificates `reqwest` reads from the PEM bundle `pem`, or `None`
/// when it rejects the bundle.
pub uninterp spec fn pem_bundle_certificates(pem: Seq<u8>) -> Option<nat>;

/// Parses a PEM bundle with `reqwest::Certificate::from_pem_bundle`. The
/// contract claims that the outcome and the number of certificates are the
/// named function of the bytes; nothing is claimed about the certificates.
#[verifier::external_body]
fn parse_pem_bundle(pem: &[u8]) -> (r: Result<Vec<reqwest::Certificate>, reqwest::Error>)
    ensures
        match r {
            Ok(v) => pem_bundle_certificates(pem@) == Some(v.len() as nat),
            Err(_) => pem_bundle_certificates(pem@) is None,
        },
{
    reqwest::Certificate::from_pem_bundle(pem)
}

/// What `certificates` decides for a signed CA bundle.
pub open spec fn certificates_result(ca_pem: Option<Seq<char>>) -> Result<Option<nat>, Seq<char>> {
    match ca_pem {
        None => Ok(None),
        Some(pem) => {
            if encode_utf8(pem).len() > MAX_RESPONSE_BYTES {
                Err("Customer Identity CA exceeds size limit"@)
            } else {
                match pem_bundle_certificates(encode_utf8(pem)) {
                    None => Err("parse signed customer Identity CA"@),
                    Some(n) => {
                        if n == 0 {
                            Err("Customer Identity CA contains no certificates"@)
                        } else {
                            Ok(Some(n))
                        }
                    },
                }
            }
        },
    }
}

/// The roots a client for the signed authority trusts instead of the built-in
/// ones, when the signed profile pins a CA.
pub fn certificates(config: &DisconnectedAuthority) -> (r: Result<Option<Vec<reqwest::Certificate>>, &'static str>)
    ensures
        match r {
            Ok(None) => certificates_result(crate::computer::option_string_view(config.ca_pem)) == Ok::<Option<nat>, Seq<char>>(None),
            Ok(Some(v)) => certificates_result(crate::computer::option_string_view(config.ca_pem)) == Ok::<Option<nat>, Seq<char>>(Some(v.len() as nat)),
            Err(e) => certificates_result(crate::computer::option_string_view(config.ca_pem)) == Err::<Option<nat>, Seq<char>>(e@),
        },
{
    let pem = match &config.ca_pem {
        Some(pem) => pem,
        None => {
            return Ok(None);
        },
    };
    let bytes = pem.as_str().as_bytes();
    if bytes.len() > MAX_RESPONSE_BYTES {
        return Err("Customer Identity CA exceeds size limit");
    }
    let parsed = match parse_pem_bundle(bytes) {
        Ok(v) => v,
        Err(_) => {
            return Err("parse signed customer Identity CA");
        },
    };
    if parsed.len() == 0 {
        return Err("Customer Identity CA contains no certificates");
    }
    Ok(Some(parsed))
}


// ----------------------------------------------------------------------------
// Resolved addresses
// ----------------------------------------------------------------------------

/// An IP address: four octets, or eight 16-bit segments.
#[derive(Clone, Copy, Debug, PartialEq, Eq)]
pub enum AuthorityIp {
    V4([u8; 4]),
    V6([u16; 8]),
}

/// An address the authority's host resolved to, with the verdict of the
/// host's network guard on its IP.
#[derive(Clone, Copy, Debug, PartialEq, Eq)]
pub struct ResolvedAddress {
    pub ip: AuthorityIp,
    pub port: u16,
    pub guard_blocked: bool,
}

/// 10.0.0.0/8, 172.16.0.0/12 or 192.168.0.0/16.
pub open spec fn v4_private(o: [u8; 4]) -> bool {
    ||| o@[0] == 10
    ||| (o@[0] == 172 && 16 <= o@[1] && o@[1] <= 31)
    ||| (o@[0] == 192 && o@[1] == 168)
}

/// 127.0.0.0/8.
pub open spec fn v4_loopback(o: [u8; 4]) -> bool {
    o@[0] == 127
}

/// fc00::/7.
pub open spec fn v6_unique_local(s: [u16; 8]) -> bool {
    0xfc00 <= s@[0] && s@[0] <= 0xfdff
}

/// ::1.
pub open spec fn v6_loopback(s: [u16; 8]) -> bool {
    s@[0] == 0 && s@[1] == 0 && s@[2] == 0 && s@[3] == 0 && s@[4] == 0 && s@[5] == 0 && s@[6] == 0
        && s@[7] == 1
}

/// fd00:ec2::/32, reserved for instance-local cloud infrastructure.
pub open spec fn v6_instance_local(s: [u16; 8]) -> bool {
    s@[0] == 0xfd00 && s@[1] == 0x0ec2
}

/// The authority may be reached at `ip`: never instance-local infrastructure,
/// and otherwise anything the guard allows plus private and loopback networks.
pub open spec fn authority_ip_allowed(ip: AuthorityIp, guard_blocked: bool) -> bool {
    match ip {
        AuthorityIp::V4(o) => !guard_blocked || v4_private(o) || v4_loopback(o),
        AuthorityIp::V6(s) => !v6_instance_local(s) && (!guard_blocked || v6_unique_local(s)
            || v6_loopback(s)),
    }
}

pub fn allowed_authority_ip(ip: AuthorityIp, guard_blocked: bool) -> (r: bool)
    ensures
        r == authority_ip_allowed(ip, guard_blocked),
{
    match ip {
        AuthorityIp::V4(o) => {
            let private = o[0] == 10 || (o[0] == 172 && 16 <= o[1] && o[1] <= 31) || (o[0] == 192
                && o[1] == 168);
            !guard_blocked || private || o[0] == 127
        },
        AuthorityIp::V6(s) => {
            if s[0] == 0xfd00 && s[1] == 0x0ec2 {
                return false;
            }
            let unique_local = 0xfc00 <= s[0] && s[0] <= 0xfdff;
            let loopback = s[0] == 0 && s[1] == 0 && s[2] == 0 && s[3] == 0 && s[4] == 0 && s[5]
                == 0 && s[6] == 0 && s[7] == 1;
            !guard_blocked || unique_local || loopback
        },
    }
}

/// Instance-local infrastructure is never an allowed authority address, not
/// even under the unique-local exception, whatever the guard says.
pub proof fn lemma_instance_local_never_allowed(s: [u16; 8], guard_blocked: bool)
    requires
        v6_instance_local(s),
    ensures
        !authority_ip_allowed(AuthorityIp::V6(s), guard_blocked),
{
}

/// Every resolved address is on `port` and allowed, and there is at least one.
pub open spec fn addresses_allowed(addresses: Seq<ResolvedAddress>, port: u16) -> bool {
    &&& addresses.len() > 0
    &&& forall|i: int|
        0 <= i < addresses.len() ==> (#[trigger] addresses[i]).port == port && authority_ip_allowed(
            addresses[i].ip,
            addresses[i].guard_blocked,
        )
}

/// The addresses the client is pinned to, or an error when any of them is
/// forbidden.
pub fn checked_addresses(addresses: Vec<ResolvedAddress>, port: u16) -> (r: Result<Vec<ResolvedAddress>, &'static str>)
    ensures
        match r {
            Ok(v) => v@ == addresses@ && addresses_allowed(addresses@, port),
            Err(e) => e@ == "Customer Identity resolved to a forbidden address"@ && !addresses_allowed(addresses@, port),
        },
{
    if addresses.len() == 0 {
        return Err("Customer Identity resolved to a forbidden address");
    }
    let mut i: usize = 0;
    while i < addresses.len()
        invariant
            i <= addresses.len(),
            forall|j: int|
                0 <= j < i ==> (#[trigger] addresses@[j]).port == port && authority_ip_allowed(
                    addresses@[j].ip,
                    addresses@[j].guard_blocked,
                ),
        decreases addresses.len() - i,
    {
        let a = addresses[i];
        if a.port != port || !allowed_authority_ip(a.ip, a.guard_blocked) {
            return Err("Customer Identity resolved to a forbidden address");
        }
        i = i + 1;
    }
    Ok(addresses)
}


// ----------------------------------------------------------------------------
// Endpoint location
// ----------------------------------------------------------------------------

/// Where `reqwest::Url::parse` locates `endpoint`: `None` when it rejects the
/// text, otherwise the host its `host_str` reports and the port its
/// `port_or_known_default` reports.
pub uninterp spec fn url_location(endpoint: Seq<char>) -> Option<(Option<Seq<char>>, Option<u16>)>;

/// Parses `endpoint` with `reqwest::Url::parse` and reads the host and port of
/// the parsed URL. The contract claims only that the outcome is the named
/// location of `endpoint`.
#[verifier::external_body]
fn parse_location(endpoint: &str) -> (r: Option<(Option<String>, Option<u16>)>)
    ensures
        match r {
            None => url_location(endpoint@) is None,
            Some((host, port)) => url_location(endpoint@) == Some(
                (crate::computer::option_string_view(host), port),
            ),
        },
{
    match reqwest::Url::parse(endpoint) {
        Ok(url) => {
            let host = match url.host_str() {
                Some(host) => Some(host.to_owned()),
                None => None,
            };
            Some((host, url.port_or_known_default()))
        },
        Err(_) => None,
    }
}

/// The bracket characters `[` and `]`.
pub open spec fn is_bracket(c: char) -> bool {
    c == '[' || c == ']'
}

/// `t` is `s` with every leading and trailing bracket removed.
pub open spec fn brackets_trimmed(s: Seq<char>, t: Seq<char>) -> bool {
    exists|a: int, b: int|
        0 <= a <= b <= s.len() && t == s.subrange(a, b) && (forall|j: int|
            0 <= j < a ==> is_bracket(#[trigger] s[j])) && (forall|j: int|
            b <= j < s.len() ==> is_bracket(#[trigger] s[j])) && (a < b ==> !is_bracket(s[a])
            && !is_bracket(s[b - 1]))
}

fn trim_brackets(s: &str) -> (r: String)
    ensures
        brackets_trimmed(s@, r@),
{
    let cs = chars_of(s);
    let mut a: usize = 0;
    while a < cs.len() && (cs[a] == '[' || cs[a] == ']')
        invariant
            cs@ == s@,
            a <= cs.len(),
            forall|j: int| 0 <= j < a ==> is_bracket(#[trigger] s@[j]),
        decreases cs.len() - a,
    {
        a = a + 1;
    }
    let mut b: usize = cs.len();
    while b > a && (cs[b - 1] == '[' || cs[b - 1] == ']')
        invariant
            cs@ == s@,
            a <= b <= cs.len(),
            forall|j: int| b <= j < s@.len() ==> is_bracket(#[trigger] s@[j]),
            a < cs.len() ==> !is_bracket(s@[a as int]),
        decreases b - a,
    {
        b = b - 1;
    }
    let r = s.substring_char(a, b).to_owned();
    assert(r@ == s@.subrange(a as int, b as int));
    r
}

/// The host and port of the signed authority endpoint, the host without the
/// brackets of an IPv6 literal.
pub fn authority_host_port(endpoint: &str) -> (r: Result<(String, u16), &'static str>)
    ensures
        match url_location(endpoint@) {
            None => r matches Err(e) && e@ == "Customer Identity endpoint is not a valid URL"@,
            Some((None, _)) => r matches Err(e) && e@ == "Customer Identity host is missing"@,
            Some((Some(_), None)) => r matches Err(e) && e@ == "Customer Identity port is missing"@,
            Some((Some(h), Some(p))) => r matches Ok((host, port)) && port == p && brackets_trimmed(
                h,
                host@,
            ),
        },
{
    let (host, port) = match parse_location(endpoint) {
        Some(location) => location,
        None => {
            return Err("Customer Identity endpoint is not a valid URL");
        },
    };
    let host = match host {
        Some(host) => trim_brackets(host.as_str()),
        None => {
            return Err("Customer Identity host is missing");
        },
    };
    let port = match port {
        Some(port) => port,
        None => {
            return Err("Customer Identity port is missing");
        },
    };
    Ok((host, port))
}

} // verus!
