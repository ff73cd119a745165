//! Typed task-Computer workspace operations, the owner's reported results,
//! and the rules that decide whether a result answers the admitted request.

use sha2::Digest;
use vstd::prelude::*;

use crate::text::{
    blank, byte_len, chars_of, contains_char, contains_control, has_control, is_blank,
    is_control, is_control_char, is_hex_byte, is_white_space, is_white_space_char, same_string,
    same_text, copy_string,
};
use vstd::utf8::encode_utf8;

verus! {

pub const CODING_WORKSPACE_SCHEMA: &'static str = "dex.computer_coding_workspace.v1";


#[derive(Clone, Debug, PartialEq, Eq)]
pub enum CodingWorkspaceRequest {
    Baseline { idempotency_key: String },
    Inspect { expected_base_revision: String },
    Readiness {
        idempotency_key: String,
        expected_revision: String,
        command: String,
        timeout_ms: u64,
    },
    Outputs { expected_base_revision: String, expected_revision: String, paths: Vec<String> },
}

#[derive(Clone, Copy, Debug, PartialEq, Eq, Structural)]
pub enum CodingWorkspaceBaselineKind {
    AcceptedSnapshot,
}

#[derive(Clone, Debug, PartialEq, Eq)]
pub struct CodingWorkspaceResponse {
    pub schema: String,
    pub project_resource_id: String,
    pub accepted_snapshot_id: String,
    pub source_workspace_id: String,
    pub task_computer_id: String,
    pub run_id: String,
    pub tool_execution_id: String,
    pub owner_lease_epoch: u64,
    pub base_revision: String,
    pub revision: String,
    pub baseline_kind: CodingWorkspaceBaselineKind,
    pub clean: bool,
    pub readiness: Option<CodingWorkspaceReadiness>,
    pub outputs: Vec<CodingWorkspaceOutput>,
}

#[derive(Clone, Debug, PartialEq, Eq)]
pub struct CodingWorkspaceReadiness {
    pub command: String,
    pub revision_before: String,
    pub revision_after: String,
    pub exit_code: i32,
    pub stdout: String,
    pub stderr: String,
    pub truncated: bool,
    pub timed_out: bool,
}

#[derive(Clone, Debug, PartialEq, Eq)]
pub struct CodingWorkspaceOutput {
    pub path: String,
    pub sha256: String,
    pub content: String,
    pub git_blob_id: String,
}

/// References only. The worker resolves these against its own settled records.
#[derive(Clone, Debug, PartialEq, Eq)]
pub struct ComputerCodingProof {
    pub baseline_execution_id: String,
    pub inspection_execution_id: String,
    pub outputs_execution_id: Option<String>,
    pub readiness_execution_ids: Vec<String>,
}

// ----------------------------------------------------------------------------
// Mathematical models
// ----------------------------------------------------------------------------

pub open spec fn strings_view(v: Seq<String>) -> Seq<Seq<char>> {
    v.map_values(|s: String| s@)
}

pub open spec fn option_string_view(o: Option<String>) -> Option<Seq<char>> {
    match o {
        Some(s) => Some(s@),
        None => None,
    }
}

pub enum CodingWorkspaceRequestView {
    Baseline { idempotency_key: Seq<char> },
    Inspect { expected_base_revision: Seq<char> },
    Readiness {
        idempotency_key: Seq<char>,
        expected_revision: Seq<char>,
        command: Seq<char>,
        timeout_ms: u64,
    },
    Outputs {
        expected_base_revision: Seq<char>,
        expected_revision: Seq<char>,
        paths: Seq<Seq<char>>,
    },
}

impl View for CodingWorkspaceRequest {
    type V = CodingWorkspaceRequestView;

    open spec fn view(&self) -> CodingWorkspaceRequestView {
        match self {
            CodingWorkspaceRequest::Baseline { idempotency_key } => {
                CodingWorkspaceRequestView::Baseline { idempotency_key: idempotency_key@ }
            },
            CodingWorkspaceRequest::Inspect { expected_base_revision } => {
                CodingWorkspaceRequestView::Inspect {
                    expected_base_revision: expected_base_revision@,
                }
            },
            CodingWorkspaceRequest::Readiness {
                idempotency_key,
                expected_revision,
                command,
                timeout_ms,
            } => CodingWorkspaceRequestView::Readiness {
                idempotency_key: idempotency_key@,
                expected_revision: expected_revision@,
                command: command@,
                timeout_ms: *timeout_ms,
            },
            CodingWorkspaceRequest::Outputs { expected_base_revision, expected_revision, paths } => {
                CodingWorkspaceRequestView::Outputs {
                    expected_base_revision: expected_base_revision@,
                    expected_revision: expected_revision@,
                    paths: strings_view(paths@),
                }
            },
        }
    }
}

pub struct CodingWorkspaceReadinessView {
    pub command: Seq<char>,
    pub revision_before: Seq<char>,
    pub revision_after: Seq<char>,
    pub exit_code: i32,
    pub stdout: Seq<char>,
    pub stderr: Seq<char>,
    pub truncated: bool,
    pub timed_out: bool,
}

impl View for CodingWorkspaceReadiness {
    type V = CodingWorkspaceReadinessView;

    open spec fn view(&self) -> CodingWorkspaceReadinessView {
        CodingWorkspaceReadinessView {
            command: self.command@,
            revision_before: self.revision_before@,
            revision_after: self.revision_after@,
            exit_code: self.exit_code,
            stdout: self.stdout@,
            stderr: self.stderr@,
            truncated: self.truncated,
            timed_out: self.timed_out,
        }
    }
}

pub struct CodingWorkspaceOutputView {
    pub path: Seq<char>,
    pub sha256: Seq<char>,
    pub content: Seq<char>,
    pub git_blob_id: Seq<char>,
}

impl View for CodingWorkspaceOutput {
    type V = CodingWorkspaceOutputView;

    open spec fn view(&self) -> CodingWorkspaceOutputView {
        CodingWorkspaceOutputView {
            path: self.path@,
            sha256: self.sha256@,
            content: self.content@,
            git_blob_id: self.git_blob_id@,
        }
    }
}

pub open spec fn outputs_view(v: Seq<CodingWorkspaceOutput>) -> Seq<CodingWorkspaceOutputView> {
    v.map_values(|o: CodingWorkspaceOutput| o@)
}

pub struct CodingWorkspaceResponseView {
    pub schema: Seq<char>,
    pub project_resource_id: Seq<char>,
    pub accepted_snapshot_id: Seq<char>,
    pub source_workspace_id: Seq<char>,
    pub task_computer_id: Seq<char>,
    pub run_id: Seq<char>,
    pub tool_execution_id: Seq<char>,
    pub owner_lease_epoch: u64,
    pub base_revision: Seq<char>,
    pub revision: Seq<char>,
    pub baseline_kind: CodingWorkspaceBaselineKind,
    pub clean: bool,
    pub readiness: Option<CodingWorkspaceReadinessView>,
    pub outputs: Seq<CodingWorkspaceOutputView>,
}

impl View for CodingWorkspaceResponse {
    type V = CodingWorkspaceResponseView;

    open spec fn view(&self) -> CodingWorkspaceResponseView {
        CodingWorkspaceResponseView {
            schema: self.schema@,
            project_resource_id: self.project_resource_id@,
            accepted_snapshot_id: self.accepted_snapshot_id@,
            source_workspace_id: self.source_workspace_id@,
            task_computer_id: self.task_computer_id@,
            run_id: self.run_id@,
            tool_execution_id: self.tool_execution_id@,
            owner_lease_epoch: self.owner_lease_epoch,
            base_revision: self.base_revision@,
            revision: self.revision@,
            baseline_kind: self.baseline_kind,
            clean: self.clean,
            readiness: match self.readiness {
                Some(r) => Some(r@),
                None => None,
            },
            outputs: outputs_view(self.outputs@),
        }
    }
}

pub struct ComputerCodingProofView {
    pub baseline_execution_id: Seq<char>,
    pub inspection_execution_id: Seq<char>,
    pub outputs_execution_id: Option<Seq<char>>,
    pub readiness_execution_ids: Seq<Seq<char>>,
}

impl View for ComputerCodingProof {
    type V = ComputerCodingProofView;

    open spec fn view(&self) -> ComputerCodingProofView {
        ComputerCodingProofView {
            baseline_execution_id: self.baseline_execution_id@,
            inspection_execution_id: self.inspection_execution_id@,
            outputs_execution_id: option_string_view(self.outputs_execution_id),
            readiness_execution_ids: strings_view(self.readiness_execution_ids@),
        }
    }
}

// ----------------------------------------------------------------------------
// Field rules
// ----------------------------------------------------------------------------

/// An owner idempotency key: present, at most 256 bytes, and free of control
/// and white-space characters.
pub open spec fn idempotency_key_ok(s: Seq<char>) -> bool {
    &&& s.len() > 0
    &&& byte_len(s) <= 256
    &&& forall|i: int| 0 <= i < s.len() ==> !is_control_char(#[trigger] s[i]) && !is_white_space_char(s[i])
}

/// A Git object name: 40 (SHA-1) or 64 (SHA-256) hexadecimal bytes.
pub open spec fn revision_ok(s: Seq<char>) -> bool {
    let b = encode_utf8(s);
    &&& (b.len() == 40 || b.len() == 64)
    &&& forall|i: int| 0 <= i < b.len() ==> is_hex_byte(#[trigger] b[i])
}

/// Position `i` of `p` opens a path segment.
pub open spec fn segment_start(p: Seq<char>, i: int) -> bool {
    i == 0 || p[i - 1] == '/'
}

/// The segment that opens at `i` is non-empty and is neither `.` nor `..`.
pub open spec fn normal_segment_at(p: Seq<char>, i: int) -> bool {
    &&& !(i == p.len() || p[i] == '/')
    &&& !(p[i] == '.' && (i + 1 == p.len() || p[i + 1] == '/'))
    &&& !(p[i] == '.' && i + 1 < p.len() && p[i + 1] == '.' && (i + 2 == p.len() || p[i + 2]
        == '/'))
}

/// An output path: a relative path of normal `/`-separated segments, with no
/// backslash and no control character.
pub open spec fn output_path_ok(p: Seq<char>) -> bool {
    &&& forall|i: int| 0 <= i < p.len() ==> !is_control_char(#[trigger] p[i]) && p[i] != '\\'
    &&& forall|i: int| 0 <= i <= p.len() && #[trigger] segment_start(p, i) ==> normal_segment_at(p, i)
}

/// No two entries of `s` are equal.
pub open spec fn distinct<A>(s: Seq<A>) -> bool {
    forall|i: int, j: int| 0 <= i < s.len() && 0 <= j < s.len() && i != j ==> s[i] != s[j]
}

/// A captured-output path list: one to eight distinct output paths, none of
/// them the source manifest.
pub open spec fn paths_ok(paths: Seq<Seq<char>>) -> bool {
    &&& paths.len() > 0
    &&& paths.len() <= 8
    &&& forall|i: int| 0 <= i < paths.len() ==> output_path_ok(#[trigger] paths[i]) && paths[i]
        != ".dex-source.json"@
    &&& distinct(paths)
}

/// What `CodingWorkspaceRequest::validate` accepts.
pub open spec fn request_ok(q: CodingWorkspaceRequestView) -> bool {
    match q {
        CodingWorkspaceRequestView::Baseline { idempotency_key } => idempotency_key_ok(
            idempotency_key,
        ),
        CodingWorkspaceRequestView::Inspect { expected_base_revision } => revision_ok(
            expected_base_revision,
        ),
        CodingWorkspaceRequestView::Readiness {
            idempotency_key,
            expected_revision,
            command,
            timeout_ms,
        } => {
            &&& idempotency_key_ok(idempotency_key)
            &&& revision_ok(expected_revision)
            &&& !is_blank(command)
            &&& byte_len(command) <= 16_384
            &&& !command.contains('\0')
            &&& 1 <= timeout_ms <= 120_000
        },
        CodingWorkspaceRequestView::Outputs { expected_base_revision, expected_revision, paths } => {
            &&& revision_ok(expected_base_revision)
            &&& revision_ok(expected_revision)
            &&& expected_base_revision != expected_revision
            &&& paths_ok(paths)
        },
    }
}

pub open spec fn request_result(q: CodingWorkspaceRequestView) -> Result<(), Seq<char>> {
    if request_ok(q) {
        Ok(())
    } else {
        Err("invalid coding workspace request"@)
    }
}

/// An identity field of a response: not blank, at most 1024 bytes, no control
/// character.
pub open spec fn identity_field_ok(s: Seq<char>) -> bool {
    !is_blank(s) && byte_len(s) <= 1024 && !has_control(s)
}

pub open spec fn identity_ok(r: CodingWorkspaceResponseView) -> bool {
    &&& r.owner_lease_epoch != 0
    &&& r.schema == "dex.computer_coding_workspace.v1"@
    &&& identity_field_ok(r.project_resource_id)
    &&& identity_field_ok(r.accepted_snapshot_id)
    &&& identity_field_ok(r.source_workspace_id)
    &&& identity_field_ok(r.task_computer_id)
    &&& identity_field_ok(r.run_id)
    &&& identity_field_ok(r.tool_execution_id)
    &&& revision_ok(r.base_revision)
    &&& revision_ok(r.revision)
}

pub open spec fn readiness_result_ok(x: CodingWorkspaceReadinessView) -> bool {
    &&& !is_blank(x.command)
    &&& byte_len(x.command) <= 16_384
    &&& revision_ok(x.revision_before)
    &&& revision_ok(x.revision_after)
    &&& byte_len(x.stdout) + byte_len(x.stderr) <= 16_384
}

pub open spec fn output_paths_of(outputs: Seq<CodingWorkspaceOutputView>) -> Seq<Seq<char>> {
    outputs.map_values(|o: CodingWorkspaceOutputView| o.path)
}

/// Total bytes of captured content.
pub open spec fn content_bytes(outputs: Seq<CodingWorkspaceOutputView>) -> nat
    decreases outputs.len(),
{
    if outputs.len() == 0 {
        0
    } else {
        content_bytes(outputs.drop_last()) + byte_len(outputs.last().content)
    }
}

/// The digest the `sha2` crate computes for the UTF-8 bytes of `content`,
/// rendered as lower-case hexadecimal.
pub uninterp spec fn sha256_lower_hex(content: Seq<char>) -> Seq<char>;

/// Hashes the UTF-8 bytes of `content` with `sha2::Sha256::digest` and renders
/// the digest through its `LowerHex` formatting. The contract claims only that
/// the result is the named digest of `content`; nothing is claimed about its
/// value.
#[verifier::external_body]
fn sha256_hex(content: &str) -> (digest: String)
    ensures
        digest@ == sha256_lower_hex(content@),
{
    format!("{:x}", sha2::Sha256::digest(content.as_bytes()))
}

pub open spec fn output_content_ok(o: CodingWorkspaceOutputView) -> bool {
    &&& o.content.len() > 0
    &&& byte_len(o.content) <= 8192
    &&& revision_ok(o.git_blob_id)
    &&& o.sha256 == sha256_lower_hex(o.content)
}

/// What `CodingWorkspaceResponse::validate` returns.
pub open spec fn response_result(r: CodingWorkspaceResponseView) -> Result<(), Seq<char>> {
    if !identity_ok(r) {
        Err("invalid coding workspace identity"@)
    } else if r.readiness matches Some(x) && !readiness_result_ok(x) {
        Err("invalid coding readiness result"@)
    } else if r.outputs.len() > 0 && (!paths_ok(output_paths_of(r.outputs)) || content_bytes(
        r.outputs,
    ) > 16_384) {
        Err("invalid coding output manifest"@)
    } else if r.outputs.len() > 0 && exists|i: int|
        0 <= i < r.outputs.len() && !output_content_ok(#[trigger] r.outputs[i]) {
        Err("invalid coding output content"@)
    } else {
        Ok(())
    }
}

/// The response has the shape of an answer to `q`.
pub open spec fn answers(r: CodingWorkspaceResponseView, q: CodingWorkspaceRequestView) -> bool {
    match q {
        CodingWorkspaceRequestView::Baseline { .. } => {
            r.clean && r.outputs.len() == 0 && r.readiness is None
        },
        CodingWorkspaceRequestView::Inspect { expected_base_revision } => {
            r.base_revision == expected_base_revision && r.outputs.len() == 0 && r.readiness is None
        },
        CodingWorkspaceRequestView::Readiness { expected_revision, command, .. } => {
            &&& r.clean
            &&& r.revision == expected_revision
            &&& r.outputs.len() == 0
            &&& r.readiness matches Some(x) && x.command == command && x.revision_before
                == expected_revision && x.revision_after == expected_revision
        },
        CodingWorkspaceRequestView::Outputs { expected_base_revision, expected_revision, paths } => {
            &&& r.clean
            &&& r.base_revision == expected_base_revision
            &&& r.revision == expected_revision
            &&& r.readiness is None
            &&& r.outputs.len() == paths.len()
            &&& output_paths_of(r.outputs).to_set() == paths.to_set()
        },
    }
}

/// What `CodingWorkspaceResponse::validate_for` returns.
#[verifier::opaque]
pub open spec fn answer_result(
    r: CodingWorkspaceResponseView,
    q: CodingWorkspaceRequestView,
) -> Result<(), Seq<char>> {
    if request_result(q) is Err {
        request_result(q)
    } else if response_result(r) is Err {
        response_result(r)
    } else if answers(r, q) {
        Ok(())
    } else {
        Err("coding workspace result does not match admitted operation"@)
    }
}

pub open spec fn unit_result_matches(res: Result<(), &'static str>, s: Result<(), Seq<char>>) -> bool {
    match res {
        Ok(()) => s is Ok,
        Err(e) => s == Err::<(), Seq<char>>(e@),
    }
}

// ----------------------------------------------------------------------------
// Executable rules
// ----------------------------------------------------------------------------

fn idempotency_valid(value: &str) -> (r: bool)
    ensures
        r == idempotency_key_ok(value@),
{
    if value.is_empty() || value.as_bytes().len() > 256 {
        return false;
    }
    let cs = chars_of(value);
    let mut i: usize = 0;
    while i < cs.len()
        invariant
            cs@ == value@,
            i <= cs.len(),
            forall|j: int|
                0 <= j < i ==> !is_control_char(#[trigger] cs@[j]) && !is_white_space_char(cs@[j]),
        decreases cs.len() - i,
    {
        if is_control(cs[i]) || is_white_space(cs[i]) {
            return false;
        }
        i = i + 1;
    }
    true
}

fn revision_valid(value: &str) -> (r: bool)
    ensures
        r == revision_ok(value@),
{
    let bytes = value.as_bytes();
    if bytes.len() != 40 && bytes.len() != 64 {
        return false;
    }
    let mut i: usize = 0;
    while i < bytes.len()
        invariant
            bytes@ == encode_utf8(value@),
            i <= bytes.len(),
            forall|j: int| 0 <= j < i ==> is_hex_byte(#[trigger] bytes@[j]),
        decreases bytes.len() - i,
    {
        let b = bytes[i];
        if !((0x30 <= b && b <= 0x39) || (0x41 <= b && b <= 0x46) || (0x61 <= b && b <= 0x66)) {
            return false;
        }
        i = i + 1;
    }
    true
}

fn valid_output_path(path: &str) -> (r: bool)
    ensures
        r == output_path_ok(path@),
{
    let p = chars_of(path);
    let n = p.len();
    let mut i: usize = 0;
    while i < n
        invariant
            p@ == path@,
            n == p.len(),
            i <= n,
            forall|j: int| 0 <= j < i ==> !is_control_char(#[trigger] p@[j]) && p@[j] != '\\',
        decreases n - i,
    {
        if is_control(p[i]) || p[i] == '\\' {
            return false;
        }
        i = i + 1;
    }
    let mut i: usize = 0;
    while i < n
        invariant
            p@ == path@,
            n == p.len(),
            i <= n,
            forall|j: int| 0 <= j < i && #[trigger] segment_start(p@, j) ==> normal_segment_at(p@, j),
        decreases n - i,
    {
        if i == 0 || p[i - 1] == '/' {
            assert(segment_start(p@, i as int));
            if p[i] == '/' {
                return false;
            }
            if p[i] == '.' && (i + 1 == n || p[i + 1] == '/') {
                return false;
            }
            if p[i] == '.' && i + 1 < n && p[i + 1] == '.' && (i + 2 == n || p[i + 2] == '/') {
                return false;
            }
        }
        i = i + 1;
    }
    if n == 0 || p[n - 1] == '/' {
        assert(segment_start(p@, n as int));
        return false;
    }
    assert forall|j: int| 0 <= j <= p@.len() && #[trigger] segment_start(p@, j) implies normal_segment_at(p@, j) by {
        if j == n {
            assert(p@[j - 1] != '/');
        }
    }
    true
}

fn paths_valid(paths: &Vec<String>) -> (r: bool)
    ensures
        r == paths_ok(strings_view(paths@)),
{
    let ghost v = strings_view(paths@);
    if paths.len() == 0 || paths.len() > 8 {
        return false;
    }
    let manifest = ".dex-source.json";
    proof {
        reveal_strlit(".dex-source.json");
    }
    assert(manifest@ == ".dex-source.json"@);
    let mut i: usize = 0;
    while i < paths.len()
        invariant
            v == strings_view(paths@),
            manifest@ == ".dex-source.json"@,
            i <= paths.len(),
            forall|j: int| 0 <= j < i ==> output_path_ok(#[trigger] v[j]) && v[j] != ".dex-source.json"@,
        decreases paths.len() - i,
    {
        assert(v[i as int] == paths@[i as int]@);
        let pi = paths[i].as_str();
        assert(pi@ == v[i as int]);
        let ok = valid_output_path(pi);
        let is_manifest = same_text(pi, manifest);
        assert(ok == output_path_ok(v[i as int]));
        assert(is_manifest == (v[i as int] == ".dex-source.json"@));
        if !ok || is_manifest {
            return false;
        }
        i = i + 1;
    }
    let mut i: usize = 0;
    while i < paths.len()
        invariant
            v == strings_view(paths@),
            i <= paths.len(),
            forall|a: int, b: int| 0 <= a < i && 0 <= b < paths.len() && a != b ==> v[a] != v[b],
        decreases paths.len() - i,
    {
        let mut j: usize = 0;
        while j < paths.len()
            invariant
                v == strings_view(paths@),
                i < paths.len(),
                j <= paths.len(),
                forall|a: int, b: int| 0 <= a < i && 0 <= b < paths.len() && a != b ==> v[a] != v[b],
                forall|b: int| 0 <= b < j && b != i ==> v[i as int] != v[b],
            decreases paths.len() - j,
        {
            assert(v[i as int] == paths@[i as int]@);
            assert(v[j as int] == paths@[j as int]@);
            if j != i && same_string(&paths[i], &paths[j]) {
                return false;
            }
            j = j + 1;
        }
        i = i + 1;
    }
    true
}

} // verus!

verus! {

/// Whether `s` occurs among `v`.
pub fn string_in(s: &String, v: &Vec<String>) -> (r: bool)
    ensures
        r == strings_view(v@).contains(s@),
{
    let ghost w = strings_view(v@);
    let mut i: usize = 0;
    while i < v.len()
        invariant
            w == strings_view(v@),
            i <= v.len(),
            forall|j: int| 0 <= j < i ==> w[j] != s@,
        decreases v.len() - i,
    {
        assert(w[i as int] == v@[i as int]@);
        if same_string(s, &v[i]) {
            assert(w.contains(s@));
            return true;
        }
        i = i + 1;
    }
    false
}

fn identity_field_valid(s: &String) -> (r: bool)
    ensures
        r == identity_field_ok(s@),
{
    !blank(s.as_str()) && s.as_str().as_bytes().len() <= 1024 && !contains_control(s.as_str())
}

fn readiness_result_valid(x: &CodingWorkspaceReadiness) -> (r: bool)
    ensures
        r == readiness_result_ok(x@),
{
    let out = x.stdout.as_str().as_bytes().len();
    let err = x.stderr.as_str().as_bytes().len();
    !blank(x.command.as_str()) && x.command.as_str().as_bytes().len() <= 16_384 && revision_valid(
        x.revision_before.as_str(),
    ) && revision_valid(x.revision_after.as_str()) && out <= 16_384 && err <= 16_384 - out
}

fn output_paths(outputs: &Vec<CodingWorkspaceOutput>) -> (paths: Vec<String>)
    ensures
        strings_view(paths@) == output_paths_of(outputs_view(outputs@)),
{
    let mut paths: Vec<String> = Vec::new();
    let mut i: usize = 0;
    while i < outputs.len()
        invariant
            i <= outputs.len(),
            paths@.len() == i,
            forall|j: int| 0 <= j < i ==> #[trigger] paths@[j]@ == outputs@[j].path@,
        decreases outputs.len() - i,
    {
        paths.push(copy_string(&outputs[i].path));
        i = i + 1;
    }
    assert(strings_view(paths@) =~= output_paths_of(outputs_view(outputs@)));
    paths
}

/// Whether the captured content totals at most 16 KiB.
fn content_within_limit(outputs: &Vec<CodingWorkspaceOutput>) -> (r: bool)
    ensures
        r == (content_bytes(outputs_view(outputs@)) <= 16_384),
{
    let ghost o = outputs_view(outputs@);
    let mut total: usize = 0;
    let mut i: usize = 0;
    while i < outputs.len()
        invariant
            o == outputs_view(outputs@),
            i <= outputs.len(),
            total == content_bytes(o.take(i as int)),
            total <= 16_384,
        decreases outputs.len() - i,
    {
        let n = outputs[i].content.as_str().as_bytes().len();
        assert(o.take(i + 1).drop_last() =~= o.take(i as int));
        assert(o.take(i + 1).last() == o[i as int]);
        if n > 16_384 - total {
            proof {
                lemma_content_bytes_prefix(o, i + 1);
            }
            return false;
        }
        total = total + n;
        i = i + 1;
    }
    assert(o.take(i as int) =~= o);
    true
}

/// Content bytes never shrink as outputs are added.
proof fn lemma_content_bytes_prefix(o: Seq<CodingWorkspaceOutputView>, k: int)
    requires
        0 <= k <= o.len(),
    ensures
        content_bytes(o.take(k)) <= content_bytes(o),
    decreases o.len() - k,
{
    if k < o.len() {
        lemma_content_bytes_prefix(o, k + 1);
        assert(o.take(k + 1).drop_last() =~= o.take(k));
    } else {
        assert(o.take(k) =~= o);
    }
}

fn output_content_valid(o: &CodingWorkspaceOutput) -> (r: bool)
    ensures
        r == output_content_ok(o@),
{
    if o.content.as_str().is_empty() || o.content.as_str().as_bytes().len() > 8192
        || !revision_valid(o.git_blob_id.as_str()) {
        return false;
    }
    let digest = sha256_hex(o.content.as_str());
    same_string(&o.sha256, &digest)
}

/// Whether the paths of `outputs` and `paths` form the same set.
pub(crate) fn same_path_set(outputs: &Vec<CodingWorkspaceOutput>, paths: &Vec<String>) -> (r: bool)
    ensures
        r == (output_paths_of(outputs_view(outputs@)).to_set() == strings_view(paths@).to_set()),
{
    let captured = output_paths(outputs);
    let ghost a = strings_view(captured@);
    let ghost b = strings_view(paths@);
    let mut i: usize = 0;
    while i < captured.len()
        invariant
            a == strings_view(captured@),
            a == output_paths_of(outputs_view(outputs@)),
            b == strings_view(paths@),
            i <= captured.len(),
            forall|j: int| 0 <= j < i ==> b.contains(#[trigger] a[j]),
        decreases captured.len() - i,
    {
        assert(a[i as int] == captured@[i as int]@);
        if !string_in(&captured[i], paths) {
            assert(a.to_set().contains(a[i as int]));
            assert(!b.to_set().contains(a[i as int]));
            assert(a.to_set() != b.to_set());
            return false;
        }
        i = i + 1;
    }
    let mut i: usize = 0;
    while i < paths.len()
        invariant
            a == strings_view(captured@),
            a == output_paths_of(outputs_view(outputs@)),
            b == strings_view(paths@),
            i <= paths.len(),
            forall|j: int| 0 <= j < a.len() ==> b.contains(#[trigger] a[j]),
            forall|j: int| 0 <= j < i ==> a.contains(#[trigger] b[j]),
        decreases paths.len() - i,
    {
        assert(b[i as int] == paths@[i as int]@);
        if !string_in(&paths[i], &captured) {
            assert(b.to_set().contains(b[i as int]));
            assert(!a.to_set().contains(b[i as int]));
            assert(a.to_set() != b.to_set());
            return false;
        }
        i = i + 1;
    }
    assert forall|x: Seq<char>| a.to_set().contains(x) implies b.to_set().contains(x) by {
        let j = choose|j: int| 0 <= j < a.len() && a[j] == x;
        assert(b.contains(a[j]));
    }
    assert forall|x: Seq<char>| b.to_set().contains(x) implies a.to_set().contains(x) by {
        let j = choose|j: int| 0 <= j < b.len() && b[j] == x;
        assert(a.contains(b[j]));
    }
    assert(a.to_set() =~= b.to_set());
    true
}

impl CodingWorkspaceRequest {
    pub fn validate(&self) -> (r: Result<(), &'static str>)
        ensures
            unit_result_matches(r, request_result(self@)),
    {
        let valid = match self {
            CodingWorkspaceRequest::Baseline { idempotency_key } => idempotency_valid(
                idempotency_key.as_str(),
            ),
            CodingWorkspaceRequest::Inspect { expected_base_revision } => revision_valid(
                expected_base_revision.as_str(),
            ),
            CodingWorkspaceRequest::Readiness {
                idempotency_key,
                expected_revision,
                command,
                timeout_ms,
            } => {
                idempotency_valid(idempotency_key.as_str()) && revision_valid(
                    expected_revision.as_str(),
                ) && !blank(command.as_str()) && command.as_str().as_bytes().len() <= 16_384
                    && !contains_char(command.as_str(), '\0') && 1 <= *timeout_ms && *timeout_ms
                    <= 120_000
            },
            CodingWorkspaceRequest::Outputs { expected_base_revision, expected_revision, paths } => {
                revision_valid(expected_base_revision.as_str()) && revision_valid(
                    expected_revision.as_str(),
                ) && !same_string(expected_base_revision, expected_revision) && paths_valid(paths)
            },
        };
        if valid {
            Ok(())
        } else {
            Err("invalid coding workspace request")
        }
    }
}

impl CodingWorkspaceResponse {
    pub fn validate(&self) -> (r: Result<(), &'static str>)
        ensures
            unit_result_matches(r, response_result(self@)),
    {
        proof {
            reveal_strlit("dex.computer_coding_workspace.v1");
        }
        if self.owner_lease_epoch == 0 || !same_text(
            self.schema.as_str(),
            "dex.computer_coding_workspace.v1",
        ) || !identity_field_valid(&self.project_resource_id) || !identity_field_valid(
            &self.accepted_snapshot_id,
        ) || !identity_field_valid(&self.source_workspace_id) || !identity_field_valid(
            &self.task_computer_id,
        ) || !identity_field_valid(&self.run_id) || !identity_field_valid(&self.tool_execution_id)
            || !revision_valid(self.base_revision.as_str()) || !revision_valid(
            self.revision.as_str(),
        ) {
            return Err("invalid coding workspace identity");
        }
        if let Some(readiness) = &self.readiness {
            if !readiness_result_valid(readiness) {
                return Err("invalid coding readiness result");
            }
        }
        if self.outputs.len() > 0 {
            let paths = output_paths(&self.outputs);
            if !paths_valid(&paths) || !content_within_limit(&self.outputs) {
                return Err("invalid coding output manifest");
            }
            let ghost o = outputs_view(self.outputs@);
            let mut i: usize = 0;
            while i < self.outputs.len()
                invariant
                    o == outputs_view(self.outputs@),
                    o == self@.outputs,
                    o.len() > 0,
                    identity_ok(self@),
                    !(self@.readiness matches Some(x) && !readiness_result_ok(x)),
                    paths_ok(output_paths_of(o)),
                    content_bytes(o) <= 16_384,
                    i <= self.outputs.len(),
                    forall|j: int| 0 <= j < i ==> output_content_ok(#[trigger] o[j]),
                decreases self.outputs.len() - i,
            {
                if !output_content_valid(&self.outputs[i]) {
                    assert(!output_content_ok(o[i as int]));
                    return Err("invalid coding output content");
                }
                i = i + 1;
            }
        }
        Ok(())
    }

    /// Validate the owner response shape against the operation actually admitted.
    /// Tenant/task/run equality remains the caller's owner-linkage check.
    pub fn validate_for(&self, request: &CodingWorkspaceRequest) -> (r: Result<(), &'static str>)
        ensures
            unit_result_matches(r, answer_result(self@, request@)),
    {
        reveal(answer_result);
        match request.validate() {
            Ok(()) => {},
            Err(e) => return Err(e),
        }
        match self.validate() {
            Ok(()) => {},
            Err(e) => return Err(e),
        }
        let valid = match request {
            CodingWorkspaceRequest::Baseline { .. } => {
                // A fresh owner can observe committed progress without resetting it.
                self.clean && self.outputs.len() == 0 && self.readiness.is_none()
            },
            CodingWorkspaceRequest::Inspect { expected_base_revision } => {
                same_string(&self.base_revision, expected_base_revision) && self.outputs.len() == 0
                    && self.readiness.is_none()
            },
            CodingWorkspaceRequest::Readiness { expected_revision, command, .. } => {
                self.clean && same_string(&self.revision, expected_revision) && self.outputs.len()
                    == 0 && match &self.readiness {
                    Some(readiness) => same_string(&readiness.command, command) && same_string(
                        &readiness.revision_before,
                        expected_revision,
                    ) && same_string(&readiness.revision_after, expected_revision),
                    None => false,
                }
            },
            CodingWorkspaceRequest::Outputs { expected_base_revision, expected_revision, paths } => {
                self.clean && same_string(&self.base_revision, expected_base_revision)
                    && same_string(&self.revision, expected_revision) && self.readiness.is_none()
                    && self.outputs.len() == paths.len() && same_path_set(&self.outputs, paths)
            },
        };
        if valid {
            Ok(())
        } else {
            Err("coding workspace result does not match admitted operation")
        }
    }
}


/// Whether `a` and `b` hold the same strings in the same order.
pub fn same_strings(a: &Vec<String>, b: &Vec<String>) -> (r: bool)
    ensures
        r == (strings_view(a@) == strings_view(b@)),
{
    let ghost x = strings_view(a@);
    let ghost y = strings_view(b@);
    if a.len() != b.len() {
        assert(x.len() != y.len());
        return false;
    }
    let mut i: usize = 0;
    while i < a.len()
        invariant
            x == strings_view(a@),
            y == strings_view(b@),
            a.len() == b.len(),
            i <= a.len(),
            forall|j: int| 0 <= j < i ==> x[j] == y[j],
        decreases a.len() - i,
    {
        assert(x[i as int] == a@[i as int]@ && y[i as int] == b@[i as int]@);
        if !same_string(&a[i], &b[i]) {
            return false;
        }
        i = i + 1;
    }
    assert(x =~= y);
    true
}

pub fn same_request(a: &CodingWorkspaceRequest, b: &CodingWorkspaceRequest) -> (r: bool)
    ensures
        r == (a@ == b@),
{
    match (a, b) {
        (
            CodingWorkspaceRequest::Baseline { idempotency_key: x },
            CodingWorkspaceRequest::Baseline { idempotency_key: y },
        ) => same_string(x, y),
        (
            CodingWorkspaceRequest::Inspect { expected_base_revision: x },
            CodingWorkspaceRequest::Inspect { expected_base_revision: y },
        ) => same_string(x, y),
        (
            CodingWorkspaceRequest::Readiness {
                idempotency_key: k1,
                expected_revision: r1,
                command: c1,
                timeout_ms: t1,
            },
            CodingWorkspaceRequest::Readiness {
                idempotency_key: k2,
                expected_revision: r2,
                command: c2,
                timeout_ms: t2,
            },
        ) => same_string(k1, k2) && same_string(r1, r2) && same_string(c1, c2) && *t1 == *t2,
        (
            CodingWorkspaceRequest::Outputs {
                expected_base_revision: b1,
                expected_revision: r1,
                paths: p1,
            },
            CodingWorkspaceRequest::Outputs {
                expected_base_revision: b2,
                expected_revision: r2,
                paths: p2,
            },
        ) => same_string(b1, b2) && same_string(r1, r2) && same_strings(p1, p2),
        _ => false,
    }
}

fn same_readiness(a: &CodingWorkspaceReadiness, b: &CodingWorkspaceReadiness) -> (r: bool)
    ensures
        r == (a@ == b@),
{
    same_string(&a.command, &b.command) && same_string(&a.revision_before, &b.revision_before)
        && same_string(&a.revision_after, &b.revision_after) && a.exit_code == b.exit_code
        && same_string(&a.stdout, &b.stdout) && same_string(&a.stderr, &b.stderr) && a.truncated
        == b.truncated && a.timed_out == b.timed_out
}

fn same_output(a: &CodingWorkspaceOutput, b: &CodingWorkspaceOutput) -> (r: bool)
    ensures
        r == (a@ == b@),
{
    same_string(&a.path, &b.path) && same_string(&a.sha256, &b.sha256) && same_string(
        &a.content,
        &b.content,
    ) && same_string(&a.git_blob_id, &b.git_blob_id)
}

fn same_outputs(a: &Vec<CodingWorkspaceOutput>, b: &Vec<CodingWorkspaceOutput>) -> (r: bool)
    ensures
        r == (outputs_view(a@) == outputs_view(b@)),
{
    let ghost x = outputs_view(a@);
    let ghost y = outputs_view(b@);
    if a.len() != b.len() {
        assert(x.len() != y.len());
        return false;
    }
    let mut i: usize = 0;
    while i < a.len()
        invariant
            x == outputs_view(a@),
            y == outputs_view(b@),
            a.len() == b.len(),
            i <= a.len(),
            forall|j: int| 0 <= j < i ==> x[j] == y[j],
        decreases a.len() - i,
    {
        if !same_output(&a[i], &b[i]) {
            assert(x[i as int] != y[i as int]);
            return false;
        }
        i = i + 1;
    }
    assert(x =~= y);
    true
}

pub fn same_response(a: &CodingWorkspaceResponse, b: &CodingWorkspaceResponse) -> (r: bool)
    ensures
        r == (a@ == b@),
{
    let readiness_same = match (&a.readiness, &b.readiness) {
        (Some(x), Some(y)) => same_readiness(x, y),
        (None, None) => true,
        _ => false,
    };
    same_string(&a.schema, &b.schema) && same_string(&a.project_resource_id, &b.project_resource_id)
        && same_string(&a.accepted_snapshot_id, &b.accepted_snapshot_id) && same_string(
        &a.source_workspace_id,
        &b.source_workspace_id,
    ) && same_string(&a.task_computer_id, &b.task_computer_id) && same_string(
        &a.run_id,
        &b.run_id,
    ) && same_string(&a.tool_execution_id, &b.tool_execution_id) && a.owner_lease_epoch
        == b.owner_lease_epoch && same_string(&a.base_revision, &b.base_revision) && same_string(
        &a.revision,
        &b.revision,
    ) && a.baseline_kind == b.baseline_kind && a.clean == b.clean && readiness_same
        && same_outputs(&a.outputs, &b.outputs)
}


// ----------------------------------------------------------------------------
// Laws
// ----------------------------------------------------------------------------

/// A result answers a request only when the request and the result are each
/// valid on their own.
pub proof fn lemma_answer_requires_valid_parts(r: CodingWorkspaceResponseView, q: CodingWorkspaceRequestView)
    ensures
        answer_result(r, q) is Ok ==> request_ok(q) && response_result(r) is Ok,
{
    reveal(answer_result);
}

/// An accepted output capture holds exactly the requested paths, each once,
/// and every captured file carries the digest of its own content.
pub proof fn lemma_accepted_capture_is_exact(r: CodingWorkspaceResponseView, q: CodingWorkspaceRequestView)
    requires
        answer_result(r, q) is Ok,
        q is Outputs,
    ensures
        output_paths_of(r.outputs).to_set() == q->paths.to_set(),
        r.outputs.len() == q->paths.len(),
        distinct(output_paths_of(r.outputs)),
        forall|i: int| 0 <= i < r.outputs.len() ==> (#[trigger] r.outputs[i]).sha256 == sha256_lower_hex(r.outputs[i].content),
{
    reveal(answer_result);
    assert forall|i: int| 0 <= i < r.outputs.len() implies (#[trigger] r.outputs[i]).sha256 == sha256_lower_hex(r.outputs[i].content) by {
        assert(output_content_ok(r.outputs[i]));
    }
}

} // verus!
