//! Completion checks over Computer results retained by the owning worker, and
//! the append-only record of those results.

use vstd::prelude::*;

use crate::acceptance::{files_view, CodingAcceptanceContract, CodingAcceptanceContractView, CodingCommandResult, CodingCommandResultView, CodingCompletionSubmission, CodingCompletionSubmissionView, CodingOutputFile, CodingOutputFileView, CodingValidationRole, commands_view};
use crate::computer::{answer_result, distinct, output_paths_of, outputs_view, strings_view, string_in, CodingWorkspaceOutput, CodingWorkspaceOutputView, CodingWorkspaceRequest, CodingWorkspaceRequestView, CodingWorkspaceResponse, CodingWorkspaceResponseView, ComputerCodingProof, ComputerCodingProofView};
use crate::search::{first_index, lemma_first_index, lemma_first_index_found};
use crate::computer::{same_request, same_response};
use crate::text::{join, same_string};

verus! {

pub const COMPUTER_CODING_EVIDENCE_KEY: &'static str = "codingComputerEvidence";

/// The most Computer executions one coding completion may retain.
pub const MAX_COMPUTER_EXECUTIONS: usize = 32;

#[derive(Clone, Debug, PartialEq, Eq)]
pub struct ComputerCodingFence {
    pub organization_id: String,
    pub workspace_id: String,
    pub actor_id: String,
    pub work_id: String,
    pub runtime_run_id: String,
    pub maestro_run_id: String,
    pub maestro_session_id: String,
    pub session_epoch: u64,
    pub runtime_generation: u64,
    pub task_id: String,
    pub task_computer_id: String,
    pub project_resource_id: String,
    pub accepted_snapshot_id: String,
    pub source_workspace_id: String,
}

#[derive(Clone, Debug, PartialEq, Eq)]
pub struct ComputerCodingExecution {
    pub request: CodingWorkspaceRequest,
    pub response: CodingWorkspaceResponse,
}

#[derive(Clone, Debug, PartialEq, Eq)]
pub struct ComputerCodingEvidence {
    pub fence: ComputerCodingFence,
    pub executions: Vec<ComputerCodingExecution>,
}

#[derive(Clone, Debug, PartialEq, Eq)]
pub struct CodingValidatorReservation {
    pub tool_execution_id: String,
    pub role: CodingValidationRole,
    pub inspection_execution_id: String,
    pub readiness_execution_ids: Vec<String>,
    pub contract_digest: String,
    pub revision: String,
    pub parent_session_id: String,
    pub runtime_run_id: String,
    pub session_epoch: u64,
    pub runtime_generation: u64,
}

// ----------------------------------------------------------------------------
// Mathematical models
// ----------------------------------------------------------------------------

pub struct ComputerCodingFenceView {
    pub organization_id: Seq<char>,
    pub workspace_id: Seq<char>,
    pub actor_id: Seq<char>,
    pub work_id: Seq<char>,
    pub runtime_run_id: Seq<char>,
    pub maestro_run_id: Seq<char>,
    pub maestro_session_id: Seq<char>,
    pub session_epoch: u64,
    pub runtime_generation: u64,
    pub task_id: Seq<char>,
    pub task_computer_id: Seq<char>,
    pub project_resource_id: Seq<char>,
    pub accepted_snapshot_id: Seq<char>,
    pub source_workspace_id: Seq<char>,
}

impl View for ComputerCodingFence {
    type V = ComputerCodingFenceView;

    open spec fn view(&self) -> ComputerCodingFenceView {
        ComputerCodingFenceView {
            organization_id: self.organization_id@,
            workspace_id: self.workspace_id@,
            actor_id: self.actor_id@,
            work_id: self.work_id@,
            runtime_run_id: self.runtime_run_id@,
            maestro_run_id: self.maestro_run_id@,
            maestro_session_id: self.maestro_session_id@,
            session_epoch: self.session_epoch,
            runtime_generation: self.runtime_generation,
            task_id: self.task_id@,
            task_computer_id: self.task_computer_id@,
            project_resource_id: self.project_resource_id@,
            accepted_snapshot_id: self.accepted_snapshot_id@,
            source_workspace_id: self.source_workspace_id@,
        }
    }
}

pub struct ComputerCodingExecutionView {
    pub request: CodingWorkspaceRequestView,
    pub response: CodingWorkspaceResponseView,
}

impl View for ComputerCodingExecution {
    type V = ComputerCodingExecutionView;

    open spec fn view(&self) -> ComputerCodingExecutionView {
        ComputerCodingExecutionView { request: self.request@, response: self.response@ }
    }
}

pub open spec fn executions_view(v: Seq<ComputerCodingExecution>) -> Seq<ComputerCodingExecutionView> {
    v.map_values(|e: ComputerCodingExecution| e@)
}

pub struct ComputerCodingEvidenceView {
    pub fence: ComputerCodingFenceView,
    pub executions: Seq<ComputerCodingExecutionView>,
}

impl View for ComputerCodingEvidence {
    type V = ComputerCodingEvidenceView;

    open spec fn view(&self) -> ComputerCodingEvidenceView {
        ComputerCodingEvidenceView {
            fence: self.fence@,
            executions: executions_view(self.executions@),
        }
    }
}

// ----------------------------------------------------------------------------
// Rules
// ----------------------------------------------------------------------------

/// The execution was reported under the tool-execution id `id`.
pub open spec fn has_execution_id(id: Seq<char>) -> spec_fn(ComputerCodingExecutionView) -> bool {
    |e: ComputerCodingExecutionView| e.response.tool_execution_id == id
}

/// The response was produced by the task Computer, run, lease and source the
/// fence admits.
pub open spec fn fenced(r: CodingWorkspaceResponseView, f: ComputerCodingFenceView) -> bool {
    &&& r.owner_lease_epoch == f.runtime_generation
    &&& r.run_id == f.maestro_run_id
    &&& r.task_computer_id == f.task_computer_id
    &&& r.project_resource_id == f.project_resource_id
    &&& r.accepted_snapshot_id == f.accepted_snapshot_id
    &&& r.source_workspace_id == f.source_workspace_id
}

/// Execution `i` answers its request, is fenced, and is the first with its id.
pub open spec fn execution_admitted(ev: ComputerCodingEvidenceView, i: int) -> Result<(), Seq<char>> {
    let e = ev.executions[i];
    if answer_result(e.response, e.request) is Err {
        answer_result(e.response, e.request)
    } else if !fenced(e.response, ev.fence) || exists|j: int|
        0 <= j < i && #[trigger] ev.executions[j].response.tool_execution_id
            == e.response.tool_execution_id {
        Err("coding Computer execution does not match admitted source"@)
    } else {
        Ok(())
    }
}

/// The first `n` executions, checked in order; the first failure decides.
pub open spec fn executions_admitted(ev: ComputerCodingEvidenceView, n: int) -> Result<(), Seq<char>>
    decreases n,
{
    if n <= 0 {
        Ok(())
    } else if executions_admitted(ev, n - 1) is Err {
        executions_admitted(ev, n - 1)
    } else {
        execution_admitted(ev, n - 1)
    }
}

/// Once a prefix fails, every longer prefix fails the same way.
pub proof fn lemma_admitted_first_failure(ev: ComputerCodingEvidenceView, m: int, n: int)
    requires
        0 <= m <= n,
        executions_admitted(ev, m) is Err,
    ensures
        executions_admitted(ev, n) == executions_admitted(ev, m),
    decreases n - m,
{
    if n > m {
        lemma_admitted_first_failure(ev, m, n - 1);
    }
}

/// Once a prefix of readiness proofs fails, every longer prefix fails the same way.
pub proof fn lemma_readiness_first_failure(
    execs: Seq<ComputerCodingExecutionView>,
    base: Seq<char>,
    revision: Seq<char>,
    ids: Seq<Seq<char>>,
    commands: Seq<CodingCommandResultView>,
    m: int,
    n: int,
)
    requires
        0 <= m <= n,
        readiness_steps(execs, base, revision, ids, commands, m) is Err,
    ensures
        readiness_steps(execs, base, revision, ids, commands, n) == readiness_steps(
            execs,
            base,
            revision,
            ids,
            commands,
            m,
        ),
    decreases n - m,
{
    if n > m {
        lemma_readiness_first_failure(execs, base, revision, ids, commands, m, n - 1);
    }
}

/// Every execution identity a proof names, in order.
pub open spec fn proof_ids(p: ComputerCodingProofView) -> Seq<Seq<char>> {
    seq![p.baseline_execution_id, p.inspection_execution_id] + match p.outputs_execution_id {
        Some(id) => seq![id],
        None => Seq::<Seq<char>>::empty(),
    } + p.readiness_execution_ids
}

pub open spec fn receipt_ref(id: Seq<char>) -> Seq<char> {
    "receipt:tool-execution:"@ + id
}

pub open spec fn file_paths(files: Seq<CodingOutputFileView>) -> Seq<Seq<char>> {
    files.map_values(|f: CodingOutputFileView| f.path)
}

/// Some captured output has the path and content of `file`.
pub open spec fn captured_has(captured: Seq<CodingWorkspaceOutputView>, file: CodingOutputFileView) -> bool {
    exists|j: int|
        0 <= j < captured.len() && #[trigger] captured[j].path == file.path && captured[j].content
            == file.content
}

/// The submitted files are exactly the captured path/content pairs, and the
/// captured paths are exactly the required ones.
pub open spec fn submitted_files_match(
    captured: Seq<CodingWorkspaceOutputView>,
    submitted: Seq<CodingOutputFileView>,
    required: Seq<Seq<char>>,
) -> bool {
    &&& distinct(file_paths(submitted))
    &&& captured.len() == submitted.len()
    &&& forall|i: int|
        0 <= i < submitted.len() ==> captured_has(captured, #[trigger] submitted[i])
    &&& output_paths_of(captured).to_set() == required.to_set()
}

pub open spec fn output_step(
    execs: Seq<ComputerCodingExecutionView>,
    base: Seq<char>,
    p: ComputerCodingProofView,
    c: CodingAcceptanceContractView,
    s: CodingCompletionSubmissionView,
) -> Result<(), Seq<char>> {
    if c.output_paths.len() == 0 {
        if p.outputs_execution_id is Some || s.outputs.len() > 0 {
            Err("unrequested coding Computer output"@)
        } else {
            Ok(())
        }
    } else {
        match p.outputs_execution_id {
            None => Err("missing coding output execution"@),
            Some(id) => {
                let k = first_index(execs, has_execution_id(id));
                if k < 0 {
                    Err("unknown coding output execution"@)
                } else if !(execs[k].request is Outputs) || execs[k].response.base_revision != base
                    || execs[k].response.revision != s.revision {
                    Err("coding Computer output revision mismatch"@)
                } else if !submitted_files_match(execs[k].response.outputs, s.outputs, c.output_paths) {
                    Err("coding Computer output bytes do not match the owner capture"@)
                } else {
                    Ok(())
                }
            },
        }
    }
}

/// The readiness execution `id` succeeded for `command` at `revision`.
pub open spec fn readiness_step(
    execs: Seq<ComputerCodingExecutionView>,
    base: Seq<char>,
    revision: Seq<char>,
    id: Seq<char>,
    command: CodingCommandResultView,
) -> Result<(), Seq<char>> {
    let k = first_index(execs, has_execution_id(id));
    if k < 0 {
        Err("unknown coding readiness execution"@)
    } else {
        match execs[k].response.readiness {
            None => Err("missing coding readiness result"@),
            Some(x) => {
                if !(execs[k].request is Readiness) || execs[k].response.base_revision != base
                    || execs[k].response.revision != revision || x.command != command.command
                    || x.exit_code != 0 || x.timed_out || x.truncated || command.exit_code != Some(
                    0i32,
                ) || !command.evidence_refs.contains(receipt_ref(id)) {
                    Err("coding Computer readiness is not a successful owner execution"@)
                } else {
                    Ok(())
                }
            },
        }
    }
}

/// The first `n` readiness proofs, checked in order.
pub open spec fn readiness_steps(
    execs: Seq<ComputerCodingExecutionView>,
    base: Seq<char>,
    revision: Seq<char>,
    ids: Seq<Seq<char>>,
    commands: Seq<CodingCommandResultView>,
    n: int,
) -> Result<(), Seq<char>>
    decreases n,
{
    if n <= 0 {
        Ok(())
    } else if readiness_steps(execs, base, revision, ids, commands, n - 1) is Err {
        readiness_steps(execs, base, revision, ids, commands, n - 1)
    } else {
        readiness_step(execs, base, revision, ids[n - 1], commands[n - 1])
    }
}

/// What `validate_computer_completion` returns.
pub open spec fn completion_result(
    ev: ComputerCodingEvidenceView,
    p: ComputerCodingProofView,
    c: CodingAcceptanceContractView,
    contract_digest: Seq<char>,
    s: CodingCompletionSubmissionView,
) -> Result<(), Seq<char>> {
    let execs = ev.executions;
    let ids = proof_ids(p);
    if execs.len() == 0 || execs.len() > 32 || s.contract_digest != contract_digest
        || s.implementation_session_id != ev.fence.maestro_session_id || s.work_id
        != ev.fence.work_id {
        Err("coding Computer completion does not match its owner fence"@)
    } else if executions_admitted(ev, execs.len() as int) is Err {
        executions_admitted(ev, execs.len() as int)
    } else if (exists|i: int| 0 <= i < ids.len() && (#[trigger] ids[i]).len() == 0) || !distinct(
        ids,
    ) {
        Err("coding Computer proof repeats or omits execution identities"@)
    } else {
        let b = first_index(execs, has_execution_id(p.baseline_execution_id));
        let n = first_index(execs, has_execution_id(p.inspection_execution_id));
        if b < 0 {
            Err("missing coding baseline execution"@)
        } else if n < 0 {
            Err("missing coding inspection execution"@)
        } else if !(execs[b].request is Baseline) || !(execs[n].request is Inspect)
            || !execs[n].response.clean || execs[n].response.base_revision
            != execs[b].response.base_revision || execs[n].response.revision != s.revision {
            Err("coding Computer revision is not the inspected admitted revision"@)
        } else if output_step(execs, execs[b].response.base_revision, p, c, s) is Err {
            output_step(execs, execs[b].response.base_revision, p, c, s)
        } else if p.readiness_execution_ids.len() != s.commands.len() || s.commands.len() == 0 {
            Err("coding Computer command proof is incomplete"@)
        } else {
            readiness_steps(
                execs,
                execs[b].response.base_revision,
                s.revision,
                p.readiness_execution_ids,
                s.commands,
                s.commands.len() as int,
            )
        }
    }
}

} // verus!

verus! {

pub open spec fn index_view(r: Option<usize>) -> int {
    match r {
        Some(k) => k as int,
        None => -1,
    }
}

pub open spec fn unit_outcome(r: Result<(), &'static str>) -> Result<(), Seq<char>> {
    match r {
        Ok(()) => Ok(()),
        Err(e) => Err(e@),
    }
}

fn fence_admits(f: &ComputerCodingFence, r: &CodingWorkspaceResponse) -> (b: bool)
    ensures
        b == fenced(r@, f@),
{
    r.owner_lease_epoch == f.runtime_generation && same_string(&r.run_id, &f.maestro_run_id)
        && same_string(&r.task_computer_id, &f.task_computer_id) && same_string(
        &r.project_resource_id,
        &f.project_resource_id,
    ) && same_string(&r.accepted_snapshot_id, &f.accepted_snapshot_id) && same_string(
        &r.source_workspace_id,
        &f.source_workspace_id,
    )
}

/// Position of the first execution reported under `id`.
pub fn find_execution(executions: &Vec<ComputerCodingExecution>, id: &String) -> (r: Option<usize>)
    ensures
        index_view(r) == first_index(executions_view(executions@), has_execution_id(id@)),
        r matches Some(k) ==> k < executions.len(),
{
    let ghost s = executions_view(executions@);
    let ghost p = has_execution_id(id@);
    let mut i: usize = 0;
    while i < executions.len()
        invariant
            s == executions_view(executions@),
            p == has_execution_id(id@),
            i <= executions.len(),
            forall|j: int| 0 <= j < i ==> !p(#[trigger] s[j]),
        decreases executions.len() - i,
    {
        if same_string(&executions[i].response.tool_execution_id, id) {
            proof {
                lemma_first_index(s, p, i as int);
            }
            return Some(i);
        }
        i = i + 1;
    }
    proof {
        lemma_first_index(s, p, s.len() as int);
    }
    None
}

/// Whether an execution before position `i` carries the id of execution `i`.
fn id_seen_before(executions: &Vec<ComputerCodingExecution>, i: usize) -> (r: bool)
    requires
        i < executions.len(),
    ensures
        r == exists|k: int|
            0 <= k < i && #[trigger] executions_view(executions@)[k].response.tool_execution_id
                == executions_view(executions@)[i as int].response.tool_execution_id,
{
    let ghost s = executions_view(executions@);
    let mut j: usize = 0;
    while j < i
        invariant
            s == executions_view(executions@),
            i < executions.len(),
            j <= i,
            forall|k: int|
                0 <= k < j ==> #[trigger] s[k].response.tool_execution_id
                    != s[i as int].response.tool_execution_id,
        decreases i - j,
    {
        assert(s[j as int].response.tool_execution_id == executions@[j as int].response.tool_execution_id@);
        assert(s[i as int].response.tool_execution_id == executions@[i as int].response.tool_execution_id@);
        if same_string(
            &executions[j].response.tool_execution_id,
            &executions[i].response.tool_execution_id,
        ) {
            return true;
        }
        j = j + 1;
    }
    false
}

/// Checks every execution in order: it answers its request, it is fenced, and
/// no earlier execution carries its id.
fn admit_executions(evidence: &ComputerCodingEvidence) -> (r: Result<(), &'static str>)
    ensures
        unit_outcome(r) == executions_admitted(evidence@, evidence.executions.len() as int),
{
    let ghost ev = evidence@;
    let mut i: usize = 0;
    while i < evidence.executions.len()
        invariant
            ev == evidence@,
            i <= evidence.executions.len(),
            executions_admitted(ev, i as int) is Ok,
        decreases evidence.executions.len() - i,
    {
        let execution = &evidence.executions[i];
        assert(ev.executions[i as int] == execution@);
        let answered = execution.response.validate_for(&execution.request);
        if let Err(e) = answered {
            assert(execution_admitted(ev, i as int) == answer_result(execution.response@, execution.request@));
            proof {
                lemma_admitted_first_failure(ev, i + 1, ev.executions.len() as int);
            }
            return Err(e);
        }
        let seen = id_seen_before(&evidence.executions, i);
        if !fence_admits(&evidence.fence, &execution.response) || seen {
            proof {
                lemma_admitted_first_failure(ev, i + 1, ev.executions.len() as int);
            }
            return Err("coding Computer execution does not match admitted source");
        }
        i = i + 1;
    }
    Ok(())
}


fn proof_id_list(proof: &ComputerCodingProof) -> (ids: Vec<String>)
    ensures
        strings_view(ids@) == proof_ids(proof@),
{
    let mut ids: Vec<String> = Vec::new();
    ids.push(crate::text::copy_string(&proof.baseline_execution_id));
    ids.push(crate::text::copy_string(&proof.inspection_execution_id));
    if let Some(id) = &proof.outputs_execution_id {
        ids.push(crate::text::copy_string(id));
    }
    let ghost head = strings_view(ids@);
    assert(head =~= seq![proof@.baseline_execution_id, proof@.inspection_execution_id]
        + match proof@.outputs_execution_id {
        Some(id) => seq![id],
        None => Seq::<Seq<char>>::empty(),
    });
    let mut i: usize = 0;
    while i < proof.readiness_execution_ids.len()
        invariant
            head.len() <= ids@.len(),
            ids@.len() == head.len() + i,
            i <= proof.readiness_execution_ids.len(),
            forall|j: int| 0 <= j < head.len() ==> #[trigger] ids@[j]@ == head[j],
            forall|j: int|
                0 <= j < i ==> #[trigger] ids@[head.len() + j]@
                    == proof.readiness_execution_ids@[j]@,
        decreases proof.readiness_execution_ids.len() - i,
    {
        ids.push(crate::text::copy_string(&proof.readiness_execution_ids[i]));
        i = i + 1;
    }
    assert forall|j: int| 0 <= j < ids@.len() implies #[trigger] strings_view(ids@)[j] == proof_ids(proof@)[j] by {
        if j < head.len() {
            assert(ids@[j]@ == head[j]);
        } else {
            assert(ids@[head.len() + (j - head.len())]@ == proof.readiness_execution_ids@[j - head.len()]@);
        }
    }
    assert(strings_view(ids@) =~= proof_ids(proof@));
    ids
}

/// Whether some id is empty or some id repeats.
fn ids_defective(ids: &Vec<String>) -> (r: bool)
    ensures
        r == ((exists|i: int|
            0 <= i < ids@.len() && (#[trigger] strings_view(ids@)[i]).len() == 0) || !distinct(
            strings_view(ids@),
        )),
{
    let ghost v = strings_view(ids@);
    let mut i: usize = 0;
    while i < ids.len()
        invariant
            v == strings_view(ids@),
            i <= ids.len(),
            forall|j: int| 0 <= j < i ==> (#[trigger] v[j]).len() != 0,
        decreases ids.len() - i,
    {
        assert(v[i as int] == ids@[i as int]@);
        if ids[i].as_str().is_empty() {
            return true;
        }
        i = i + 1;
    }
    let mut i: usize = 0;
    while i < ids.len()
        invariant
            v == strings_view(ids@),
            i <= ids.len(),
            forall|j: int| 0 <= j < v.len() ==> (#[trigger] v[j]).len() != 0,
            forall|a: int, b: int| 0 <= a < i && 0 <= b < v.len() && a != b ==> v[a] != v[b],
        decreases ids.len() - i,
    {
        let mut j: usize = 0;
        while j < ids.len()
            invariant
                v == strings_view(ids@),
                i < ids.len(),
                j <= ids.len(),
                forall|a: int, b: int| 0 <= a < i && 0 <= b < v.len() && a != b ==> v[a] != v[b],
                forall|b: int| 0 <= b < j && b != i ==> v[i as int] != v[b],
            decreases ids.len() - j,
        {
            assert(v[i as int] == ids@[i as int]@);
            assert(v[j as int] == ids@[j as int]@);
            if j != i && same_string(&ids[i], &ids[j]) {
                return true;
            }
            j = j + 1;
        }
        i = i + 1;
    }
    false
}

/// Whether some captured output has the path and content of `file`.
fn captured_holds(captured: &Vec<CodingWorkspaceOutput>, file: &CodingOutputFile) -> (r: bool)
    ensures
        r == captured_has(outputs_view(captured@), file@),
{
    let ghost c = outputs_view(captured@);
    let mut j: usize = 0;
    while j < captured.len()
        invariant
            c == outputs_view(captured@),
            j <= captured.len(),
            forall|k: int|
                0 <= k < j ==> !(#[trigger] c[k].path == file@.path && c[k].content == file@.content),
        decreases captured.len() - j,
    {
        if same_string(&captured[j].path, &file.path) && same_string(&captured[j].content, &file.content) {
            assert(c[j as int].path == file@.path && c[j as int].content == file@.content);
            return true;
        }
        j = j + 1;
    }
    false
}

/// Whether the submitted files are exactly the captured ones, whose paths are
/// exactly the required ones.
fn files_match(
    captured: &Vec<CodingWorkspaceOutput>,
    submitted: &Vec<CodingOutputFile>,
    required: &Vec<String>,
) -> (r: bool)
    ensures
        r == submitted_files_match(outputs_view(captured@), files_view(submitted@), strings_view(required@)),
{
    let ghost c = outputs_view(captured@);
    let ghost f = files_view(submitted@);
    let ghost fp = file_paths(f);
    if captured.len() != submitted.len() {
        return false;
    }
    let mut i: usize = 0;
    while i < submitted.len()
        invariant
            f == files_view(submitted@),
            fp == file_paths(f),
            i <= submitted.len(),
            forall|a: int, b: int| 0 <= a < i && 0 <= b < fp.len() && a != b ==> fp[a] != fp[b],
        decreases submitted.len() - i,
    {
        let mut j: usize = 0;
        while j < submitted.len()
            invariant
                f == files_view(submitted@),
                fp == file_paths(f),
                i < submitted.len(),
                j <= submitted.len(),
                forall|a: int, b: int| 0 <= a < i && 0 <= b < fp.len() && a != b ==> fp[a] != fp[b],
                forall|b: int| 0 <= b < j && b != i ==> fp[i as int] != fp[b],
            decreases submitted.len() - j,
        {
            assert(fp[i as int] == submitted@[i as int].path@);
            assert(fp[j as int] == submitted@[j as int].path@);
            if j != i && same_string(&submitted[i].path, &submitted[j].path) {
                assert(!distinct(fp));
                return false;
            }
            j = j + 1;
        }
        i = i + 1;
    }
    assert(distinct(fp));
    let mut i: usize = 0;
    while i < submitted.len()
        invariant
            c == outputs_view(captured@),
            f == files_view(submitted@),
            fp == file_paths(f),
            distinct(fp),
            captured.len() == submitted.len(),
            i <= submitted.len(),
            forall|a: int| 0 <= a < i ==> captured_has(c, #[trigger] f[a]),
        decreases submitted.len() - i,
    {
        assert(f[i as int] == submitted@[i as int]@);
        if !captured_holds(captured, &submitted[i]) {
            return false;
        }
        i = i + 1;
    }
    crate::computer::same_path_set(captured, required)
}


fn check_output_capture(
    executions: &Vec<ComputerCodingExecution>,
    base: &String,
    proof: &ComputerCodingProof,
    contract: &CodingAcceptanceContract,
    submission: &CodingCompletionSubmission,
) -> (r: Result<(), &'static str>)
    ensures
        unit_outcome(r) == output_step(
            executions_view(executions@),
            base@,
            proof@,
            contract@,
            submission@,
        ),
{
    let ghost execs = executions_view(executions@);
    if contract.output_paths.len() == 0 {
        if proof.outputs_execution_id.is_some() || submission.outputs.len() > 0 {
            return Err("unrequested coding Computer output");
        }
        return Ok(());
    }
    let output_id = match &proof.outputs_execution_id {
        Some(id) => id,
        None => {
            return Err("missing coding output execution");
        },
    };
    let k = match find_execution(executions, output_id) {
        Some(k) => k,
        None => {
            return Err("unknown coding output execution");
        },
    };
    let output = &executions[k];
    assert(execs[k as int] == output@);
    let is_outputs = match &output.request {
        CodingWorkspaceRequest::Outputs { .. } => true,
        _ => false,
    };
    if !is_outputs || !same_string(&output.response.base_revision, base) || !same_string(
        &output.response.revision,
        &submission.revision,
    ) {
        return Err("coding Computer output revision mismatch");
    }
    if !files_match(&output.response.outputs, &submission.outputs, &contract.output_paths) {
        return Err("coding Computer output bytes do not match the owner capture");
    }
    Ok(())
}

fn check_readiness_proofs(
    executions: &Vec<ComputerCodingExecution>,
    base: &String,
    revision: &String,
    ids: &Vec<String>,
    commands: &Vec<CodingCommandResult>,
) -> (r: Result<(), &'static str>)
    requires
        ids.len() == commands.len(),
    ensures
        unit_outcome(r) == readiness_steps(
            executions_view(executions@),
            base@,
            revision@,
            strings_view(ids@),
            commands_view(commands@),
            commands.len() as int,
        ),
{
    let ghost execs = executions_view(executions@);
    let ghost iv = strings_view(ids@);
    let ghost cv = commands_view(commands@);
    let prefix = "receipt:tool-execution:";
    proof {
        reveal_strlit("receipt:tool-execution:");
    }
    let mut i: usize = 0;
    while i < ids.len()
        invariant
            execs == executions_view(executions@),
            iv == strings_view(ids@),
            cv == commands_view(commands@),
            prefix@ == "receipt:tool-execution:"@,
            ids.len() == commands.len(),
            i <= ids.len(),
            readiness_steps(execs, base@, revision@, iv, cv, i as int) is Ok,
        decreases ids.len() - i,
    {
        let id = &ids[i];
        let command = &commands[i];
        assert(iv[i as int] == id@);
        assert(cv[i as int] == command@);
        let step: Result<(), &'static str> = match find_execution(executions, id) {
            None => Err("unknown coding readiness execution"),
            Some(k) => {
                let execution = &executions[k];
                assert(execs[k as int] == execution@);
                match &execution.response.readiness {
                    None => Err("missing coding readiness result"),
                    Some(readiness) => {
                        let is_readiness = match &execution.request {
                            CodingWorkspaceRequest::Readiness { .. } => true,
                            _ => false,
                        };
                        let receipt = join(prefix, id.as_str());
                        if !is_readiness || !same_string(&execution.response.base_revision, base)
                            || !same_string(&execution.response.revision, revision)
                            || !same_string(&readiness.command, &command.command)
                            || readiness.exit_code != 0 || readiness.timed_out
                            || readiness.truncated || command.exit_code != Some(0i32)
                            || !string_in(&receipt, &command.evidence_refs) {
                            Err("coding Computer readiness is not a successful owner execution")
                        } else {
                            Ok(())
                        }
                    },
                }
            },
        };
        assert(unit_outcome(step) == readiness_step(execs, base@, revision@, iv[i as int], cv[i as int]));
        if let Err(e) = step {
            proof {
                lemma_readiness_first_failure(execs, base@, revision@, iv, cv, i + 1, cv.len() as int);
            }
            return Err(e);
        }
        i = i + 1;
    }
    Ok(())
}

/// Resolve against owner records, never against execution IDs in model output.
///
/// `contract_digest` is the digest the acceptance contract was admitted under.
pub fn validate_computer_completion(
    evidence: &ComputerCodingEvidence,
    proof: &ComputerCodingProof,
    contract: &CodingAcceptanceContract,
    contract_digest: &str,
    submission: &CodingCompletionSubmission,
) -> (r: Result<(), &'static str>)
    ensures
        unit_outcome(r) == completion_result(
            evidence@,
            proof@,
            contract@,
            contract_digest@,
            submission@,
        ),
{
    let ghost execs = evidence@.executions;
    if evidence.executions.len() == 0 || evidence.executions.len() > MAX_COMPUTER_EXECUTIONS
        || !crate::text::same_text(submission.contract_digest.as_str(), contract_digest)
        || !same_string(&submission.implementation_session_id, &evidence.fence.maestro_session_id)
        || !same_string(&submission.work_id, &evidence.fence.work_id) {
        return Err("coding Computer completion does not match its owner fence");
    }
    match admit_executions(evidence) {
        Ok(()) => {},
        Err(e) => {
            return Err(e);
        },
    }
    let ids = proof_id_list(proof);
    if ids_defective(&ids) {
        return Err("coding Computer proof repeats or omits execution identities");
    }
    let b = match find_execution(&evidence.executions, &proof.baseline_execution_id) {
        Some(b) => b,
        None => {
            return Err("missing coding baseline execution");
        },
    };
    let n = match find_execution(&evidence.executions, &proof.inspection_execution_id) {
        Some(n) => n,
        None => {
            return Err("missing coding inspection execution");
        },
    };
    let baseline = &evidence.executions[b];
    let inspection = &evidence.executions[n];
    assert(execs[b as int] == baseline@);
    assert(execs[n as int] == inspection@);
    let baseline_request = match &baseline.request {
        CodingWorkspaceRequest::Baseline { .. } => true,
        _ => false,
    };
    let inspect_request = match &inspection.request {
        CodingWorkspaceRequest::Inspect { .. } => true,
        _ => false,
    };
    if !baseline_request || !inspect_request || !inspection.response.clean || !same_string(
        &inspection.response.base_revision,
        &baseline.response.base_revision,
    ) || !same_string(&inspection.response.revision, &submission.revision) {
        return Err("coding Computer revision is not the inspected admitted revision");
    }
    match check_output_capture(
        &evidence.executions,
        &baseline.response.base_revision,
        proof,
        contract,
        submission,
    ) {
        Ok(()) => {},
        Err(e) => {
            return Err(e);
        },
    }
    if proof.readiness_execution_ids.len() != submission.commands.len()
        || submission.commands.len() == 0 {
        return Err("coding Computer command proof is incomplete");
    }
    check_readiness_proofs(
        &evidence.executions,
        &baseline.response.base_revision,
        &submission.revision,
        &proof.readiness_execution_ids,
        &submission.commands,
    )
}


pub open spec fn bool_outcome(r: Result<bool, &'static str>) -> Result<bool, Seq<char>> {
    match r {
        Ok(b) => Ok(b),
        Err(e) => Err(e@),
    }
}

/// What `ComputerCodingEvidence::record` returns, and the evidence it leaves.
pub open spec fn record_outcome(
    ev: ComputerCodingEvidenceView,
    e: ComputerCodingExecutionView,
) -> (Result<bool, Seq<char>>, ComputerCodingEvidenceView) {
    match answer_result(e.response, e.request) {
        Err(m) => (Err(m), ev),
        Ok(_) => {
            if !fenced(e.response, ev.fence) {
                (Err("coding Computer result belongs to a different task or source"@), ev)
            } else {
                let k = first_index(ev.executions, has_execution_id(e.response.tool_execution_id));
                if k >= 0 {
                    if ev.executions[k] == e {
                        (Ok(false), ev)
                    } else {
                        (Err("coding Computer execution replay conflicts"@), ev)
                    }
                } else if ev.executions.len() >= 32 {
                    (Err("coding Computer evidence limit reached"@), ev)
                } else {
                    (
                        Ok(true),
                        ComputerCodingEvidenceView {
                            fence: ev.fence,
                            executions: ev.executions.push(e),
                        },
                    )
                }
            }
        },
    }
}

fn same_execution(a: &ComputerCodingExecution, b: &ComputerCodingExecution) -> (r: bool)
    ensures
        r == (a@ == b@),
{
    same_request(&a.request, &b.request) && same_response(&a.response, &b.response)
}

impl ComputerCodingEvidence {
    /// Preserve an owner's first result across response loss and lease reclaim.
    pub fn record(&mut self, execution: ComputerCodingExecution) -> (r: Result<bool, &'static str>)
        ensures
            (bool_outcome(r), final(self)@) == record_outcome(old(self)@, execution@),
    {
        match execution.response.validate_for(&execution.request) {
            Ok(()) => {},
            Err(e) => {
                return Err(e);
            },
        }
        if !fence_admits(&self.fence, &execution.response) {
            return Err("coding Computer result belongs to a different task or source");
        }
        match find_execution(&self.executions, &execution.response.tool_execution_id) {
            Some(k) => {
                let same = same_execution(&self.executions[k], &execution);
                assert(self@.executions[k as int] == self.executions@[k as int]@);
                if same {
                    return Ok(false);
                } else {
                    return Err("coding Computer execution replay conflicts");
                }
            },
            None => {},
        }
        if self.executions.len() >= MAX_COMPUTER_EXECUTIONS {
            return Err("coding Computer evidence limit reached");
        }
        let ghost before = self@;
        self.executions.push(execution);
        assert(self@.executions =~= before.executions.push(execution@));
        Ok(true)
    }
}

// ----------------------------------------------------------------------------
// Laws of the evidence record
// ----------------------------------------------------------------------------

/// Recording never alters the fence and never alters or removes an execution
/// that was already recorded: the first result for an id survives any later
/// replay, conflicting or not.
pub proof fn lemma_record_keeps_first_results(
    ev: ComputerCodingEvidenceView,
    e: ComputerCodingExecutionView,
)
    ensures
        record_outcome(ev, e).1.fence == ev.fence,
        ev.executions.is_prefix_of(record_outcome(ev, e).1.executions),
        record_outcome(ev, e).1.executions.len() <= ev.executions.len() + 1,
{
}

/// Replaying a result that was just recorded is accepted as a no-op.
pub proof fn lemma_record_replay_is_noop(ev: ComputerCodingEvidenceView, e: ComputerCodingExecutionView)
    requires
        record_outcome(ev, e).0 == Ok::<bool, Seq<char>>(true),
    ensures
        record_outcome(record_outcome(ev, e).1, e) == (
            Ok::<bool, Seq<char>>(false),
            record_outcome(ev, e).1,
        ),
{
    let after = record_outcome(ev, e).1;
    let p = has_execution_id(e.response.tool_execution_id);
    lemma_first_index_found(ev.executions, p);
    assert forall|j: int| 0 <= j < ev.executions.len() implies !p(#[trigger] after.executions[j]) by {
        assert(after.executions[j] == ev.executions[j]);
    }
    lemma_first_index(after.executions, p, ev.executions.len() as int);
}

/// Recorded evidence: at most 32 executions, no two under the same id.
pub open spec fn evidence_well_formed(ev: ComputerCodingEvidenceView) -> bool {
    &&& ev.executions.len() <= 32
    &&& forall|i: int, j: int|
        0 <= i < ev.executions.len() && 0 <= j < ev.executions.len() && i != j
            ==> #[trigger] ev.executions[i].response.tool_execution_id
            != #[trigger] ev.executions[j].response.tool_execution_id
}

/// Recording keeps evidence well formed.
pub proof fn lemma_record_preserves_well_formed(
    ev: ComputerCodingEvidenceView,
    e: ComputerCodingExecutionView,
)
    requires
        evidence_well_formed(ev),
    ensures
        evidence_well_formed(record_outcome(ev, e).1),
{
    let after = record_outcome(ev, e).1;
    if record_outcome(ev, e).0 == Ok::<bool, Seq<char>>(true) {
        let p = has_execution_id(e.response.tool_execution_id);
        lemma_first_index_found(ev.executions, p);
        assert forall|i: int, j: int|
            0 <= i < after.executions.len() && 0 <= j < after.executions.len() && i != j
                implies #[trigger] after.executions[i].response.tool_execution_id
                != #[trigger] after.executions[j].response.tool_execution_id by {
            if i < ev.executions.len() {
                assert(after.executions[i] == ev.executions[i]);
            }
            if j < ev.executions.len() {
                assert(after.executions[j] == ev.executions[j]);
            }
        }
    }
}

/// The per-execution checks of completion validation on the first `n`
/// executions see only those executions: a longer log with the same prefix
/// and fence passes them exactly when the shorter one does.
proof fn lemma_admitted_prefix(
    ev: ComputerCodingEvidenceView,
    longer: ComputerCodingEvidenceView,
    n: int,
)
    requires
        longer.fence == ev.fence,
        ev.executions.is_prefix_of(longer.executions),
        0 <= n <= ev.executions.len(),
    ensures
        executions_admitted(longer, n) == executions_admitted(ev, n),
    decreases n,
{
    if n > 0 {
        lemma_admitted_prefix(ev, longer, n - 1);
        let i = n - 1;
        assert(longer.executions[i] == ev.executions[i]);
        assert((exists|j: int|
            0 <= j < i && #[trigger] longer.executions[j].response.tool_execution_id
                == longer.executions[i].response.tool_execution_id) == (exists|j: int|
            0 <= j < i && #[trigger] ev.executions[j].response.tool_execution_id
                == ev.executions[i].response.tool_execution_id)) by {
            if exists|j: int|
                0 <= j < i && #[trigger] longer.executions[j].response.tool_execution_id
                    == longer.executions[i].response.tool_execution_id {
                let j = choose|j: int|
                    0 <= j < i && #[trigger] longer.executions[j].response.tool_execution_id
                        == longer.executions[i].response.tool_execution_id;
                assert(longer.executions[j] == ev.executions[j]);
            }
            if exists|j: int|
                0 <= j < i && #[trigger] ev.executions[j].response.tool_execution_id
                    == ev.executions[i].response.tool_execution_id {
                let j = choose|j: int|
                    0 <= j < i && #[trigger] ev.executions[j].response.tool_execution_id
                        == ev.executions[i].response.tool_execution_id;
                assert(longer.executions[j] == ev.executions[j]);
            }
        }
    }
}

/// Evidence that grows only through `record` always passes the per-execution
/// admission that `validate_computer_completion` performs: every recorded
/// execution answers its request, belongs to the fence, and has a unique id.
pub proof fn lemma_recorded_executions_are_admitted(
    ev: ComputerCodingEvidenceView,
    e: ComputerCodingExecutionView,
)
    requires
        executions_admitted(ev, ev.executions.len() as int) is Ok,
    ensures
        executions_admitted(
            record_outcome(ev, e).1,
            record_outcome(ev, e).1.executions.len() as int,
        ) is Ok,
{
    let after = record_outcome(ev, e).1;
    if record_outcome(ev, e).0 == Ok::<bool, Seq<char>>(true) {
        let n = ev.executions.len() as int;
        lemma_admitted_prefix(ev, after, n);
        let p = has_execution_id(e.response.tool_execution_id);
        lemma_first_index_found(ev.executions, p);
        assert(after.executions[n] == e);
        assert(!(exists|j: int|
            0 <= j < n && #[trigger] after.executions[j].response.tool_execution_id
                == after.executions[n].response.tool_execution_id)) by {
            assert forall|j: int| 0 <= j < n implies #[trigger] after.executions[j].response.tool_execution_id
                != after.executions[n].response.tool_execution_id by {
                assert(after.executions[j] == ev.executions[j]);
                assert(!p(ev.executions[j]));
            }
        }
    }
}


/// Every one of the first `n` readiness proofs passed when their prefix passed.
proof fn lemma_readiness_steps_each(
    execs: Seq<ComputerCodingExecutionView>,
    base: Seq<char>,
    revision: Seq<char>,
    ids: Seq<Seq<char>>,
    commands: Seq<CodingCommandResultView>,
    n: int,
)
    requires
        readiness_steps(execs, base, revision, ids, commands, n) is Ok,
    ensures
        forall|k: int| 0 <= k < n ==> #[trigger] readiness_step(execs, base, revision, ids[k], commands[k]) is Ok,
    decreases n,
{
    if n > 0 {
        lemma_readiness_steps_each(execs, base, revision, ids, commands, n - 1);
    }
}

/// An accepted completion resolves every submitted command against the owner's
/// records: it exited 0, it cites the receipt of the readiness execution its
/// proof names, and that execution is a successful, untruncated, timely owner
/// run of the same command at the submitted revision.
pub proof fn lemma_accepted_commands_cite_owner_runs(
    ev: ComputerCodingEvidenceView,
    p: ComputerCodingProofView,
    c: CodingAcceptanceContractView,
    contract_digest: Seq<char>,
    s: CodingCompletionSubmissionView,
)
    requires
        completion_result(ev, p, c, contract_digest, s) is Ok,
    ensures
        s.commands.len() > 0,
        s.commands.len() == p.readiness_execution_ids.len(),
        forall|k: int|
            0 <= k < s.commands.len() ==> {
                let id = p.readiness_execution_ids[k];
                let i = first_index(ev.executions, has_execution_id(id));
                &&& (#[trigger] s.commands[k]).exit_code == Some(0i32)
                &&& s.commands[k].evidence_refs.contains(receipt_ref(id))
                &&& 0 <= i < ev.executions.len()
                &&& ev.executions[i].response.tool_execution_id == id
                &&& ev.executions[i].request is Readiness
                &&& ev.executions[i].response.revision == s.revision
                &&& ev.executions[i].response.readiness matches Some(x) && x.exit_code == 0 && !x.timed_out
                    && !x.truncated && x.command == s.commands[k].command
            },
{
    let execs = ev.executions;
    let b = first_index(execs, has_execution_id(p.baseline_execution_id));
    lemma_readiness_steps_each(
        execs,
        execs[b].response.base_revision,
        s.revision,
        p.readiness_execution_ids,
        s.commands,
        s.commands.len() as int,
    );
    assert forall|k: int| 0 <= k < s.commands.len() implies {
        let id = p.readiness_execution_ids[k];
        let i = first_index(ev.executions, has_execution_id(id));
        &&& (#[trigger] s.commands[k]).exit_code == Some(0i32)
        &&& s.commands[k].evidence_refs.contains(receipt_ref(id))
        &&& 0 <= i < ev.executions.len()
        &&& ev.executions[i].response.tool_execution_id == id
        &&& ev.executions[i].request is Readiness
        &&& ev.executions[i].response.revision == s.revision
        &&& ev.executions[i].response.readiness matches Some(x) && x.exit_code == 0 && !x.timed_out
            && !x.truncated && x.command == s.commands[k].command
    } by {
        let id = p.readiness_execution_ids[k];
        assert(readiness_step(execs, execs[b].response.base_revision, s.revision, id, s.commands[k]) is Ok);
        lemma_first_index_found(execs, has_execution_id(id));
    }
}


/// `x` is the owner capture execution `id` at the submission's revision: it
/// captured exactly the contract's output paths, and the submitted files are
/// its outputs, one per captured output, with the captured path and content.
pub open spec fn is_contract_capture(
    x: ComputerCodingExecutionView,
    id: Seq<char>,
    c: CodingAcceptanceContractView,
    s: CodingCompletionSubmissionView,
) -> bool {
    let outs = x.response.outputs;
    &&& x.response.tool_execution_id == id
    &&& x.request is Outputs
    &&& x.response.revision == s.revision
    &&& (forall|j: int| 0 <= j < outs.len() ==> c.output_paths.contains(#[trigger] outs[j].path))
    &&& output_paths_of(outs).to_set() == c.output_paths.to_set()
    &&& outs.len() == s.outputs.len()
    &&& forall|i: int| 0 <= i < s.outputs.len() ==> captured_has(outs, #[trigger] s.outputs[i])
}

/// An accepted completion submits outputs exactly as the contract asks. With
/// no contract output paths it names no output execution and submits no file.
/// With output paths, the execution its proof names is an owner capture at the
/// submitted revision whose captured paths are exactly the contract's paths,
/// and the submitted files are that capture: as many files as captured
/// outputs, each with the path and content of a captured output.
pub proof fn lemma_accepted_outputs_are_the_contract_capture(
    ev: ComputerCodingEvidenceView,
    p: ComputerCodingProofView,
    c: CodingAcceptanceContractView,
    contract_digest: Seq<char>,
    s: CodingCompletionSubmissionView,
)
    requires
        completion_result(ev, p, c, contract_digest, s) is Ok,
    ensures
        c.output_paths.len() == 0 ==> p.outputs_execution_id is None && s.outputs.len() == 0,
        c.output_paths.len() > 0 ==> (p.outputs_execution_id matches Some(id) && exists|k: int|
            0 <= k < ev.executions.len() && #[trigger] is_contract_capture(ev.executions[k], id, c, s)),
{
    let execs = ev.executions;
    let b = first_index(execs, has_execution_id(p.baseline_execution_id));
    let base = execs[b].response.base_revision;
    assert(output_step(execs, base, p, c, s) is Ok);
    if c.output_paths.len() > 0 {
        let id = p.outputs_execution_id->Some_0;
        let k = first_index(execs, has_execution_id(id));
        lemma_first_index_found(execs, has_execution_id(id));
        let outs = execs[k].response.outputs;
        assert(submitted_files_match(outs, s.outputs, c.output_paths));
        let captured = output_paths_of(outs);
        assert(captured.to_set() == c.output_paths.to_set());
        assert forall|j: int| 0 <= j < outs.len() implies c.output_paths.contains(#[trigger] outs[j].path) by {
            assert(captured[j] == outs[j].path);
            assert(captured.to_set().contains(outs[j].path));
        }
        assert forall|i: int| 0 <= i < s.outputs.len() implies captured_has(outs, #[trigger] s.outputs[i]) by {
        }
        assert(has_execution_id(id)(execs[k]));
        assert(execs[k].response.tool_execution_id == id);
        assert(execs[k].request is Outputs && execs[k].response.revision == s.revision);
        assert(outs.len() == s.outputs.len());
        assert(0 <= k < execs.len());
        assert(is_contract_capture(execs[k], id, c, s));
    }
}

} // verus!
