//! Hosted coding_task projection. The worker supplies owner-checkpointed facts
//! and persists the returned transitions; this module performs no effects.

use vstd::prelude::*;

use crate::acceptance::{assertions_view, commands_view, copy_handoff_items, copy_report, copy_strings, handoff_items_view, CodingAcceptanceChildRecord, CodingAcceptanceChildRecordView, CodingAcceptanceContract, CodingAcceptanceContractView, CodingAssertionResult, CodingAssertionResultView, CodingCommandResult, CodingCommandResultView, CodingCompletionSubmission, CodingCompletionSubmissionView, CodingHandoffDisposition, CodingHandoffItem, CodingHandoffItemView, CodingOutputFile, CodingOutputFileView, CodingValidationReport, CodingValidationReportView, CodingValidationRole, CodingVerificationStatus, files_view};
use crate::computer::{answer_result, option_string_view, same_strings, string_in, strings_view, CodingWorkspaceRequest, ComputerCodingProof, ComputerCodingProofView};
use crate::computer_evidence::{completion_result, executions_view, find_execution, has_execution_id, index_view, receipt_ref, unit_outcome, validate_computer_completion, ComputerCodingEvidence, ComputerCodingEvidenceView, ComputerCodingExecution, ComputerCodingExecutionView};
use crate::search::{first_index, last_index, lemma_first_index, lemma_first_index_found, lemma_last_index, lemma_last_index_found};
use crate::text::{blank, copy_string, is_blank, join, same_string, same_text};

verus! {

/// An action a hosted model may take on its coding task.
#[derive(Clone, Debug, PartialEq, Eq)]
pub enum HostedCodingAction {
    Begin { mission_id: String, work_id: String, contract: CodingAcceptanceContract },
    Readiness { requirement_id: Option<String>, execution_id: Option<String> },
    Validate { role: CodingValidationRole },
    Status {},
    Handoff { item: CodingHandoffItem },
    Complete {},
}

/// Owner-checkpointed facts a hosted action is projected against.
///
/// `contract_digest` is the digest the contract was admitted under and
/// `contract_check` the outcome of the contract's own validation. Each child
/// comes with the digest of its report; `readiness_bindings` maps readiness
/// categories to owner execution ids (the first entry for a category counts).
pub struct HostedCodingContext<'a> {
    pub contract: &'a CodingAcceptanceContract,
    pub contract_digest: &'a str,
    pub contract_check: Result<(), &'static str>,
    pub work_id: &'a str,
    pub session_id: &'a str,
    pub evidence: &'a ComputerCodingEvidence,
    pub readiness_bindings: &'a [(String, String)],
    pub children: &'a [(CodingAcceptanceChildRecord, CodingValidationReport, String)],
    pub handoff_items: &'a [CodingHandoffItem],
}

/// The transition a hosted action yields; the worker renders and persists it.
#[derive(Clone, Debug, PartialEq, Eq)]
pub enum HostedCodingOutcome {
    /// The task began on the owner baseline.
    Begin {
        mission_id: String,
        work_id: String,
        contract: CodingAcceptanceContract,
        base_revision: String,
        repository_id: String,
    },
    /// The inspected revision and the readiness categories still unproven.
    Status { revision: String, missing_readiness: Vec<String> },
    ReadinessBinding { requirement_id: String, execution_id: String },
    Validate(CodingValidationRole),
    Handoff(CodingHandoffItem),
    Complete(Box<CodingCompletionSubmission>),
}

// ----------------------------------------------------------------------------
// Mathematical models
// ----------------------------------------------------------------------------

pub enum HostedCodingActionView {
    Begin { mission_id: Seq<char>, work_id: Seq<char>, contract: CodingAcceptanceContractView },
    Readiness { requirement_id: Option<Seq<char>>, execution_id: Option<Seq<char>> },
    Validate { role: CodingValidationRole },
    Status,
    Handoff { item: CodingHandoffItemView },
    Complete,
}

impl View for HostedCodingAction {
    type V = HostedCodingActionView;

    open spec fn view(&self) -> HostedCodingActionView {
        match self {
            HostedCodingAction::Begin { mission_id, work_id, contract } => {
                HostedCodingActionView::Begin {
                    mission_id: mission_id@,
                    work_id: work_id@,
                    contract: contract@,
                }
            },
            HostedCodingAction::Readiness { requirement_id, execution_id } => {
                HostedCodingActionView::Readiness {
                    requirement_id: option_string_view(*requirement_id),
                    execution_id: option_string_view(*execution_id),
                }
            },
            HostedCodingAction::Validate { role } => HostedCodingActionView::Validate { role: *role },
            HostedCodingAction::Status {} => HostedCodingActionView::Status,
            HostedCodingAction::Handoff { item } => HostedCodingActionView::Handoff { item: item@ },
            HostedCodingAction::Complete {} => HostedCodingActionView::Complete,
        }
    }
}

pub struct HostedValidatorChildView {
    pub record: CodingAcceptanceChildRecordView,
    pub report: CodingValidationReportView,
    pub report_digest: Seq<char>,
}

pub struct HostedCodingContextView {
    pub contract: CodingAcceptanceContractView,
    pub contract_digest: Seq<char>,
    pub contract_check: Result<(), Seq<char>>,
    pub work_id: Seq<char>,
    pub session_id: Seq<char>,
    pub evidence: ComputerCodingEvidenceView,
    pub readiness_bindings: Seq<(Seq<char>, Seq<char>)>,
    pub children: Seq<HostedValidatorChildView>,
    pub handoff_items: Seq<CodingHandoffItemView>,
}

pub open spec fn bindings_view(v: Seq<(String, String)>) -> Seq<(Seq<char>, Seq<char>)> {
    v.map_values(|b: (String, String)| (b.0@, b.1@))
}

pub open spec fn children_view(
    v: Seq<(CodingAcceptanceChildRecord, CodingValidationReport, String)>,
) -> Seq<HostedValidatorChildView> {
    v.map_values(
        |c: (CodingAcceptanceChildRecord, CodingValidationReport, String)|
            HostedValidatorChildView { record: c.0@, report: c.1@, report_digest: c.2@ },
    )
}

impl<'a> View for HostedCodingContext<'a> {
    type V = HostedCodingContextView;

    open spec fn view(&self) -> HostedCodingContextView {
        HostedCodingContextView {
            contract: self.contract@,
            contract_digest: self.contract_digest@,
            contract_check: unit_outcome(self.contract_check),
            work_id: self.work_id@,
            session_id: self.session_id@,
            evidence: self.evidence@,
            readiness_bindings: bindings_view(self.readiness_bindings@),
            children: children_view(self.children@),
            handoff_items: handoff_items_view(self.handoff_items@),
        }
    }
}

pub enum HostedCodingOutcomeView {
    Begin {
        mission_id: Seq<char>,
        work_id: Seq<char>,
        contract: CodingAcceptanceContractView,
        base_revision: Seq<char>,
        repository_id: Seq<char>,
    },
    Status { revision: Seq<char>, missing_readiness: Seq<Seq<char>> },
    ReadinessBinding { requirement_id: Seq<char>, execution_id: Seq<char> },
    Validate(CodingValidationRole),
    Handoff(CodingHandoffItemView),
    Complete(CodingCompletionSubmissionView),
}

impl View for HostedCodingOutcome {
    type V = HostedCodingOutcomeView;

    open spec fn view(&self) -> HostedCodingOutcomeView {
        match self {
            HostedCodingOutcome::Begin {
                mission_id,
                work_id,
                contract,
                base_revision,
                repository_id,
            } => HostedCodingOutcomeView::Begin {
                mission_id: mission_id@,
                work_id: work_id@,
                contract: contract@,
                base_revision: base_revision@,
                repository_id: repository_id@,
            },
            HostedCodingOutcome::Status { revision, missing_readiness } => {
                HostedCodingOutcomeView::Status {
                    revision: revision@,
                    missing_readiness: strings_view(missing_readiness@),
                }
            },
            HostedCodingOutcome::ReadinessBinding { requirement_id, execution_id } => {
                HostedCodingOutcomeView::ReadinessBinding {
                    requirement_id: requirement_id@,
                    execution_id: execution_id@,
                }
            },
            HostedCodingOutcome::Validate(role) => HostedCodingOutcomeView::Validate(*role),
            HostedCodingOutcome::Handoff(item) => HostedCodingOutcomeView::Handoff(item@),
            HostedCodingOutcome::Complete(s) => HostedCodingOutcomeView::Complete((**s)@),
        }
    }
}

// ----------------------------------------------------------------------------
// Rules
// ----------------------------------------------------------------------------

pub open spec fn is_baseline_execution() -> spec_fn(ComputerCodingExecutionView) -> bool {
    |e: ComputerCodingExecutionView| e.request is Baseline
}

pub open spec fn is_inspect_execution() -> spec_fn(ComputerCodingExecutionView) -> bool {
    |e: ComputerCodingExecutionView| e.request is Inspect
}

pub open spec fn is_output_capture_at(revision: Seq<char>) -> spec_fn(ComputerCodingExecutionView) -> bool {
    |e: ComputerCodingExecutionView| e.request is Outputs && e.response.revision == revision
}

pub open spec fn binds(key: Seq<char>) -> spec_fn((Seq<char>, Seq<char>)) -> bool {
    |b: (Seq<char>, Seq<char>)| b.0 == key
}

/// The owner execution a readiness category is bound to.
pub open spec fn binding_of(ctx: HostedCodingContextView, key: Seq<char>) -> Option<Seq<char>> {
    let k = first_index(ctx.readiness_bindings, binds(key));
    if k < 0 {
        None
    } else {
        Some(ctx.readiness_bindings[k].1)
    }
}

/// The most recent inspection, which must be clean.
pub open spec fn inspection_result(ctx: HostedCodingContextView) -> Result<int, Seq<char>> {
    let execs = ctx.evidence.executions;
    let k = last_index(execs, is_inspect_execution());
    if k < 0 || !execs[k].response.clean {
        Err("coding_task requires a clean owner Computer inspection"@)
    } else {
        Ok(k)
    }
}

/// The execution `id`, which must be a successful readiness run at `revision`.
pub open spec fn readiness_result(
    ctx: HostedCodingContextView,
    id: Seq<char>,
    revision: Seq<char>,
) -> Result<int, Seq<char>> {
    let execs = ctx.evidence.executions;
    let k = first_index(execs, has_execution_id(id));
    if k < 0 {
        Err("unknown owner readiness execution"@)
    } else if answer_result(execs[k].response, execs[k].request) is Err {
        Err(answer_result(execs[k].response, execs[k].request)->Err_0)
    } else {
        match execs[k].response.readiness {
            None => Err("execution is not readiness"@),
            Some(x) => {
                if !(execs[k].request is Readiness) || execs[k].response.revision != revision
                    || !execs[k].response.clean || x.exit_code != 0 || x.timed_out || x.truncated {
                    Err("readiness did not succeed at the inspected revision"@)
                } else {
                    Ok(k)
                }
            },
        }
    }
}

/// The category has no binding, or its binding is not a successful readiness
/// run at `revision`.
pub open spec fn readiness_missing(ctx: HostedCodingContextView, requirement: Seq<char>, revision: Seq<char>) -> bool {
    match binding_of(ctx, requirement) {
        None => true,
        Some(id) => readiness_result(ctx, id, revision) is Err,
    }
}

/// The first `n` required categories that are still missing, in order.
pub open spec fn missing_readiness(ctx: HostedCodingContextView, revision: Seq<char>, n: int) -> Seq<Seq<char>>
    decreases n,
{
    if n <= 0 {
        Seq::empty()
    } else {
        let rest = missing_readiness(ctx, revision, n - 1);
        let r = ctx.contract.readiness_requirements[n - 1];
        if readiness_missing(ctx, r, revision) {
            rest.push(r)
        } else {
            rest
        }
    }
}

/// Every one of the first `n` required categories is bound to a successful
/// readiness run at `revision`; the first that is not decides the error.
pub open spec fn readiness_bound(ctx: HostedCodingContextView, revision: Seq<char>, n: int) -> Result<(), Seq<char>>
    decreases n,
{
    if n <= 0 {
        Ok(())
    } else if readiness_bound(ctx, revision, n - 1) is Err {
        readiness_bound(ctx, revision, n - 1)
    } else {
        match binding_of(ctx, ctx.contract.readiness_requirements[n - 1]) {
            None => Err("required readiness has no owner execution"@),
            Some(id) => match readiness_result(ctx, id, revision) {
                Err(m) => Err(m),
                Ok(_) => Ok(()),
            },
        }
    }
}


/// What the readiness requirements contribute to a completion: one passed
/// assertion per requirement, and one command per distinct owner execution.
pub struct ReadinessPlan {
    pub commands: Seq<CodingCommandResultView>,
    pub readiness: Seq<CodingAssertionResultView>,
    pub ids: Seq<Seq<char>>,
}

pub open spec fn readiness_plan(ctx: HostedCodingContextView, revision: Seq<char>, n: int) -> Result<ReadinessPlan, Seq<char>>
    decreases n,
{
    if n <= 0 {
        Ok(ReadinessPlan { commands: Seq::empty(), readiness: Seq::empty(), ids: Seq::empty() })
    } else {
        match readiness_plan(ctx, revision, n - 1) {
            Err(m) => Err(m),
            Ok(plan) => {
                let r = ctx.contract.readiness_requirements[n - 1];
                match binding_of(ctx, r) {
                    None => Err("required readiness has no owner execution"@),
                    Some(id) => match readiness_result(ctx, id, revision) {
                        Err(m) => Err(m),
                        Ok(k) => {
                            let refs = seq![receipt_ref(id)];
                            let assertion = CodingAssertionResultView {
                                assertion_id: r,
                                status: CodingVerificationStatus::Passed,
                                evidence_refs: refs,
                            };
                            if plan.ids.contains(id) {
                                Ok(ReadinessPlan {
                                    commands: plan.commands,
                                    readiness: plan.readiness.push(assertion),
                                    ids: plan.ids,
                                })
                            } else {
                                let command = match ctx.evidence.executions[k].response.readiness {
                                    Some(x) => x.command,
                                    None => Seq::empty(),
                                };
                                Ok(ReadinessPlan {
                                    commands: plan.commands.push(
                                        CodingCommandResultView {
                                            command,
                                            exit_code: Some(0i32),
                                            evidence_refs: refs,
                                        },
                                    ),
                                    readiness: plan.readiness.push(assertion),
                                    ids: plan.ids.push(id),
                                })
                            }
                        },
                    },
                }
            },
        }
    }
}

/// A settled validator child of this session for `role` at `revision` whose
/// record carries its report's digest.
pub open spec fn validator_child(
    role: CodingValidationRole,
    revision: Seq<char>,
    session: Seq<char>,
) -> spec_fn(HostedValidatorChildView) -> bool {
    |c: HostedValidatorChildView|
        c.record.role == role && c.record.revision == revision && c.record.parent_session_id
            == session && c.record.report_digest == c.report_digest
}

pub open spec fn files_of(outputs: Seq<crate::computer::CodingWorkspaceOutputView>) -> Seq<CodingOutputFileView> {
    outputs.map_values(
        |o: crate::computer::CodingWorkspaceOutputView| CodingOutputFileView {
            path: o.path,
            content: o.content,
        },
    )
}

/// The submission assembled from owner records, before it is checked.
pub open spec fn completion_draft(ctx: HostedCodingContextView) -> Result<CodingCompletionSubmissionView, Seq<char>> {
    let execs = ctx.evidence.executions;
    match inspection_result(ctx) {
        Err(m) => Err(m),
        Ok(i) => {
            let revision = execs[i].response.revision;
            let b = first_index(execs, is_baseline_execution());
            if b < 0 {
                Err("missing owner baseline"@)
            } else {
                match readiness_plan(ctx, revision, ctx.contract.readiness_requirements.len() as int) {
                    Err(m) => Err(m),
                    Ok(plan) => {
                        let needs_output = ctx.contract.output_paths.len() > 0;
                        let o = last_index(execs, is_output_capture_at(revision));
                        let rv = last_index(
                            ctx.children,
                            validator_child(CodingValidationRole::Review, revision, ctx.session_id),
                        );
                        let bh = last_index(
                            ctx.children,
                            validator_child(CodingValidationRole::Behavior, revision, ctx.session_id),
                        );
                        if needs_output && o < 0 {
                            Err("missing immutable output capture"@)
                        } else if rv < 0 || bh < 0 {
                            Err("missing actual independent validator completion"@)
                        } else {
                            Ok(CodingCompletionSubmissionView {
                                task_id: ctx.contract.task_id,
                                work_id: ctx.work_id,
                                repository_id: ctx.contract.repository_id,
                                contract_digest: ctx.contract_digest,
                                generation: ctx.contract.generation,
                                revision,
                                implementation_session_id: ctx.session_id,
                                commands: plan.commands,
                                readiness: plan.readiness,
                                review: Some(ctx.children[rv].report),
                                behavior: Some(ctx.children[bh].report),
                                handoff_items: ctx.handoff_items,
                                outputs: if needs_output {
                                    files_of(execs[o].response.outputs)
                                } else {
                                    Seq::empty()
                                },
                                computer_proof: Some(
                                    ComputerCodingProofView {
                                        baseline_execution_id: execs[b].response.tool_execution_id,
                                        inspection_execution_id: execs[i].response.tool_execution_id,
                                        outputs_execution_id: if needs_output {
                                            Some(execs[o].response.tool_execution_id)
                                        } else {
                                            None
                                        },
                                        readiness_execution_ids: plan.ids,
                                    },
                                ),
                            })
                        }
                    },
                }
            }
        },
    }
}

pub open spec fn draft_proof(d: CodingCompletionSubmissionView) -> ComputerCodingProofView {
    match d.computer_proof {
        Some(p) => p,
        None => arbitrary(),
    }
}

/// `complete` returned `r` for `ctx` when the contract evaluator is `accepts`.
pub open spec fn completion_outcome<F: Fn(&CodingCompletionSubmission) -> bool>(
    ctx: HostedCodingContextView,
    accepts: F,
    r: Result<CodingCompletionSubmission, &'static str>,
) -> bool {
    match completion_draft(ctx) {
        Err(m) => r matches Err(e) && e@ == m,
        Ok(d) => match completion_result(
            ctx.evidence,
            draft_proof(d),
            ctx.contract,
            ctx.contract_digest,
            d,
        ) {
            Err(m) => r matches Err(e) && e@ == m,
            Ok(_) => match r {
                Ok(s) => s@ == d && call_ensures(accepts, (&s,), true),
                Err(e) => e@ == "coding completion was not accepted by the existing contract evaluator"@
                    && exists|s: CodingCompletionSubmission|
                    s@ == d && #[trigger] call_ensures(accepts, (&s,), false),
            },
        },
    }
}

pub open spec fn handoff_admitted(ctx: HostedCodingContextView, item: CodingHandoffItemView) -> bool {
    &&& item.id.len() > 0
    &&& item.evidence_refs.len() > 0
    &&& (item.disposition == CodingHandoffDisposition::Deferred || item.disposition
        == CodingHandoffDisposition::Dismissed) ==> ctx.contract.authorized_dispositions.contains(
        item.id,
    )
}

/// What `project_hosted_coding_action` returns for every action but
/// `Complete`, whose result `completion_outcome` describes.
pub open spec fn projection_result(ctx: HostedCodingContextView, a: HostedCodingActionView) -> Result<HostedCodingOutcomeView, Seq<char>> {
    let execs = ctx.evidence.executions;
    if ctx.contract_check is Err {
        Err(ctx.contract_check->Err_0)
    } else if ctx.work_id != ctx.evidence.fence.work_id || ctx.session_id
        != ctx.evidence.fence.maestro_session_id {
        Err("coding_task owner scope does not match this session and work"@)
    } else {
        match a {
            HostedCodingActionView::Begin { mission_id, work_id, contract } => {
                let b = first_index(execs, is_baseline_execution());
                if is_blank(mission_id) || work_id != ctx.work_id || contract != ctx.contract {
                    Err("coding_task begin does not match the admitted work contract"@)
                } else if b < 0 {
                    Err("coding_task begin requires an owner Computer baseline"@)
                } else if answer_result(execs[b].response, execs[b].request) is Err {
                    Err(answer_result(execs[b].response, execs[b].request)->Err_0)
                } else {
                    Ok(HostedCodingOutcomeView::Begin {
                        mission_id,
                        work_id,
                        contract,
                        base_revision: execs[b].response.base_revision,
                        repository_id: execs[b].response.project_resource_id,
                    })
                }
            },
            HostedCodingActionView::Readiness { requirement_id, execution_id } => {
                match (requirement_id, execution_id) {
                    (Some(r), Some(id)) => {
                        if !ctx.contract.readiness_requirements.contains(r) {
                            Err("readiness category is not admitted"@)
                        } else {
                            match inspection_result(ctx) {
                                Err(m) => Err(m),
                                Ok(i) => match readiness_result(ctx, id, execs[i].response.revision) {
                                    Err(m) => Err(m),
                                    Ok(_) => Ok(
                                        HostedCodingOutcomeView::ReadinessBinding {
                                            requirement_id: r,
                                            execution_id: id,
                                        },
                                    ),
                                },
                            }
                        }
                    },
                    (None, None) => status_result(ctx),
                    _ => Err("readiness requires both requirement_id and execution_id"@),
                }
            },
            HostedCodingActionView::Status => status_result(ctx),
            HostedCodingActionView::Validate { role } => match inspection_result(ctx) {
                Err(m) => Err(m),
                Ok(i) => match readiness_bound(
                    ctx,
                    execs[i].response.revision,
                    ctx.contract.readiness_requirements.len() as int,
                ) {
                    Err(m) => Err(m),
                    Ok(_) => Ok(HostedCodingOutcomeView::Validate(role)),
                },
            },
            HostedCodingActionView::Handoff { item } => {
                if handoff_admitted(ctx, item) {
                    Ok(HostedCodingOutcomeView::Handoff(item))
                } else {
                    Err("handoff item is missing evidence or an authorized disposition"@)
                }
            },
            HostedCodingActionView::Complete => arbitrary(),
        }
    }
}

pub open spec fn status_result(ctx: HostedCodingContextView) -> Result<HostedCodingOutcomeView, Seq<char>> {
    match inspection_result(ctx) {
        Err(m) => Err(m),
        Ok(i) => {
            let revision = ctx.evidence.executions[i].response.revision;
            Ok(HostedCodingOutcomeView::Status {
                revision,
                missing_readiness: missing_readiness(
                    ctx,
                    revision,
                    ctx.contract.readiness_requirements.len() as int,
                ),
            })
        },
    }
}


/// Position of the first binding for the category `key`.
fn binding_for(bindings: &[(String, String)], key: &String) -> (r: Option<usize>)
    ensures
        index_view(r) == first_index(bindings_view(bindings@), binds(key@)),
        r matches Some(k) ==> k < bindings.len(),
{
    let ghost s = bindings_view(bindings@);
    let ghost p = binds(key@);
    let mut i: usize = 0;
    while i < bindings.len()
        invariant
            s == bindings_view(bindings@),
            p == binds(key@),
            i <= bindings.len(),
            forall|j: int| 0 <= j < i ==> !p(#[trigger] s[j]),
        decreases bindings.len() - i,
    {
        assert(s[i as int] == (bindings@[i as int].0@, bindings@[i as int].1@));
        if same_string(&bindings[i].0, key) {
            proof {
                lemma_first_index(s, p, i as int);
            }
            return Some(i);
        }
        i = i + 1;
    }
    proof {
        lemma_first_index(s, p, s.len() as int);
    }
    None
}

/// Position of the first baseline execution.
fn find_baseline(executions: &Vec<ComputerCodingExecution>) -> (r: Option<usize>)
    ensures
        index_view(r) == first_index(executions_view(executions@), is_baseline_execution()),
        r matches Some(k) ==> k < executions.len(),
{
    let ghost s = executions_view(executions@);
    let ghost p = is_baseline_execution();
    let mut i: usize = 0;
    while i < executions.len()
        invariant
            s == executions_view(executions@),
            p == is_baseline_execution(),
            i <= executions.len(),
            forall|j: int| 0 <= j < i ==> !p(#[trigger] s[j]),
        decreases executions.len() - i,
    {
        assert(s[i as int] == executions@[i as int]@);
        if let CodingWorkspaceRequest::Baseline { .. } = &executions[i].request {
            proof {
                lemma_first_index(s, p, i as int);
            }
            return Some(i);
        }
        i = i + 1;
    }
    proof {
        lemma_first_index(s, p, s.len() as int);
    }
    None
}

/// Position of the last inspection; it must be clean.
fn inspection(context: &HostedCodingContext) -> (r: Result<usize, &'static str>)
    ensures
        match inspection_result(context@) {
            Ok(k) => r == Ok::<usize, &'static str>(k as usize) && k < context.evidence.executions.len(),
            Err(m) => r matches Err(e) && e@ == m,
        },
{
    let executions = &context.evidence.executions;
    let ghost s = executions_view(executions@);
    let ghost p = is_inspect_execution();
    let mut i: usize = executions.len();
    while i > 0
        invariant
            s == executions_view(executions@),
            s == context@.evidence.executions,
            p == is_inspect_execution(),
            i <= executions.len(),
            forall|j: int| i <= j < s.len() ==> !p(#[trigger] s[j]),
        decreases i,
    {
        assert(s[i - 1] == executions@[i - 1]@);
        if let CodingWorkspaceRequest::Inspect { .. } = &executions[i - 1].request {
            proof {
                lemma_last_index(s, p, i - 1);
            }
            if executions[i - 1].response.clean {
                return Ok(i - 1);
            } else {
                return Err("coding_task requires a clean owner Computer inspection");
            }
        }
        i = i - 1;
    }
    proof {
        lemma_last_index(s, p, -1);
    }
    Err("coding_task requires a clean owner Computer inspection")
}

/// Position of the owner execution `id`; it must be a successful readiness
/// run at `revision`.
fn readiness_execution(context: &HostedCodingContext, id: &String, revision: &String) -> (r: Result<usize, &'static str>)
    ensures
        match readiness_result(context@, id@, revision@) {
            Ok(k) => r == Ok::<usize, &'static str>(k as usize) && k < context.evidence.executions.len(),
            Err(m) => r matches Err(e) && e@ == m,
        },
{
    let executions = &context.evidence.executions;
    let k = match find_execution(executions, id) {
        Some(k) => k,
        None => {
            return Err("unknown owner readiness execution");
        },
    };
    let record = &executions[k];
    assert(context@.evidence.executions[k as int] == record@);
    match record.response.validate_for(&record.request) {
        Ok(()) => {},
        Err(e) => {
            return Err(e);
        },
    }
    let readiness = match &record.response.readiness {
        Some(x) => x,
        None => {
            return Err("execution is not readiness");
        },
    };
    let is_readiness = match &record.request {
        CodingWorkspaceRequest::Readiness { .. } => true,
        _ => false,
    };
    if !is_readiness || !same_string(&record.response.revision, revision) || !record.response.clean
        || readiness.exit_code != 0 || readiness.timed_out || readiness.truncated {
        return Err("readiness did not succeed at the inspected revision");
    }
    Ok(k)
}

/// The required categories that are still missing at `revision`, in order.
fn missing_requirements(context: &HostedCodingContext, revision: &String) -> (missing: Vec<String>)
    ensures
        strings_view(missing@) == missing_readiness(
            context@,
            revision@,
            context@.contract.readiness_requirements.len() as int,
        ),
{
    let requirements = &context.contract.readiness_requirements;
    let mut missing: Vec<String> = Vec::new();
    let mut i: usize = 0;
    while i < requirements.len()
        invariant
            i <= requirements.len(),
            requirements@ == context.contract.readiness_requirements@,
            strings_view(missing@) == missing_readiness(context@, revision@, i as int),
        decreases requirements.len() - i,
    {
        let requirement = &requirements[i];
        assert(context@.contract.readiness_requirements[i as int] == requirement@);
        let absent = match binding_for(context.readiness_bindings, requirement) {
            None => true,
            Some(b) => {
                assert(bindings_view(context.readiness_bindings@)[b as int].1
                    == context.readiness_bindings@[b as int].1@);
                readiness_execution(context, &context.readiness_bindings[b].1, revision).is_err()
            },
        };
        if absent {
            let ghost before = missing@;
            missing.push(copy_string(requirement));
            assert(strings_view(missing@) =~= strings_view(before).push(requirement@));
        }
        i = i + 1;
    }
    missing
}

/// Every required category is bound to a successful readiness run at `revision`.
fn requirements_bound(context: &HostedCodingContext, revision: &String) -> (r: Result<(), &'static str>)
    ensures
        unit_outcome(r) == readiness_bound(
            context@,
            revision@,
            context@.contract.readiness_requirements.len() as int,
        ),
{
    let requirements = &context.contract.readiness_requirements;
    let mut i: usize = 0;
    while i < requirements.len()
        invariant
            i <= requirements.len(),
            requirements@ == context.contract.readiness_requirements@,
            readiness_bound(context@, revision@, i as int) is Ok,
        decreases requirements.len() - i,
    {
        let requirement = &requirements[i];
        assert(context@.contract.readiness_requirements[i as int] == requirement@);
        let step: Result<(), &'static str> = match binding_for(context.readiness_bindings, requirement) {
            None => Err("required readiness has no owner execution"),
            Some(b) => {
                assert(bindings_view(context.readiness_bindings@)[b as int].1
                    == context.readiness_bindings@[b as int].1@);
                match readiness_execution(context, &context.readiness_bindings[b].1, revision) {
                    Err(e) => Err(e),
                    Ok(_) => Ok(()),
                }
            },
        };
        if let Err(e) = step {
            proof {
                lemma_bound_first_failure(
                    context@,
                    revision@,
                    i + 1,
                    context@.contract.readiness_requirements.len() as int,
                );
            }
            return Err(e);
        }
        i = i + 1;
    }
    Ok(())
}

proof fn lemma_bound_first_failure(ctx: HostedCodingContextView, revision: Seq<char>, m: int, n: int)
    requires
        0 <= m <= n,
        readiness_bound(ctx, revision, m) is Err,
    ensures
        readiness_bound(ctx, revision, n) == readiness_bound(ctx, revision, m),
    decreases n - m,
{
    if n > m {
        lemma_bound_first_failure(ctx, revision, m, n - 1);
    }
}


/// Position of the last settled validator child for `role` at `revision`.
fn find_validator_child(
    children: &[(CodingAcceptanceChildRecord, CodingValidationReport, String)],
    role: CodingValidationRole,
    revision: &String,
    session: &str,
) -> (r: Option<usize>)
    ensures
        index_view(r) == last_index(children_view(children@), validator_child(role, revision@, session@)),
        r matches Some(k) ==> k < children.len(),
{
    let ghost s = children_view(children@);
    let ghost p = validator_child(role, revision@, session@);
    let mut i: usize = children.len();
    while i > 0
        invariant
            s == children_view(children@),
            p == validator_child(role, revision@, session@),
            i <= children.len(),
            forall|j: int| i <= j < s.len() ==> !p(#[trigger] s[j]),
        decreases i,
    {
        let child = &children[i - 1];
        assert(s[i - 1] == HostedValidatorChildView { record: child.0@, report: child.1@, report_digest: child.2@ });
        if child.0.role == role && same_string(&child.0.revision, revision) && same_text(
            child.0.parent_session_id.as_str(),
            session,
        ) && same_string(&child.0.report_digest, &child.2) {
            proof {
                lemma_last_index(s, p, i - 1);
            }
            return Some(i - 1);
        }
        i = i - 1;
    }
    proof {
        lemma_last_index(s, p, -1);
    }
    None
}

/// Position of the last output capture taken at `revision`.
fn find_output_capture(executions: &Vec<ComputerCodingExecution>, revision: &String) -> (r: Option<usize>)
    ensures
        index_view(r) == last_index(executions_view(executions@), is_output_capture_at(revision@)),
        r matches Some(k) ==> k < executions.len(),
{
    let ghost s = executions_view(executions@);
    let ghost p = is_output_capture_at(revision@);
    let mut i: usize = executions.len();
    while i > 0
        invariant
            s == executions_view(executions@),
            p == is_output_capture_at(revision@),
            i <= executions.len(),
            forall|j: int| i <= j < s.len() ==> !p(#[trigger] s[j]),
        decreases i,
    {
        let e = &executions[i - 1];
        assert(s[i - 1] == e@);
        let is_outputs = match &e.request {
            CodingWorkspaceRequest::Outputs { .. } => true,
            _ => false,
        };
        if is_outputs && same_string(&e.response.revision, revision) {
            proof {
                lemma_last_index(s, p, i - 1);
            }
            return Some(i - 1);
        }
        i = i - 1;
    }
    proof {
        lemma_last_index(s, p, -1);
    }
    None
}

fn captured_files(outputs: &Vec<crate::computer::CodingWorkspaceOutput>) -> (files: Vec<CodingOutputFile>)
    ensures
        files_view(files@) == files_of(crate::computer::outputs_view(outputs@)),
{
    let mut files: Vec<CodingOutputFile> = Vec::new();
    let mut i: usize = 0;
    while i < outputs.len()
        invariant
            i <= outputs.len(),
            files@.len() == i,
            forall|j: int|
                0 <= j < i ==> #[trigger] files@[j]@ == (CodingOutputFileView {
                    path: outputs@[j].path@,
                    content: outputs@[j].content@,
                }),
        decreases outputs.len() - i,
    {
        files.push(CodingOutputFile { path: copy_string(&outputs[i].path), content: copy_string(&outputs[i].content) });
        i = i + 1;
    }
    assert(files_view(files@) =~= files_of(crate::computer::outputs_view(outputs@)));
    files
}

fn copy_proof(p: &ComputerCodingProof) -> (r: ComputerCodingProof)
    ensures
        r@ == p@,
{
    ComputerCodingProof {
        baseline_execution_id: copy_string(&p.baseline_execution_id),
        inspection_execution_id: copy_string(&p.inspection_execution_id),
        outputs_execution_id: match &p.outputs_execution_id {
            Some(id) => Some(copy_string(id)),
            None => None,
        },
        readiness_execution_ids: copy_strings(&p.readiness_execution_ids),
    }
}

/// Assembles the completion a session may submit from owner records alone,
/// checks it as `validate_computer_completion` does, and submits it to the
/// contract evaluator `accepts`.
pub fn complete<F: Fn(&CodingCompletionSubmission) -> bool>(
    context: &HostedCodingContext,
    accepts: F,
) -> (r: Result<CodingCompletionSubmission, &'static str>)
    requires
        forall|s: CodingCompletionSubmission| #[trigger] call_requires(accepts, (&s,)),
    ensures
        completion_outcome(context@, accepts, r),
{
    let ghost ctx = context@;
    let executions = &context.evidence.executions;
    let inspected = match inspection(context) {
        Ok(k) => k,
        Err(e) => {
            return Err(e);
        },
    };
    let revision = &executions[inspected].response.revision;
    assert(ctx.evidence.executions[inspected as int] == executions@[inspected as int]@);
    let baseline = match find_baseline(executions) {
        Some(b) => b,
        None => {
            return Err("missing owner baseline");
        },
    };
    assert(ctx.evidence.executions[baseline as int] == executions@[baseline as int]@);
    let requirements = &context.contract.readiness_requirements;
    let prefix = "receipt:tool-execution:";
    proof {
        reveal_strlit("receipt:tool-execution:");
    }
    let mut commands: Vec<CodingCommandResult> = Vec::new();
    let mut readiness: Vec<CodingAssertionResult> = Vec::new();
    let mut readiness_execution_ids: Vec<String> = Vec::new();
    assert(commands_view(commands@) =~= Seq::<CodingCommandResultView>::empty());
    assert(assertions_view(readiness@) =~= Seq::<CodingAssertionResultView>::empty());
    assert(strings_view(readiness_execution_ids@) =~= Seq::<Seq<char>>::empty());
    let mut i: usize = 0;
    while i < requirements.len()
        invariant
            ctx == context@,
            inspected < executions.len(),
            executions@ == context.evidence.executions@,
            inspection_result(ctx) == Ok::<int, Seq<char>>(inspected as int),
            first_index(ctx.evidence.executions, is_baseline_execution()) == baseline as int,
            i <= requirements.len(),
            requirements@ == context.contract.readiness_requirements@,
            revision@ == ctx.evidence.executions[inspected as int].response.revision,
            prefix@ == "receipt:tool-execution:"@,
            readiness_plan(ctx, revision@, i as int) == Ok::<ReadinessPlan, Seq<char>>(
                ReadinessPlan {
                    commands: commands_view(commands@),
                    readiness: assertions_view(readiness@),
                    ids: strings_view(readiness_execution_ids@),
                },
            ),
        decreases requirements.len() - i,
    {
        let requirement = &requirements[i];
        assert(ctx.contract.readiness_requirements[i as int] == requirement@);
        let b = match binding_for(context.readiness_bindings, requirement) {
            Some(b) => b,
            None => {
                proof {
                    lemma_plan_first_failure(ctx, revision@, i + 1, ctx.contract.readiness_requirements.len() as int);
                }
                return Err("required readiness has no owner execution");
            },
        };
        let id = &context.readiness_bindings[b].1;
        assert(bindings_view(context.readiness_bindings@)[b as int].1 == id@);
        let k = match readiness_execution(context, id, revision) {
            Ok(k) => k,
            Err(e) => {
                proof {
                    lemma_plan_first_failure(ctx, revision@, i + 1, ctx.contract.readiness_requirements.len() as int);
                }
                return Err(e);
            },
        };
        let record = &executions[k];
        assert(ctx.evidence.executions[k as int] == record@);
        let receipt = join(prefix, id.as_str());
        let mut refs: Vec<String> = Vec::new();
        refs.push(copy_string(&receipt));
        assert(strings_view(refs@) =~= seq![receipt_ref(id@)]);
        let ghost before_readiness = readiness@;
        readiness.push(
            CodingAssertionResult {
                assertion_id: copy_string(requirement),
                status: CodingVerificationStatus::Passed,
                evidence_refs: refs,
            },
        );
        assert(assertions_view(readiness@) =~= assertions_view(before_readiness).push(
            CodingAssertionResultView {
                assertion_id: requirement@,
                status: CodingVerificationStatus::Passed,
                evidence_refs: seq![receipt_ref(id@)],
            },
        ));
        if !string_in(id, &readiness_execution_ids) {
            let command = match &record.response.readiness {
                Some(x) => copy_string(&x.command),
                None => String::new(),
            };
            let mut command_refs: Vec<String> = Vec::new();
            command_refs.push(receipt);
            assert(strings_view(command_refs@) =~= seq![receipt_ref(id@)]);
            let ghost before_ids = readiness_execution_ids@;
            let ghost before_commands = commands@;
            readiness_execution_ids.push(copy_string(id));
            commands.push(CodingCommandResult { command, exit_code: Some(0i32), evidence_refs: command_refs });
            assert(strings_view(readiness_execution_ids@) =~= strings_view(before_ids).push(id@));
            assert(commands_view(commands@) =~= commands_view(before_commands).push(
                commands@[commands@.len() - 1]@,
            ));
        }
        i = i + 1;
    }
    let needs_output = context.contract.output_paths.len() > 0;
    let output: Option<usize> = if needs_output {
        match find_output_capture(executions, revision) {
            Some(o) => Some(o),
            None => {
                return Err("missing immutable output capture");
            },
        }
    } else {
        None
    };
    let review = match find_validator_child(context.children, CodingValidationRole::Review, revision, context.session_id) {
        Some(c) => c,
        None => {
            return Err("missing actual independent validator completion");
        },
    };
    let behavior = match find_validator_child(context.children, CodingValidationRole::Behavior, revision, context.session_id) {
        Some(c) => c,
        None => {
            return Err("missing actual independent validator completion");
        },
    };
    let (outputs_execution_id, outputs) = match output {
        Some(o) => {
            assert(ctx.evidence.executions[o as int] == executions@[o as int]@);
            (
                Some(copy_string(&executions[o].response.tool_execution_id)),
                captured_files(&executions[o].response.outputs),
            )
        },
        None => (None, Vec::new()),
    };
    let proof = ComputerCodingProof {
        baseline_execution_id: copy_string(&executions[baseline].response.tool_execution_id),
        inspection_execution_id: copy_string(&executions[inspected].response.tool_execution_id),
        outputs_execution_id,
        readiness_execution_ids,
    };
    assert(children_view(context.children@)[review as int].report == context.children@[review as int].1@);
    assert(children_view(context.children@)[behavior as int].report == context.children@[behavior as int].1@);
    let submission = CodingCompletionSubmission {
        task_id: copy_string(&context.contract.task_id),
        work_id: context.work_id.to_owned(),
        repository_id: copy_string(&context.contract.repository_id),
        contract_digest: context.contract_digest.to_owned(),
        generation: context.contract.generation,
        revision: copy_string(revision),
        implementation_session_id: context.session_id.to_owned(),
        commands,
        readiness,
        review: Some(copy_report(&context.children[review].1)),
        behavior: Some(copy_report(&context.children[behavior].1)),
        handoff_items: copy_handoff_items(context.handoff_items),
        outputs,
        computer_proof: Some(Box::new(copy_proof(&proof))),
    };
    assert(files_view(submission.outputs@) == (if needs_output {
        files_of(ctx.evidence.executions[index_view(output)].response.outputs)
    } else {
        Seq::<CodingOutputFileView>::empty()
    }));
    assert(submission@ == completion_draft(ctx)->Ok_0);
    match validate_computer_completion(
        context.evidence,
        &proof,
        context.contract,
        context.contract_digest,
        &submission,
    ) {
        Ok(()) => {},
        Err(e) => {
            return Err(e);
        },
    }
    if !accepts(&submission) {
        return Err("coding completion was not accepted by the existing contract evaluator");
    }
    Ok(submission)
}

proof fn lemma_plan_first_failure(ctx: HostedCodingContextView, revision: Seq<char>, m: int, n: int)
    requires
        0 <= m <= n,
        readiness_plan(ctx, revision, m) is Err,
    ensures
        readiness_plan(ctx, revision, n) == readiness_plan(ctx, revision, m),
    decreases n - m,
{
    if n > m {
        lemma_plan_first_failure(ctx, revision, m, n - 1);
    }
}


pub open spec fn outcome_result(r: Result<HostedCodingOutcome, &'static str>) -> Result<HostedCodingOutcomeView, Seq<char>> {
    match r {
        Ok(o) => Ok(o@),
        Err(e) => Err(e@),
    }
}

/// The context's contract validated and its work and session are the fence's.
pub open spec fn owner_scope_ok(ctx: HostedCodingContextView) -> bool {
    &&& ctx.contract_check is Ok
    &&& ctx.work_id == ctx.evidence.fence.work_id
    &&& ctx.session_id == ctx.evidence.fence.maestro_session_id
}

/// `project_hosted_coding_action` returned `r` for `a` in `ctx`.
pub open spec fn projection_outcome<F: Fn(&CodingCompletionSubmission) -> bool>(
    ctx: HostedCodingContextView,
    a: HostedCodingActionView,
    accepts: F,
    r: Result<HostedCodingOutcome, &'static str>,
) -> bool {
    if a is Complete && owner_scope_ok(ctx) {
        match r {
            Ok(o) => o is Complete && completion_outcome(ctx, accepts, Ok(*(o->Complete_0))),
            Err(e) => completion_outcome(ctx, accepts, Err(e)),
        }
    } else {
        outcome_result(r) == projection_result(ctx, a)
    }
}

/// Whether the two contracts have the same terms.
pub fn same_contract(a: &CodingAcceptanceContract, b: &CodingAcceptanceContract) -> (r: bool)
    ensures
        r == (a@ == b@),
{
    same_string(&a.task_id, &b.task_id) && same_string(&a.repository_id, &b.repository_id)
        && a.generation == b.generation && same_strings(
        &a.required_assertion_ids,
        &b.required_assertion_ids,
    ) && a.require_review == b.require_review && a.require_behavior == b.require_behavior
        && same_strings(&a.readiness_requirements, &b.readiness_requirements) && same_strings(
        &a.output_paths,
        &b.output_paths,
    ) && same_strings(&a.authorized_dispositions, &b.authorized_dispositions)
}

fn status(context: &HostedCodingContext) -> (r: Result<HostedCodingOutcome, &'static str>)
    ensures
        outcome_result(r) == status_result(context@),
{
    let inspected = match inspection(context) {
        Ok(k) => k,
        Err(e) => {
            return Err(e);
        },
    };
    let revision = &context.evidence.executions[inspected].response.revision;
    assert(context@.evidence.executions[inspected as int] == context.evidence.executions@[inspected as int]@);
    let missing_readiness = missing_requirements(context, revision);
    Ok(HostedCodingOutcome::Status { revision: copy_string(revision), missing_readiness })
}

/// Projects a hosted coding_task action onto the owner's settled records.
/// Readiness bindings refer to already settled Computer results, never to
/// caller status, exit codes, output bytes, or fabricated validator records.
pub fn project_hosted_coding_action<F: Fn(&CodingCompletionSubmission) -> bool>(
    action: HostedCodingAction,
    context: &HostedCodingContext,
    accepts: F,
) -> (r: Result<HostedCodingOutcome, &'static str>)
    requires
        forall|s: CodingCompletionSubmission| #[trigger] call_requires(accepts, (&s,)),
    ensures
        projection_outcome(context@, action@, accepts, r),
{
    let ghost ctx = context@;
    let ghost a = action@;
    if let Err(e) = context.contract_check {
        return Err(e);
    }
    if !same_text(context.work_id, context.evidence.fence.work_id.as_str()) || !same_text(
        context.session_id,
        context.evidence.fence.maestro_session_id.as_str(),
    ) {
        return Err("coding_task owner scope does not match this session and work");
    }
    let executions = &context.evidence.executions;
    match action {
        HostedCodingAction::Begin { mission_id, work_id, contract } => {
            if blank(mission_id.as_str()) || !same_text(work_id.as_str(), context.work_id)
                || !same_contract(&contract, context.contract) {
                return Err("coding_task begin does not match the admitted work contract");
            }
            let b = match find_baseline(executions) {
                Some(b) => b,
                None => {
                    return Err("coding_task begin requires an owner Computer baseline");
                },
            };
            let baseline = &executions[b];
            assert(ctx.evidence.executions[b as int] == baseline@);
            match baseline.response.validate_for(&baseline.request) {
                Ok(()) => {},
                Err(e) => {
                    return Err(e);
                },
            }
            Ok(
                HostedCodingOutcome::Begin {
                    mission_id,
                    work_id,
                    contract,
                    base_revision: copy_string(&baseline.response.base_revision),
                    repository_id: copy_string(&baseline.response.project_resource_id),
                },
            )
        },
        HostedCodingAction::Readiness { requirement_id: Some(requirement_id), execution_id: Some(execution_id) } => {
            if !string_in(&requirement_id, &context.contract.readiness_requirements) {
                return Err("readiness category is not admitted");
            }
            let inspected = match inspection(context) {
                Ok(k) => k,
                Err(e) => {
                    return Err(e);
                },
            };
            assert(ctx.evidence.executions[inspected as int] == executions@[inspected as int]@);
            match readiness_execution(context, &execution_id, &executions[inspected].response.revision) {
                Ok(_) => {},
                Err(e) => {
                    return Err(e);
                },
            }
            Ok(HostedCodingOutcome::ReadinessBinding { requirement_id, execution_id })
        },
        HostedCodingAction::Readiness { requirement_id: None, execution_id: None } => status(context),
        HostedCodingAction::Status {} => status(context),
        HostedCodingAction::Readiness { .. } => Err(
            "readiness requires both requirement_id and execution_id",
        ),
        HostedCodingAction::Validate { role } => {
            let inspected = match inspection(context) {
                Ok(k) => k,
                Err(e) => {
                    return Err(e);
                },
            };
            assert(ctx.evidence.executions[inspected as int] == executions@[inspected as int]@);
            match requirements_bound(context, &executions[inspected].response.revision) {
                Ok(()) => {},
                Err(e) => {
                    return Err(e);
                },
            }
            Ok(HostedCodingOutcome::Validate(role))
        },
        HostedCodingAction::Handoff { item } => {
            let deferred_or_dismissed = match item.disposition {
                CodingHandoffDisposition::Deferred => true,
                CodingHandoffDisposition::Dismissed => true,
                CodingHandoffDisposition::Resolved => false,
            };
            if item.id.as_str().is_empty() || item.evidence_refs.len() == 0 || (deferred_or_dismissed
                && !string_in(&item.id, &context.contract.authorized_dispositions)) {
                return Err("handoff item is missing evidence or an authorized disposition");
            }
            Ok(HostedCodingOutcome::Handoff(item))
        },
        HostedCodingAction::Complete {} => match complete(context, accepts) {
            Ok(submission) => Ok(HostedCodingOutcome::Complete(Box::new(submission))),
            Err(e) => Err(e),
        },
    }
}


// ----------------------------------------------------------------------------
// Laws
// ----------------------------------------------------------------------------

/// A readiness binding is projected only for an admitted category and only
/// onto an owner execution that answered its readiness request and succeeded,
/// clean and in time, at the revision of the latest clean inspection: never
/// onto a caller's status or exit code.
pub proof fn lemma_binding_names_successful_owner_run(
    ctx: HostedCodingContextView,
    requirement: Seq<char>,
    id: Seq<char>,
)
    requires
        projection_result(
            ctx,
            HostedCodingActionView::Readiness { requirement_id: Some(requirement), execution_id: Some(id) },
        ) is Ok,
    ensures
        ctx.contract.readiness_requirements.contains(requirement),
        ({
            let execs = ctx.evidence.executions;
            let i = last_index(execs, is_inspect_execution());
            let k = first_index(execs, has_execution_id(id));
            &&& 0 <= i < execs.len()
            &&& execs[i].response.clean
            &&& 0 <= k < execs.len()
            &&& execs[k].response.tool_execution_id == id
            &&& answer_result(execs[k].response, execs[k].request) is Ok
            &&& execs[k].request is Readiness
            &&& execs[k].response.clean
            &&& execs[k].response.revision == execs[i].response.revision
            &&& execs[k].response.readiness matches Some(x) && x.exit_code == 0 && !x.timed_out
                && !x.truncated
        }),
{
    let execs = ctx.evidence.executions;
    lemma_first_index_found(execs, has_execution_id(id));
    lemma_last_index_found(execs, is_inspect_execution());
}

/// A hosted completion is submitted only when the owner check of
/// `validate_computer_completion` accepts it over the same evidence, contract
/// and digest, and the contract evaluator accepted exactly that submission.
pub proof fn lemma_completion_passes_owner_check<F: Fn(&CodingCompletionSubmission) -> bool>(
    ctx: HostedCodingContextView,
    accepts: F,
    submission: CodingCompletionSubmission,
)
    requires
        completion_outcome(ctx, accepts, Ok(submission)),
    ensures
        submission@.computer_proof is Some,
        completion_result(
            ctx.evidence,
            submission@.computer_proof->Some_0,
            ctx.contract,
            ctx.contract_digest,
            submission@,
        ) is Ok,
        call_ensures(accepts, (&submission,), true),
        submission@.revision == ctx.evidence.executions[last_index(ctx.evidence.executions, is_inspect_execution())].response.revision,
        submission@.implementation_session_id == ctx.session_id,
        submission@.contract_digest == ctx.contract_digest,
{
}


/// `i` is the latest inspection among `execs`, and it found the workspace clean.
pub open spec fn latest_clean_inspection(execs: Seq<ComputerCodingExecutionView>, i: int) -> bool {
    &&& 0 <= i < execs.len()
    &&& execs[i].request is Inspect
    &&& execs[i].response.clean
    &&& forall|j: int| i < j < execs.len() ==> !((#[trigger] execs[j]).request is Inspect)
}

/// The first binding for `requirement` is binding `b`, and it names owner
/// execution `k`: a clean readiness run at `revision` that exited 0, neither
/// timed out nor truncated.
pub open spec fn binding_names_successful_run(
    ctx: HostedCodingContextView,
    requirement: Seq<char>,
    revision: Seq<char>,
    b: int,
    k: int,
) -> bool {
    let bindings = ctx.readiness_bindings;
    let execs = ctx.evidence.executions;
    &&& 0 <= b < bindings.len()
    &&& bindings[b].0 == requirement
    &&& forall|c: int| 0 <= c < b ==> (#[trigger] bindings[c]).0 != requirement
    &&& 0 <= k < execs.len()
    &&& execs[k].response.tool_execution_id == bindings[b].1
    &&& execs[k].request is Readiness
    &&& execs[k].response.clean
    &&& execs[k].response.revision == revision
    &&& execs[k].response.readiness matches Some(x) && x.exit_code == 0 && !x.timed_out
        && !x.truncated
}

/// `requirement` is bound to a successful readiness run at `revision`.
pub open spec fn requirement_succeeded(ctx: HostedCodingContextView, requirement: Seq<char>, revision: Seq<char>) -> bool {
    exists|b: int, k: int| #[trigger] binding_names_successful_run(ctx, requirement, revision, b, k)
}

/// Every requirement before `n` is bound to a successful readiness run at
/// `revision` when `readiness_bound` accepts them.
proof fn lemma_bound_requirements_succeeded(ctx: HostedCodingContextView, revision: Seq<char>, n: int)
    requires
        0 <= n <= ctx.contract.readiness_requirements.len(),
        readiness_bound(ctx, revision, n) is Ok,
    ensures
        forall|q: int| 0 <= q < n ==> requirement_succeeded(ctx, #[trigger] ctx.contract.readiness_requirements[q], revision),
    decreases n,
{
    if n > 0 {
        lemma_bound_requirements_succeeded(ctx, revision, n - 1);
        let req = ctx.contract.readiness_requirements[n - 1];
        let bindings = ctx.readiness_bindings;
        let execs = ctx.evidence.executions;
        let b = first_index(bindings, binds(req));
        lemma_first_index_found(bindings, binds(req));
        assert(binds(req)(bindings[b]));
        assert forall|c: int| 0 <= c < b implies (#[trigger] bindings[c]).0 != req by {
            assert(!binds(req)(bindings[c]));
        }
        let id = bindings[b].1;
        let k = first_index(execs, has_execution_id(id));
        lemma_first_index_found(execs, has_execution_id(id));
        assert(has_execution_id(id)(execs[k]));
        assert(binding_names_successful_run(ctx, req, revision, b, k));
        assert forall|q: int| 0 <= q < n implies requirement_succeeded(ctx, #[trigger] ctx.contract.readiness_requirements[q], revision) by {
            if q == n - 1 {
                assert(binding_names_successful_run(ctx, ctx.contract.readiness_requirements[q], revision, b, k));
            }
        }
    }
}

/// Validation is projected only when every readiness requirement of the
/// contract is bound to an owner readiness run that succeeded (clean, exit
/// code 0, not timed out, not truncated) at the revision of the latest
/// inspection, which must be clean; the projection names the requested role.
pub proof fn lemma_validate_needs_successful_readiness<F: Fn(&CodingCompletionSubmission) -> bool>(
    ctx: HostedCodingContextView,
    role: CodingValidationRole,
    accepts: F,
    r: Result<HostedCodingOutcome, &'static str>,
)
    requires
        projection_outcome(ctx, HostedCodingActionView::Validate { role }, accepts, r),
        r is Ok,
    ensures
        r->Ok_0@ == HostedCodingOutcomeView::Validate(role),
        exists|i: int|
            #[trigger] latest_clean_inspection(ctx.evidence.executions, i) && forall|q: int| 0 <= q < ctx.contract.readiness_requirements.len() ==> requirement_succeeded(ctx, #[trigger] ctx.contract.readiness_requirements[q], ctx.evidence.executions[i].response.revision),
{
    let execs = ctx.evidence.executions;
    let i = last_index(execs, is_inspect_execution());
    lemma_last_index_found(execs, is_inspect_execution());
    assert(is_inspect_execution()(execs[i]));
    assert forall|j: int| i < j < execs.len() implies !((#[trigger] execs[j]).request is Inspect) by {
        assert(!is_inspect_execution()(execs[j]));
    }
    assert(latest_clean_inspection(execs, i));
    lemma_bound_requirements_succeeded(
        ctx,
        execs[i].response.revision,
        ctx.contract.readiness_requirements.len() as int,
    );
    assert(latest_clean_inspection(ctx.evidence.executions, i) && forall|q: int| 0 <= q < ctx.contract.readiness_requirements.len() ==> requirement_succeeded(ctx, #[trigger] ctx.contract.readiness_requirements[q], ctx.evidence.executions[i].response.revision));
}

/// The readiness assertions of the first `n` requirements: one passed
/// assertion per requirement, in the contract's order.
proof fn lemma_plan_asserts_each_requirement(ctx: HostedCodingContextView, revision: Seq<char>, n: int)
    requires
        0 <= n <= ctx.contract.readiness_requirements.len(),
        readiness_plan(ctx, revision, n) is Ok,
    ensures
        ({
            let plan = readiness_plan(ctx, revision, n)->Ok_0;
            &&& plan.readiness.len() == n
            &&& forall|q: int|
                0 <= q < n ==> (#[trigger] plan.readiness[q]).assertion_id
                    == ctx.contract.readiness_requirements[q] && plan.readiness[q].status
                    == CodingVerificationStatus::Passed
        }),
    decreases n,
{
    if n > 0 {
        lemma_plan_asserts_each_requirement(ctx, revision, n - 1);
    }
}

/// A completion `complete` returns is assembled for this session from its
/// own context: the context's handoff items unchanged, the contract's task,
/// repository and generation, the context's work, session and contract digest,
/// one passed readiness assertion per contract requirement in order, no output
/// files when the contract names no output path, and review and behavior
/// reports of settled validator children of this session at the submitted
/// revision whose records carry the reports' digests.
pub proof fn lemma_completion_is_the_sessions_own<F: Fn(&CodingCompletionSubmission) -> bool>(
    ctx: HostedCodingContextView,
    accepts: F,
    submission: CodingCompletionSubmission,
)
    requires
        completion_outcome(ctx, accepts, Ok(submission)),
    ensures
        submission@.handoff_items == ctx.handoff_items,
        submission@.task_id == ctx.contract.task_id,
        submission@.repository_id == ctx.contract.repository_id,
        submission@.generation == ctx.contract.generation,
        submission@.work_id == ctx.work_id,
        submission@.implementation_session_id == ctx.session_id,
        submission@.contract_digest == ctx.contract_digest,
        submission@.readiness.len() == ctx.contract.readiness_requirements.len(),
        forall|q: int|
            0 <= q < ctx.contract.readiness_requirements.len() ==> (
            #[trigger] submission@.readiness[q]).assertion_id == ctx.contract.readiness_requirements[q]
                && submission@.readiness[q].status == CodingVerificationStatus::Passed,
        ctx.contract.output_paths.len() == 0 ==> submission@.outputs.len() == 0,
        submission@.review matches Some(report) && exists|c: int|
            0 <= c < ctx.children.len() && (#[trigger] ctx.children[c]).report == report
                && ctx.children[c].record.role == CodingValidationRole::Review
                && ctx.children[c].record.revision == submission@.revision
                && ctx.children[c].record.parent_session_id == ctx.session_id
                && ctx.children[c].record.report_digest == ctx.children[c].report_digest,
        submission@.behavior matches Some(report) && exists|c: int|
            0 <= c < ctx.children.len() && (#[trigger] ctx.children[c]).report == report
                && ctx.children[c].record.role == CodingValidationRole::Behavior
                && ctx.children[c].record.revision == submission@.revision
                && ctx.children[c].record.parent_session_id == ctx.session_id
                && ctx.children[c].record.report_digest == ctx.children[c].report_digest,
{
    let execs = ctx.evidence.executions;
    let i = last_index(execs, is_inspect_execution());
    let revision = execs[i].response.revision;
    lemma_plan_asserts_each_requirement(
        ctx,
        revision,
        ctx.contract.readiness_requirements.len() as int,
    );
    let rv = last_index(ctx.children, validator_child(CodingValidationRole::Review, revision, ctx.session_id));
    let bh = last_index(ctx.children, validator_child(CodingValidationRole::Behavior, revision, ctx.session_id));
    lemma_last_index_found(ctx.children, validator_child(CodingValidationRole::Review, revision, ctx.session_id));
    lemma_last_index_found(ctx.children, validator_child(CodingValidationRole::Behavior, revision, ctx.session_id));
    assert(validator_child(CodingValidationRole::Review, revision, ctx.session_id)(ctx.children[rv]));
    assert(validator_child(CodingValidationRole::Behavior, revision, ctx.session_id)(ctx.children[bh]));
}

/// A hosted `complete` action that succeeds yields a completion carrying the
/// context's handoff items unchanged, for the context's work and session.
pub proof fn lemma_completed_action_keeps_handoff_items<F: Fn(&CodingCompletionSubmission) -> bool>(
    ctx: HostedCodingContextView,
    accepts: F,
    r: Result<HostedCodingOutcome, &'static str>,
)
    requires
        projection_outcome(ctx, HostedCodingActionView::Complete, accepts, r),
        r is Ok,
    ensures
        r->Ok_0 matches HostedCodingOutcome::Complete(s) && s@.handoff_items == ctx.handoff_items
            && s@.work_id == ctx.work_id && s@.implementation_session_id == ctx.session_id,
{
    let o = r->Ok_0;
    assert(o is Complete);
    lemma_completion_is_the_sessions_own(ctx, accepts, *(o->Complete_0));
}

} // verus!
