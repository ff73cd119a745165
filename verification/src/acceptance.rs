//! Acceptance records a coding completion is judged against: the admitted
//! contract, the implementation's submission, and the reports of independent
//! validators.

use vstd::prelude::*;

use crate::computer::{strings_view, ComputerCodingProof, ComputerCodingProofView};
use crate::text::copy_string;

verus! {

#[derive(Clone, Copy, Debug, PartialEq, Eq, Structural)]
pub enum CodingValidationRole {
    Review,
    Behavior,
}

#[derive(Clone, Copy, Debug, PartialEq, Eq, Structural)]
pub enum CodingVerificationStatus {
    Passed,
    Failed,
}

#[derive(Clone, Copy, Debug, PartialEq, Eq, Structural)]
pub enum CodingHandoffDisposition {
    Resolved,
    Deferred,
    Dismissed,
}

/// The terms a coding task is accepted under.
#[derive(Clone, Debug, PartialEq, Eq)]
pub struct CodingAcceptanceContract {
    pub task_id: String,
    pub repository_id: String,
    pub generation: u64,
    pub required_assertion_ids: Vec<String>,
    pub require_review: bool,
    pub require_behavior: bool,
    pub readiness_requirements: Vec<String>,
    pub output_paths: Vec<String>,
    pub authorized_dispositions: Vec<String>,
}

#[derive(Clone, Debug, PartialEq, Eq)]
pub struct CodingAssertionResult {
    pub assertion_id: String,
    pub status: CodingVerificationStatus,
    pub evidence_refs: Vec<String>,
}

#[derive(Clone, Debug, PartialEq, Eq)]
pub struct CodingCommandResult {
    pub command: String,
    pub exit_code: Option<i32>,
    pub evidence_refs: Vec<String>,
}

#[derive(Clone, Debug, PartialEq, Eq)]
pub struct CodingOutputFile {
    pub path: String,
    pub content: String,
}

#[derive(Clone, Debug, PartialEq, Eq)]
pub struct CodingValidationReport {
    pub child_id: String,
    pub session_id: String,
    pub revision: String,
    pub status: CodingVerificationStatus,
    pub assertions: Vec<CodingAssertionResult>,
    pub evidence_refs: Vec<String>,
}

/// The settled record of an independent validator child session.
#[derive(Clone, Debug, PartialEq, Eq)]
pub struct CodingAcceptanceChildRecord {
    pub organization_id: String,
    pub workspace_id: String,
    pub work_id: String,
    pub parent_session_id: String,
    pub child_id: String,
    pub session_id: String,
    pub role: CodingValidationRole,
    pub revision: String,
    pub completed_successfully: bool,
    pub report_digest: String,
}

#[derive(Clone, Debug, PartialEq, Eq)]
pub struct CodingHandoffItem {
    pub id: String,
    pub disposition: CodingHandoffDisposition,
    pub evidence_refs: Vec<String>,
}

/// What an implementation session submits as complete.
#[derive(Clone, Debug, PartialEq, Eq)]
pub struct CodingCompletionSubmission {
    pub task_id: String,
    pub work_id: String,
    pub repository_id: String,
    pub contract_digest: String,
    pub generation: u64,
    pub revision: String,
    pub implementation_session_id: String,
    pub commands: Vec<CodingCommandResult>,
    pub readiness: Vec<CodingAssertionResult>,
    pub review: Option<CodingValidationReport>,
    pub behavior: Option<CodingValidationReport>,
    pub handoff_items: Vec<CodingHandoffItem>,
    pub outputs: Vec<CodingOutputFile>,
    pub computer_proof: Option<Box<ComputerCodingProof>>,
}

// ----------------------------------------------------------------------------
// Mathematical models
// ----------------------------------------------------------------------------

pub struct CodingAcceptanceContractView {
    pub task_id: Seq<char>,
    pub repository_id: Seq<char>,
    pub generation: u64,
    pub required_assertion_ids: Seq<Seq<char>>,
    pub require_review: bool,
    pub require_behavior: bool,
    pub readiness_requirements: Seq<Seq<char>>,
    pub output_paths: Seq<Seq<char>>,
    pub authorized_dispositions: Seq<Seq<char>>,
}

impl View for CodingAcceptanceContract {
    type V = CodingAcceptanceContractView;

    open spec fn view(&self) -> CodingAcceptanceContractView {
        CodingAcceptanceContractView {
            task_id: self.task_id@,
            repository_id: self.repository_id@,
            generation: self.generation,
            required_assertion_ids: strings_view(self.required_assertion_ids@),
            require_review: self.require_review,
            require_behavior: self.require_behavior,
            readiness_requirements: strings_view(self.readiness_requirements@),
            output_paths: strings_view(self.output_paths@),
            authorized_dispositions: strings_view(self.authorized_dispositions@),
        }
    }
}

pub struct CodingAssertionResultView {
    pub assertion_id: Seq<char>,
    pub status: CodingVerificationStatus,
    pub evidence_refs: Seq<Seq<char>>,
}

impl View for CodingAssertionResult {
    type V = CodingAssertionResultView;

    open spec fn view(&self) -> CodingAssertionResultView {
        CodingAssertionResultView {
            assertion_id: self.assertion_id@,
            status: self.status,
            evidence_refs: strings_view(self.evidence_refs@),
        }
    }
}

pub open spec fn assertions_view(v: Seq<CodingAssertionResult>) -> Seq<CodingAssertionResultView> {
    v.map_values(|a: CodingAssertionResult| a@)
}

pub struct CodingCommandResultView {
    pub command: Seq<char>,
    pub exit_code: Option<i32>,
    pub evidence_refs: Seq<Seq<char>>,
}

impl View for CodingCommandResult {
    type V = CodingCommandResultView;

    open spec fn view(&self) -> CodingCommandResultView {
        CodingCommandResultView {
            command: self.command@,
            exit_code: self.exit_code,
            evidence_refs: strings_view(self.evidence_refs@),
        }
    }
}

pub open spec fn commands_view(v: Seq<CodingCommandResult>) -> Seq<CodingCommandResultView> {
    v.map_values(|c: CodingCommandResult| c@)
}

pub struct CodingOutputFileView {
    pub path: Seq<char>,
    pub content: Seq<char>,
}

impl View for CodingOutputFile {
    type V = CodingOutputFileView;

    open spec fn view(&self) -> CodingOutputFileView {
        CodingOutputFileView { path: self.path@, content: self.content@ }
    }
}

pub open spec fn files_view(v: Seq<CodingOutputFile>) -> Seq<CodingOutputFileView> {
    v.map_values(|f: CodingOutputFile| f@)
}

pub struct CodingValidationReportView {
    pub child_id: Seq<char>,
    pub session_id: Seq<char>,
    pub revision: Seq<char>,
    pub status: CodingVerificationStatus,
    pub assertions: Seq<CodingAssertionResultView>,
    pub evidence_refs: Seq<Seq<char>>,
}

impl View for CodingValidationReport {
    type V = CodingValidationReportView;

    open spec fn view(&self) -> CodingValidationReportView {
        CodingValidationReportView {
            child_id: self.child_id@,
            session_id: self.session_id@,
            revision: self.revision@,
            status: self.status,
            assertions: assertions_view(self.assertions@),
            evidence_refs: strings_view(self.evidence_refs@),
        }
    }
}

pub open spec fn report_option_view(o: Option<CodingValidationReport>) -> Option<CodingValidationReportView> {
    match o {
        Some(r) => Some(r@),
        None => None,
    }
}

pub struct CodingAcceptanceChildRecordView {
    pub organization_id: Seq<char>,
    pub workspace_id: Seq<char>,
    pub work_id: Seq<char>,
    pub parent_session_id: Seq<char>,
    pub child_id: Seq<char>,
    pub session_id: Seq<char>,
    pub role: CodingValidationRole,
    pub revision: Seq<char>,
    pub completed_successfully: bool,
    pub report_digest: Seq<char>,
}

impl View for CodingAcceptanceChildRecord {
    type V = CodingAcceptanceChildRecordView;

    open spec fn view(&self) -> CodingAcceptanceChildRecordView {
        CodingAcceptanceChildRecordView {
            organization_id: self.organization_id@,
            workspace_id: self.workspace_id@,
            work_id: self.work_id@,
            parent_session_id: self.parent_session_id@,
            child_id: self.child_id@,
            session_id: self.session_id@,
            role: self.role,
            revision: self.revision@,
            completed_successfully: self.completed_successfully,
            report_digest: self.report_digest@,
        }
    }
}

pub struct CodingHandoffItemView {
    pub id: Seq<char>,
    pub disposition: CodingHandoffDisposition,
    pub evidence_refs: Seq<Seq<char>>,
}

impl View for CodingHandoffItem {
    type V = CodingHandoffItemView;

    open spec fn view(&self) -> CodingHandoffItemView {
        CodingHandoffItemView {
            id: self.id@,
            disposition: self.disposition,
            evidence_refs: strings_view(self.evidence_refs@),
        }
    }
}

pub open spec fn handoff_items_view(v: Seq<CodingHandoffItem>) -> Seq<CodingHandoffItemView> {
    v.map_values(|h: CodingHandoffItem| h@)
}

pub struct CodingCompletionSubmissionView {
    pub task_id: Seq<char>,
    pub work_id: Seq<char>,
    pub repository_id: Seq<char>,
    pub contract_digest: Seq<char>,
    pub generation: u64,
    pub revision: Seq<char>,
    pub implementation_session_id: Seq<char>,
    pub commands: Seq<CodingCommandResultView>,
    pub readiness: Seq<CodingAssertionResultView>,
    pub review: Option<CodingValidationReportView>,
    pub behavior: Option<CodingValidationReportView>,
    pub handoff_items: Seq<CodingHandoffItemView>,
    pub outputs: Seq<CodingOutputFileView>,
    pub computer_proof: Option<ComputerCodingProofView>,
}

impl View for CodingCompletionSubmission {
    type V = CodingCompletionSubmissionView;

    open spec fn view(&self) -> CodingCompletionSubmissionView {
        CodingCompletionSubmissionView {
            task_id: self.task_id@,
            work_id: self.work_id@,
            repository_id: self.repository_id@,
            contract_digest: self.contract_digest@,
            generation: self.generation,
            revision: self.revision@,
            implementation_session_id: self.implementation_session_id@,
            commands: commands_view(self.commands@),
            readiness: assertions_view(self.readiness@),
            review: report_option_view(self.review),
            behavior: report_option_view(self.behavior),
            handoff_items: handoff_items_view(self.handoff_items@),
            outputs: files_view(self.outputs@),
            computer_proof: match self.computer_proof {
                Some(p) => Some((*p)@),
                None => None,
            },
        }
    }
}

// ----------------------------------------------------------------------------
// Copies
// ----------------------------------------------------------------------------

/// A copy of `v`, string by string.
pub fn copy_strings(v: &Vec<String>) -> (r: Vec<String>)
    ensures
        strings_view(r@) == strings_view(v@),
{
    let mut r: Vec<String> = Vec::new();
    let mut i: usize = 0;
    while i < v.len()
        invariant
            i <= v.len(),
            r@.len() == i,
            forall|j: int| 0 <= j < i ==> #[trigger] r@[j]@ == v@[j]@,
        decreases v.len() - i,
    {
        r.push(copy_string(&v[i]));
        i = i + 1;
    }
    assert(strings_view(r@) =~= strings_view(v@));
    r
}

pub fn copy_assertion(a: &CodingAssertionResult) -> (r: CodingAssertionResult)
    ensures
        r@ == a@,
{
    CodingAssertionResult {
        assertion_id: copy_string(&a.assertion_id),
        status: a.status,
        evidence_refs: copy_strings(&a.evidence_refs),
    }
}

pub fn copy_report(report: &CodingValidationReport) -> (r: CodingValidationReport)
    ensures
        r@ == report@,
{
    let mut assertions: Vec<CodingAssertionResult> = Vec::new();
    let mut i: usize = 0;
    while i < report.assertions.len()
        invariant
            i <= report.assertions.len(),
            assertions@.len() == i,
            forall|j: int| 0 <= j < i ==> #[trigger] assertions@[j]@ == report.assertions@[j]@,
        decreases report.assertions.len() - i,
    {
        assertions.push(copy_assertion(&report.assertions[i]));
        i = i + 1;
    }
    assert(assertions_view(assertions@) =~= assertions_view(report.assertions@));
    CodingValidationReport {
        child_id: copy_string(&report.child_id),
        session_id: copy_string(&report.session_id),
        revision: copy_string(&report.revision),
        status: report.status,
        assertions,
        evidence_refs: copy_strings(&report.evidence_refs),
    }
}

pub fn copy_handoff_item(item: &CodingHandoffItem) -> (r: CodingHandoffItem)
    ensures
        r@ == item@,
{
    CodingHandoffItem {
        id: copy_string(&item.id),
        disposition: item.disposition,
        evidence_refs: copy_strings(&item.evidence_refs),
    }
}

pub fn copy_handoff_items(items: &[CodingHandoffItem]) -> (r: Vec<CodingHandoffItem>)
    ensures
        handoff_items_view(r@) == handoff_items_view(items@),
{
    let mut r: Vec<CodingHandoffItem> = Vec::new();
    let mut i: usize = 0;
    while i < items.len()
        invariant
            i <= items.len(),
            r@.len() == i,
            forall|j: int| 0 <= j < i ==> #[trigger] r@[j]@ == items@[j]@,
        decreases items.len() - i,
    {
        r.push(copy_handoff_item(&items[i]));
        i = i + 1;
    }
    assert(handoff_items_view(r@) =~= handoff_items_view(items@));
    r
}

} // verus!
