//! The parts of a plan that the provider reads and writes.
use vstd::prelude::*;
use crate::json::{Json, JsonView};
use crate::model;

verus! {

/// What a change wants of one field.
#[derive(Debug, PartialEq, Eq)]
pub enum FieldTarget {
    /// The field is to hold this value.
    Value { value: Json },
    /// The field is to be removed.
    Removed,
    /// The value depends on inputs that are not known yet.
    DerivedPlaceholder,
}

/// The change of one field.
#[derive(Debug, PartialEq, Eq)]
pub struct FieldDiff {
    pub field: String,
    pub to: FieldTarget,
}

/// What is to happen to one resource.
#[derive(Debug, PartialEq, Eq)]
pub enum Status {
    Add,
    Modify,
    /// The resource goes from the first key of the chain to the last.
    Rename { chain: Vec<Json> },
    Delete,
}

/// One planned change.  The first providerKey entry is the identity that the
/// resource is to have; the rest is its history.
#[derive(Debug, PartialEq, Eq)]
pub struct DiffNode {
    pub provider_key: Vec<Json>,
    pub status: Status,
    pub field_changes: Vec<FieldDiff>,
}

/// One step of a runbook: what it does in words, the request it makes, and the
/// operation in the form in which it is carried to the point of execution.
#[derive(Debug, PartialEq, Eq)]
pub struct RunbookStep {
    pub description: String,
    pub command: String,
    pub body: Option<Json>,
    pub operation: Json,
}

/// The records that were created, modified and deleted, in order.
#[derive(Debug, PartialEq, Eq)]
pub struct ApplyReport {
    pub created: Vec<String>,
    pub modified: Vec<String>,
    pub deleted: Vec<String>,
}

pub enum FieldTargetView {
    Value { value: JsonView },
    Removed,
    DerivedPlaceholder,
}

pub struct FieldDiffView {
    pub field: Seq<char>,
    pub to: FieldTargetView,
}

pub enum StatusView {
    Add,
    Modify,
    Rename { chain: Seq<JsonView> },
    Delete,
}

pub struct DiffNodeView {
    pub provider_key: Seq<JsonView>,
    pub status: StatusView,
    pub field_changes: Seq<FieldDiffView>,
}

pub struct RunbookStepView {
    pub description: Seq<char>,
    pub command: Seq<char>,
    pub body: Option<JsonView>,
    pub operation: JsonView,
}

#[verifier::ext_equal]
pub struct ApplyReportView {
    pub created: Seq<Seq<char>>,
    pub modified: Seq<Seq<char>>,
    pub deleted: Seq<Seq<char>>,
}

impl View for FieldTarget {
    type V = FieldTargetView;

    open spec fn view(&self) -> FieldTargetView {
        match self {
            FieldTarget::Value { value } => FieldTargetView::Value { value: value@ },
            FieldTarget::Removed => FieldTargetView::Removed,
            FieldTarget::DerivedPlaceholder => FieldTargetView::DerivedPlaceholder,
        }
    }
}

impl View for FieldDiff {
    type V = FieldDiffView;

    open spec fn view(&self) -> FieldDiffView {
        FieldDiffView { field: self.field@, to: self.to@ }
    }
}

impl View for Status {
    type V = StatusView;

    open spec fn view(&self) -> StatusView {
        match self {
            Status::Add => StatusView::Add,
            Status::Modify => StatusView::Modify,
            Status::Rename { chain } => StatusView::Rename { chain: model::views(chain@) },
            Status::Delete => StatusView::Delete,
        }
    }
}

impl View for DiffNode {
    type V = DiffNodeView;

    open spec fn view(&self) -> DiffNodeView {
        DiffNodeView {
            provider_key: model::views(self.provider_key@),
            status: self.status@,
            field_changes: model::views(self.field_changes@),
        }
    }
}

impl View for RunbookStep {
    type V = RunbookStepView;

    open spec fn view(&self) -> RunbookStepView {
        RunbookStepView {
            description: self.description@,
            command: self.command@,
            body: model::opt_view(self.body),
            operation: self.operation@,
        }
    }
}

impl View for ApplyReport {
    type V = ApplyReportView;

    open spec fn view(&self) -> ApplyReportView {
        ApplyReportView {
            created: model::views(self.created@),
            modified: model::views(self.modified@),
            deleted: model::views(self.deleted@),
        }
    }
}

/// A report of nothing done.
pub open spec fn empty_report() -> ApplyReportView {
    ApplyReportView { created: Seq::empty(), modified: Seq::empty(), deleted: Seq::empty() }
}

impl Default for ApplyReport {
    fn default() -> (r: ApplyReport)
        ensures
            r@ == empty_report(),
    {
        let r = ApplyReport { created: Vec::new(), modified: Vec::new(), deleted: Vec::new() };
        assert(r@ =~= empty_report());
        r
    }
}

} // verus!
