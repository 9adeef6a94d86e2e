//! Execution of a runbook, request by request.
//!
//! An [`ApplyRun`] says which request is due and takes in what came of it.  The
//! requests themselves are sent by the program around the library.
use vstd::prelude::*;
use crate::client;
use crate::client::{
    status_outcome, ApiCall, ApiCallView, ClientErrorView, ClientView, PorkbunClient,
    PorkbunClientError, RecordRequest, RecordRequestView, StatusResponse, StatusResponseView,
};
use crate::config;
use crate::config::{PorkbunConfig, ResolvedConfig};
use crate::error::{ErrorView, ProviderError};
use crate::model;
use crate::operation;
use crate::operation::{OperationView, PorkbunOperation, RecordIdent, RecordIdentView};
use crate::plan;
use crate::plan::{ApplyReport, ApplyReportView};
use crate::text;
use crate::text::{copy_opt, debug};

verus! {

/// A runbook step at the point of execution: its description, and the operation
/// that it carries or why that does not decode.
#[derive(Debug, PartialEq, Eq)]
pub struct ApplyStep {
    pub description: String,
    pub operation: Result<PorkbunOperation, String>,
}

/// A runbook under execution.
#[derive(Debug, PartialEq, Eq)]
pub struct ApplyRun {
    pub client: PorkbunClient,
    pub steps: Vec<ApplyStep>,
    /// The step that is due.
    pub next: usize,
    /// What is done.
    pub report: ApplyReport,
    /// What ended the run before its last step.
    pub failure: Option<ProviderError>,
}

pub struct ApplyStepView {
    pub description: Seq<char>,
    pub operation: Result<OperationView, Seq<char>>,
}

pub struct ApplyRunView {
    pub client: ClientView,
    pub steps: Seq<ApplyStepView>,
    pub next: int,
    pub report: ApplyReportView,
    pub failure: Option<ErrorView>,
}

impl View for ApplyStep {
    type V = ApplyStepView;

    open spec fn view(&self) -> ApplyStepView {
        ApplyStepView {
            description: self.description@,
            operation: model::result_view(self.operation),
        }
    }
}

impl View for ApplyRun {
    type V = ApplyRunView;

    open spec fn view(&self) -> ApplyRunView {
        ApplyRunView {
            client: self.client@,
            steps: model::views(self.steps@),
            next: self.next as int,
            report: self.report@,
            failure: model::opt_view(self.failure),
        }
    }
}

/// What a reply says, or why there is none.
pub type ReplyView = Result<StatusResponseView, Seq<char>>;

/// The display text of the record that an operation is about.
pub open spec fn op_key(op: OperationView) -> Seq<char> {
    operation::display_text(
        match op {
            OperationView::Create { name, record_type, content, .. } => RecordIdentView {
                record_type,
                name,
                content: Some(content),
            },
            OperationView::Edit { name, record_type, content, .. } => RecordIdentView {
                record_type,
                name,
                content: Some(content),
            },
            OperationView::Delete { name, record_type, content, .. } => RecordIdentView {
                record_type,
                name,
                content: Some(content),
            },
        },
    )
}

/// The request that carries out an operation.
pub open spec fn op_call(client: ClientView, op: OperationView) -> ApiCallView {
    match op {
        OperationView::Create { domain, name, record_type, content, ttl, prio } => {
            client::create_call(
                client,
                domain,
                RecordRequestView { name, record_type, content, ttl, prio },
            )
        },
        OperationView::Edit { domain, id, name, record_type, content, ttl, prio } => {
            client::edit_call(
                client,
                domain,
                id,
                RecordRequestView { name, record_type, content, ttl, prio },
            )
        },
        OperationView::Delete { domain, id, .. } => client::delete_call(client, domain, id),
    }
}

/// The failure of an operation.
pub open spec fn op_failure(op: OperationView, e: ClientErrorView) -> ErrorView {
    ErrorView::OperationFailed(
        match op {
            OperationView::Create { .. } => "Failed to create DNS record "@ + op_key(op) + ": "@
                + client::client_error_text(e),
            OperationView::Edit { id, .. } => "Failed to edit DNS record "@ + op_key(op) + " (id="@
                + id + "): "@ + client::client_error_text(e),
            OperationView::Delete { id, .. } => "Failed to delete DNS record "@ + op_key(op)
                + " (id="@ + id + "): "@ + client::client_error_text(e),
        },
    )
}

/// A report with one more operation done.
pub open spec fn reported(report: ApplyReportView, op: OperationView) -> ApplyReportView {
    match op {
        OperationView::Create { .. } => ApplyReportView {
            created: report.created.push(op_key(op)),
            ..report
        },
        OperationView::Edit { .. } => ApplyReportView {
            modified: report.modified.push(op_key(op)),
            ..report
        },
        OperationView::Delete { .. } => ApplyReportView {
            deleted: report.deleted.push(op_key(op)),
            ..report
        },
    }
}

/// The failure of a step whose operation does not decode.
pub open spec fn decode_failure(description: Seq<char>, message: Seq<char>) -> ErrorView {
    ErrorView::OperationFailed(
        "Failed to deserialise operation for "@ + text::debug_text(description) + ": "@ + message,
    )
}

/// A run from the start.
pub open spec fn started(client: ClientView, steps: Seq<ApplyStepView>) -> ApplyRunView {
    ApplyRunView { client, steps, next: 0, report: plan::empty_report(), failure: None }
}

/// The operation that is due: none once the run has failed, once every step is
/// done, or where the next step does not decode.
pub open spec fn due(run: ApplyRunView) -> Option<OperationView> {
    if run.failure is Some || run.next >= run.steps.len() {
        None
    } else {
        match run.steps[run.next].operation {
            Ok(op) => Some(op),
            Err(_) => None,
        }
    }
}

/// The request that is due.
pub open spec fn due_call(run: ApplyRunView) -> Option<ApiCallView> {
    match due(run) {
        Some(op) => Some(op_call(run.client, op)),
        None => None,
    }
}

/// The run after the reply to the request that was due.
pub open spec fn resumed(run: ApplyRunView, reply: ReplyView) -> ApplyRunView {
    match due(run) {
        None => run,
        Some(op) => match client::status_result(reply, op_call(run.client, op).url) {
            Ok(_) => ApplyRunView {
                next: run.next + 1,
                report: reported(run.report, op),
                ..run
            },
            Err(e) => ApplyRunView { failure: Some(op_failure(op, e)), ..run },
        },
    }
}

/// What a run comes to when nothing is due any more.
pub open spec fn ending(run: ApplyRunView) -> Result<ApplyReportView, ErrorView> {
    match run.failure {
        Some(e) => Err(e),
        None => if 0 <= run.next < run.steps.len() {
            match run.steps[run.next].operation {
                Err(message) => Err(decode_failure(run.steps[run.next].description, message)),
                Ok(_) => Ok(run.report),
            }
        } else {
            Ok(run.report)
        },
    }
}

fn ident_key(record_type: &String, name: &String, content: &String) -> (r: String)
    ensures
        r@ == operation::display_text(
            RecordIdentView { record_type: record_type@, name: name@, content: Some(content@) },
        ),
{
    let ident = RecordIdent {
        record_type: record_type.clone(),
        name: name.clone(),
        content: Some(content.clone()),
    };
    ident.display()
}

/// The request that carries out an operation.
pub fn op_request(client: &PorkbunClient, op: &PorkbunOperation) -> (r: ApiCall)
    ensures
        r@ == op_call(client@, op@),
{
    match op {
        PorkbunOperation::Create { domain, name, record_type, content, ttl, prio } => {
            let record = RecordRequest {
                name: name.clone(),
                record_type: record_type.clone(),
                content: content.clone(),
                ttl: ttl.clone(),
                prio: copy_opt(prio),
            };
            client.create(domain.as_str(), &record)
        },
        PorkbunOperation::Edit { domain, id, name, record_type, content, ttl, prio } => {
            let record = RecordRequest {
                name: name.clone(),
                record_type: record_type.clone(),
                content: content.clone(),
                ttl: ttl.clone(),
                prio: copy_opt(prio),
            };
            client.edit(domain.as_str(), id.as_str(), &record)
        },
        PorkbunOperation::Delete { domain, id, .. } => client.delete(domain.as_str(), id.as_str()),
    }
}

fn push_key(keys: &mut Vec<String>, key: String)
    ensures
        model::views(final(keys)@) == model::views(old(keys)@).push(key@),
{
    let ghost before = keys@;
    keys.push(key);
    assert(model::views(keys@) =~= model::views(before).push(key@));
}

/// Takes in what came of the request of an operation: a report entry, or the
/// failure of the operation.
pub fn record_outcome(
    op: &PorkbunOperation,
    outcome: Result<(), PorkbunClientError>,
    report: &mut ApplyReport,
) -> (r: Result<(), ProviderError>)
    ensures
        match outcome {
            Ok(_) => r is Ok && final(report)@ == reported(old(report)@, op@),
            Err(e) => {
                &&& model::result_view(r) == Err::<(), ErrorView>(op_failure(op@, e@))
                &&& final(report)@ == old(report)@
            },
        },
{
    match op {
        PorkbunOperation::Create { name, record_type, content, .. } => {
            let key = ident_key(record_type, name, content);
            match outcome {
                Ok(_) => {
                    push_key(&mut report.created, key);
                    Ok(())
                },
                Err(e) => {
                    let mut m = "Failed to create DNS record ".to_string();
                    m.append(key.as_str());
                    m.append(": ");
                    m.append(e.text().as_str());
                    Err(ProviderError::OperationFailed(m))
                },
            }
        },
        PorkbunOperation::Edit { id, name, record_type, content, .. } => {
            let key = ident_key(record_type, name, content);
            match outcome {
                Ok(_) => {
                    push_key(&mut report.modified, key);
                    Ok(())
                },
                Err(e) => {
                    let mut m = "Failed to edit DNS record ".to_string();
                    m.append(key.as_str());
                    m.append(" (id=");
                    m.append(id.as_str());
                    m.append("): ");
                    m.append(e.text().as_str());
                    Err(ProviderError::OperationFailed(m))
                },
            }
        },
        PorkbunOperation::Delete { id, name, record_type, content, .. } => {
            let key = ident_key(record_type, name, content);
            match outcome {
                Ok(_) => {
                    push_key(&mut report.deleted, key);
                    Ok(())
                },
                Err(e) => {
                    let mut m = "Failed to delete DNS record ".to_string();
                    m.append(key.as_str());
                    m.append(" (id=");
                    m.append(id.as_str());
                    m.append("): ");
                    m.append(e.text().as_str());
                    Err(ProviderError::OperationFailed(m))
                },
            }
        },
    }
}

impl ApplyRun {
    /// A run of these steps under this configuration.
    pub fn start(config: &ResolvedConfig, steps: Vec<ApplyStep>) -> (r: Result<
        ApplyRun,
        ProviderError,
    >)
        ensures
            model::result_view(r) == match config::resolved(config@) {
                Err(e) => Err(e),
                Ok(c) => Ok(started(config::client_of(c), model::views(steps@))),
            },
    {
        match PorkbunConfig::from_resolved_config(config) {
            Ok(c) => Ok(
                ApplyRun {
                    client: PorkbunClient::new(c.api_key, c.secret_api_key, c.base_url),
                    steps,
                    next: 0,
                    report: ApplyReport::default(),
                    failure: None,
                },
            ),
            Err(e) => Err(e),
        }
    }

    /// The request that is due, until none is.
    pub fn pending(&self) -> (r: Option<ApiCall>)
        ensures
            model::opt_view(r) == due_call(self@),
    {
        if self.failure.is_some() || self.next >= self.steps.len() {
            return None;
        }
        match &self.steps[self.next].operation {
            Ok(op) => Some(op_request(&self.client, op)),
            Err(_) => None,
        }
    }

    /// Takes in the reply to the request that was due, or why there is none.
    pub fn resume(&mut self, reply: Result<StatusResponse, String>)
        ensures
            final(self)@ == resumed(old(self)@, model::result_view(reply)),
    {
        if self.failure.is_some() || self.next >= self.steps.len() {
            return;
        }
        match &self.steps[self.next].operation {
            Ok(op) => {
                let call = op_request(&self.client, op);
                let outcome = status_outcome(reply, call.url);
                match record_outcome(op, outcome, &mut self.report) {
                    Ok(_) => {
                        self.next = self.next + 1;
                    },
                    Err(e) => {
                        self.failure = Some(e);
                    },
                }
            },
            Err(_) => {},
        }
    }

    /// What the run came to, once no request is due any more.
    pub fn finish(self) -> (r: Result<ApplyReport, ProviderError>)
        requires
            due(self@) is None,
        ensures
            model::result_view(r) == ending(self@),
    {
        match self.failure {
            Some(e) => {
                return Err(e);
            },
            None => {},
        }
        if self.next < self.steps.len() {
            match &self.steps[self.next].operation {
                Ok(_) => {},
                Err(message) => {
                    let mut m = "Failed to deserialise operation for ".to_string();
                    m.append(debug(self.steps[self.next].description.as_str()).as_str());
                    m.append(": ");
                    m.append(message.as_str());
                    return Err(ProviderError::OperationFailed(m));
                },
            }
        }
        Ok(self.report)
    }
}

} // verus!
