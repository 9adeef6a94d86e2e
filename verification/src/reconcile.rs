//! Reconciliation of flat record maps: desired against live, field by field.
//!
//! Here a record is identified by `<type>/<name>` alone, and each desired field
//! says who owns its value: a managed field follows the desired state, an
//! initial one is set only while the live side has none, an unmanaged one is
//! left alone.
use vstd::prelude::*;
use crate::entries::Entries;
use crate::error::{ErrorView, ProviderError};
use crate::field_value;
use crate::field_value::{FieldValueView, ResolvedFieldValue};
use crate::json;
use crate::json::{optional_member, string_member, Json, JsonView};
use crate::model;
use crate::operation::{LiveRecordView, DEFAULT_TTL};
use crate::plan::{RunbookStep, RunbookStepView};
use crate::reconcile_laws;
use crate::text::{copy_opt, debug, same, split_once};
use crate::text;
pub use crate::operation::{relative_name, LiveRecord};

verus! {

/// What a desired field resolves to, or why it does not.
pub type Resolution = Result<ResolvedFieldValue, String>;

/// What a resolution says.
pub type ResolutionView = Result<FieldValueView, Seq<char>>;

/// The desired state of one DNS record.
#[derive(Debug, PartialEq, Eq)]
pub struct DesiredRecord {
    pub content: Resolution,
    pub ttl: Resolution,
    pub prio: Option<Resolution>,
}

/// One API operation, as a runbook step carries it.
#[derive(Debug, PartialEq, Eq)]
pub enum PorkbunOperation {
    Create {
        domain: String,
        name: String,
        record_type: String,
        content: String,
        ttl: String,
        prio: Option<String>,
    },
    Edit {
        domain: String,
        id: String,
        name: String,
        record_type: String,
        content: String,
        ttl: String,
        prio: Option<String>,
    },
    Delete {
        domain: String,
        id: String,
        /// Kept for human-readable runbook output only.
        name: String,
        record_type: String,
    },
}

/// The change of one field: its live value, where there is a live record, and
/// its desired one.
#[derive(Debug, PartialEq, Eq)]
pub struct FieldDiff {
    pub field: String,
    pub from: Option<String>,
    pub to: Option<String>,
}

/// The change of one record.
#[derive(Debug, PartialEq, Eq)]
pub enum ResourceChange {
    Add { resource_id: String, fields: Vec<FieldDiff> },
    Modify { resource_id: String, field_changes: Vec<FieldDiff> },
    Delete { resource_id: String },
}

/// Field values of a record.
pub struct RecordFields {
    pub content: String,
    pub ttl: String,
    pub prio: Option<String>,
}

#[verifier::ext_equal]
pub struct DesiredRecordView {
    pub content: ResolutionView,
    pub ttl: ResolutionView,
    pub prio: Option<ResolutionView>,
}

pub enum OperationView {
    Create {
        domain: Seq<char>,
        name: Seq<char>,
        record_type: Seq<char>,
        content: Seq<char>,
        ttl: Seq<char>,
        prio: Option<Seq<char>>,
    },
    Edit {
        domain: Seq<char>,
        id: Seq<char>,
        name: Seq<char>,
        record_type: Seq<char>,
        content: Seq<char>,
        ttl: Seq<char>,
        prio: Option<Seq<char>>,
    },
    Delete { domain: Seq<char>, id: Seq<char>, name: Seq<char>, record_type: Seq<char> },
}

pub struct FieldDiffView {
    pub field: Seq<char>,
    pub from: Option<Seq<char>>,
    pub to: Option<Seq<char>>,
}

pub enum ChangeView {
    Add { resource_id: Seq<char>, fields: Seq<FieldDiffView> },
    Modify { resource_id: Seq<char>, field_changes: Seq<FieldDiffView> },
    Delete { resource_id: Seq<char> },
}

pub struct FieldsView {
    pub content: Seq<char>,
    pub ttl: Seq<char>,
    pub prio: Option<Seq<char>>,
}

/// Changes, and the steps that carry them out.
#[verifier::ext_equal]
pub struct PlanView {
    pub changes: Seq<ChangeView>,
    pub steps: Seq<RunbookStepView>,
}

impl View for DesiredRecord {
    type V = DesiredRecordView;

    open spec fn view(&self) -> DesiredRecordView {
        DesiredRecordView {
            content: model::result_view(self.content),
            ttl: model::result_view(self.ttl),
            prio: match self.prio {
                Some(prio) => Some(model::result_view(prio)),
                None => None,
            },
        }
    }
}

impl View for PorkbunOperation {
    type V = OperationView;

    open spec fn view(&self) -> OperationView {
        match self {
            PorkbunOperation::Create { domain, name, record_type, content, ttl, prio } => {
                OperationView::Create {
                    domain: domain@,
                    name: name@,
                    record_type: record_type@,
                    content: content@,
                    ttl: ttl@,
                    prio: model::opt_view(*prio),
                }
            },
            PorkbunOperation::Edit { domain, id, name, record_type, content, ttl, prio } => {
                OperationView::Edit {
                    domain: domain@,
                    id: id@,
                    name: name@,
                    record_type: record_type@,
                    content: content@,
                    ttl: ttl@,
                    prio: model::opt_view(*prio),
                }
            },
            PorkbunOperation::Delete { domain, id, name, record_type } => OperationView::Delete {
                domain: domain@,
                id: id@,
                name: name@,
                record_type: record_type@,
            },
        }
    }
}

impl View for FieldDiff {
    type V = FieldDiffView;

    open spec fn view(&self) -> FieldDiffView {
        FieldDiffView {
            field: self.field@,
            from: model::opt_view(self.from),
            to: model::opt_view(self.to),
        }
    }
}

impl View for ResourceChange {
    type V = ChangeView;

    open spec fn view(&self) -> ChangeView {
        match self {
            ResourceChange::Add { resource_id, fields } => ChangeView::Add {
                resource_id: resource_id@,
                fields: model::views(fields@),
            },
            ResourceChange::Modify { resource_id, field_changes } => ChangeView::Modify {
                resource_id: resource_id@,
                field_changes: model::views(field_changes@),
            },
            ResourceChange::Delete { resource_id } => ChangeView::Delete {
                resource_id: resource_id@,
            },
        }
    }
}

impl View for RecordFields {
    type V = FieldsView;

    open spec fn view(&self) -> FieldsView {
        FieldsView { content: self.content@, ttl: self.ttl@, prio: model::opt_view(self.prio) }
    }
}

/// The parts of a record key: what stands before and after its first slash.
pub open spec fn parsed_key(key: Seq<char>) -> Option<(Seq<char>, Seq<char>)> {
    match key.index_of_first('/') {
        Some(i) => Some((key.take(i), key.skip(i + 1))),
        None => None,
    }
}

/// The text that a resolved field carries, where it resolves and carries one.
pub open spec fn resolved_value(field: ResolutionView) -> Option<Seq<char>> {
    match field {
        Ok(value) => field_value::value_of(value),
        Err(_) => None,
    }
}

/// The fields of a new record.  An initial value counts like a managed one.
pub open spec fn fields_for_create(rec: DesiredRecordView) -> Result<FieldsView, ErrorView> {
    match (rec.content, rec.ttl) {
        (Err(e), _) => Err(ErrorView::OperationFailed(e)),
        (Ok(content), ttl) => match field_value::value_of(content) {
            None => Err(ErrorView::OperationFailed("content field must be Managed or Initial"@)),
            Some(content) => match ttl {
                Err(e) => Err(ErrorView::OperationFailed(e)),
                Ok(ttl) => Ok(
                    FieldsView {
                        content,
                        ttl: match field_value::value_of(ttl) {
                            Some(ttl) => ttl,
                            None => DEFAULT_TTL@,
                        },
                        prio: match rec.prio {
                            Some(prio) => resolved_value(prio),
                            None => None,
                        },
                    },
                ),
            },
        },
    }
}

/// The value that a field has after an edit: the desired one, unless there is
/// none or the field is initial and set already.
pub open spec fn effective(field: ResolutionView, live: Seq<char>) -> Seq<char> {
    match field {
        Ok(FieldValueView::Managed(value)) => value,
        Ok(FieldValueView::Initial(value)) => if live.len() > 0 {
            live
        } else {
            value
        },
        _ => live,
    }
}

/// A live priority, empty where there is none.
pub open spec fn live_prio(live: LiveRecordView) -> Seq<char> {
    match live.prio {
        Some(prio) => prio,
        None => Seq::empty(),
    }
}

/// The fields of a record after an edit.
pub open spec fn fields_for_edit(desired: DesiredRecordView, live: LiveRecordView) -> FieldsView {
    FieldsView {
        content: effective(desired.content, live.content),
        ttl: effective(desired.ttl, live.ttl),
        prio: match desired.prio {
            Some(prio) => Some(effective(prio, live_prio(live))),
            None => None,
        },
    }
}

/// The change of a field that has to follow the desired state and does not.
pub open spec fn field_change(name: Seq<char>, field: ResolutionView, live: Seq<char>) -> Seq<
    FieldDiffView,
> {
    if effective(field, live) == live {
        Seq::empty()
    } else {
        seq![FieldDiffView { field: name, from: Some(live), to: Some(effective(field, live)) }]
    }
}

/// The field changes of a live record.
pub open spec fn field_changes(desired: DesiredRecordView, live: LiveRecordView) -> Seq<
    FieldDiffView,
> {
    field_change("content"@, desired.content, live.content) + field_change(
        "ttl"@,
        desired.ttl,
        live.ttl,
    ) + match desired.prio {
        Some(prio) => field_change("prio"@, prio, live_prio(live)),
        None => Seq::empty(),
    }
}

/// A field that is new.
pub open spec fn new_field(name: Seq<char>, value: Seq<char>) -> FieldDiffView {
    FieldDiffView { field: name, from: None, to: Some(value) }
}

/// The field changes of a new record.
pub open spec fn new_fields(fields: FieldsView) -> Seq<FieldDiffView> {
    let always = seq![new_field("content"@, fields.content), new_field("ttl"@, fields.ttl)];
    match fields.prio {
        Some(prio) => always.push(new_field("prio"@, prio)),
        None => always,
    }
}

/// An operation in the form in which a runbook step carries it.
pub open spec fn operation_json(op: OperationView) -> JsonView {
    match op {
        OperationView::Create { domain, name, record_type, content, ttl, prio } => JsonView::Object(
            seq![
                ("action"@, JsonView::String("create"@)),
                ("domain"@, JsonView::String(domain)),
                ("name"@, JsonView::String(name)),
                ("record_type"@, JsonView::String(record_type)),
                ("content"@, JsonView::String(content)),
                ("ttl"@, JsonView::String(ttl)),
                ("prio"@, json::string_or_null(prio)),
            ],
        ),
        OperationView::Edit { domain, id, name, record_type, content, ttl, prio } => JsonView::Object(
            seq![
                ("action"@, JsonView::String("edit"@)),
                ("domain"@, JsonView::String(domain)),
                ("id"@, JsonView::String(id)),
                ("name"@, JsonView::String(name)),
                ("record_type"@, JsonView::String(record_type)),
                ("content"@, JsonView::String(content)),
                ("ttl"@, JsonView::String(ttl)),
                ("prio"@, json::string_or_null(prio)),
            ],
        ),
        OperationView::Delete { domain, id, name, record_type } => JsonView::Object(
            seq![
                ("action"@, JsonView::String("delete"@)),
                ("domain"@, JsonView::String(domain)),
                ("id"@, JsonView::String(id)),
                ("name"@, JsonView::String(name)),
                ("record_type"@, JsonView::String(record_type)),
            ],
        ),
    }
}

/// The step that carries an operation.
pub open spec fn step(
    description: Seq<char>,
    command: Seq<char>,
    op: OperationView,
) -> RunbookStepView {
    RunbookStepView { description, command, body: None, operation: operation_json(op) }
}

/// A plan of nothing.
pub open spec fn empty_plan() -> PlanView {
    PlanView { changes: Seq::empty(), steps: Seq::empty() }
}

/// A plan with one more change.
pub open spec fn extended(plan: PlanView, change: ChangeView, step: RunbookStepView) -> PlanView {
    PlanView { changes: plan.changes.push(change), steps: plan.steps.push(step) }
}

/// Two plans, one after the other.
pub open spec fn joined(a: PlanView, b: PlanView) -> PlanView {
    PlanView { changes: a.changes + b.changes, steps: a.steps + b.steps }
}

/// What a desired record takes: nothing where the live record agrees with it,
/// an edit where it does not, a creation where there is none.
pub open spec fn desired_plan(
    key: Seq<char>,
    desired: DesiredRecordView,
    live: Seq<(Seq<char>, LiveRecordView)>,
    domain: Seq<char>,
) -> Result<PlanView, ErrorView> {
    match parsed_key(key) {
        None => Err(
            ErrorView::DesiredStateParse(
                "Record key "@ + text::debug_text(key) + " must be in <type>/<name> format"@,
            ),
        ),
        Some((record_type, name)) => match model::lookup(live, key) {
            None => match fields_for_create(desired) {
                Err(e) => Err(e),
                Ok(fields) => Ok(
                    extended(
                        empty_plan(),
                        ChangeView::Add { resource_id: key, fields: new_fields(fields) },
                        step(
                            "Create "@ + record_type + " record "@ + name + "."@ + domain,
                            "POST /dns/create/"@ + domain,
                            OperationView::Create {
                                domain,
                                name,
                                record_type,
                                content: fields.content,
                                ttl: fields.ttl,
                                prio: fields.prio,
                            },
                        ),
                    ),
                ),
            },
            Some(live) => {
                let changes = field_changes(desired, live);
                let fields = fields_for_edit(desired, live);
                if changes.len() == 0 {
                    Ok(empty_plan())
                } else {
                    Ok(
                        extended(
                            empty_plan(),
                            ChangeView::Modify { resource_id: key, field_changes: changes },
                            step(
                                "Edit "@ + record_type + " record "@ + name + "."@ + domain,
                                "POST /dns/edit/"@ + domain + "/"@ + live.id,
                                OperationView::Edit {
                                    domain,
                                    id: live.id,
                                    name,
                                    record_type,
                                    content: fields.content,
                                    ttl: fields.ttl,
                                    prio: fields.prio,
                                },
                            ),
                        ),
                    )
                }
            },
        },
    }
}

/// What the first `n` desired records take, or the first failure among them.
pub open spec fn desired_plans(
    desired: Seq<(Seq<char>, DesiredRecordView)>,
    live: Seq<(Seq<char>, LiveRecordView)>,
    domain: Seq<char>,
    n: nat,
) -> Result<PlanView, ErrorView>
    decreases n,
{
    if n == 0 {
        Ok(empty_plan())
    } else {
        match desired_plans(desired, live, domain, (n - 1) as nat) {
            Err(e) => Err(e),
            Ok(before) => match desired_plan(desired[n - 1].0, desired[n - 1].1, live, domain) {
                Err(e) => Err(e),
                Ok(plan) => Ok(joined(before, plan)),
            },
        }
    }
}

/// Whether an ignore expression's result exempts a record.
pub open spec fn truthy(value: JsonView) -> bool {
    match value {
        JsonView::Null => false,
        JsonView::Bool(b) => b,
        _ => true,
    }
}

/// Whether one of the results exempts a record.
pub open spec fn ignored(results: Seq<Option<JsonView>>) -> bool {
    exists|i: int| 0 <= i < results.len() && (#[trigger] results[i] matches Some(v) && truthy(v))
}

/// What a live record takes: its removal, unless it is desired or exempt.
pub open spec fn live_plan(
    key: Seq<char>,
    live: LiveRecordView,
    desired: Seq<(Seq<char>, DesiredRecordView)>,
    results: Seq<Option<JsonView>>,
    domain: Seq<char>,
) -> PlanView {
    if model::lookup(desired, key) is Some || ignored(results) {
        empty_plan()
    } else {
        let (record_type, name) = match parsed_key(key) {
            Some(parts) => parts,
            None => (live.record_type, live.name),
        };
        extended(
            empty_plan(),
            ChangeView::Delete { resource_id: key },
            step(
                "Delete "@ + record_type + " record "@ + name + "."@ + domain,
                "POST /dns/delete/"@ + domain + "/"@ + live.id,
                OperationView::Delete { domain, id: live.id, name, record_type },
            ),
        )
    }
}

/// What the first `n` live records take.
pub open spec fn live_plans(
    desired: Seq<(Seq<char>, DesiredRecordView)>,
    live: Seq<(Seq<char>, LiveRecordView)>,
    results: Seq<Seq<Option<JsonView>>>,
    domain: Seq<char>,
    n: nat,
) -> PlanView
    decreases n,
{
    if n == 0 {
        empty_plan()
    } else {
        joined(
            live_plans(desired, live, results, domain, (n - 1) as nat),
            live_plan(live[n - 1].0, live[n - 1].1, desired, results[n - 1], domain),
        )
    }
}

/// The texts of the ignore expressions, or the first failure among them.
pub open spec fn ignore_exprs(exprs: Seq<Result<Seq<char>, Seq<char>>>) -> Result<
    Seq<Seq<char>>,
    ErrorView,
>
    decreases exprs.len(),
{
    if exprs.len() == 0 {
        Ok(Seq::empty())
    } else {
        match (ignore_exprs(exprs.drop_last()), exprs.last()) {
            (Err(e), _) => Err(e),
            (_, Err(e)) => Err(
                ErrorView::OperationFailed("Failed to resolve ignore expression: "@ + e),
            ),
            (Ok(before), Ok(expr)) => Ok(before.push(expr)),
        }
    }
}

/// The plan that takes the live records to the desired ones.
pub open spec fn full_plan(
    desired: Result<Seq<(Seq<char>, DesiredRecordView)>, Seq<char>>,
    live: Result<Seq<(Seq<char>, LiveRecordView)>, Seq<char>>,
    domain: Seq<char>,
    exprs: Seq<Result<Seq<char>, Seq<char>>>,
    results: Seq<Seq<Option<JsonView>>>,
) -> Result<PlanView, ErrorView> {
    match (desired, live, ignore_exprs(exprs)) {
        (Err(e), _, _) => Err(ErrorView::DesiredStateParse(e)),
        (_, Err(e), _) => Err(ErrorView::LiveStateParse(e)),
        (_, _, Err(e)) => Err(e),
        (Ok(desired), Ok(live), Ok(_)) => match desired_plans(
            desired,
            live,
            domain,
            desired.len(),
        ) {
            Err(e) => Err(e),
            Ok(plan) => Ok(joined(plan, live_plans(desired, live, results, domain, live.len()))),
        },
    }
}

/// What the resolved ignore expressions say.
pub open spec fn exprs_view(exprs: Seq<Result<String, String>>) -> Seq<
    Result<Seq<char>, Seq<char>>,
> {
    Seq::new(exprs.len(), |i: int| model::result_view(exprs[i]))
}

/// What the ignore expressions yield for one record.
pub open spec fn results_view(results: Seq<Option<Json>>) -> Seq<Option<JsonView>> {
    Seq::new(results.len(), |i: int| model::opt_view(results[i]))
}

/// What the ignore expressions yield for each record.
pub open spec fn all_results_view(results: Seq<Vec<Option<Json>>>) -> Seq<Seq<Option<JsonView>>> {
    Seq::new(results.len(), |i: int| results_view(results[i]@))
}

/// What a decoded map says, or why it does not decode.
pub open spec fn map_view<T: View>(map: Result<Entries<T>, String>) -> Result<
    Seq<(Seq<char>, T::V)>,
    Seq<char>,
> {
    match map {
        Ok(entries) => Ok(entries@),
        Err(e) => Err(e@),
    }
}

/// What changes and steps say.
pub open spec fn plan_view(changes: Seq<ResourceChange>, steps: Seq<RunbookStep>) -> PlanView {
    PlanView { changes: model::views(changes), steps: model::views(steps) }
}

/// Builds the key of a record.
pub fn record_key(record_type: &str, relative: &str) -> (r: String)
    ensures
        r@ == record_type@ + "/"@ + relative@,
        !record_type@.contains('/') ==> parsed_key(r@) == Some((record_type@, relative@)),
{
    proof {
        if !record_type@.contains('/') {
            reconcile_laws::law_record_key_reads_back(record_type@, relative@);
        }
    }
    let mut key = record_type.to_string();
    key.append("/");
    key.append(relative);
    key
}

/// Parses a record key back into `(type, relative_name)`.
pub fn parse_record_key<'a>(key: &'a str) -> (r: Option<(&'a str, &'a str)>)
    ensures
        parsed_key(key@) == match r {
            Some((record_type, name)) => Some((record_type@, name@)),
            None => None,
        },
{
    let parts = split_once(key, '/');
    proof {
        key@.index_of_first_ensures('/');
        match parts {
            Some((before, after)) => {
                lemma_first_slash(before@, after@);
            },
            None => {},
        }
    }
    parts
}

/// Where the part before a slash has none, that slash is the first.
proof fn lemma_first_slash(before: Seq<char>, after: Seq<char>)
    requires
        !before.contains('/'),
    ensures
        parsed_key(before + seq!['/'] + after) == Some((before, after)),
{
    let key = before + seq!['/'] + after;
    key.index_of_first_ensures('/');
    assert(key[before.len() as int] == '/');
    assert(key.contains('/'));
    let i = key.index_of_first('/').unwrap();
    if i < before.len() {
        assert(before[i] == '/');
        assert(before.contains('/'));
    }
    assert(i == before.len());
    assert(key.take(i) =~= before);
    assert(key.skip(i + 1) =~= after);
}

/// The TTL of a desired record that declares none.
pub fn default_ttl() -> (r: ResolvedFieldValue)
    ensures
        r@ == FieldValueView::Managed(DEFAULT_TTL@),
{
    ResolvedFieldValue::Managed(Json::String(DEFAULT_TTL.to_string()))
}

fn copy_error(text: &String) -> (r: ProviderError)
    ensures
        r@ == ErrorView::OperationFailed(text@),
{
    ProviderError::OperationFailed(text.clone())
}

/// The fields of a new record.  An initial value counts like a managed one.
pub fn resolve_fields_for_create(rec: &DesiredRecord) -> (r: Result<RecordFields, ProviderError>)
    ensures
        model::result_view(r) == fields_for_create(rec@),
{
    let content = match &rec.content {
        Ok(value) => match value.value() {
            Some(content) => content,
            None => {
                return Err(
                    ProviderError::OperationFailed(
                        "content field must be Managed or Initial".to_string(),
                    ),
                );
            },
        },
        Err(e) => {
            return Err(copy_error(e));
        },
    };
    let ttl = match &rec.ttl {
        Ok(value) => match value.value() {
            Some(ttl) => ttl,
            None => DEFAULT_TTL.to_string(),
        },
        Err(e) => {
            return Err(copy_error(e));
        },
    };
    let prio = match &rec.prio {
        Some(Ok(value)) => value.value(),
        _ => None,
    };
    Ok(RecordFields { content, ttl, prio })
}

/// The desired value, unless there is none or the field is initial and the live
/// value is not empty: then the live value.
pub fn effective_value(field: &Resolution, live: &str) -> (r: String)
    ensures
        r@ == effective(model::result_view(*field), live@),
{
    let resolved = match field {
        Ok(resolved) => resolved,
        Err(_) => {
            return live.to_string();
        },
    };
    if resolved.is_initial() && !live.is_empty() {
        return live.to_string();
    }
    match resolved.value() {
        Some(value) => value,
        None => live.to_string(),
    }
}

fn prio_or_empty(live: &LiveRecord) -> (r: String)
    ensures
        r@ == live_prio(live@),
{
    match &live.prio {
        Some(prio) => prio.clone(),
        None => String::new(),
    }
}

/// The fields of a record after an edit.  Initial fields that are set already
/// are not overwritten.
pub fn resolve_fields_for_edit(desired: &DesiredRecord, live: &LiveRecord) -> (r: RecordFields)
    ensures
        r@ == fields_for_edit(desired@, live@),
{
    let content = effective_value(&desired.content, live.content.as_str());
    let ttl = effective_value(&desired.ttl, live.ttl.as_str());
    let prio = match &desired.prio {
        Some(field) => Some(effective_value(field, prio_or_empty(live).as_str())),
        None => None,
    };
    RecordFields { content, ttl, prio }
}

/// Appends the change of one field, where it has to follow the desired state
/// and does not.
fn push_field_change(diffs: &mut Vec<FieldDiff>, name: &str, field: &Resolution, live: &str)
    ensures
        model::views(final(diffs)@) == model::views(old(diffs)@) + field_change(
            name@,
            model::result_view(*field),
            live@,
        ),
{
    let ghost before = diffs@;
    match field {
        Ok(resolved) => {
            let skip = resolved.is_initial() && !live.is_empty();
            if !skip && !resolved.is_unmanaged() {
                match resolved.value() {
                    Some(desired) => {
                        if !same(desired.as_str(), live) {
                            let diff = FieldDiff {
                                field: name.to_string(),
                                from: Some(live.to_string()),
                                to: Some(desired),
                            };
                            diffs.push(diff);
                            assert(model::views(diffs@) =~= model::views(before) + seq![diff@]);
                            return;
                        }
                    },
                    None => {},
                }
            }
        },
        Err(_) => {},
    }
    assert(model::views(diffs@) =~= model::views(before) + Seq::<FieldDiffView>::empty());
}

/// The fields of a live record that have to follow the desired state and do
/// not.  Unmanaged fields and initial fields that are set already are left out.
pub fn managed_field_diffs(desired: &DesiredRecord, live: &LiveRecord) -> (r: Vec<FieldDiff>)
    ensures
        model::views(r@) == field_changes(desired@, live@),
{
    let mut diffs: Vec<FieldDiff> = Vec::new();
    push_field_change(&mut diffs, "content", &desired.content, live.content.as_str());
    push_field_change(&mut diffs, "ttl", &desired.ttl, live.ttl.as_str());
    match &desired.prio {
        Some(field) => {
            push_field_change(&mut diffs, "prio", field, prio_or_empty(live).as_str());
        },
        None => {},
    }
    assert(model::views(diffs@) =~= field_changes(desired@, live@));
    diffs
}

fn new_field_diff(name: &str, value: &str) -> (r: FieldDiff)
    ensures
        r@ == new_field(name@, value@),
{
    FieldDiff { field: name.to_string(), from: None, to: Some(value.to_string()) }
}

/// The field changes of a new record: every field is new.
pub fn add_field_diffs(fields: &RecordFields) -> (r: Vec<FieldDiff>)
    ensures
        model::views(r@) == new_fields(fields@),
{
    let mut diffs: Vec<FieldDiff> = Vec::new();
    diffs.push(new_field_diff("content", fields.content.as_str()));
    diffs.push(new_field_diff("ttl", fields.ttl.as_str()));
    match &fields.prio {
        Some(prio) => {
            diffs.push(new_field_diff("prio", prio.as_str()));
        },
        None => {},
    }
    assert(model::views(diffs@) =~= new_fields(fields@));
    diffs
}

impl PorkbunOperation {
    /// The form in which a runbook step carries the operation.
    pub fn to_json(&self) -> (r: Json)
        ensures
            r@ == operation_json(self@),
    {
        broadcast use json::lemma_compound_view;

        let mut out: Vec<(String, Json)> = Vec::new();
        match self {
            PorkbunOperation::Create { domain, name, record_type, content, ttl, prio } => {
                out.push(string_member("action", "create"));
                out.push(string_member("domain", domain.as_str()));
                out.push(string_member("name", name.as_str()));
                out.push(string_member("record_type", record_type.as_str()));
                out.push(string_member("content", content.as_str()));
                out.push(string_member("ttl", ttl.as_str()));
                out.push(optional_member("prio", prio));
            },
            PorkbunOperation::Edit { domain, id, name, record_type, content, ttl, prio } => {
                out.push(string_member("action", "edit"));
                out.push(string_member("domain", domain.as_str()));
                out.push(string_member("id", id.as_str()));
                out.push(string_member("name", name.as_str()));
                out.push(string_member("record_type", record_type.as_str()));
                out.push(string_member("content", content.as_str()));
                out.push(string_member("ttl", ttl.as_str()));
                out.push(optional_member("prio", prio));
            },
            PorkbunOperation::Delete { domain, id, name, record_type } => {
                out.push(string_member("action", "delete"));
                out.push(string_member("domain", domain.as_str()));
                out.push(string_member("id", id.as_str()));
                out.push(string_member("name", name.as_str()));
                out.push(string_member("record_type", record_type.as_str()));
            },
        }
        assert(model::entries_view(out@) =~= operation_json(self@)->Object_0);
        Json::Object(out)
    }
}

fn make_step(description: String, command: String, op: &PorkbunOperation) -> (r: RunbookStep)
    ensures
        r@ == step(description@, command@, op@),
{
    RunbookStep { description, command, body: None, operation: op.to_json() }
}

/// `"<verb> <type> record <name>.<domain>"`.
fn step_text(verb: &str, record_type: &str, name: &str, domain: &str) -> (r: String)
    ensures
        r@ == verb@ + record_type@ + " record "@ + name@ + "."@ + domain@,
{
    let mut out = verb.to_string();
    out.append(record_type);
    out.append(" record ");
    out.append(name);
    out.append(".");
    out.append(domain);
    out
}

/// `"<path><domain>/<id>"`.
fn record_command(path: &str, domain: &str, id: &str) -> (r: String)
    ensures
        r@ == path@ + domain@ + "/"@ + id@,
{
    let mut out = path.to_string();
    out.append(domain);
    out.append("/");
    out.append(id);
    out
}

/// The texts of the ignore expressions, given what each resolves to.
pub fn resolve_ignore_exprs(exprs: &Vec<Result<String, String>>) -> (r: Result<
    Vec<String>,
    ProviderError,
>)
    ensures
        match r {
            Ok(texts) => ignore_exprs(exprs_view(exprs@)) == Ok::<Seq<Seq<char>>, ErrorView>(
                model::views(texts@),
            ),
            Err(e) => ignore_exprs(exprs_view(exprs@)) == Err::<Seq<Seq<char>>, ErrorView>(e@),
        },
{
    let ghost all = exprs_view(exprs@);
    let mut out: Vec<String> = Vec::new();
    let mut i: usize = 0;
    assert(all.take(0) =~= Seq::empty());
    assert(model::views(out@) =~= Seq::empty());
    while i < exprs.len()
        invariant
            i <= exprs.len(),
            all == exprs_view(exprs@),
            ignore_exprs(all.take(i as int)) == Ok::<Seq<Seq<char>>, ErrorView>(model::views(out@)),
        decreases exprs.len() - i,
    {
        proof {
            assert(all.take(i + 1).drop_last() =~= all.take(i as int));
            assert(all.take(i + 1).last() == model::result_view(exprs@[i as int]));
            lemma_ignore_exprs_prefix(all, i + 1);
        }
        match &exprs[i] {
            Ok(text) => {
                let ghost before = out@;
                out.push(text.clone());
                assert(model::views(out@) =~= model::views(before).push(text@));
            },
            Err(e) => {
                let mut m = "Failed to resolve ignore expression: ".to_string();
                m.append(e.as_str());
                return Err(ProviderError::OperationFailed(m));
            },
        }
        i = i + 1;
    }
    assert(all.take(i as int) =~= all);
    Ok(out)
}

/// A failure among the first expressions is the failure of all.
proof fn lemma_ignore_exprs_prefix(exprs: Seq<Result<Seq<char>, Seq<char>>>, n: int)
    requires
        0 <= n <= exprs.len(),
    ensures
        ignore_exprs(exprs.take(n)) is Err ==> ignore_exprs(exprs) == ignore_exprs(exprs.take(n)),
    decreases exprs.len() - n,
{
    if n == exprs.len() {
        assert(exprs.take(n) =~= exprs);
    } else {
        lemma_ignore_exprs_prefix(exprs, n + 1);
        assert(exprs.take(n + 1).drop_last() =~= exprs.take(n));
    }
}

/// The input on which an ignore expression is evaluated for a record key:
/// `{"key": "<type>/<name>", "resource_id": "<type>/<name>"}`.
pub fn ignore_input(key: &str) -> (r: Json)
    ensures
        r@ == JsonView::Object(
            seq![("key"@, JsonView::String(key@)), ("resource_id"@, JsonView::String(key@))],
        ),
        json::member(r@, "key"@) == Some(JsonView::String(key@)),
        json::member(r@, "resource_id"@) == Some(JsonView::String(key@)),
{
    broadcast use json::lemma_compound_view;

    proof {
        reveal_strlit("key");
        reveal_strlit("resource_id");
        assert("key"@.len() == 3 && "resource_id"@.len() == 11);
        let members = seq![
            ("key"@, JsonView::String(key@)),
            ("resource_id"@, JsonView::String(key@)),
        ];
        assert(model::distinct_keys(members));
        model::lemma_lookup_at(members, 0);
        model::lemma_lookup_at(members, 1);
    }

    let mut out: Vec<(String, Json)> = Vec::new();
    out.push(string_member("key", key));
    out.push(string_member("resource_id", key));
    assert(model::entries_view(out@) =~= seq![
        ("key"@, JsonView::String(key@)),
        ("resource_id"@, JsonView::String(key@)),
    ]);
    Json::Object(out)
}

/// Whether an ignore expression's result exempts a record.
pub fn is_truthy(value: &Json) -> (r: bool)
    ensures
        r == truthy(value@),
{
    match value {
        Json::Null => false,
        Json::Bool(b) => *b,
        _ => true,
    }
}

/// Whether a record is exempt from deletion, given what each ignore expression
/// yields for its key; `None` stands for a failed evaluation.
pub fn is_ignored(results: &Vec<Option<Json>>) -> (r: bool)
    ensures
        r == ignored(results_view(results@)),
{
    let ghost all = results_view(results@);
    let mut i: usize = 0;
    while i < results.len()
        invariant
            i <= results.len(),
            all == results_view(results@),
            forall|j: int| 0 <= j < i ==> !(#[trigger] all[j] matches Some(v) && truthy(v)),
        decreases results.len() - i,
    {
        assert(all[i as int] == model::opt_view(results@[i as int]));
        match &results[i] {
            Some(value) => {
                if is_truthy(value) {
                    assert(all[i as int] matches Some(v) && truthy(v));
                    return true;
                }
            },
            None => {},
        }
        i = i + 1;
    }
    false
}

/// Appends what one desired record takes.
fn plan_desired(
    key: &String,
    desired: &DesiredRecord,
    live_map: &Entries<LiveRecord>,
    domain: &str,
    changes: &mut Vec<ResourceChange>,
    steps: &mut Vec<RunbookStep>,
) -> (r: Result<(), ProviderError>)
    ensures
        match desired_plan(key@, desired@, live_map@, domain@) {
            Ok(plan) => r is Ok && plan_view(final(changes)@, final(steps)@) == joined(
                plan_view(old(changes)@, old(steps)@),
                plan,
            ),
            Err(e) => model::result_view(r) == Err::<(), ErrorView>(e),
        },
{
    let ghost before = plan_view(changes@, steps@);
    let (rec_type, rel_name) = match parse_record_key(key.as_str()) {
        Some(parts) => parts,
        None => {
            let mut m = "Record key ".to_string();
            m.append(debug(key.as_str()).as_str());
            m.append(" must be in <type>/<name> format");
            return Err(ProviderError::DesiredStateParse(m));
        },
    };
    match live_map.get(key.as_str()) {
        None => {
            let fields = match resolve_fields_for_create(desired) {
                Ok(fields) => fields,
                Err(e) => {
                    return Err(e);
                },
            };
            let op = PorkbunOperation::Create {
                domain: domain.to_string(),
                name: rel_name.to_string(),
                record_type: rec_type.to_string(),
                content: fields.content.clone(),
                ttl: fields.ttl.clone(),
                prio: copy_opt(&fields.prio),
            };
            let change = ResourceChange::Add {
                resource_id: key.clone(),
                fields: add_field_diffs(&fields),
            };
            let mut command = "POST /dns/create/".to_string();
            command.append(domain);
            let step = make_step(step_text("Create ", rec_type, rel_name, domain), command, &op);
            push_plan(changes, steps, change, step);
        },
        Some(live_rec) => {
            let field_diffs = managed_field_diffs(desired, live_rec);
            if field_diffs.len() > 0 {
                let fields = resolve_fields_for_edit(desired, live_rec);
                let op = PorkbunOperation::Edit {
                    domain: domain.to_string(),
                    id: live_rec.id.clone(),
                    name: rel_name.to_string(),
                    record_type: rec_type.to_string(),
                    content: fields.content,
                    ttl: fields.ttl,
                    prio: fields.prio,
                };
                let change = ResourceChange::Modify {
                    resource_id: key.clone(),
                    field_changes: field_diffs,
                };
                let step = make_step(
                    step_text("Edit ", rec_type, rel_name, domain),
                    record_command("POST /dns/edit/", domain, live_rec.id.as_str()),
                    &op,
                );
                push_plan(changes, steps, change, step);
            } else {
                assert(before =~= joined(before, empty_plan()));
            }
        },
    }
    Ok(())
}

/// Appends what one live record takes.
fn plan_live(
    key: &String,
    live_rec: &LiveRecord,
    desired_map: &Entries<DesiredRecord>,
    results: &Vec<Option<Json>>,
    domain: &str,
    changes: &mut Vec<ResourceChange>,
    steps: &mut Vec<RunbookStep>,
)
    ensures
        plan_view(final(changes)@, final(steps)@) == joined(
            plan_view(old(changes)@, old(steps)@),
            live_plan(
                key@,
                live_rec@,
                desired_map@,
                results_view(results@),
                domain@,
            ),
        ),
{
    let ghost before = plan_view(changes@, steps@);
    assert(before =~= joined(before, empty_plan()));
    if desired_map.get(key.as_str()).is_some() {
        return;
    }
    if is_ignored(results) {
        return;
    }
    let (rec_type, rel_name) = match parse_record_key(key.as_str()) {
        Some(parts) => parts,
        None => (live_rec.record_type.as_str(), live_rec.name.as_str()),
    };
    let op = PorkbunOperation::Delete {
        domain: domain.to_string(),
        id: live_rec.id.clone(),
        name: rel_name.to_string(),
        record_type: rec_type.to_string(),
    };
    let change = ResourceChange::Delete { resource_id: key.clone() };
    let step = make_step(
        step_text("Delete ", rec_type, rel_name, domain),
        record_command("POST /dns/delete/", domain, live_rec.id.as_str()),
        &op,
    );
    push_plan(changes, steps, change, step);
}

/// Appends one change and its step.
fn push_plan(
    changes: &mut Vec<ResourceChange>,
    steps: &mut Vec<RunbookStep>,
    change: ResourceChange,
    step: RunbookStep,
)
    ensures
        plan_view(final(changes)@, final(steps)@) == joined(
            plan_view(old(changes)@, old(steps)@),
            extended(empty_plan(), change@, step@),
        ),
{
    let ghost before = plan_view(changes@, steps@);
    changes.push(change);
    steps.push(step);
    assert(plan_view(changes@, steps@) =~= joined(
        before,
        extended(empty_plan(), change@, step@),
    ));
}

/// A failure among the first desired records is the failure of all.
proof fn lemma_desired_plans_prefix(
    desired: Seq<(Seq<char>, DesiredRecordView)>,
    live: Seq<(Seq<char>, LiveRecordView)>,
    domain: Seq<char>,
    a: nat,
    b: nat,
)
    requires
        a <= b,
        desired_plans(desired, live, domain, a) is Err,
    ensures
        desired_plans(desired, live, domain, b) == desired_plans(desired, live, domain, a),
    decreases b,
{
    if a < b {
        lemma_desired_plans_prefix(desired, live, domain, a, (b - 1) as nat);
    }
}

/// Diffs desired against live and gives the changes and the steps that carry
/// them out: additions and edits in the order of the desired records, then
/// removals in the order of the live ones.
///
/// `desired` and `live` are the decoded maps, or why they do not decode.
/// `exprs` holds what each ignore expression resolves to, and `results`, for
/// each live record, what each expression yields for its key (on
/// [`ignore_input`]).  A live record that an expression exempts is not removed.
pub fn diff(
    desired: &Result<Entries<DesiredRecord>, String>,
    live: &Result<Entries<LiveRecord>, String>,
    domain: &str,
    exprs: &Vec<Result<String, String>>,
    results: &Vec<Vec<Option<Json>>>,
) -> (r: Result<(Vec<ResourceChange>, Vec<RunbookStep>), ProviderError>)
    requires
        live matches Ok(records) ==> results@.len() == records@.len(),
    ensures
        match r {
            Ok((changes, steps)) => full_plan(
                map_view(*desired),
                map_view(*live),
                domain@,
                exprs_view(exprs@),
                all_results_view(results@),
            ) == Ok::<PlanView, ErrorView>(plan_view(changes@, steps@)),
            Err(e) => full_plan(
                map_view(*desired),
                map_view(*live),
                domain@,
                exprs_view(exprs@),
                all_results_view(results@),
            ) == Err::<PlanView, ErrorView>(e@),
        },
        r matches Ok((changes, steps)) ==> (live matches Ok(records) && reconcile_laws::orderly(
            plan_view(changes@, steps@),
            domain@,
            records@,
        )),
{
    let desired_map = match desired {
        Ok(desired_map) => desired_map,
        Err(e) => {
            return Err(ProviderError::DesiredStateParse(e.clone()));
        },
    };
    let live_map = match live {
        Ok(live_map) => live_map,
        Err(e) => {
            return Err(ProviderError::LiveStateParse(e.clone()));
        },
    };
    match resolve_ignore_exprs(exprs) {
        Ok(_) => {},
        Err(e) => {
            return Err(e);
        },
    }
    let ghost wanted = desired_map@;
    let ghost present = live_map@;
    let ghost outcomes = all_results_view(results@);
    let mut changes: Vec<ResourceChange> = Vec::new();
    let mut steps: Vec<RunbookStep> = Vec::new();
    assert(plan_view(changes@, steps@) =~= empty_plan());
    let mut i: usize = 0;
    while i < desired_map.len()
        invariant
            i <= desired_map@.len(),
            wanted == desired_map@,
            present == live_map@,
            map_view(*desired) == Ok::<Seq<(Seq<char>, DesiredRecordView)>, Seq<char>>(wanted),
            map_view(*live) == Ok::<Seq<(Seq<char>, LiveRecordView)>, Seq<char>>(present),
            ignore_exprs(exprs_view(exprs@)) is Ok,
            desired_plans(wanted, present, domain@, i as nat) == Ok::<PlanView, ErrorView>(
                plan_view(changes@, steps@),
            ),
        decreases desired_map@.len() - i,
    {
        let (key, desired_rec) = desired_map.at(i);
        match plan_desired(key, desired_rec, live_map, domain, &mut changes, &mut steps) {
            Ok(_) => {},
            Err(e) => {
                proof {
                    lemma_desired_plans_prefix(
                        wanted,
                        present,
                        domain@,
                        (i + 1) as nat,
                        wanted.len(),
                    );
                }
                return Err(e);
            },
        }
        i = i + 1;
    }
    let ghost first = plan_view(changes@, steps@);
    let mut j: usize = 0;
    assert(first =~= joined(first, empty_plan()));
    while j < live_map.len()
        invariant
            j <= live_map@.len(),
            results@.len() == live_map@.len(),
            wanted == desired_map@,
            present == live_map@,
            outcomes == all_results_view(results@),
            plan_view(changes@, steps@) == joined(
                first,
                live_plans(wanted, present, outcomes, domain@, j as nat),
            ),
        decreases live_map@.len() - j,
    {
        let ghost before = live_plans(wanted, present, outcomes, domain@, j as nat);
        let (key, live_rec) = live_map.at(j);
        plan_live(key, live_rec, desired_map, &results[j], domain, &mut changes, &mut steps);
        proof {
            let one = live_plan(
                present[j as int].0,
                present[j as int].1,
                wanted,
                outcomes[j as int],
                domain@,
            );
            assert(joined(joined(first, before), one) =~= joined(first, joined(before, one)));
        }
        j = j + 1;
    }
    proof {
        reconcile_laws::law_plans_are_orderly(
            wanted,
            present,
            domain@,
            exprs_view(exprs@),
            outcomes,
        );
    }
    Ok((changes, steps))
}

} // verus!
