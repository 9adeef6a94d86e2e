//! What holds of the values that everything else is stated on.
use vstd::prelude::*;
use crate::apply::ApplyRun;
use crate::client::{
    ApiCall, ClientErrorView, PorkbunClient, PorkbunClientError, PorkbunRecord, RecordRequest,
    RetrieveResponse, StatusResponse,
};
use crate::config::PorkbunConfig;
use crate::error::{ErrorView, ProviderError};
use crate::field_value::{FieldValueView, ResolvedFieldValue};
use crate::json;
use crate::json::{Json, JsonNumber, JsonView, Members};
use crate::model;
use crate::operation::{LiveRecord, OperationView, PorkbunOperation, RecordIdent};
use crate::plan::{
    ApplyReport, DiffNode, FieldDiff, FieldTarget, FieldTargetView, RunbookStep, Status, StatusView,
};
use crate::reconcile;
use crate::text;

verus! {

// ---- Entries ----
/// What is put under a key is found under it; what is under other keys stays.
pub proof fn law_put_and_look_up<T>(
    entries: Seq<(Seq<char>, T)>,
    key: Seq<char>,
    value: T,
    asked: Seq<char>,
)
    ensures
        model::lookup(model::with_entry(entries, key, value), asked) == if asked == key {
            Some(value)
        } else {
            model::lookup(entries, asked)
        },
{
    let after = model::with_entry(entries, key, value);
    model::lemma_lookup(entries, key);
    model::lemma_lookup(entries, asked);
    model::lemma_lookup(after, asked);
    match model::lookup(after, asked) {
        Some(v) => {
            let i = choose|i: int|
                0 <= i < after.len() && #[trigger] after[i] == (asked, v) && (forall|j: int|
                    0 <= j < i ==> (#[trigger] after[j]).0 != asked);
            assert forall|j: int| 0 <= j < i && j < entries.len() implies (
            #[trigger] entries[j]).0 != asked by {
                assert(after[j].0 != asked);
                assert(after[j].0 == entries[j].0);
            }
            if asked != key {
                assert(i < entries.len());
                assert(entries[i] == (asked, v));
                let k = choose|k: int|
                    0 <= k < entries.len() && #[trigger] entries[k] == (
                        asked,
                        model::lookup(entries, asked)->Some_0,
                    ) && (forall|j: int| 0 <= j < k ==> (#[trigger] entries[j]).0 != asked);
                assert(k == i);
            }
        },
        None => {
            if asked == key {
                if model::lookup(entries, key) is Some {
                    let k = choose|k: int|
                        0 <= k < entries.len() && (#[trigger] entries[k]).0 == key;
                    assert(after[k].0 == key);
                } else {
                    assert(after[entries.len() as int].0 == key);
                }
            } else if model::lookup(entries, asked) is Some {
                let k = choose|k: int| 0 <= k < entries.len() && (#[trigger] entries[k]).0 == asked;
                assert(after[k].0 == asked);
            }
        },
    }
}

/// Putting a value under a key keeps the other keys in their places; a new key
/// comes last.
pub proof fn law_put_keeps_places<T>(entries: Seq<(Seq<char>, T)>, key: Seq<char>, value: T)
    ensures
        ({
            let after = model::with_entry(entries, key, value);
            &&& entries.len() <= after.len() <= entries.len() + 1
            &&& forall|i: int|
                0 <= i < entries.len() ==> (#[trigger] after[i]).0 == entries[i].0
            &&& after.len() > entries.len() ==> after.last() == (key, value)
        }),
{
}

// ---- JSON ----
/// A member of an object is the value of the first entry under its name; what is
/// no object has no members.
pub proof fn law_members(v: JsonView, name: Seq<char>)
    ensures
        !(v is Object) ==> json::member(v, name) is None,
        v matches JsonView::Object(members) ==> match json::member(v, name) {
            Some(value) => exists|i: int|
                0 <= i < members.len() && #[trigger] members[i] == (name, value) && (forall|j: int|
                    0 <= j < i ==> (#[trigger] members[j]).0 != name),
            None => forall|i: int| 0 <= i < members.len() ==> (#[trigger] members[i]).0 != name,
        },
{
    if let JsonView::Object(members) = v {
        model::lemma_lookup(members, name);
    }
}

/// The text of an array is its items' texts between brackets, with commas
/// between them: one more item makes it longer by that item's text.
pub proof fn law_array_text_grows_by_its_items(items: Seq<JsonView>, item: JsonView)
    ensures
        json::json_text(JsonView::Array(Seq::empty())) == seq!['[', ']'],
        json::json_text(JsonView::Array(items.push(item))) == json::json_text(
            JsonView::Array(items),
        ).drop_last() + (if items.len() == 0 {
            Seq::empty()
        } else {
            seq![',']
        }) + json::json_text(item) + seq![']'],
{
    reveal_strlit("[");
    reveal_strlit("]");
    reveal_strlit(",");
    reveal_strlit("");
    let all = items.push(item);
    lemma_items_prefix(items, item, items.len());
    assert(json::json_text(JsonView::Array(Seq::<JsonView>::empty())) =~= seq!['[', ']']);
    let inner = json::items_text(items, items.len());
    assert(json::json_text(JsonView::Array(items)).drop_last() =~= "["@ + inner);
    assert(all[all.len() - 1] == item);
    assert(json::items_text(all, all.len()) == inner + json::separator(all.len())
        + json::json_text(item));
    if items.len() == 0 {
        assert(json::separator(all.len()) =~= Seq::<char>::empty());
    } else {
        assert(json::separator(all.len()) =~= seq![',']);
    }
    assert(json::json_text(JsonView::Array(all)) =~= json::json_text(
        JsonView::Array(items),
    ).drop_last() + json::separator(all.len()) + json::json_text(item) + seq![']']);
}

proof fn lemma_items_prefix(items: Seq<JsonView>, item: JsonView, n: nat)
    requires
        n <= items.len(),
    ensures
        json::items_text(items.push(item), n) == json::items_text(items, n),
    decreases n,
{
    if n > 0 {
        lemma_items_prefix(items, item, (n - 1) as nat);
        assert(items.push(item)[n - 1] == items[n - 1]);
    }
}

/// The text of an object is its members' texts between braces, with commas
/// between them, each its quoted name, a colon and its value's text.
pub proof fn law_object_text_grows_by_its_members(
    members: Members,
    name: Seq<char>,
    value: JsonView,
)
    ensures
        json::json_text(JsonView::Object(Seq::empty())) == seq!['{', '}'],
        json::json_text(JsonView::Object(members.push((name, value)))) == json::json_text(
            JsonView::Object(members),
        ).drop_last() + (if members.len() == 0 {
            Seq::empty()
        } else {
            seq![',']
        }) + json::json_text(JsonView::String(name)) + seq![':'] + json::json_text(value) + seq!['}'],
{
    reveal_strlit("{");
    reveal_strlit("}");
    reveal_strlit(",");
    reveal_strlit(":");
    reveal_strlit("");
    let all = members.push((name, value));
    lemma_members_prefix(members, (name, value), members.len());
    assert(json::json_text(JsonView::Object(Seq::<(Seq<char>, JsonView)>::empty())) =~= seq![
        '{',
        '}',
    ]);
    let inner = json::members_text(members, members.len());
    assert(json::json_text(JsonView::Object(members)).drop_last() =~= "{"@ + inner);
    assert(all[all.len() - 1] == (name, value));
    let separator = json::separator(all.len());
    let quoted = json::json_text(JsonView::String(name));
    assert(json::members_text(all, all.len()) == inner + separator + quoted + ":"@
        + json::json_text(value));
    if members.len() == 0 {
        assert(separator =~= Seq::<char>::empty());
    } else {
        assert(separator =~= seq![',']);
    }
    assert(json::json_text(JsonView::Object(all)) =~= json::json_text(
        JsonView::Object(members),
    ).drop_last() + separator + quoted + seq![':'] + json::json_text(value) + seq!['}']);
}

proof fn lemma_members_prefix(members: Members, member: (Seq<char>, JsonView), n: nat)
    requires
        n <= members.len(),
    ensures
        json::members_text(members.push(member), n) == json::members_text(members, n),
    decreases n,
{
    if n > 0 {
        lemma_members_prefix(members, member, (n - 1) as nat);
        assert(members.push(member)[n - 1] == members[n - 1]);
    }
}

/// The text of null, of a truth value and of a number.
pub proof fn law_plain_texts(n: Seq<char>)
    ensures
        json::json_text(JsonView::Null) == seq!['n', 'u', 'l', 'l'],
        json::json_text(JsonView::Bool(true)) == seq!['t', 'r', 'u', 'e'],
        json::json_text(JsonView::Bool(false)) == seq!['f', 'a', 'l', 's', 'e'],
        json::json_text(JsonView::Number(n)) == n,
{
    reveal_strlit("null");
    reveal_strlit("true");
    reveal_strlit("false");
    assert("null"@ =~= seq!['n', 'u', 'l', 'l']);
    assert("true"@ =~= seq!['t', 'r', 'u', 'e']);
    assert("false"@ =~= seq!['f', 'a', 'l', 's', 'e']);
}

// ---- Field values ----
/// A field value that is a string or a number stands for its text, managed or
/// initial; an unmanaged one for none.
pub proof fn law_field_values_stand_for_their_text(s: String, n: JsonNumber)
    ensures
        ResolvedFieldValue::Managed(Json::String(s))@ == FieldValueView::Managed(s@),
        ResolvedFieldValue::Initial(Json::String(s))@ == FieldValueView::Initial(s@),
        ResolvedFieldValue::Managed(Json::Number(n))@ == FieldValueView::Managed(n@),
        ResolvedFieldValue::Initial(Json::Number(n))@ == FieldValueView::Initial(n@),
        ResolvedFieldValue::Unmanaged@ == FieldValueView::Unmanaged,
{
    json::lemma_compound_view(Json::String(s));
    json::lemma_compound_view(Json::Number(n));
}

/// What `{:?}` shows of an array is what it shows of the items, between brackets
/// and with commas and blanks between them.
pub proof fn law_array_debug_grows_by_its_items(items: Seq<JsonView>, item: JsonView)
    ensures
        json::debug_json(JsonView::Array(Seq::empty())) == "Array []"@,
        json::debug_json(JsonView::Array(items.push(item))) == json::debug_json(
            JsonView::Array(items),
        ).drop_last() + (if items.len() == 0 {
            Seq::empty()
        } else {
            seq![',', ' ']
        }) + json::debug_json(item) + seq![']'],
{
    reveal_strlit("Array []");
    reveal_strlit("Array [");
    reveal_strlit("]");
    reveal_strlit(", ");
    reveal_strlit("");
    let all = items.push(item);
    lemma_items_debug_prefix(items, item, items.len());
    assert(json::debug_json(JsonView::Array(Seq::<JsonView>::empty())) =~= "Array []"@);
    let inner = json::items_debug(items, items.len());
    assert(json::debug_json(JsonView::Array(items)).drop_last() =~= "Array ["@ + inner);
    assert(all[all.len() - 1] == item);
    assert(json::items_debug(all, all.len()) == inner + json::debug_separator(all.len())
        + json::debug_json(item));
    if items.len() == 0 {
        assert(json::debug_separator(all.len()) =~= Seq::<char>::empty());
    } else {
        assert(json::debug_separator(all.len()) =~= seq![',', ' ']);
    }
    assert(json::debug_json(JsonView::Array(all)) =~= json::debug_json(
        JsonView::Array(items),
    ).drop_last() + json::debug_separator(all.len()) + json::debug_json(item) + seq![']']);
}

proof fn lemma_items_debug_prefix(items: Seq<JsonView>, item: JsonView, n: nat)
    requires
        n <= items.len(),
    ensures
        json::items_debug(items.push(item), n) == json::items_debug(items, n),
    decreases n,
{
    if n > 0 {
        lemma_items_debug_prefix(items, item, (n - 1) as nat);
        assert(items.push(item)[n - 1] == items[n - 1]);
    }
}

/// What `{:?}` shows of an object is what it shows of the members, between
/// braces and with commas and blanks between them.
pub proof fn law_object_debug_grows_by_its_members(
    members: Members,
    name: Seq<char>,
    value: JsonView,
)
    ensures
        json::debug_json(JsonView::Object(Seq::empty())) == "Object {}"@,
        json::debug_json(JsonView::Object(members.push((name, value)))) == json::debug_json(
            JsonView::Object(members),
        ).drop_last() + (if members.len() == 0 {
            Seq::empty()
        } else {
            seq![',', ' ']
        }) + text::debug_text(name) + seq![':', ' '] + json::debug_json(value) + seq!['}'],
{
    reveal_strlit("Object {}");
    reveal_strlit("Object {");
    reveal_strlit("}");
    reveal_strlit(", ");
    reveal_strlit(": ");
    reveal_strlit("");
    let all = members.push((name, value));
    lemma_members_debug_prefix(members, (name, value), members.len());
    assert(json::debug_json(JsonView::Object(Seq::<(Seq<char>, JsonView)>::empty()))
        =~= "Object {}"@);
    let inner = json::members_debug(members, members.len());
    assert(json::debug_json(JsonView::Object(members)).drop_last() =~= "Object {"@ + inner);
    assert(all[all.len() - 1] == (name, value));
    let separator = json::debug_separator(all.len());
    assert(json::members_debug(all, all.len()) == inner + separator + text::debug_text(name) + ": "@
        + json::debug_json(value));
    if members.len() == 0 {
        assert(separator =~= Seq::<char>::empty());
    } else {
        assert(separator =~= seq![',', ' ']);
    }
    assert(json::debug_json(JsonView::Object(all)) =~= json::debug_json(
        JsonView::Object(members),
    ).drop_last() + separator + text::debug_text(name) + seq![':', ' '] + json::debug_json(value)
        + seq!['}']);
}

proof fn lemma_members_debug_prefix(members: Members, member: (Seq<char>, JsonView), n: nat)
    requires
        n <= members.len(),
    ensures
        json::members_debug(members.push(member), n) == json::members_debug(members, n),
    decreases n,
{
    if n > 0 {
        lemma_members_debug_prefix(members, member, (n - 1) as nat);
        assert(members.push(member)[n - 1] == members[n - 1]);
    }
}

/// What `{:?}` shows of a value that holds no others: its variant, with what it
/// holds in brackets.
pub proof fn law_plain_values_are_shown_by_name(b: bool, n: Seq<char>, s: Seq<char>)
    ensures
        json::debug_json(JsonView::Null) == "Null"@,
        json::debug_json(JsonView::Bool(b)) == "Bool("@ + json::json_text(JsonView::Bool(b)) + ")"@,
        json::debug_json(JsonView::Number(n)) == "Number("@ + n + ")"@,
        json::debug_json(JsonView::String(s)) == "String("@ + text::debug_text(s) + ")"@,
{
    reveal_strlit("Bool(");
    reveal_strlit(")");
    reveal_strlit("true");
    reveal_strlit("false");
    reveal_strlit("Bool(true)");
    reveal_strlit("Bool(false)");
    assert(json::debug_json(JsonView::Bool(b)) =~= "Bool("@ + json::json_text(JsonView::Bool(b))
        + ")"@);
}

// ---- What values stand for ----
/// An optional text stands for its text.
pub open spec fn text_of(value: Option<String>) -> Option<Seq<char>> {
    match value {
        Some(s) => Some(s@),
        None => None,
    }
}

/// A record stands for all of its fields, one by one.
pub proof fn law_records_stand_for_their_fields(
    live: LiveRecord,
    retrieved: PorkbunRecord,
    ident: RecordIdent,
    request: RecordRequest,
)
    ensures
        live@.id == live.id@ && live@.name == live.name@ && live@.record_type == live.record_type@,
        live@.content == live.content@ && live@.ttl == live.ttl@ && live@.prio == text_of(live.prio),
        retrieved@.id == retrieved.id@ && retrieved@.name == retrieved.name@,
        retrieved@.record_type == retrieved.record_type@,
        retrieved@.content == retrieved.content@ && retrieved@.ttl == retrieved.ttl@,
        retrieved@.prio == text_of(retrieved.prio) && retrieved@.notes == text_of(retrieved.notes),
        ident@.record_type == ident.record_type@ && ident@.name == ident.name@,
        ident@.content == text_of(ident.content),
        request@.name == request.name@ && request@.record_type == request.record_type@,
        request@.content == request.content@ && request@.ttl == request.ttl@,
        request@.prio == text_of(request.prio),
{
}

/// An operation stands for its sort and all of its fields.
pub proof fn law_operations_stand_for_their_fields(op: PorkbunOperation)
    ensures
        op@ == match op {
            PorkbunOperation::Create { domain, name, record_type, content, ttl, prio } => {
                OperationView::Create {
                    domain: domain@,
                    name: name@,
                    record_type: record_type@,
                    content: content@,
                    ttl: ttl@,
                    prio: text_of(prio),
                }
            },
            PorkbunOperation::Edit { domain, id, name, record_type, content, ttl, prio } => {
                OperationView::Edit {
                    domain: domain@,
                    id: id@,
                    name: name@,
                    record_type: record_type@,
                    content: content@,
                    ttl: ttl@,
                    prio: text_of(prio),
                }
            },
            PorkbunOperation::Delete { domain, id, name, record_type, content } => {
                OperationView::Delete {
                    domain: domain@,
                    id: id@,
                    name: name@,
                    record_type: record_type@,
                    content: content@,
                }
            },
        },
{
}

/// A report stands for its three lists, in order.
pub proof fn law_reports_stand_for_their_lists(report: ApplyReport, i: int)
    ensures
        report@.created.len() == report.created@.len(),
        report@.modified.len() == report.modified@.len(),
        report@.deleted.len() == report.deleted@.len(),
        0 <= i < report.created@.len() ==> report@.created[i] == report.created@[i]@,
        0 <= i < report.modified@.len() ==> report@.modified[i] == report.modified@[i]@,
        0 <= i < report.deleted@.len() ==> report@.deleted[i] == report.deleted@[i]@,
{
}

/// A change, a step, a request and a reply stand for what is in them.
pub proof fn law_plans_and_requests_stand_for_their_parts(
    node: DiffNode,
    diff: FieldDiff,
    step: RunbookStep,
    call: ApiCall,
    status: StatusResponse,
    retrieved: RetrieveResponse,
    i: int,
)
    ensures
        node@.provider_key.len() == node.provider_key@.len(),
        0 <= i < node.provider_key@.len() ==> node@.provider_key[i] == node.provider_key@[i]@,
        node@.field_changes.len() == node.field_changes@.len(),
        0 <= i < node.field_changes@.len() ==> node@.field_changes[i] == node.field_changes@[i]@,
        node.status is Add <==> node@.status is Add,
        node.status is Modify <==> node@.status is Modify,
        node.status is Rename <==> node@.status is Rename,
        node.status is Delete <==> node@.status is Delete,
        node.status matches Status::Rename { chain } ==> (node@.status matches StatusView::Rename {
            chain: entries,
        } && entries.len() == chain@.len() && (0 <= i < chain@.len() ==> entries[i]
            == chain@[i]@)),
        diff@.field == diff.field@,
        diff.to matches FieldTarget::Value { value } ==> diff@.to == (FieldTargetView::Value {
            value: value@,
        }),
        diff.to is Removed <==> diff@.to is Removed,
        diff.to is DerivedPlaceholder <==> diff@.to is DerivedPlaceholder,
        step@.description == step.description@ && step@.command == step.command@,
        step@.operation == step.operation@,
        step.body is None <==> step@.body is None,
        call@.url == call.url@ && call@.body == call.body@,
        status@.status == status.status@ && status@.message == text_of(status.message),
        retrieved@.status == retrieved.status@ && retrieved@.message == text_of(retrieved.message),
        retrieved@.records.len() == retrieved.records@.len(),
        0 <= i < retrieved.records@.len() ==> retrieved@.records[i] == retrieved.records@[i]@,
{
}

/// A JSON value stands for itself: a string for its text, a list for its items,
/// an object for its members.
pub proof fn law_json_stands_for_itself(
    s: String,
    b: bool,
    items: Vec<Json>,
    members: Vec<(String, Json)>,
    i: int,
)
    ensures
        Json::Null@ == JsonView::Null,
        Json::Bool(b)@ == JsonView::Bool(b),
        Json::String(s)@ == JsonView::String(s@),
        Json::Array(items)@ matches JsonView::Array(views) && views.len() == items@.len() && (0 <= i
            < items@.len() ==> views[i] == items@[i]@),
        Json::Object(members)@ matches JsonView::Object(views) && views.len() == members@.len() && (
        0 <= i < members@.len() ==> views[i] == (members@[i].0@, members@[i].1@)),
{
    json::lemma_compound_view(Json::Array(items));
    json::lemma_compound_view(Json::Object(members));
}

/// A success stands for what it holds, and so does a failure.
pub proof fn law_results_stand_for_what_they_hold<T: View, E: View>(value: T, error: E)
    ensures
        model::result_view(Ok::<T, E>(value)) == Ok::<T::V, E::V>(value@),
        model::result_view(Err::<T, E>(error)) == Err::<T::V, E::V>(error@),
        model::opt_view(Some(value)) == Some(value@),
        model::opt_view(None::<T>) == None::<T::V>,
{
}

/// A client, a configuration and a run stand for what is in them.
pub proof fn law_runs_stand_for_their_parts(
    client: PorkbunClient,
    config: PorkbunConfig,
    run: ApplyRun,
    i: int,
)
    ensures
        client@.base_url == client.base_url@,
        client@.auth.apikey == client.auth.apikey@,
        client@.auth.secretapikey == client.auth.secretapikey@,
        config@.domain == config.domain@ && config@.api_key == config.api_key@,
        config@.secret_api_key == config.secret_api_key@ && config@.base_url == config.base_url@,
        run@.client == run.client@ && run@.next == run.next && run@.report == run.report@,
        run.failure is None <==> run@.failure is None,
        run.failure matches Some(e) ==> run@.failure == Some(e@),
        run@.steps.len() == run.steps@.len(),
        0 <= i < run.steps@.len() ==> {
            &&& run@.steps[i].description == run.steps@[i].description@
            &&& run@.steps[i].operation == model::result_view(run.steps@[i].operation)
        },
{
}

/// A failure stands for its sort and its text.
pub proof fn law_failures_stand_for_their_text(s: String, t: String)
    ensures
        ProviderError::ConnectionFailed(s)@ == ErrorView::ConnectionFailed(s@),
        ProviderError::DesiredStateParse(s)@ == ErrorView::DesiredStateParse(s@),
        ProviderError::LiveStateParse(s)@ == ErrorView::LiveStateParse(s@),
        ProviderError::OperationFailed(s)@ == ErrorView::OperationFailed(s@),
        (ProviderError::MissingConfig { field: s })@ == (ErrorView::MissingConfig { field: s@ }),
        (ProviderError::UnmanagedConfig { field: s })@ == (ErrorView::UnmanagedConfig { field: s@ }),
        PorkbunClientError::RequestFailed(s)@ == ClientErrorView::RequestFailed(s@),
        (PorkbunClientError::ApiError { endpoint: s, message: t })@ == (ClientErrorView::ApiError {
            endpoint: s@,
            message: t@,
        }),
{
}

/// Desired records, field values and field changes stand for what is in them.
pub proof fn law_reconciled_values_stand_for_their_parts(
    desired: reconcile::DesiredRecord,
    fields: reconcile::RecordFields,
    diff: reconcile::FieldDiff,
    op: reconcile::PorkbunOperation,
)
    ensures
        desired@.content == model::result_view(desired.content),
        desired@.ttl == model::result_view(desired.ttl),
        desired.prio is None <==> desired@.prio is None,
        desired.prio matches Some(prio) ==> desired@.prio == Some(model::result_view(prio)),
        fields@.content == fields.content@ && fields@.ttl == fields.ttl@,
        fields@.prio == text_of(fields.prio),
        diff@.field == diff.field@ && diff@.from == text_of(diff.from) && diff@.to == text_of(
            diff.to,
        ),
        op@ == match op {
            reconcile::PorkbunOperation::Create {
                domain,
                name,
                record_type,
                content,
                ttl,
                prio,
            } => {
                reconcile::OperationView::Create {
                    domain: domain@,
                    name: name@,
                    record_type: record_type@,
                    content: content@,
                    ttl: ttl@,
                    prio: text_of(prio),
                }
            },
            reconcile::PorkbunOperation::Edit {
                domain,
                id,
                name,
                record_type,
                content,
                ttl,
                prio,
            } => {
                reconcile::OperationView::Edit {
                    domain: domain@,
                    id: id@,
                    name: name@,
                    record_type: record_type@,
                    content: content@,
                    ttl: ttl@,
                    prio: text_of(prio),
                }
            },
            reconcile::PorkbunOperation::Delete { domain, id, name, record_type } => {
                reconcile::OperationView::Delete {
                    domain: domain@,
                    id: id@,
                    name: name@,
                    record_type: record_type@,
                }
            },
        },
{
}

/// Changes of records stand for their sort, the record and its field changes.
pub proof fn law_changes_stand_for_their_parts(
    id: String,
    diffs: Vec<reconcile::FieldDiff>,
    i: int,
)
    requires
        0 <= i < diffs@.len(),
    ensures
        (reconcile::ResourceChange::Add { resource_id: id, fields: diffs })@
            matches reconcile::ChangeView::Add { resource_id, fields } && resource_id == id@
            && fields.len() == diffs@.len() && fields[i] == diffs@[i]@,
        (reconcile::ResourceChange::Modify { resource_id: id, field_changes: diffs })@
            matches reconcile::ChangeView::Modify { resource_id, field_changes } && resource_id
            == id@ && field_changes.len() == diffs@.len() && field_changes[i] == diffs@[i]@,
        (reconcile::ResourceChange::Delete { resource_id: id })@ == (
        reconcile::ChangeView::Delete { resource_id: id@ }),
{
}

} // verus!
