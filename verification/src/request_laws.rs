//! What is sent, what replies mean, and what is reported, stated on the
//! configuration, the operations and the replies themselves.
use vstd::prelude::*;
use crate::apply;
use crate::apply::{ApplyRunView, ApplyStepView, ReplyView};
use crate::change_laws;
use crate::client;
use crate::client::{
    AuthView, ClientErrorView, ClientView, PorkbunRecordView, RecordRequestView,
    RetrieveResponseView, StatusResponseView,
};
use crate::config;
use crate::config::ConfigView;
use crate::error::ErrorView;
use crate::field_value::FieldValueView;
use crate::json;
use crate::json::JsonView;
use crate::laws;
use crate::model;
use crate::operation::OperationView;
use crate::plan::ApplyReportView;
use crate::provider;
use crate::text;

verus! {

// ---- Configuration ----
/// Whether a configuration gives a field this text.
pub open spec fn gives(
    config: Seq<(Seq<char>, FieldValueView)>,
    field: Seq<char>,
    value: Seq<char>,
) -> bool {
    model::lookup(config, field) == Some(FieldValueView::Managed(value)) || model::lookup(
        config,
        field,
    ) == Some(FieldValueView::Initial(value))
}

/// Whether a configuration gives a field no text.
pub open spec fn gives_none(config: Seq<(Seq<char>, FieldValueView)>, field: Seq<char>) -> bool {
    model::lookup(config, field) is None || model::lookup(config, field) == Some(
        FieldValueView::Unmanaged,
    )
}

/// A configuration that gives a domain and both keys is taken as it is, with the
/// address that it gives, or else the public one.
pub proof fn law_configuration_is_taken_as_given(
    config: Seq<(Seq<char>, FieldValueView)>,
    domain: Seq<char>,
    api_key: Seq<char>,
    secret_api_key: Seq<char>,
)
    requires
        gives(config, "domain"@, domain),
        gives(config, "api_key"@, api_key),
        gives(config, "secret_api_key"@, secret_api_key),
    ensures
        config::resolved(config) matches Ok(c) && c.domain == domain && c.api_key == api_key
            && c.secret_api_key == secret_api_key && (forall|url: Seq<char>|
            gives(config, "base_url"@, url) ==> c.base_url == url) && (gives_none(
            config,
            "base_url"@,
        ) ==> c.base_url == "https://api.porkbun.com/api/json/v3"@),
{
}

/// The first of domain, key and secret key that a configuration does not give
/// is the one that is reported, as missing or as unmanaged.
pub proof fn law_configuration_failures(config: Seq<(Seq<char>, FieldValueView)>)
    ensures
        gives_none(config, "domain"@) ==> config::resolved(config) == Err::<ConfigView, ErrorView>(
            not_given(config, "domain"@),
        ),
        !gives_none(config, "domain"@) && gives_none(config, "api_key"@) ==> config::resolved(config)
            == Err::<ConfigView, ErrorView>(not_given(config, "api_key"@)),
        !gives_none(config, "domain"@) && !gives_none(config, "api_key"@) && gives_none(
            config,
            "secret_api_key"@,
        ) ==> config::resolved(config) == Err::<ConfigView, ErrorView>(
            not_given(config, "secret_api_key"@),
        ),
{
}

/// How a field that is not given is reported.
pub open spec fn not_given(config: Seq<(Seq<char>, FieldValueView)>, field: Seq<char>) -> ErrorView {
    if model::lookup(config, field) is None {
        ErrorView::MissingConfig { field }
    } else {
        ErrorView::UnmanagedConfig { field }
    }
}

/// A configuration's requests go to its address, with its keys.
pub proof fn law_client_has_the_configured_keys(config: ConfigView)
    ensures
        config::client_of(config).base_url == config.base_url,
        config::client_of(config).auth.apikey == config.api_key,
        config::client_of(config).auth.secretapikey == config.secret_api_key,
{
}

// ---- Requests ----
/// Whether a body holds this text under this name.
pub open spec fn holds(body: JsonView, name: Seq<char>, value: Seq<char>) -> bool {
    json::member(body, name) == Some(JsonView::String(value))
}

/// Whether a body holds the credentials and nothing else.
pub open spec fn holds_credentials_only(body: JsonView, auth: AuthView) -> bool {
    &&& holds(body, "apikey"@, auth.apikey)
    &&& holds(body, "secretapikey"@, auth.secretapikey)
    &&& forall|name: Seq<char>|
        name != "apikey"@ && name != "secretapikey"@ ==> #[trigger] json::member(body, name) is None
}

/// Whether a body holds the credentials and the fields of a record, in one flat
/// object, and nothing else.  A record without priority has no such member.
pub open spec fn holds_record(
    body: JsonView,
    auth: AuthView,
    name: Seq<char>,
    record_type: Seq<char>,
    content: Seq<char>,
    ttl: Seq<char>,
    prio: Option<Seq<char>>,
) -> bool {
    &&& holds(body, "apikey"@, auth.apikey)
    &&& holds(body, "secretapikey"@, auth.secretapikey)
    &&& holds(body, "name"@, name)
    &&& holds(body, "type"@, record_type)
    &&& holds(body, "content"@, content)
    &&& holds(body, "ttl"@, ttl)
    &&& match prio {
        Some(prio) => holds(body, "prio"@, prio),
        None => json::member(body, "prio"@) is None,
    }
    &&& forall|other: Seq<char>|
        other != "apikey"@ && other != "secretapikey"@ && other != "name"@ && other != "type"@
            && other != "content"@ && other != "ttl"@ && other != "prio"@
            ==> #[trigger] json::member(body, other) is None
}

proof fn lemma_request_names()
    ensures
        "name"@.len() == 4 && "name"@[0] == 'n',
        "type"@.len() == 4 && "type"@[0] == 't',
        "content"@.len() == 7,
        "ttl"@.len() == 3,
        "prio"@.len() == 4 && "prio"@[0] == 'p',
        "apikey"@.len() == 6,
        "secretapikey"@.len() == 12,
{
    reveal_strlit("name");
    reveal_strlit("type");
    reveal_strlit("content");
    reveal_strlit("ttl");
    reveal_strlit("prio");
    reveal_strlit("apikey");
    reveal_strlit("secretapikey");
}

proof fn lemma_record_body(auth: AuthView, record: RecordRequestView)
    ensures
        holds_record(
            JsonView::Object(client::auth_members(auth) + client::record_members(record)),
            auth,
            record.name,
            record.record_type,
            record.content,
            record.ttl,
            record.prio,
        ),
{
    lemma_request_names();
    let members = client::auth_members(auth) + client::record_members(record);
    let body = JsonView::Object(members);
    laws::law_request_carries_credentials_and_record(auth, record);
    assert forall|other: Seq<char>|
        other != "apikey"@ && other != "secretapikey"@ && other != "name"@ && other != "type"@
            && other != "content"@ && other != "ttl"@ && other
            != "prio"@ implies #[trigger] json::member(body, other) is None by {
        model::lemma_lookup(members, other);
    }
}

proof fn lemma_credentials_body(auth: AuthView)
    ensures
        holds_credentials_only(JsonView::Object(client::auth_members(auth)), auth),
{
    lemma_request_names();
    let members = client::auth_members(auth);
    let body = JsonView::Object(members);
    assert(model::distinct_keys(members));
    model::lemma_lookup_at(members, 0);
    model::lemma_lookup_at(members, 1);
    assert forall|name: Seq<char>|
        name != "apikey"@ && name != "secretapikey"@ implies #[trigger] json::member(body, name)
        is None by {
        model::lemma_lookup(members, name);
    }
}

/// The request of an operation goes to the endpoint of its sort, in its zone and
/// for its record; a creation and an edit carry the operation's own fields, and
/// a deletion only the credentials.
pub proof fn law_request_carries_its_operation(client: ClientView, op: OperationView)
    ensures
        ({
            let call = apply::op_call(client, op);
            match op {
                OperationView::Create { domain, name, record_type, content, ttl, prio } => {
                    &&& call.url == client.base_url + "/dns/create/"@ + domain
                    &&& holds_record(
                        call.body,
                        client.auth,
                        name,
                        record_type,
                        content,
                        ttl,
                        prio,
                    )
                },
                OperationView::Edit { domain, id, name, record_type, content, ttl, prio } => {
                    &&& call.url == client.base_url + "/dns/edit/"@ + domain + "/"@ + id
                    &&& holds_record(
                        call.body,
                        client.auth,
                        name,
                        record_type,
                        content,
                        ttl,
                        prio,
                    )
                },
                OperationView::Delete { domain, id, .. } => {
                    &&& call.url == client.base_url + "/dns/delete/"@ + domain + "/"@ + id
                    &&& holds_credentials_only(call.body, client.auth)
                },
            }
        }),
{
    match op {
        OperationView::Create { name, record_type, content, ttl, prio, .. } => {
            lemma_record_body(
                client.auth,
                RecordRequestView { name, record_type, content, ttl, prio },
            );
        },
        OperationView::Edit { name, record_type, content, ttl, prio, .. } => {
            lemma_record_body(
                client.auth,
                RecordRequestView { name, record_type, content, ttl, prio },
            );
        },
        OperationView::Delete { .. } => {
            lemma_credentials_body(client.auth);
        },
    }
}

/// The requests of a client go to the endpoints of its address, with its
/// credentials and the fields of the record that it is given.
pub proof fn law_client_requests(
    client: ClientView,
    domain: Seq<char>,
    id: Seq<char>,
    record: RecordRequestView,
)
    ensures
        client::retrieve_call(client, domain).url == client.base_url + "/dns/retrieve/"@ + domain,
        holds_credentials_only(client::retrieve_call(client, domain).body, client.auth),
        client::create_call(client, domain, record).url == client.base_url + "/dns/create/"@
            + domain,
        holds_record(
            client::create_call(client, domain, record).body,
            client.auth,
            record.name,
            record.record_type,
            record.content,
            record.ttl,
            record.prio,
        ),
        client::edit_call(client, domain, id, record).url == client.base_url + "/dns/edit/"@
            + domain + "/"@ + id,
        holds_record(
            client::edit_call(client, domain, id, record).body,
            client.auth,
            record.name,
            record.record_type,
            record.content,
            record.ttl,
            record.prio,
        ),
        client::delete_call(client, domain, id).url == client.base_url + "/dns/delete/"@ + domain
            + "/"@ + id,
        holds_credentials_only(client::delete_call(client, domain, id).body, client.auth),
{
    lemma_record_body(client.auth, record);
    lemma_credentials_body(client.auth);
}

/// The records of the configured zone are asked for at the configured address,
/// with the configured keys.
pub proof fn law_retrieval_asks_for_the_zone(
    config: Seq<(Seq<char>, FieldValueView)>,
    domain: Seq<char>,
    api_key: Seq<char>,
    secret_api_key: Seq<char>,
    base_url: Seq<char>,
)
    requires
        gives(config, "domain"@, domain),
        gives(config, "api_key"@, api_key),
        gives(config, "secret_api_key"@, secret_api_key),
        gives(config, "base_url"@, base_url),
    ensures
        provider::retrieval(config) matches Ok(call) && call.url == base_url + "/dns/retrieve/"@
            + domain && holds_credentials_only(
            call.body,
            AuthView { apikey: api_key, secretapikey: secret_api_key },
        ),
{
    law_configuration_is_taken_as_given(config, domain, api_key, secret_api_key);
    lemma_credentials_body(AuthView { apikey: api_key, secretapikey: secret_api_key });
}

// ---- Replies ----
/// A reply means success if and only if its status is `SUCCESS`.  Any other
/// status is an error of the endpoint, with the reply's message or an empty one;
/// a request without a reply is a failed request.
pub proof fn law_replies_mean_what_they_say(
    status: Seq<char>,
    message: Option<Seq<char>>,
    records: Seq<PorkbunRecordView>,
    url: Seq<char>,
    reason: Seq<char>,
)
    ensures
        ({
            let reply = Ok::<StatusResponseView, Seq<char>>(StatusResponseView { status, message });
            let failure = ClientErrorView::ApiError {
                endpoint: url,
                message: match message {
                    Some(m) => m,
                    None => Seq::empty(),
                },
            };
            let retrieved = Ok::<RetrieveResponseView, Seq<char>>(
                RetrieveResponseView { status, message, records },
            );
            &&& status == "SUCCESS"@ ==> client::status_result(reply, url) == Ok::<
                (),
                ClientErrorView,
            >(())
            &&& status != "SUCCESS"@ ==> client::status_result(reply, url) == Err::<
                (),
                ClientErrorView,
            >(failure)
            &&& status == "SUCCESS"@ ==> client::retrieve_result(retrieved, url) == Ok::<
                Seq<PorkbunRecordView>,
                ClientErrorView,
            >(records)
            &&& status != "SUCCESS"@ ==> client::retrieve_result(retrieved, url) == Err::<
                Seq<PorkbunRecordView>,
                ClientErrorView,
            >(failure)
        }),
        client::status_result(Err(reason), url) == Err::<(), ClientErrorView>(
            ClientErrorView::RequestFailed(reason),
        ),
        client::retrieve_result(Err(reason), url) == Err::<Seq<PorkbunRecordView>, ClientErrorView>(
            ClientErrorView::RequestFailed(reason),
        ),
{
}

/// A failure in words gives the reason, and for an error of an endpoint also the
/// endpoint.
pub proof fn law_client_failures_in_words(
    endpoint: Seq<char>,
    message: Seq<char>,
)
    ensures
        client::client_error_text(ClientErrorView::RequestFailed(message))
            == "HTTP request to Porkbun API failed: "@ + message,
        client::client_error_text(ClientErrorView::ApiError { endpoint, message })
            == "Porkbun API returned an error for "@ + endpoint + ": "@ + message,
{
}

// ---- Reports ----
/// The record that an operation is about, in words.
pub open spec fn record_of(op: OperationView) -> Seq<char> {
    match op {
        OperationView::Create { name, record_type, content, .. } => record_type + seq!['/'] + name
            + seq!['/'] + content,
        OperationView::Edit { name, record_type, content, .. } => record_type + seq!['/'] + name
            + seq!['/'] + content,
        OperationView::Delete { name, record_type, content, .. } => record_type + seq!['/'] + name
            + seq!['/'] + content,
    }
}

/// The records of the operations of one sort, in order.
pub open spec fn records_of(
    ops: Seq<OperationView>,
    sort: spec_fn(OperationView) -> bool,
) -> Seq<Seq<char>> {
    ops.filter(sort).map_values(|op: OperationView| record_of(op))
}

/// Whether a report lists the records of these operations: those of the
/// creations as created, those of the edits as modified, those of the deletions
/// as deleted, each in order and once per operation.
pub open spec fn reports(report: ApplyReportView, ops: Seq<OperationView>) -> bool {
    &&& report.created == records_of(ops, |op: OperationView| op is Create)
    &&& report.modified == records_of(ops, |op: OperationView| op is Edit)
    &&& report.deleted == records_of(ops, |op: OperationView| op is Delete)
}

/// After each success the report lists the records of the operations that were
/// done; once all are done, the run ends in that report, with one entry per
/// step.
pub proof fn law_report_lists_what_was_done(
    client: ClientView,
    steps: Seq<ApplyStepView>,
    ops: Seq<OperationView>,
    replies: Seq<ReplyView>,
)
    requires
        laws::carries(steps, ops),
        replies.len() <= ops.len(),
        forall|i: int| 0 <= i < replies.len() ==> laws::succeeded(#[trigger] replies[i]),
    ensures
        ({
            let run = laws::after(apply::started(client, steps), replies);
            let done = ops.take(replies.len() as int);
            &&& reports(run.report, done)
            &&& run.report.created.len() + run.report.modified.len() + run.report.deleted.len()
                == replies.len()
            &&& replies.len() == ops.len() ==> apply::ending(run) == Ok::<
                ApplyReportView,
                ErrorView,
            >(run.report)
        }),
    decreases replies.len(),
{
    let done = ops.take(replies.len() as int);
    if replies.len() == 0 {
        assert(done =~= Seq::empty());
        lemma_records_of_none(|op: OperationView| op is Create);
        lemma_records_of_none(|op: OperationView| op is Edit);
        lemma_records_of_none(|op: OperationView| op is Delete);
    } else {
        let before = replies.drop_last();
        let n = before.len() as int;
        assert forall|i: int| 0 <= i < before.len() implies laws::succeeded(
            #[trigger] before[i],
        ) by {
            assert(before[i] == replies[i]);
        }
        law_report_lists_what_was_done(client, steps, ops, before);
        laws::law_run_to_completion(client, steps, ops, before);
        lemma_run_so_far(client, steps, ops, before);
        assert(laws::succeeded(replies[n]));
        assert(steps[n].operation == Ok::<OperationView, Seq<char>>(ops[n]));
        assert(done =~= ops.take(n).push(ops[n]));
        lemma_records_of_push(ops.take(n), ops[n], |op: OperationView| op is Create);
        lemma_records_of_push(ops.take(n), ops[n], |op: OperationView| op is Edit);
        lemma_records_of_push(ops.take(n), ops[n], |op: OperationView| op is Delete);
        lemma_op_key(ops[n]);
    }
    lemma_run_so_far(client, steps, ops, replies);
}

/// Where a run is after a number of successes.
proof fn lemma_run_so_far(
    client: ClientView,
    steps: Seq<ApplyStepView>,
    ops: Seq<OperationView>,
    replies: Seq<ReplyView>,
)
    requires
        laws::carries(steps, ops),
        replies.len() <= ops.len(),
        forall|i: int| 0 <= i < replies.len() ==> laws::succeeded(#[trigger] replies[i]),
    ensures
        ({
            let run = laws::after(apply::started(client, steps), replies);
            &&& run.next == replies.len()
            &&& run.steps == steps
            &&& run.client == client
            &&& run.failure is None
        }),
    decreases replies.len(),
{
    if replies.len() > 0 {
        let before = replies.drop_last();
        let n = before.len() as int;
        assert forall|i: int| 0 <= i < before.len() implies laws::succeeded(
            #[trigger] before[i],
        ) by {
            assert(before[i] == replies[i]);
        }
        lemma_run_so_far(client, steps, ops, before);
        assert(laws::succeeded(replies[n]));
        assert(steps[n].operation == Ok::<OperationView, Seq<char>>(ops[n]));
    }
}

proof fn lemma_op_key(op: OperationView)
    ensures
        apply::op_key(op) == record_of(op),
{
    match op {
        OperationView::Create { name, record_type, content, .. } => {
            change_laws::law_display_text(record_type, name, Some(content));
        },
        OperationView::Edit { name, record_type, content, .. } => {
            change_laws::law_display_text(record_type, name, Some(content));
        },
        OperationView::Delete { name, record_type, content, .. } => {
            change_laws::law_display_text(record_type, name, Some(content));
        },
    }
}

proof fn lemma_records_of_none(sort: spec_fn(OperationView) -> bool)
    ensures
        records_of(Seq::empty(), sort) == Seq::<Seq<char>>::empty(),
{
    reveal(Seq::filter);
    assert(records_of(Seq::empty(), sort) =~= Seq::<Seq<char>>::empty());
}

proof fn lemma_records_of_push(
    ops: Seq<OperationView>,
    op: OperationView,
    sort: spec_fn(OperationView) -> bool,
)
    ensures
        records_of(ops.push(op), sort) == if sort(op) {
            records_of(ops, sort).push(record_of(op))
        } else {
            records_of(ops, sort)
        },
{
    reveal(Seq::filter);
    assert(ops.push(op).drop_last() =~= ops);
    assert(ops.push(op).last() == op);
    if sort(op) {
        assert(records_of(ops.push(op), sort) =~= records_of(ops, sort).push(record_of(op)));
    }
}

/// A request that fails ends the run with a failure that names what was tried,
/// the record, and the reason; what was done before stays reported, and nothing
/// is sent any more.
pub proof fn law_failure_names_record_and_reason(
    run: ApplyRunView,
    op: OperationView,
    reply: ReplyView,
    reason: ClientErrorView,
)
    requires
        run.failure is None,
        0 <= run.next < run.steps.len(),
        run.steps[run.next].operation == Ok::<OperationView, Seq<char>>(op),
        client::status_result(reply, apply::op_call(run.client, op).url) == Err::<
            (),
            ClientErrorView,
        >(reason),
    ensures
        ({
            let failed = apply::resumed(run, reply);
            let why = client::client_error_text(reason);
            &&& apply::ending(failed) == Err::<ApplyReportView, ErrorView>(
                ErrorView::OperationFailed(
                    match op {
                        OperationView::Create { .. } => "Failed to create DNS record "@ + record_of(
                            op,
                        ) + ": "@ + why,
                        OperationView::Edit { id, .. } => "Failed to edit DNS record "@ + record_of(
                            op,
                        ) + " (id="@ + id + "): "@ + why,
                        OperationView::Delete { id, .. } => "Failed to delete DNS record "@
                            + record_of(op) + " (id="@ + id + "): "@ + why,
                    },
                ),
            )
            &&& failed.report == run.report
            &&& apply::due_call(failed) is None
        }),
{
    lemma_op_key(op);
}

/// A step whose operation does not decode ends the run: nothing is sent for it
/// or after it, and the failure names the step and the reason.
pub proof fn law_undecodable_step_is_named(run: ApplyRunView, reason: Seq<char>, reply: ReplyView)
    requires
        run.failure is None,
        0 <= run.next < run.steps.len(),
        run.steps[run.next].operation == Err::<OperationView, Seq<char>>(reason),
    ensures
        apply::due_call(run) is None,
        apply::resumed(run, reply) == run,
        apply::ending(run) == Err::<ApplyReportView, ErrorView>(
            ErrorView::OperationFailed(
                "Failed to deserialise operation for "@ + text::debug_text(
                    run.steps[run.next].description,
                ) + ": "@ + reason,
            ),
        ),
{
}

} // verus!
