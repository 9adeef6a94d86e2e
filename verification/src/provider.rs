//! The provider: live state as a keyed tree, and a plan as a runbook.
use vstd::hash_map::StringHashMap;
use vstd::prelude::*;
use crate::client;
use crate::client::{
    retrieve_outcome, ApiCall, ApiCallView, PorkbunClient, PorkbunRecord, PorkbunRecordView,
    RetrieveResponse, RetrieveResponseView,
};
use crate::config;
use crate::config::{PorkbunConfig, ResolvedConfig};
use crate::error::{ErrorView, ProviderError};
use crate::field_value::FieldValueView;
use crate::json;
use crate::json::{optional_member, string_member, Json, JsonView, Members};
use crate::laws;
use crate::model;
use crate::operation;
use crate::operation::{
    build_live_index, diff_node_to_op, parse_provider_key_entry, relative_name, LiveRecord,
    LiveRecordView, OperationView, PorkbunOperation, RecordIdent, RecordIdentView,
};
use crate::plan::{DiffNode, DiffNodeView, RunbookStep, RunbookStepView, Status, StatusView};
use crate::text::copy_opt;

verus! {

/// The Porkbun provider.
#[derive(Debug, PartialEq, Eq)]
pub struct PorkbunProvider;

/// The identity of a retrieved record within its zone.
pub open spec fn record_ident(record: PorkbunRecordView, domain: Seq<char>) -> RecordIdentView {
    RecordIdentView {
        record_type: record.record_type,
        name: operation::relative(record.name, domain),
        content: Some(record.content),
    }
}

/// A retrieved record as live state keeps it.
pub open spec fn kept_record(record: PorkbunRecordView) -> LiveRecordView {
    LiveRecordView {
        id: record.id,
        name: record.name,
        record_type: record.record_type,
        content: record.content,
        ttl: record.ttl,
        prio: record.prio,
    }
}

/// An identity as a providerKey entry.
pub open spec fn key_json(ident: RecordIdentView) -> JsonView {
    JsonView::Object(
        seq![
            ("type"@, JsonView::String(ident.record_type)),
            ("name"@, JsonView::String(ident.name)),
            ("content"@, json::string_or_null(ident.content)),
        ],
    )
}

/// A record as a keyed node: its providerKey under `__nixhapi`, its fields
/// beside it.
pub open spec fn node_json(ident: RecordIdentView, record: LiveRecordView) -> JsonView {
    JsonView::Object(
        seq![
            (
                "__nixhapi"@,
                JsonView::Object(seq![("providerKey"@, JsonView::Array(seq![key_json(ident)]))]),
            ),
            ("id"@, JsonView::String(record.id)),
            ("name"@, JsonView::String(record.name)),
            ("type"@, JsonView::String(record.record_type)),
            ("content"@, JsonView::String(record.content)),
            ("ttl"@, JsonView::String(record.ttl)),
            ("prio"@, json::string_or_null(record.prio)),
        ],
    )
}

/// The keyed nodes of the first `n` records, by display text.  A later record
/// replaces an earlier one of the same identity.
pub open spec fn tree_members(
    records: Seq<PorkbunRecordView>,
    domain: Seq<char>,
    n: nat,
) -> Members
    decreases n,
{
    if n == 0 {
        Seq::empty()
    } else {
        let ident = record_ident(records[n - 1], domain);
        model::with_entry(
            tree_members(records, domain, (n - 1) as nat),
            operation::display_text(ident),
            node_json(ident, kept_record(records[n - 1])),
        )
    }
}

/// The live tree of a zone.
pub open spec fn live_tree(records: Seq<PorkbunRecordView>, domain: Seq<char>) -> JsonView {
    JsonView::Object(tree_members(records, domain, records.len()))
}

/// The request that asks for the records of the configured zone.
pub open spec fn retrieval(config: Seq<(Seq<char>, FieldValueView)>) -> Result<
    ApiCallView,
    ErrorView,
> {
    match config::resolved(config) {
        Err(e) => Err(e),
        Ok(c) => Ok(client::retrieve_call(config::client_of(c), c.domain)),
    }
}

/// What listing the live state comes to, given the reply to the retrieval.
pub open spec fn listing(
    config: Seq<(Seq<char>, FieldValueView)>,
    reply: Result<RetrieveResponseView, Seq<char>>,
) -> Result<JsonView, ErrorView> {
    match config::resolved(config) {
        Err(e) => Err(e),
        Ok(c) => match client::retrieve_result(
            reply,
            client::retrieve_call(config::client_of(c), c.domain).url,
        ) {
            Ok(records) => Ok(live_tree(records, c.domain)),
            Err(e) => Err(
                ErrorView::ConnectionFailed(
                    "Failed to retrieve DNS records for "@ + c.domain + ": "@
                        + client::client_error_text(e),
                ),
            ),
        },
    }
}

/// Whether an operation is of the kind that a change of this status takes.
pub open spec fn pairs(status: StatusView, op: OperationView) -> bool {
    match status {
        StatusView::Add => op is Create,
        StatusView::Modify => op is Edit,
        StatusView::Rename { .. } => op is Edit,
        StatusView::Delete => op is Delete,
    }
}

/// One end of a rename in words.
pub open spec fn end_text(entry: Option<JsonView>) -> Result<Seq<char>, ErrorView> {
    match entry {
        None => Ok("?"@),
        Some(entry) => match operation::provider_key_entry(entry) {
            Ok(ident) => Ok(operation::display_text(ident)),
            Err(e) => Err(e),
        },
    }
}

/// The first entry of a chain.
pub open spec fn first_entry(chain: Seq<JsonView>) -> Option<JsonView> {
    if chain.len() == 0 {
        None
    } else {
        Some(chain[0])
    }
}

/// The last entry of a chain.
pub open spec fn last_entry(chain: Seq<JsonView>) -> Option<JsonView> {
    if chain.len() == 0 {
        None
    } else {
        Some(chain[chain.len() - 1])
    }
}

/// A status as `{:?}` shows it.
pub open spec fn status_text(status: StatusView) -> Seq<char> {
    match status {
        StatusView::Add => "Add"@,
        StatusView::Modify => "Modify"@,
        StatusView::Rename { chain } => "Rename { chain: ["@ + json::items_debug(
            chain,
            chain.len(),
        ) + "] }"@,
        StatusView::Delete => "Delete"@,
    }
}

/// A step in words, and the request that it makes.  An operation that does not
/// pair with the status is shown as what it is, never as a request.
pub open spec fn description(
    status: StatusView,
    domain: Seq<char>,
    op: OperationView,
) -> Result<(Seq<char>, Seq<char>), ErrorView> {
    if !pairs(status, op) {
        Ok(
            (
                "Porkbun runbook step ("@ + status_text(status) + ")"@,
                "(unrecognised op pairing: "@ + operation::operation_debug(op) + ")"@,
            ),
        )
    } else {
        paired_description(status, domain, op)
    }
}

/// The description of an operation that pairs with the status.
pub open spec fn paired_description(
    status: StatusView,
    domain: Seq<char>,
    op: OperationView,
) -> Result<(Seq<char>, Seq<char>), ErrorView> {
    match op {
        OperationView::Create { name, record_type, content, .. } => Ok(
            (
                "Create "@ + record_type + " record "@ + name + "."@ + domain + " → "@ + content,
                "POST /dns/create/"@ + domain,
            ),
        ),
        OperationView::Edit { id, name, record_type, content, .. } => {
            let command = "POST /dns/edit/"@ + domain + "/"@ + id;
            match status {
                StatusView::Rename { chain } => match (
                    end_text(first_entry(chain)),
                    end_text(last_entry(chain)),
                ) {
                    (Err(e), _) => Err(e),
                    (_, Err(e)) => Err(e),
                    (Ok(from), Ok(to)) => Ok(
                        (
                            "Rename "@ + from + " → "@ + to + " (apply as edit of "@ + record_type
                                + " "@ + name + "."@ + domain + " → "@ + content + ")"@,
                            command,
                        ),
                    ),
                },
                _ => Ok(
                    (
                        "Edit "@ + record_type + " record "@ + name + "."@ + domain + " (content="@
                            + content + ")"@,
                        command,
                    ),
                ),
            }
        },
        OperationView::Delete { id, name, record_type, content, .. } => Ok(
            (
                "Delete "@ + record_type + " record "@ + name + "."@ + domain + " ("@ + content
                    + ")"@,
                "POST /dns/delete/"@ + domain + "/"@ + id,
            ),
        ),
    }
}

/// The runbook step of a planned change.
pub open spec fn step_for(
    node: DiffNodeView,
    domain: Seq<char>,
    index: Map<Seq<char>, LiveRecordView>,
) -> Result<RunbookStepView, ErrorView> {
    match operation::operation_for(node, domain, index) {
        Err(e) => Err(e),
        Ok(op) => match description(node.status, domain, op) {
            Err(e) => Err(e),
            Ok((description, command)) => Ok(
                RunbookStepView {
                    description,
                    command,
                    body: None,
                    operation: operation::operation_json(op),
                },
            ),
        },
    }
}

/// The steps of the first changes in order, or the failure of the first change
/// that has one.
pub open spec fn steps_for(
    changes: Seq<DiffNodeView>,
    domain: Seq<char>,
    index: Map<Seq<char>, LiveRecordView>,
) -> Result<Seq<RunbookStepView>, ErrorView>
    decreases changes.len(),
{
    if changes.len() == 0 {
        Ok(Seq::empty())
    } else {
        match steps_for(changes.drop_last(), domain, index) {
            Err(e) => Err(e),
            Ok(steps) => match step_for(changes.last(), domain, index) {
                Err(e) => Err(e),
                Ok(step) => Ok(steps.push(step)),
            },
        }
    }
}

/// The runbook of a plan: configuration first, then the live state, then the
/// changes.
pub open spec fn runbook(
    changes: Seq<DiffNodeView>,
    live: JsonView,
    decoded: Seq<Result<LiveRecordView, Seq<char>>>,
    config: Seq<(Seq<char>, FieldValueView)>,
) -> Result<Seq<RunbookStepView>, ErrorView> {
    match config::resolved(config) {
        Err(e) => Err(e),
        Ok(config) => match operation::live_index(live, decoded) {
            Err(e) => Err(e),
            Ok(index) => steps_for(changes, config.domain, index),
        },
    }
}

/// The operation of a change is of the kind that its status takes.
pub proof fn law_operation_pairs_with_status(
    node: DiffNodeView,
    domain: Seq<char>,
    index: Map<Seq<char>, LiveRecordView>,
)
    ensures
        operation::operation_for(node, domain, index) matches Ok(op) ==> pairs(node.status, op),
{
}

/// A failure among the first changes is the failure of all.
proof fn lemma_steps_prefix(
    changes: Seq<DiffNodeView>,
    domain: Seq<char>,
    index: Map<Seq<char>, LiveRecordView>,
    n: int,
)
    requires
        0 <= n <= changes.len(),
    ensures
        steps_for(changes.take(n), domain, index) is Err ==> steps_for(changes, domain, index)
            == steps_for(changes.take(n), domain, index),
    decreases changes.len() - n,
{
    if n == changes.len() {
        assert(changes.take(n) =~= changes);
    } else {
        lemma_steps_prefix(changes, domain, index, n + 1);
        assert(changes.take(n + 1).drop_last() =~= changes.take(n));
    }
}

/// The body of one keyed node.
fn live_node_body(ident: &RecordIdent, rec: &LiveRecord) -> (r: Json)
    ensures
        r@ == node_json(ident@, rec@),
{
    broadcast use json::lemma_compound_view;

    let mut key: Vec<(String, Json)> = Vec::new();
    key.push(string_member("type", ident.record_type.as_str()));
    key.push(string_member("name", ident.name.as_str()));
    key.push(optional_member("content", &ident.content));
    let entry = Json::Object(key);
    assert(model::entries_view(key@) =~= key_json(ident@)->Object_0);
    assert(entry@ == key_json(ident@));
    let mut keys: Vec<Json> = Vec::new();
    keys.push(entry);
    let list = Json::Array(keys);
    assert(model::views(keys@) =~= seq![key_json(ident@)]);
    assert(list@ == JsonView::Array(seq![key_json(ident@)]));
    let mut meta: Vec<(String, Json)> = Vec::new();
    meta.push(("providerKey".to_string(), list));
    let block = Json::Object(meta);
    assert(model::entries_view(meta@) =~= seq![
        ("providerKey"@, JsonView::Array(seq![key_json(ident@)])),
    ]);
    assert(block@ == JsonView::Object(
        seq![("providerKey"@, JsonView::Array(seq![key_json(ident@)]))],
    ));
    let mut body: Vec<(String, Json)> = Vec::new();
    body.push(("__nixhapi".to_string(), block));
    body.push(string_member("id", rec.id.as_str()));
    body.push(string_member("name", rec.name.as_str()));
    body.push(string_member("type", rec.record_type.as_str()));
    body.push(string_member("content", rec.content.as_str()));
    body.push(string_member("ttl", rec.ttl.as_str()));
    body.push(optional_member("prio", &rec.prio));
    assert(model::entries_view(body@) =~= node_json(ident@, rec@)->Object_0);
    Json::Object(body)
}

/// The keyed tree of the retrieved records.
fn tree_of(records: Vec<PorkbunRecord>, domain: &str) -> (r: Json)
    ensures
        r@ == live_tree(model::views(records@), domain@),
{
    broadcast use json::lemma_compound_view;

    let ghost all = model::views(records@);
    let mut members: Vec<(String, Json)> = Vec::new();
    let mut i: usize = 0;
    assert(model::entries_view(members@) =~= Seq::empty());
    while i < records.len()
        invariant
            i <= records.len(),
            all == model::views(records@),
            model::entries_view(members@) == tree_members(all, domain@, i as nat),
            model::distinct_keys(model::entries_view(members@)),
        decreases records.len() - i,
    {
        let rec = &records[i];
        assert(all[i as int] == rec@);
        let ident = RecordIdent {
            record_type: rec.record_type.clone(),
            name: relative_name(rec.name.as_str(), domain),
            content: Some(rec.content.clone()),
        };
        let live_rec = LiveRecord {
            id: rec.id.clone(),
            name: rec.name.clone(),
            record_type: rec.record_type.clone(),
            content: rec.content.clone(),
            ttl: rec.ttl.clone(),
            prio: copy_opt(&rec.prio),
        };
        let body = live_node_body(&ident, &live_rec);
        let key = ident.display();
        proof {
            model::lemma_put_distinct(model::entries_view(members@), key@, body@);
        }
        model::put(&mut members, key, body);
        i = i + 1;
    }
    Json::Object(members)
}

fn display_provider_key_entry(entry: &Json) -> (r: Result<String, ProviderError>)
    ensures
        model::result_view(r) == end_text(Some(entry@)),
{
    match parse_provider_key_entry(entry) {
        Ok(ident) => Ok(ident.display()),
        Err(e) => Err(e),
    }
}

/// `"<name>.<domain>"`, appended.
fn append_name(out: &mut String, name: &str, domain: &str)
    ensures
        final(out)@ == old(out)@ + name@ + "."@ + domain@,
{
    out.append(name);
    out.append(".");
    out.append(domain);
}

/// A step in words, and the request that it makes.  An operation that does not
/// pair with the status of the change is shown as what it is.
pub fn describe(node: &DiffNode, domain: &str, op: &PorkbunOperation) -> (r: Result<
    (String, String),
    ProviderError,
>)
    ensures
        match r {
            Ok((text, command)) => description(node@.status, domain@, op@) == Ok::<
                (Seq<char>, Seq<char>),
                ErrorView,
            >((text@, command@)),
            Err(e) => description(node@.status, domain@, op@) == Err::<
                (Seq<char>, Seq<char>),
                ErrorView,
            >(e@),
        },
{
    match (&node.status, op) {
        (Status::Add, PorkbunOperation::Create { name, record_type, content, .. }) => {
            let mut text = "Create ".to_string();
            text.append(record_type.as_str());
            text.append(" record ");
            append_name(&mut text, name.as_str(), domain);
            text.append(" → ");
            text.append(content.as_str());
            let mut command = "POST /dns/create/".to_string();
            command.append(domain);
            Ok((text, command))
        },
        (Status::Modify, PorkbunOperation::Edit { id, name, record_type, content, .. }) => {
            let mut text = "Edit ".to_string();
            text.append(record_type.as_str());
            text.append(" record ");
            append_name(&mut text, name.as_str(), domain);
            text.append(" (content=");
            text.append(content.as_str());
            text.append(")");
            Ok((text, edit_command(domain, id.as_str())))
        },
        (
            Status::Rename { chain },
            PorkbunOperation::Edit { id, name, record_type, content, .. },
        ) => {
            let from = if chain.len() == 0 {
                "?".to_string()
            } else {
                match display_provider_key_entry(&chain[0]) {
                    Ok(text) => text,
                    Err(e) => {
                        return Err(e);
                    },
                }
            };
            let to = if chain.len() == 0 {
                "?".to_string()
            } else {
                match display_provider_key_entry(&chain[chain.len() - 1]) {
                    Ok(text) => text,
                    Err(e) => {
                        return Err(e);
                    },
                }
            };
            let mut text = "Rename ".to_string();
            text.append(from.as_str());
            text.append(" → ");
            text.append(to.as_str());
            text.append(" (apply as edit of ");
            text.append(record_type.as_str());
            text.append(" ");
            append_name(&mut text, name.as_str(), domain);
            text.append(" → ");
            text.append(content.as_str());
            text.append(")");
            Ok((text, edit_command(domain, id.as_str())))
        },
        (Status::Delete, PorkbunOperation::Delete { id, name, record_type, content, .. }) => {
            let mut text = "Delete ".to_string();
            text.append(record_type.as_str());
            text.append(" record ");
            append_name(&mut text, name.as_str(), domain);
            text.append(" (");
            text.append(content.as_str());
            text.append(")");
            let mut command = "POST /dns/delete/".to_string();
            command.append(domain);
            command.append("/");
            command.append(id.as_str());
            Ok((text, command))
        },
        (status, op) => {
            let mut text = "Porkbun runbook step (".to_string();
            text.append(status_name(status).as_str());
            text.append(")");
            let mut command = "(unrecognised op pairing: ".to_string();
            command.append(op.debug_form().as_str());
            command.append(")");
            Ok((text, command))
        },
    }
}

/// The request that an edit makes.
fn edit_command(domain: &str, id: &str) -> (r: String)
    ensures
        r@ == "POST /dns/edit/"@ + domain@ + "/"@ + id@,
{
    let mut command = "POST /dns/edit/".to_string();
    command.append(domain);
    command.append("/");
    command.append(id);
    command
}

/// The entries of a chain as `{:?}` shows them.
fn chain_debug(chain: &Vec<Json>) -> (r: String)
    ensures
        r@ == json::items_debug(model::views(chain@), chain@.len()),
{
    let mut out = String::new();
    let mut i: usize = 0;
    while i < chain.len()
        invariant
            i <= chain.len(),
            out@ == json::items_debug(model::views(chain@), i as nat),
        decreases chain.len() - i,
    {
        if i > 0 {
            out.append(", ");
        } else {
            out.append("");
        }
        out.append(chain[i].debug_form().as_str());
        i = i + 1;
    }
    out
}

/// A status as `{:?}` shows it.
fn status_name(status: &Status) -> (r: String)
    ensures
        r@ == status_text(status@),
{
    match status {
        Status::Add => "Add".to_string(),
        Status::Modify => "Modify".to_string(),
        Status::Rename { chain } => {
            let mut out = "Rename { chain: [".to_string();
            out.append(chain_debug(chain).as_str());
            out.append("] }");
            out
        },
        Status::Delete => "Delete".to_string(),
    }
}

/// The runbook step of one planned change.  It carries the operation, so that
/// it can be executed without another look at the plan or the live state.
pub fn build_step(
    node: &DiffNode,
    domain: &str,
    live_index: &StringHashMap<LiveRecord>,
) -> (r: Result<RunbookStep, ProviderError>)
    ensures
        model::result_view(r) == step_for(node@, domain@, operation::index_view(live_index@)),
        r matches Ok(step) ==> {
            &&& operation::operation_for(
                node@,
                domain@,
                operation::index_view(live_index@),
            ) matches Ok(op)
            &&& laws::spelled_operation(step.operation@) == Some(op)
        },
{
    proof {
        laws::law_step_carries_its_operation(
            node@,
            domain@,
            operation::index_view(live_index@),
        );
    }
    let op = match diff_node_to_op(node, domain, live_index) {
        Ok(op) => op,
        Err(e) => {
            return Err(e);
        },
    };
    match describe(node, domain, &op) {
        Ok((description, command)) => Ok(
            RunbookStep { description, command, body: None, operation: op.to_json() },
        ),
        Err(e) => Err(e),
    }
}

impl PorkbunProvider {
    /// The name under which plans refer to this provider.
    pub fn provider_type(&self) -> (r: &'static str)
        ensures
            r@ == "porkbun"@,
    {
        "porkbun"
    }

    /// The configuration fields that must not be shown.
    pub fn sensitive_config_fields(&self) -> (r: &'static [&'static str])
        ensures
            model::views(r@) == seq!["api_key"@, "secret_api_key"@],
    {
        let r: &'static [&'static str] = &["api_key", "secret_api_key"];
        assert(model::views(r@) =~= seq!["api_key"@, "secret_api_key"@]);
        r
    }

    /// The request that asks for the records of the configured zone.
    pub fn live_request(&self, config: &ResolvedConfig) -> (r: Result<ApiCall, ProviderError>)
        ensures
            model::result_view(r) == retrieval(config@),
    {
        match PorkbunConfig::from_resolved_config(config) {
            Ok(c) => {
                let client = PorkbunClient::new(c.api_key, c.secret_api_key, c.base_url);
                Ok(client.retrieve(c.domain.as_str()))
            },
            Err(e) => Err(e),
        }
    }

    /// The live tree of the configured zone, given the reply to
    /// [`PorkbunProvider::live_request`], or why there is none.
    ///
    /// Each record is a keyed node, so that a plan can match it by its
    /// `__nixhapi.providerKey`.  The attribute names are informational.
    pub fn list_live(
        &self,
        config: &ResolvedConfig,
        reply: Result<RetrieveResponse, String>,
    ) -> (r: Result<Json, ProviderError>)
        ensures
            model::result_view(r) == listing(
                config@,
                model::result_view(reply),
            ),
    {
        let c = match PorkbunConfig::from_resolved_config(config) {
            Ok(c) => c,
            Err(e) => {
                return Err(e);
            },
        };
        let client = PorkbunClient::new(c.api_key, c.secret_api_key, c.base_url);
        let call = client.retrieve(c.domain.as_str());
        match retrieve_outcome(reply, call.url) {
            Ok(records) => Ok(tree_of(records, c.domain.as_str())),
            Err(e) => {
                let mut m = "Failed to retrieve DNS records for ".to_string();
                m.append(c.domain.as_str());
                m.append(": ");
                m.append(e.text().as_str());
                Err(ProviderError::ConnectionFailed(m))
            },
        }
    }

    /// The runbook of a plan: one step per change, in order.
    ///
    /// `decoded` holds what each of the live record bodies
    /// ([`operation::live_record_bodies`]) decodes to, or why it does not.
    pub fn build_runbook(
        &self,
        changes: &Vec<DiffNode>,
        live: &Json,
        decoded: &Vec<Result<LiveRecord, String>>,
        config: &ResolvedConfig,
    ) -> (r: Result<Vec<RunbookStep>, ProviderError>)
        requires
            decoded@.len() == operation::live_bodies(live@).len(),
        ensures
            match r {
                Ok(steps) => runbook(
                    model::views(changes@),
                    live@,
                    operation::decoded_view(decoded@),
                    config@,
                ) == Ok::<Seq<RunbookStepView>, ErrorView>(model::views(steps@)),
                Err(e) => runbook(
                    model::views(changes@),
                    live@,
                    operation::decoded_view(decoded@),
                    config@,
                ) == Err::<Seq<RunbookStepView>, ErrorView>(e@),
            },
    {
        let pb_config = match PorkbunConfig::from_resolved_config(config) {
            Ok(pb_config) => pb_config,
            Err(e) => {
                return Err(e);
            },
        };
        let live_index = match build_live_index(live, decoded) {
            Ok(live_index) => live_index,
            Err(e) => {
                return Err(e);
            },
        };
        let ghost all = model::views(changes@);
        let ghost index = operation::index_view(live_index@);
        let mut steps: Vec<RunbookStep> = Vec::new();
        let mut i: usize = 0;
        assert(all.take(0) =~= Seq::empty());
        assert(model::views(steps@) =~= Seq::empty());
        while i < changes.len()
            invariant
                i <= changes.len(),
                all == model::views(changes@),
                index == operation::index_view(live_index@),
                steps_for(all.take(i as int), pb_config@.domain, index) == Ok::<
                    Seq<RunbookStepView>,
                    ErrorView,
                >(model::views(steps@)),
                config::resolved(config@) == Ok::<
                    config::ConfigView,
                    ErrorView,
                >(pb_config@),
                operation::live_index(live@, operation::decoded_view(decoded@)) == Ok::<
                    Map<Seq<char>, LiveRecordView>,
                    ErrorView,
                >(index),
            decreases changes.len() - i,
        {
            proof {
                assert(all.take(i + 1).drop_last() =~= all.take(i as int));
                assert(all.take(i + 1).last() == changes@[i as int]@);
                lemma_steps_prefix(all, pb_config@.domain, index, i + 1);
            }
            match build_step(&changes[i], pb_config.domain.as_str(), &live_index) {
                Ok(step) => {
                    let ghost before = steps@;
                    steps.push(step);
                    assert(model::views(steps@) =~= model::views(before).push(step@));
                },
                Err(e) => {
                    return Err(e);
                },
            }
            i = i + 1;
        }
        assert(all.take(i as int) =~= all);
        Ok(steps)
    }
}

} // verus!
