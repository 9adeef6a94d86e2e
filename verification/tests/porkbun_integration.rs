//! The provider from end to end: live records to a tree, changes to a runbook,
//! a runbook to requests and a report.
//!
//! A record is identified by its type, its name and its content.

use nix_hapi_provider_porkbun_lib::apply::{ApplyRun, ApplyStep};
use nix_hapi_provider_porkbun_lib::client::{
    ApiCall, PorkbunRecord, RetrieveResponse, StatusResponse,
};
use nix_hapi_provider_porkbun_lib::config::ResolvedConfig;
use nix_hapi_provider_porkbun_lib::error::ProviderError;
use nix_hapi_provider_porkbun_lib::field_value::ResolvedFieldValue;
use nix_hapi_provider_porkbun_lib::json::Json;
use nix_hapi_provider_porkbun_lib::operation::{
    live_record_bodies, LiveRecord, PorkbunOperation,
};
use nix_hapi_provider_porkbun_lib::plan::{
    ApplyReport, DiffNode, FieldDiff, FieldTarget, RunbookStep, Status,
};
use nix_hapi_provider_porkbun_lib::PorkbunProvider;
use serde_json::Value;

const DOMAIN: &str = "example.com";
const SERVER: &str = "http://127.0.0.1:1234";

fn string(s: &str) -> Json {
    Json::String(s.to_string())
}

fn object(members: Vec<(&str, Json)>) -> Json {
    Json::Object(members.into_iter().map(|(k, v)| (k.to_string(), v)).collect())
}

fn managed(value: &str) -> ResolvedFieldValue {
    ResolvedFieldValue::Managed(string(value))
}

fn make_config(base_url: &str) -> ResolvedConfig {
    let mut config = ResolvedConfig::new();
    config.insert("domain".to_string(), managed(DOMAIN));
    config.insert("api_key".to_string(), managed("pk_test"));
    config.insert("secret_api_key".to_string(), managed("sk_test"));
    config.insert("base_url".to_string(), managed(base_url));
    config
}

fn success() -> Result<StatusResponse, String> {
    Ok(StatusResponse { status: "SUCCESS".to_string(), message: None })
}

fn retrieved(records: Vec<PorkbunRecord>) -> Result<RetrieveResponse, String> {
    Ok(RetrieveResponse { status: "SUCCESS".to_string(), message: None, records })
}

fn record(
    id: &str,
    name: &str,
    record_type: &str,
    content: &str,
    ttl: &str,
    prio: Option<&str>,
) -> PorkbunRecord {
    PorkbunRecord {
        id: id.to_string(),
        name: name.to_string(),
        record_type: record_type.to_string(),
        content: content.to_string(),
        ttl: ttl.to_string(),
        prio: prio.map(|p| p.to_string()),
        notes: Some(String::new()),
    }
}

/// One structured providerKey entry.
fn pk_entry(record_type: &str, name: &str, content: &str) -> Json {
    object(vec![
        ("type", string(record_type)),
        ("name", string(name)),
        ("content", string(content)),
    ])
}

/// The text by which reports and descriptions name a record.
fn record_id(record_type: &str, name: &str, content: &str) -> String {
    format!("{record_type}/{name}/{content}")
}

/// The body of one live keyed node.
fn live_record_body(
    ident_type: &str,
    ident_name: &str,
    ident_content: &str,
    id: &str,
    full_name: &str,
    ttl: &str,
    prio: Option<&str>,
) -> Json {
    object(vec![
        (
            "__nixhapi",
            object(vec![(
                "providerKey",
                Json::Array(vec![pk_entry(ident_type, ident_name, ident_content)]),
            )]),
        ),
        ("id", string(id)),
        ("name", string(full_name)),
        ("type", string(ident_type)),
        ("content", string(ident_content)),
        ("ttl", string(ttl)),
        (
            "prio",
            match prio {
                Some(p) => string(p),
                None => Json::Null,
            },
        ),
    ])
}

fn diff_node(head: Json, status: Status, field_changes: Vec<FieldDiff>) -> DiffNode {
    diff_node_with_chain(vec![head], status, field_changes)
}

fn diff_node_with_chain(
    chain: Vec<Json>,
    status: Status,
    field_changes: Vec<FieldDiff>,
) -> DiffNode {
    DiffNode { provider_key: chain, status, field_changes }
}

fn set_field(field: &str, value: &str) -> FieldDiff {
    FieldDiff {
        field: field.to_string(),
        to: FieldTarget::Value { value: string(value) },
    }
}

/// What a JSON value is to another JSON reader.
fn value_of(json: &Json) -> Value {
    serde_json::from_str(json.text().as_str()).expect("the text must be JSON")
}

fn text_at(value: &Value, name: &str) -> Result<String, String> {
    match value.get(name).and_then(Value::as_str) {
        Some(s) => Ok(s.to_string()),
        None => Err(format!("missing field `{name}`")),
    }
}

fn optional_text_at(value: &Value, name: &str) -> Result<Option<String>, String> {
    match value.get(name) {
        None | Some(Value::Null) => Ok(None),
        Some(Value::String(s)) => Ok(Some(s.clone())),
        Some(_) => Err(format!("invalid type of `{name}`")),
    }
}

fn decode_record(body: &Json) -> Result<LiveRecord, String> {
    let v = value_of(body);
    Ok(LiveRecord {
        id: text_at(&v, "id")?,
        name: text_at(&v, "name")?,
        record_type: text_at(&v, "type")?,
        content: text_at(&v, "content")?,
        ttl: text_at(&v, "ttl")?,
        prio: optional_text_at(&v, "prio")?,
    })
}

fn decode_operation(operation: &Json) -> Result<PorkbunOperation, String> {
    let v = value_of(operation);
    match text_at(&v, "action")?.as_str() {
        "create" => Ok(PorkbunOperation::Create {
            domain: text_at(&v, "domain")?,
            name: text_at(&v, "name")?,
            record_type: text_at(&v, "record_type")?,
            content: text_at(&v, "content")?,
            ttl: text_at(&v, "ttl")?,
            prio: optional_text_at(&v, "prio")?,
        }),
        "edit" => Ok(PorkbunOperation::Edit {
            domain: text_at(&v, "domain")?,
            id: text_at(&v, "id")?,
            name: text_at(&v, "name")?,
            record_type: text_at(&v, "record_type")?,
            content: text_at(&v, "content")?,
            ttl: text_at(&v, "ttl")?,
            prio: optional_text_at(&v, "prio")?,
        }),
        "delete" => Ok(PorkbunOperation::Delete {
            domain: text_at(&v, "domain")?,
            id: text_at(&v, "id")?,
            name: text_at(&v, "name")?,
            record_type: text_at(&v, "record_type")?,
            content: text_at(&v, "content")?,
        }),
        other => Err(format!("unknown variant `{other}`")),
    }
}

fn build(
    changes: Vec<DiffNode>,
    live: &Json,
    config: &ResolvedConfig,
) -> Result<Vec<RunbookStep>, ProviderError> {
    let decoded: Vec<Result<LiveRecord, String>> =
        live_record_bodies(live).iter().map(decode_record).collect();
    PorkbunProvider.build_runbook(&changes, live, &decoded, config)
}

/// Runs a runbook against a server that answers every request with success.
fn apply_all(
    runbook: &[RunbookStep],
    config: &ResolvedConfig,
) -> (Vec<ApiCall>, Result<ApplyReport, ProviderError>) {
    let steps = runbook
        .iter()
        .map(|step| ApplyStep {
            description: step.description.clone(),
            operation: decode_operation(&step.operation),
        })
        .collect();
    let mut run = match ApplyRun::start(config, steps) {
        Ok(run) => run,
        Err(e) => return (Vec::new(), Err(e)),
    };
    let mut calls = Vec::new();
    while let Some(call) = run.pending() {
        calls.push(call);
        run.resume(success());
    }
    (calls, run.finish())
}

fn assert_body_holds(call: &ApiCall, members: &[(&str, &str)]) {
    let body = value_of(&call.body);
    for (name, value) in members {
        assert_eq!(body.get(*name).and_then(Value::as_str), Some(*value));
    }
}

// ---- Listing ----

#[test]
fn list_live_emits_keyed_nodes_with_structured_provider_key() {
    let config = make_config(SERVER);
    let provider = PorkbunProvider;

    let call = provider.live_request(&config).expect("live_request should succeed");
    assert_eq!(call.url, format!("{SERVER}/dns/retrieve/{DOMAIN}"));
    assert_body_holds(&call, &[("apikey", "pk_test"), ("secretapikey", "sk_test")]);

    let live = provider
        .list_live(
            &config,
            retrieved(vec![
                record("10", &format!("www.{DOMAIN}"), "A", "1.2.3.4", "600", None),
                record("11", DOMAIN, "MX", &format!("mail.{DOMAIN}"), "3600", Some("10")),
            ]),
        )
        .expect("list_live should succeed");

    let a_www = live
        .get(&record_id("A", "www", "1.2.3.4"))
        .expect("A/www/1.2.3.4 must be present");
    assert_eq!(
        value_of(a_www).pointer("/__nixhapi/providerKey/0"),
        Some(&value_of(&pk_entry("A", "www", "1.2.3.4"))),
        "live A/www must carry a structured providerKey object",
    );
    assert_eq!(a_www.get("id").and_then(Json::as_str), Some("10"));
    assert_eq!(a_www.get("content").and_then(Json::as_str), Some("1.2.3.4"));

    let mx_apex = live
        .get(&record_id("MX", "@", &format!("mail.{DOMAIN}")))
        .expect("MX apex must be present");
    assert_eq!(
        value_of(mx_apex).pointer("/__nixhapi/providerKey/0"),
        Some(&value_of(&pk_entry("MX", "@", &format!("mail.{DOMAIN}")))),
    );
    assert_eq!(mx_apex.get("prio").and_then(Json::as_str), Some("10"));
}

#[test]
fn list_live_indexes_multiple_records_on_same_type_and_name() {
    let live = PorkbunProvider
        .list_live(
            &make_config(SERVER),
            retrieved(vec![
                record("10", &format!("www.{DOMAIN}"), "A", "1.2.3.4", "600", None),
                record("11", &format!("www.{DOMAIN}"), "A", "5.6.7.8", "600", None),
            ]),
        )
        .expect("list_live should succeed");
    assert!(live.get(&record_id("A", "www", "1.2.3.4")).is_some());
    assert!(live.get(&record_id("A", "www", "5.6.7.8")).is_some());
}

#[test]
fn list_live_reports_what_the_api_says() {
    let reply = Ok(RetrieveResponse {
        status: "ERROR".to_string(),
        message: Some("Invalid API key.".to_string()),
        records: Vec::new(),
    });
    assert_eq!(
        PorkbunProvider.list_live(&make_config(SERVER), reply),
        Err(ProviderError::ConnectionFailed(
            "Failed to retrieve DNS records for example.com: Porkbun API returned an error for \
             http://127.0.0.1:1234/dns/retrieve/example.com: Invalid API key."
                .to_string()
        ))
    );
}

#[test]
fn list_live_reports_a_request_that_fails() {
    assert_eq!(
        PorkbunProvider.list_live(&make_config(SERVER), Err("timed out".to_string())),
        Err(ProviderError::ConnectionFailed(
            "Failed to retrieve DNS records for example.com: HTTP request to Porkbun API failed: \
             timed out"
                .to_string()
        ))
    );
}

#[test]
fn list_live_needs_its_configuration() {
    let mut config = ResolvedConfig::new();
    config.insert("domain".to_string(), managed(DOMAIN));
    let missing = ProviderError::MissingConfig { field: "api_key".to_string() };
    assert_eq!(PorkbunProvider.live_request(&config), Err(missing));
    assert_eq!(
        PorkbunProvider.list_live(&config, retrieved(Vec::new())),
        Err(ProviderError::MissingConfig { field: "api_key".to_string() })
    );
}

#[test]
fn list_live_keeps_the_last_record_of_an_identity() {
    let live = PorkbunProvider
        .list_live(
            &make_config(SERVER),
            retrieved(vec![
                record("1", "www.example.com", "A", "1.2.3.4", "600", None),
                record("2", "example.com", "A", "1.2.3.4", "600", None),
                record("3", "www.example.com", "A", "1.2.3.4", "900", None),
            ]),
        )
        .expect("list_live should succeed");
    match &live {
        Json::Object(members) => assert_eq!(members.len(), 2),
        other => panic!("expected an object, got {other:?}"),
    }
    let node = live.get("A/www/1.2.3.4").expect("the node must be present");
    assert_eq!(node.get("id").and_then(Json::as_str), Some("3"));
    assert_eq!(node.get("ttl").and_then(Json::as_str), Some("900"));
}

// ---- Creation ----

#[test]
fn add_change_creates_record() {
    let config = make_config(SERVER);
    let changes = vec![diff_node(
        pk_entry("A", "www", "1.2.3.4"),
        Status::Add,
        vec![set_field("content", "1.2.3.4"), set_field("ttl", "600")],
    )];

    let runbook = build(changes, &object(vec![]), &config).expect("build_runbook should succeed");

    assert_eq!(runbook.len(), 1);
    let op = decode_operation(&runbook[0].operation).expect("operation should round-trip");
    assert!(matches!(op, PorkbunOperation::Create { .. }));
    assert_eq!(op.to_json(), runbook[0].operation);
    assert_eq!(runbook[0].description, "Create A record www.example.com → 1.2.3.4");
    assert_eq!(runbook[0].command, "POST /dns/create/example.com");
    assert_eq!(runbook[0].body, None);

    let (calls, report) = apply_all(&runbook, &config);
    let report = report.expect("apply should succeed");

    assert_eq!(calls.len(), 1);
    assert_eq!(calls[0].url, format!("{SERVER}/dns/create/{DOMAIN}"));
    assert_body_holds(
        &calls[0],
        &[
            ("apikey", "pk_test"),
            ("secretapikey", "sk_test"),
            ("name", "www"),
            ("type", "A"),
            ("content", "1.2.3.4"),
            ("ttl", "600"),
        ],
    );
    assert!(value_of(&calls[0].body).get("prio").is_none());
    assert_eq!(report.created, vec![record_id("A", "www", "1.2.3.4")]);
    assert!(report.modified.is_empty());
    assert!(report.deleted.is_empty());
}

#[test]
fn add_change_recovers_content_from_provider_key_when_diff_omits_it() {
    // A change may leave out `content`, which the providerKey carries already.
    let config = make_config(SERVER);
    let changes = vec![diff_node(
        pk_entry("TXT", "@", "v=spf1 ~all"),
        Status::Add,
        Vec::new(),
    )];

    let runbook = build(changes, &object(vec![]), &config).expect("build_runbook should succeed");
    let (calls, report) = apply_all(&runbook, &config);
    report.expect("apply should succeed");

    assert_eq!(calls.len(), 1);
    assert_eq!(calls[0].url, format!("{SERVER}/dns/create/{DOMAIN}"));
    assert_body_holds(
        &calls[0],
        &[("name", "@"), ("type", "TXT"), ("content", "v=spf1 ~all"), ("ttl", "600")],
    );
}

// ---- Modification ----

#[test]
fn modify_change_edits_ttl_without_touching_content_identity() {
    let config = make_config(SERVER);
    let live = object(vec![(
        "A/www/1.2.3.4",
        live_record_body("A", "www", "1.2.3.4", "7", &format!("www.{DOMAIN}"), "600", None),
    )]);
    let changes = vec![diff_node(
        pk_entry("A", "www", "1.2.3.4"),
        Status::Modify,
        vec![set_field("ttl", "3600")],
    )];

    let runbook = build(changes, &live, &config).expect("build_runbook should succeed");

    let op = decode_operation(&runbook[0].operation).expect("operation should round-trip");
    let PorkbunOperation::Edit { id, ttl, content, .. } = &op else {
        panic!("expected Edit, got {op:?}");
    };
    assert_eq!(id, "7");
    assert_eq!(ttl, "3600");
    // The content comes from the identity: no field change mentions it.
    assert_eq!(content, "1.2.3.4");
    assert_eq!(runbook[0].description, "Edit A record www.example.com (content=1.2.3.4)");
    assert_eq!(runbook[0].command, "POST /dns/edit/example.com/7");

    let (calls, report) = apply_all(&runbook, &config);
    let report = report.expect("apply should succeed");

    assert_eq!(calls.len(), 1);
    assert_eq!(calls[0].url, format!("{SERVER}/dns/edit/{DOMAIN}/7"));
    assert_body_holds(
        &calls[0],
        &[("name", "www"), ("type", "A"), ("content", "1.2.3.4"), ("ttl", "3600")],
    );
    assert_eq!(report.modified, vec![record_id("A", "www", "1.2.3.4")]);
}

#[test]
fn modify_without_live_counterpart_errors() {
    let changes = vec![diff_node(
        pk_entry("A", "missing", "1.2.3.4"),
        Status::Modify,
        vec![set_field("ttl", "3600")],
    )];

    let err = build(changes, &object(vec![]), &make_config(SERVER))
        .expect_err("build_runbook should error when live lookup misses");

    let ProviderError::OperationFailed(msg) = err else {
        panic!("expected OperationFailed, got {err:?}");
    };
    assert!(
        msg.contains("A/missing/1.2.3.4"),
        "error should name the missing providerKey, got: {msg}"
    );
}

// ---- Deletion ----

#[test]
fn delete_change_deletes_record() {
    let config = make_config(SERVER);
    let live = object(vec![(
        "A/www/1.2.3.4",
        live_record_body("A", "www", "1.2.3.4", "42", &format!("www.{DOMAIN}"), "600", None),
    )]);
    let changes = vec![diff_node(
        pk_entry("A", "www", "1.2.3.4"),
        Status::Delete,
        Vec::new(),
    )];

    let runbook = build(changes, &live, &config).expect("build_runbook should succeed");
    assert_eq!(runbook[0].description, "Delete A record www.example.com (1.2.3.4)");
    assert_eq!(runbook[0].command, "POST /dns/delete/example.com/42");
    let (calls, report) = apply_all(&runbook, &config);
    let report = report.expect("apply should succeed");

    assert_eq!(calls.len(), 1);
    assert_eq!(calls[0].url, format!("{SERVER}/dns/delete/{DOMAIN}/42"));
    assert_eq!(report.deleted, vec![record_id("A", "www", "1.2.3.4")]);
}

// ---- Renaming ----

#[test]
fn rename_change_edits_record_in_place() {
    // A declared chain makes a change of content one edit by id instead of a
    // deletion and a creation.
    let config = make_config(SERVER);
    let live = object(vec![(
        "A/www/1.2.3.4",
        live_record_body("A", "www", "1.2.3.4", "99", &format!("www.{DOMAIN}"), "600", None),
    )]);
    let node = diff_node_with_chain(
        vec![pk_entry("A", "www", "5.6.7.8"), pk_entry("A", "www", "1.2.3.4")],
        Status::Rename {
            chain: vec![pk_entry("A", "www", "1.2.3.4"), pk_entry("A", "www", "5.6.7.8")],
        },
        Vec::new(),
    );

    let runbook = build(vec![node], &live, &config).expect("build_runbook should succeed");

    let op = decode_operation(&runbook[0].operation).expect("operation should round-trip");
    let PorkbunOperation::Edit { id, name, record_type, content, .. } = &op else {
        panic!("expected Edit, got {op:?}");
    };
    assert_eq!(id, "99");
    assert_eq!(name, "www");
    assert_eq!(record_type, "A");
    assert_eq!(content, "5.6.7.8");
    assert_eq!(
        runbook[0].description,
        "Rename A/www/1.2.3.4 → A/www/5.6.7.8 (apply as edit of A www.example.com → 5.6.7.8)"
    );
    assert_eq!(runbook[0].command, "POST /dns/edit/example.com/99");

    let (calls, report) = apply_all(&runbook, &config);
    let report = report.expect("apply should succeed");

    assert_eq!(calls.len(), 1);
    assert_eq!(calls[0].url, format!("{SERVER}/dns/edit/{DOMAIN}/99"));
    assert_body_holds(&calls[0], &[("name", "www"), ("type", "A"), ("content", "5.6.7.8")]);
    assert_eq!(report.modified, vec![record_id("A", "www", "5.6.7.8")]);
}

// ---- Several records of one type and name ----

#[test]
fn delete_one_of_two_records_on_same_type_and_name() {
    let config = make_config(SERVER);
    let live = object(vec![
        (
            "A/www/1.2.3.4",
            live_record_body("A", "www", "1.2.3.4", "10", &format!("www.{DOMAIN}"), "600", None),
        ),
        (
            "A/www/5.6.7.8",
            live_record_body("A", "www", "5.6.7.8", "11", &format!("www.{DOMAIN}"), "600", None),
        ),
    ]);
    let changes = vec![diff_node(
        pk_entry("A", "www", "5.6.7.8"),
        Status::Delete,
        Vec::new(),
    )];

    let runbook = build(changes, &live, &config).expect("build_runbook should succeed");
    let (calls, report) = apply_all(&runbook, &config);
    let report = report.expect("apply should succeed");

    assert_eq!(calls.len(), 1);
    assert_eq!(calls[0].url, format!("{SERVER}/dns/delete/{DOMAIN}/11"));
    assert_eq!(report.deleted, vec![record_id("A", "www", "5.6.7.8")]);
}

#[test]
fn a_listed_record_is_found_by_its_changes() {
    let config = make_config(SERVER);
    let live = PorkbunProvider
        .list_live(
            &config,
            retrieved(vec![
                record("20", "example.com", "MX", "mail.example.com", "3600", Some("10")),
                record("21", "example.com", "MX", "backup.example.com", "3600", Some("20")),
            ]),
        )
        .expect("list_live should succeed");
    let runbook = build(
        vec![
            diff_node(
                pk_entry("MX", "@", "backup.example.com"),
                Status::Modify,
                vec![set_field("ttl", "900")],
            ),
            diff_node(pk_entry("MX", "@", "mail.example.com"), Status::Delete, Vec::new()),
        ],
        &live,
        &config,
    )
    .expect("build_runbook should succeed");
    assert_eq!(
        decode_operation(&runbook[0].operation),
        Ok(PorkbunOperation::Edit {
            domain: "example.com".to_string(),
            id: "21".to_string(),
            name: "@".to_string(),
            record_type: "MX".to_string(),
            content: "backup.example.com".to_string(),
            ttl: "900".to_string(),
            prio: Some("20".to_string()),
        })
    );
    assert_eq!(
        decode_operation(&runbook[1].operation),
        Ok(PorkbunOperation::Delete {
            domain: "example.com".to_string(),
            id: "20".to_string(),
            name: "@".to_string(),
            record_type: "MX".to_string(),
            content: "mail.example.com".to_string(),
        })
    );
}

#[test]
fn a_live_tree_is_read_under_any_names_and_in_any_order() {
    let reversed = |json: Json| match json {
        Json::Object(mut members) => {
            members.reverse();
            Json::Object(members)
        }
        other => other,
    };
    let live = object(vec![
        (
            "second",
            reversed(live_record_body(
                "A", "www", "5.6.7.8", "11", "www.example.com", "600", None,
            )),
        ),
        (
            "first",
            reversed(live_record_body(
                "A", "www", "1.2.3.4", "10", "www.example.com", "600", Some("5"),
            )),
        ),
    ]);
    let runbook = build(
        vec![
            diff_node(reversed(pk_entry("A", "www", "1.2.3.4")), Status::Delete, Vec::new()),
            diff_node(pk_entry("A", "www", "5.6.7.8"), Status::Delete, Vec::new()),
        ],
        &live,
        &make_config(SERVER),
    )
    .expect("build_runbook should succeed");
    assert_eq!(runbook[0].command, "POST /dns/delete/example.com/10");
    assert_eq!(runbook[1].command, "POST /dns/delete/example.com/11");
}

// ---- Nothing to do ----

#[test]
fn empty_wave_produces_no_runbook_and_no_calls() {
    let config = make_config(SERVER);
    let runbook =
        build(Vec::new(), &object(vec![]), &config).expect("build_runbook should succeed");
    assert!(runbook.is_empty());

    let (calls, report) = apply_all(&runbook, &config);
    let report = report.expect("apply should succeed");
    assert!(calls.is_empty());
    assert!(report.created.is_empty());
    assert!(report.modified.is_empty());
    assert!(report.deleted.is_empty());
}

// ---- What the provider says of itself ----

#[test]
fn sensitive_fields_declared() {
    let provider = PorkbunProvider;
    let fields = provider.sensitive_config_fields();
    assert!(fields.contains(&"api_key"), "api_key must be sensitive");
    assert!(fields.contains(&"secret_api_key"), "secret_api_key must be sensitive");
}

#[test]
fn provider_type_is_porkbun() {
    let provider = PorkbunProvider;
    assert_eq!(provider.provider_type(), "porkbun");
}

// ---- Placeholders ----

#[test]
fn derived_placeholder_in_diff_is_rejected() {
    let placeholder = FieldDiff {
        field: "content".to_string(),
        to: FieldTarget::DerivedPlaceholder,
    };
    let changes = vec![diff_node(
        pk_entry("A", "www", "1.2.3.4"),
        Status::Add,
        vec![placeholder],
    )];

    let err = build(changes, &object(vec![]), &make_config(SERVER))
        .expect_err("build_runbook must reject derivedFrom placeholders");
    let ProviderError::OperationFailed(msg) = err else {
        panic!("expected OperationFailed, got {err:?}");
    };
    assert!(
        msg.contains("derivedFrom"),
        "error message should mention derivedFrom, got: {msg}"
    );
    assert_eq!(
        msg,
        "field \"content\" carries an unresolved derivedFrom placeholder; Porkbun does not \
         support derivedFrom inputs"
    );
}

// ---- Failures of a plan ----

#[test]
fn the_first_failing_change_fails_the_runbook() {
    let result = build(
        vec![
            diff_node(pk_entry("A", "a", "1.1.1.1"), Status::Add, Vec::new()),
            diff_node(pk_entry("A", "b", "2.2.2.2"), Status::Delete, Vec::new()),
            diff_node(pk_entry("A", "c", "3.3.3.3"), Status::Delete, Vec::new()),
        ],
        &Json::Null,
        &make_config(SERVER),
    );
    assert_eq!(
        result,
        Err(ProviderError::OperationFailed(
            "No live Porkbun record found for providerKey A/b/2.2.2.2".to_string()
        ))
    );
}

#[test]
fn a_runbook_needs_its_configuration_and_a_live_object() {
    let mut config = make_config(SERVER);
    config.insert("secret_api_key".to_string(), ResolvedFieldValue::Unmanaged);
    assert_eq!(
        build(Vec::new(), &Json::Null, &config),
        Err(ProviderError::UnmanagedConfig { field: "secret_api_key".to_string() })
    );
    assert_eq!(
        build(Vec::new(), &Json::Array(Vec::new()), &make_config(SERVER)),
        Err(ProviderError::LiveStateParse(
            "expected an object at the top of live state".to_string()
        ))
    );
}
