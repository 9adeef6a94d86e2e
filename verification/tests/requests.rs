//! Configuration, requests, replies, and the execution of a runbook.

use nix_hapi_provider_porkbun_lib::apply::{op_request, record_outcome, ApplyRun, ApplyStep};
use nix_hapi_provider_porkbun_lib::client::{
    check_status, retrieve_outcome, status_outcome, PorkbunClient, PorkbunClientError,
    RecordRequest, RetrieveResponse, StatusResponse, BASE_URL,
};
use nix_hapi_provider_porkbun_lib::config::{PorkbunConfig, ResolvedConfig};
use nix_hapi_provider_porkbun_lib::error::ProviderError;
use nix_hapi_provider_porkbun_lib::field_value::ResolvedFieldValue;
use nix_hapi_provider_porkbun_lib::json::{Json, JsonNumber};
use nix_hapi_provider_porkbun_lib::operation::PorkbunOperation;
use nix_hapi_provider_porkbun_lib::plan::ApplyReport;

fn managed(value: &str) -> ResolvedFieldValue {
    ResolvedFieldValue::Managed(Json::String(value.to_string()))
}

fn config() -> ResolvedConfig {
    let mut config = ResolvedConfig::new();
    config.insert("domain".to_string(), managed("example.com"));
    config.insert("api_key".to_string(), managed("pk"));
    config.insert("secret_api_key".to_string(), managed("sk"));
    config
}

fn client() -> PorkbunClient {
    PorkbunClient::new("pk".to_string(), "sk".to_string(), "http://host".to_string())
}

fn reply(status: &str, message: Option<&str>) -> StatusResponse {
    StatusResponse { status: status.to_string(), message: message.map(|m| m.to_string()) }
}

fn create(name: &str) -> PorkbunOperation {
    PorkbunOperation::Create {
        domain: "example.com".to_string(),
        name: name.to_string(),
        record_type: "A".to_string(),
        content: "1.2.3.4".to_string(),
        ttl: "600".to_string(),
        prio: None,
    }
}

fn edit(id: &str) -> PorkbunOperation {
    PorkbunOperation::Edit {
        domain: "example.com".to_string(),
        id: id.to_string(),
        name: "@".to_string(),
        record_type: "MX".to_string(),
        content: "mail".to_string(),
        ttl: "900".to_string(),
        prio: Some("10".to_string()),
    }
}

fn delete(id: &str) -> PorkbunOperation {
    PorkbunOperation::Delete {
        domain: "example.com".to_string(),
        id: id.to_string(),
        name: "old".to_string(),
        record_type: "TXT".to_string(),
        content: "gone".to_string(),
    }
}

fn step(operation: Result<PorkbunOperation, String>) -> ApplyStep {
    ApplyStep { description: "a \"step\"".to_string(), operation }
}

// ---- Configuration ----

#[test]
fn configuration_with_and_without_an_address() {
    assert_eq!(
        PorkbunConfig::from_resolved_config(&config()),
        Ok(PorkbunConfig {
            domain: "example.com".to_string(),
            api_key: "pk".to_string(),
            secret_api_key: "sk".to_string(),
            base_url: "https://api.porkbun.com/api/json/v3".to_string(),
        })
    );
    let mut with_address = config();
    with_address.insert("base_url".to_string(), managed("http://host"));
    let resolved = PorkbunConfig::from_resolved_config(&with_address).expect("must resolve");
    assert_eq!(resolved.base_url, "http://host");
    assert_eq!(BASE_URL, "https://api.porkbun.com/api/json/v3");
}

#[test]
fn configuration_names_the_first_field_that_is_missing() {
    assert_eq!(
        PorkbunConfig::from_resolved_config(&ResolvedConfig::new()),
        Err(ProviderError::MissingConfig { field: "domain".to_string() })
    );
    let mut unmanaged = config();
    unmanaged.insert("api_key".to_string(), ResolvedFieldValue::Unmanaged);
    assert_eq!(
        PorkbunConfig::from_resolved_config(&unmanaged),
        Err(ProviderError::UnmanagedConfig { field: "api_key".to_string() })
    );
}

#[test]
fn a_key_occurs_once() {
    let mut fields = config();
    assert_eq!(fields.len(), 3);
    fields.insert("api_key".to_string(), managed("other"));
    assert_eq!(fields.len(), 3);
    assert_eq!(fields.get("api_key"), Some(&managed("other")));
    assert_eq!(fields.at(1), (&"api_key".to_string(), &managed("other")));
    assert_eq!(fields.get("base_url"), None);
}

#[test]
fn field_values_are_texts() {
    let number = ResolvedFieldValue::Initial(Json::Number(JsonNumber::Unsigned(600)));
    assert_eq!(number.value(), Some("600".to_string()));
    assert!(number.is_initial());
    assert!(!number.is_unmanaged());
    assert_eq!(managed("x").value(), Some("x".to_string()));
    assert!(!managed("x").is_initial());
    assert_eq!(ResolvedFieldValue::Unmanaged.value(), None);
    assert!(ResolvedFieldValue::Unmanaged.is_unmanaged());
}

// ---- Requests ----

#[test]
fn request_addresses_and_bodies() {
    let auth = "{\"apikey\":\"pk\",\"secretapikey\":\"sk\"}";
    let retrieve = client().retrieve("example.com");
    assert_eq!(retrieve.url, "http://host/dns/retrieve/example.com");
    assert_eq!(retrieve.body.text(), auth);

    let delete = client().delete("example.com", "7");
    assert_eq!(delete.url, "http://host/dns/delete/example.com/7");
    assert_eq!(delete.body.text(), auth);

    let mut record = RecordRequest {
        name: "www".to_string(),
        record_type: "A".to_string(),
        content: "1.2.3.4".to_string(),
        ttl: "600".to_string(),
        prio: None,
    };
    let create = client().create("example.com", &record);
    assert_eq!(create.url, "http://host/dns/create/example.com");
    assert_eq!(
        create.body.text(),
        "{\"apikey\":\"pk\",\"secretapikey\":\"sk\",\"name\":\"www\",\"type\":\"A\",\
         \"content\":\"1.2.3.4\",\"ttl\":\"600\"}"
    );

    record.prio = Some("10".to_string());
    let edit = client().edit("example.com", "7", &record);
    assert_eq!(edit.url, "http://host/dns/edit/example.com/7");
    assert_eq!(
        edit.body.text(),
        "{\"apikey\":\"pk\",\"secretapikey\":\"sk\",\"name\":\"www\",\"type\":\"A\",\
         \"content\":\"1.2.3.4\",\"ttl\":\"600\",\"prio\":\"10\"}"
    );
}

#[test]
fn operations_become_requests() {
    assert_eq!(op_request(&client(), &create("www")).url, "http://host/dns/create/example.com");
    assert_eq!(op_request(&client(), &edit("3")).url, "http://host/dns/edit/example.com/3");
    assert_eq!(op_request(&client(), &delete("4")).url, "http://host/dns/delete/example.com/4");
    assert_eq!(
        op_request(&client(), &edit("3")).body.get("prio").and_then(Json::as_str),
        Some("10")
    );
}

// ---- Replies ----

#[test]
fn replies_succeed_or_say_why_not() {
    let url = "http://host/x";
    assert_eq!(check_status(reply("SUCCESS", None), url.to_string()), Ok(()));
    assert_eq!(
        check_status(reply("success", None), url.to_string()),
        Err(PorkbunClientError::ApiError {
            endpoint: url.to_string(),
            message: String::new(),
        })
    );
    assert_eq!(
        status_outcome(Ok(reply("ERROR", Some("no"))), url.to_string()),
        Err(PorkbunClientError::ApiError {
            endpoint: url.to_string(),
            message: "no".to_string(),
        })
    );
    assert_eq!(
        status_outcome(Err("refused".to_string()), url.to_string()),
        Err(PorkbunClientError::RequestFailed("refused".to_string()))
    );
    let empty = RetrieveResponse {
        status: "SUCCESS".to_string(),
        message: None,
        records: Vec::new(),
    };
    assert_eq!(retrieve_outcome(Ok(empty), url.to_string()), Ok(Vec::new()));
    assert_eq!(
        retrieve_outcome(Err("refused".to_string()), url.to_string()),
        Err(PorkbunClientError::RequestFailed("refused".to_string()))
    );
}

#[test]
fn client_error_texts() {
    assert_eq!(
        PorkbunClientError::RequestFailed("refused".to_string()).text(),
        "HTTP request to Porkbun API failed: refused"
    );
    assert_eq!(
        PorkbunClientError::ApiError {
            endpoint: "http://host/x".to_string(),
            message: "no".to_string(),
        }
        .text(),
        "Porkbun API returned an error for http://host/x: no"
    );
}

// ---- Execution ----

#[test]
fn a_run_goes_through_its_steps_in_order() {
    let steps = vec![step(Ok(create("www"))), step(Ok(delete("4"))), step(Ok(edit("3")))];
    let mut run = ApplyRun::start(&config(), steps).expect("must start");
    let mut urls = Vec::new();
    while let Some(call) = run.pending() {
        urls.push(call.url);
        run.resume(Ok(reply("SUCCESS", None)));
    }
    assert_eq!(
        urls,
        vec![
            format!("{BASE_URL}/dns/create/example.com"),
            format!("{BASE_URL}/dns/delete/example.com/4"),
            format!("{BASE_URL}/dns/edit/example.com/3"),
        ]
    );
    assert_eq!(
        run.finish(),
        Ok(ApplyReport {
            created: vec!["A/www/1.2.3.4".to_string()],
            modified: vec!["MX/@/mail".to_string()],
            deleted: vec!["TXT/old/gone".to_string()],
        })
    );
}

#[test]
fn the_first_failure_ends_a_run() {
    let steps = vec![step(Ok(create("www"))), step(Ok(edit("3"))), step(Ok(delete("4")))];
    let mut run = ApplyRun::start(&config(), steps).expect("must start");
    run.resume(Ok(reply("SUCCESS", None)));
    run.resume(Ok(reply("ERROR", Some("no"))));
    assert_eq!(run.pending(), None);
    run.resume(Ok(reply("SUCCESS", None)));
    assert_eq!(run.report.created, vec!["A/www/1.2.3.4".to_string()]);
    assert_eq!(
        run.finish(),
        Err(ProviderError::OperationFailed(format!(
            "Failed to edit DNS record MX/@/mail (id=3): Porkbun API returned an error for \
             {BASE_URL}/dns/edit/example.com/3: no"
        )))
    );
}

#[test]
fn a_step_that_does_not_decode_ends_a_run() {
    let steps = vec![step(Err("unknown variant `x`".to_string())), step(Ok(create("www")))];
    let run = ApplyRun::start(&config(), steps).expect("must start");
    assert_eq!(run.pending(), None);
    assert_eq!(
        run.finish(),
        Err(ProviderError::OperationFailed(
            "Failed to deserialise operation for \"a \\\"step\\\"\": unknown variant `x`"
                .to_string()
        ))
    );
}

#[test]
fn an_empty_run_reports_nothing() {
    let run = ApplyRun::start(&config(), Vec::new()).expect("must start");
    assert_eq!(run.pending(), None);
    assert_eq!(run.finish(), Ok(ApplyReport::default()));
    assert_eq!(
        ApplyRun::start(&ResolvedConfig::new(), Vec::new()),
        Err(ProviderError::MissingConfig { field: "domain".to_string() })
    );
}

#[test]
fn failures_name_the_record() {
    let mut report = ApplyReport::default();
    let refused = || Err(PorkbunClientError::RequestFailed("refused".to_string()));
    assert_eq!(
        record_outcome(&create("www"), refused(), &mut report),
        Err(ProviderError::OperationFailed(
            "Failed to create DNS record A/www/1.2.3.4: HTTP request to Porkbun API failed: \
             refused"
                .to_string()
        ))
    );
    assert_eq!(
        record_outcome(&delete("4"), refused(), &mut report),
        Err(ProviderError::OperationFailed(
            "Failed to delete DNS record TXT/old/gone (id=4): HTTP request to Porkbun API \
             failed: refused"
                .to_string()
        ))
    );
    assert_eq!(report, ApplyReport::default());
}
