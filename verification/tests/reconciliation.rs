//! Reconciliation of flat record maps.

use nix_hapi_provider_porkbun_lib::entries::Entries;
use nix_hapi_provider_porkbun_lib::error::ProviderError;
use nix_hapi_provider_porkbun_lib::field_value::ResolvedFieldValue;
use nix_hapi_provider_porkbun_lib::json::{Json, JsonNumber};
use nix_hapi_provider_porkbun_lib::reconcile::{
    add_field_diffs, default_ttl, diff, effective_value, ignore_input, is_ignored, is_truthy,
    managed_field_diffs, parse_record_key, record_key, resolve_fields_for_create,
    resolve_fields_for_edit, resolve_ignore_exprs, DesiredRecord, FieldDiff, LiveRecord,
    PorkbunOperation, RecordFields, Resolution, ResourceChange,
};

fn managed(value: &str) -> Resolution {
    Ok(ResolvedFieldValue::Managed(Json::String(value.to_string())))
}

fn initial(value: &str) -> Resolution {
    Ok(ResolvedFieldValue::Initial(Json::String(value.to_string())))
}

fn unmanaged() -> Resolution {
    Ok(ResolvedFieldValue::Unmanaged)
}

fn unresolved() -> Resolution {
    Err("no such file".to_string())
}

fn desired(content: Resolution, ttl: Resolution, prio: Option<Resolution>) -> DesiredRecord {
    DesiredRecord { content, ttl, prio }
}

fn live(id: &str, content: &str, ttl: &str, prio: Option<&str>) -> LiveRecord {
    LiveRecord {
        id: id.to_string(),
        name: "www.example.com".to_string(),
        record_type: "A".to_string(),
        content: content.to_string(),
        ttl: ttl.to_string(),
        prio: prio.map(|p| p.to_string()),
    }
}

fn desired_map(records: Vec<(&str, DesiredRecord)>) -> Result<Entries<DesiredRecord>, String> {
    let mut map = Entries::new();
    for (key, record) in records {
        map.insert(key.to_string(), record);
    }
    Ok(map)
}

fn live_map(records: Vec<(&str, LiveRecord)>) -> Result<Entries<LiveRecord>, String> {
    let mut map = Entries::new();
    for (key, record) in records {
        map.insert(key.to_string(), record);
    }
    Ok(map)
}

fn change(field: &str, from: Option<&str>, to: &str) -> FieldDiff {
    FieldDiff {
        field: field.to_string(),
        from: from.map(|f| f.to_string()),
        to: Some(to.to_string()),
    }
}

fn failed(message: &str) -> ProviderError {
    ProviderError::OperationFailed(message.to_string())
}

// ---- Keys ----

#[test]
fn record_keys_read_back() {
    assert_eq!(record_key("A", "www"), "A/www");
    assert_eq!(parse_record_key("A/www"), Some(("A", "www")));
    assert_eq!(parse_record_key("TXT/a/b"), Some(("TXT", "a/b")));
    assert_eq!(parse_record_key("/"), Some(("", "")));
    assert_eq!(parse_record_key("A"), None);
    assert_eq!(parse_record_key(&record_key("MX", "")), Some(("MX", "")));
}

// ---- Fields ----

#[test]
fn default_ttl_is_managed() {
    assert_eq!(default_ttl().value(), Some("600".to_string()));
    assert!(!default_ttl().is_initial());
}

#[test]
fn fields_of_a_new_record() {
    let fields = resolve_fields_for_create(&desired(initial("1.2.3.4"), unmanaged(), None))
        .expect("must resolve");
    assert_eq!(fields.content, "1.2.3.4");
    assert_eq!(fields.ttl, "600");
    assert_eq!(fields.prio, None);

    let fields =
        resolve_fields_for_create(&desired(managed("mail"), managed("60"), Some(initial("5"))))
            .expect("must resolve");
    assert_eq!(fields.ttl, "60");
    assert_eq!(fields.prio, Some("5".to_string()));

    let fields =
        resolve_fields_for_create(&desired(managed("mail"), managed("60"), Some(unresolved())))
            .expect("must resolve");
    assert_eq!(fields.prio, None);
}

#[test]
fn new_records_that_do_not_resolve() {
    let failure = |rec: DesiredRecord| match resolve_fields_for_create(&rec) {
        Ok(_) => panic!("must not resolve"),
        Err(e) => e,
    };
    assert_eq!(
        failure(desired(unmanaged(), managed("60"), None)),
        failed("content field must be Managed or Initial")
    );
    assert_eq!(failure(desired(unresolved(), managed("60"), None)), failed("no such file"));
    assert_eq!(failure(desired(managed("x"), unresolved(), None)), failed("no such file"));
}

#[test]
fn effective_values() {
    assert_eq!(effective_value(&managed("new"), "old"), "new");
    assert_eq!(effective_value(&initial("new"), "old"), "old");
    assert_eq!(effective_value(&initial("new"), ""), "new");
    assert_eq!(effective_value(&unmanaged(), "old"), "old");
    assert_eq!(effective_value(&unresolved(), "old"), "old");
    let number = Ok(ResolvedFieldValue::Managed(Json::Number(JsonNumber::Unsigned(900))));
    assert_eq!(effective_value(&number, "old"), "900");
}

#[test]
fn edits_and_their_changes() {
    let want = desired(managed("5.6.7.8"), unmanaged(), Some(initial("10")));
    let have = live("1", "1.2.3.4", "300", None);
    assert_eq!(
        managed_field_diffs(&want, &have),
        vec![change("content", Some("1.2.3.4"), "5.6.7.8"), change("prio", Some(""), "10")]
    );
    let fields = resolve_fields_for_edit(&want, &have);
    assert_eq!(fields.content, "5.6.7.8");
    assert_eq!(fields.ttl, "300");
    assert_eq!(fields.prio, Some("10".to_string()));

    // Once the edit is live, nothing is left to change.
    assert_eq!(
        managed_field_diffs(&want, &live("1", "5.6.7.8", "300", Some("10"))),
        Vec::new()
    );
}

#[test]
fn fields_that_are_left_alone_do_not_change() {
    let want = desired(initial("x"), unresolved(), Some(unmanaged()));
    let have = live("1", "1.2.3.4", "300", Some("7"));
    assert_eq!(managed_field_diffs(&want, &have), Vec::new());
    let fields = resolve_fields_for_edit(&want, &have);
    assert_eq!(fields.content, "1.2.3.4");
    assert_eq!(fields.ttl, "300");
    assert_eq!(fields.prio, Some("7".to_string()));
}

#[test]
fn changes_of_a_new_record() {
    let mut fields = RecordFields {
        content: "1.2.3.4".to_string(),
        ttl: "600".to_string(),
        prio: None,
    };
    assert_eq!(
        add_field_diffs(&fields),
        vec![change("content", None, "1.2.3.4"), change("ttl", None, "600")]
    );
    fields.prio = Some("10".to_string());
    assert_eq!(add_field_diffs(&fields)[2], change("prio", None, "10"));
}

// ---- Exemptions ----

#[test]
fn truthiness() {
    assert!(!is_truthy(&Json::Null));
    assert!(!is_truthy(&Json::Bool(false)));
    assert!(is_truthy(&Json::Bool(true)));
    assert!(is_truthy(&Json::Number(JsonNumber::Unsigned(0))));
    assert!(is_truthy(&Json::String(String::new())));
}

#[test]
fn one_truthy_result_exempts() {
    assert!(!is_ignored(&Vec::new()));
    assert!(!is_ignored(&vec![None, Some(Json::Null), Some(Json::Bool(false))]));
    assert!(is_ignored(&vec![None, Some(Json::Bool(true)), Some(Json::Null)]));
}

#[test]
fn ignore_expressions_see_the_key() {
    assert_eq!(
        ignore_input("A/www").text(),
        "{\"key\":\"A/www\",\"resource_id\":\"A/www\"}"
    );
}

#[test]
fn ignore_expressions_resolve_or_fail() {
    assert_eq!(
        resolve_ignore_exprs(&vec![Ok(".key".to_string()), Ok("true".to_string())]),
        Ok(vec![".key".to_string(), "true".to_string()])
    );
    assert_eq!(
        resolve_ignore_exprs(&vec![Ok(".key".to_string()), Err("no such file".to_string())]),
        Err(failed("Failed to resolve ignore expression: no such file"))
    );
}

// ---- Plans ----

#[test]
fn a_plan_adds_modifies_and_deletes() {
    let (changes, steps) = diff(
        &desired_map(vec![
            ("A/new", desired(managed("1.1.1.1"), managed("600"), None)),
            ("A/www", desired(managed("2.2.2.2"), managed("600"), None)),
            ("A/same", desired(managed("3.3.3.3"), unmanaged(), None)),
        ]),
        &live_map(vec![
            ("A/www", live("1", "1.2.3.4", "600", None)),
            ("A/same", live("2", "3.3.3.3", "60", None)),
            ("A/old", live("3", "4.4.4.4", "600", None)),
            ("A/kept", live("4", "5.5.5.5", "600", None)),
            ("odd", live("5", "6.6.6.6", "600", None)),
        ]),
        "example.com",
        &Vec::new(),
        &vec![
            Vec::new(),
            Vec::new(),
            vec![Some(Json::Bool(false))],
            vec![Some(Json::Bool(true))],
            vec![None],
        ],
    )
    .expect("must plan");

    assert_eq!(
        changes,
        vec![
            ResourceChange::Add {
                resource_id: "A/new".to_string(),
                fields: vec![change("content", None, "1.1.1.1"), change("ttl", None, "600")],
            },
            ResourceChange::Modify {
                resource_id: "A/www".to_string(),
                field_changes: vec![change("content", Some("1.2.3.4"), "2.2.2.2")],
            },
            ResourceChange::Delete { resource_id: "A/old".to_string() },
            ResourceChange::Delete { resource_id: "odd".to_string() },
        ]
    );

    assert_eq!(steps.len(), 4);
    assert_eq!(steps[0].description, "Create A record new.example.com");
    assert_eq!(steps[0].command, "POST /dns/create/example.com");
    assert_eq!(steps[0].body, None);
    assert_eq!(
        steps[0].operation,
        PorkbunOperation::Create {
            domain: "example.com".to_string(),
            name: "new".to_string(),
            record_type: "A".to_string(),
            content: "1.1.1.1".to_string(),
            ttl: "600".to_string(),
            prio: None,
        }
        .to_json()
    );
    assert_eq!(steps[1].description, "Edit A record www.example.com");
    assert_eq!(steps[1].command, "POST /dns/edit/example.com/1");
    assert_eq!(
        steps[1].operation.text(),
        "{\"action\":\"edit\",\"domain\":\"example.com\",\"id\":\"1\",\"name\":\"www\",\
         \"record_type\":\"A\",\"content\":\"2.2.2.2\",\"ttl\":\"600\",\"prio\":null}"
    );
    assert_eq!(steps[2].description, "Delete A record old.example.com");
    assert_eq!(steps[2].command, "POST /dns/delete/example.com/3");
    assert_eq!(
        steps[2].operation.text(),
        "{\"action\":\"delete\",\"domain\":\"example.com\",\"id\":\"3\",\"name\":\"old\",\
         \"record_type\":\"A\"}"
    );
    // A key without a slash falls back to what the live record says.
    assert_eq!(steps[3].description, "Delete A record www.example.com.example.com");
}

#[test]
fn agreeing_states_need_nothing() {
    assert_eq!(
        diff(
            &desired_map(vec![("A/www", desired(managed("1.2.3.4"), unmanaged(), None))]),
            &live_map(vec![("A/www", live("1", "1.2.3.4", "600", None))]),
            "example.com",
            &Vec::new(),
            &vec![Vec::new()],
        ),
        Ok((Vec::new(), Vec::new()))
    );
}

#[test]
fn plans_that_fail() {
    let no_desired: Result<Entries<DesiredRecord>, String> = Err("bad desired".to_string());
    assert_eq!(
        diff(&no_desired, &Err("bad live".to_string()), "example.com", &Vec::new(), &Vec::new()),
        Err(ProviderError::DesiredStateParse("bad desired".to_string()))
    );
    assert_eq!(
        diff(
            &desired_map(Vec::new()),
            &Err("bad live".to_string()),
            "example.com",
            &Vec::new(),
            &Vec::new()
        ),
        Err(ProviderError::LiveStateParse("bad live".to_string()))
    );
    assert_eq!(
        diff(
            &desired_map(Vec::new()),
            &live_map(Vec::new()),
            "example.com",
            &vec![Err("no such file".to_string())],
            &Vec::new()
        ),
        Err(failed("Failed to resolve ignore expression: no such file"))
    );
    assert_eq!(
        diff(
            &desired_map(vec![("no \"slash\"", desired(managed("x"), unmanaged(), None))]),
            &live_map(Vec::new()),
            "example.com",
            &Vec::new(),
            &Vec::new()
        ),
        Err(ProviderError::DesiredStateParse(
            "Record key \"no \\\"slash\\\"\" must be in <type>/<name> format".to_string()
        ))
    );
}
