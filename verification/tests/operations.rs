//! Identities, the live index, and the operations of single changes.

use nix_hapi_provider_porkbun_lib::error::ProviderError;
use nix_hapi_provider_porkbun_lib::json::{Json, JsonNumber};
use nix_hapi_provider_porkbun_lib::operation::{
    build_live_index, diff_node_to_op, live_record_bodies, parse_provider_key_entry,
    relative_name, LiveRecord, PorkbunOperation, RecordIdent,
};
use nix_hapi_provider_porkbun_lib::plan::{DiffNode, FieldDiff, FieldTarget, Status};
use nix_hapi_provider_porkbun_lib::provider::{build_step, describe};

fn string(s: &str) -> Json {
    Json::String(s.to_string())
}

fn object(members: Vec<(&str, Json)>) -> Json {
    Json::Object(members.into_iter().map(|(k, v)| (k.to_string(), v)).collect())
}

fn entry(record_type: &str, name: &str, content: &str) -> Json {
    object(vec![
        ("type", string(record_type)),
        ("name", string(name)),
        ("content", string(content)),
    ])
}

fn ident(record_type: &str, name: &str, content: Option<&str>) -> RecordIdent {
    RecordIdent {
        record_type: record_type.to_string(),
        name: name.to_string(),
        content: content.map(|c| c.to_string()),
    }
}

fn live_mx() -> LiveRecord {
    LiveRecord {
        id: "5".to_string(),
        name: "example.com".to_string(),
        record_type: "MX".to_string(),
        content: "mail.example.com".to_string(),
        ttl: "3600".to_string(),
        prio: Some("10".to_string()),
    }
}

fn node(key: Json) -> Json {
    object(vec![
        ("__nixhapi", object(vec![("providerKey", Json::Array(vec![key]))])),
        ("id", string("5")),
        ("ttl", string("3600")),
    ])
}

fn live_tree() -> Json {
    object(vec![("anything", node(entry("MX", "@", "mail.example.com")))])
}

fn operation_of(
    provider_key: Vec<Json>,
    status: Status,
    field_changes: Vec<FieldDiff>,
) -> Result<PorkbunOperation, ProviderError> {
    let index = build_live_index(&live_tree(), &vec![Ok(live_mx())]).expect("must index");
    let change = DiffNode { provider_key, status, field_changes };
    diff_node_to_op(&change, "example.com", &index)
}

fn set(field: &str, value: Json) -> FieldDiff {
    FieldDiff { field: field.to_string(), to: FieldTarget::Value { value } }
}

fn removed(field: &str) -> FieldDiff {
    FieldDiff { field: field.to_string(), to: FieldTarget::Removed }
}

fn failed(message: &str) -> ProviderError {
    ProviderError::OperationFailed(message.to_string())
}

// ---- Names ----

#[test]
fn relative_names() {
    assert_eq!(relative_name("example.com", "example.com"), "@");
    assert_eq!(relative_name("www.example.com", "example.com"), "www");
    assert_eq!(relative_name("a.b.example.com", "example.com"), "a.b");
    assert_eq!(relative_name(".example.com", "example.com"), "");
    assert_eq!(relative_name("badexample.com", "example.com"), "badexample.com");
    assert_eq!(relative_name("other.org", "example.com"), "other.org");
    assert_eq!(relative_name("münchen.exämple.com", "exämple.com"), "münchen");
}

// ---- Identities ----

#[test]
fn display_texts() {
    assert_eq!(ident("A", "www", Some("1.2.3.4")).display(), "A/www/1.2.3.4");
    assert_eq!(ident("A", "www", None).display(), "A/www");
    assert_eq!(ident("A", "www", Some("")).display(), "A/www/");
    assert_eq!(ident("MX", "@", Some("mail")).lookup_key(), "MX/@/mail");
}

#[test]
fn provider_key_entries_read_back() {
    assert_eq!(
        parse_provider_key_entry(&entry("A", "www", "1.2.3.4")),
        Ok(ident("A", "www", Some("1.2.3.4")))
    );
    assert_eq!(
        parse_provider_key_entry(&object(vec![("type", string("A")), ("name", string("www"))])),
        Ok(ident("A", "www", None))
    );
    assert_eq!(
        parse_provider_key_entry(&object(vec![
            ("type", string("A")),
            ("name", string("www")),
            ("content", Json::Null),
        ])),
        Ok(ident("A", "www", None))
    );
}

#[test]
fn malformed_provider_key_entries() {
    assert_eq!(
        parse_provider_key_entry(&string("A/\"www\"")),
        Err(failed(
            "Porkbun providerKey entry must be an object {type, name, content}, got \
             \"A/\\\"www\\\"\""
        ))
    );
    assert_eq!(
        parse_provider_key_entry(&Json::Array(vec![Json::Null, Json::Bool(true)])),
        Err(failed(
            "Porkbun providerKey entry must be an object {type, name, content}, got [null,true]"
        ))
    );
    assert_eq!(
        parse_provider_key_entry(&object(vec![("name", string("www"))])),
        Err(failed("Porkbun providerKey entry is missing string field \"type\""))
    );
    assert_eq!(
        parse_provider_key_entry(&object(vec![("type", Json::Null), ("name", string("www"))])),
        Err(failed("Porkbun providerKey entry is missing string field \"type\""))
    );
    assert_eq!(
        parse_provider_key_entry(&object(vec![("type", string("A"))])),
        Err(failed("Porkbun providerKey entry is missing string field \"name\""))
    );
    assert_eq!(
        parse_provider_key_entry(&object(vec![
            ("type", string("A")),
            ("name", string("www")),
            ("content", Json::Number(JsonNumber::Unsigned(7))),
        ])),
        Err(failed("Porkbun providerKey entry \"content\" must be a string or null, got 7"))
    );
}

// ---- The live index ----

#[test]
fn live_bodies_leave_out_metadata_and_what_is_no_object() {
    let live = object(vec![("x", string("no object")), ("y", node(entry("A", "www", "1")))]);
    assert_eq!(
        live_record_bodies(&live),
        vec![object(vec![("id", string("5")), ("ttl", string("3600"))])]
    );
    assert_eq!(live_record_bodies(&Json::Null), Vec::new());
    assert_eq!(live_record_bodies(&string("text")), Vec::new());
}

#[test]
fn live_index_goes_by_provider_key() {
    let index = build_live_index(&live_tree(), &vec![Ok(live_mx())]).expect("must index");
    assert_eq!(index.len(), 1);
    assert_eq!(index.get("MX/@/mail.example.com"), Some(&live_mx()));
    assert_eq!(index.get("anything"), None);
    assert_eq!(build_live_index(&Json::Null, &Vec::new()).expect("must index").len(), 0);
}

#[test]
fn malformed_live_states() {
    let fails = |live: Json, decoded: Vec<Result<LiveRecord, String>>| -> ProviderError {
        match build_live_index(&live, &decoded) {
            Ok(_) => panic!("must not index"),
            Err(e) => e,
        }
    };
    assert_eq!(
        fails(Json::Bool(true), Vec::new()),
        ProviderError::LiveStateParse("expected an object at the top of live state".to_string())
    );
    assert_eq!(
        fails(object(vec![("x", object(vec![]))]), vec![Ok(live_mx())]),
        ProviderError::LiveStateParse("live-state record is missing __nixhapi block".to_string())
    );
    let no_list = "live-state __nixhapi.providerKey must be a non-empty list";
    assert_eq!(
        fails(
            object(vec![("x", object(vec![("__nixhapi", object(vec![]))]))]),
            vec![Ok(live_mx())]
        ),
        ProviderError::LiveStateParse(no_list.to_string())
    );
    assert_eq!(
        fails(
            object(vec![(
                "x",
                object(vec![("__nixhapi", object(vec![("providerKey", Json::Array(vec![]))]))])
            )]),
            vec![Ok(live_mx())]
        ),
        ProviderError::LiveStateParse(no_list.to_string())
    );
    assert_eq!(
        fails(object(vec![("x", node(Json::Null))]), vec![Ok(live_mx())]),
        ProviderError::LiveStateParse(
            "live-state providerKey head: Porkbun providerKey entry must be an object \
             {type, name, content}, got null"
                .to_string()
        )
    );
    assert_eq!(
        fails(live_tree(), vec![Err("missing field `name`".to_string())]),
        ProviderError::LiveStateParse(
            "live record for providerKey MX/@/mail.example.com: missing field `name`".to_string()
        )
    );
}

// ---- Creation ----

#[test]
fn a_creation_prefers_the_content_of_the_change() {
    assert_eq!(
        operation_of(
            vec![entry("TXT", "@", "from the key")],
            Status::Add,
            vec![
                set("content", string("first")),
                set("content", string("last")),
                set("ttl", Json::Number(JsonNumber::Unsigned(18446744073709551615))),
                set("prio", Json::Number(JsonNumber::Signed(-5))),
            ],
        ),
        Ok(PorkbunOperation::Create {
            domain: "example.com".to_string(),
            name: "@".to_string(),
            record_type: "TXT".to_string(),
            content: "last".to_string(),
            ttl: "18446744073709551615".to_string(),
            prio: Some("-5".to_string()),
        })
    );
}

#[test]
fn a_creation_falls_back_where_fields_are_removed() {
    assert_eq!(
        operation_of(
            vec![entry("A", "www", "1.2.3.4")],
            Status::Add,
            vec![removed("content"), removed("ttl"), removed("prio")],
        ),
        Ok(PorkbunOperation::Create {
            domain: "example.com".to_string(),
            name: "www".to_string(),
            record_type: "A".to_string(),
            content: "1.2.3.4".to_string(),
            ttl: "600".to_string(),
            prio: None,
        })
    );
}

#[test]
fn a_creation_needs_a_content() {
    assert_eq!(
        operation_of(
            vec![object(vec![("type", string("A")), ("name", string("www"))])],
            Status::Add,
            Vec::new(),
        ),
        Err(failed(
            "Add of A/www: no content available from either the diff or the providerKey"
        ))
    );
}

#[test]
fn unsupported_fields_and_values() {
    let key = vec![entry("A", "www", "1.2.3.4")];
    assert_eq!(
        operation_of(key, Status::Add, vec![set("no\"tes", string("x"))]),
        Err(failed("unsupported Porkbun field \"no\\\"tes\" in diff"))
    );
    let key = vec![entry("A", "www", "1.2.3.4")];
    assert_eq!(
        operation_of(
            key,
            Status::Add,
            vec![set("ttl", object(vec![("a", Json::Array(vec![string("b")]))]))]
        ),
        Err(failed("field \"ttl\" must be a string, got {\"a\":[\"b\"]}"))
    );
    let key = vec![entry("A", "www", "1.2.3.4")];
    assert_eq!(
        operation_of(key, Status::Add, vec![set("ttl", Json::Number(JsonNumber::Float(
            "1.5".to_string()
        )))]),
        Ok(PorkbunOperation::Create {
            domain: "example.com".to_string(),
            name: "www".to_string(),
            record_type: "A".to_string(),
            content: "1.2.3.4".to_string(),
            ttl: "1.5".to_string(),
            prio: None,
        })
    );
}

// ---- Edits ----

#[test]
fn an_edit_keeps_what_the_change_does_not_mention() {
    assert_eq!(
        operation_of(
            vec![entry("MX", "@", "mail.example.com")],
            Status::Modify,
            vec![set("ttl", string("900"))],
        ),
        Ok(PorkbunOperation::Edit {
            domain: "example.com".to_string(),
            id: "5".to_string(),
            name: "@".to_string(),
            record_type: "MX".to_string(),
            content: "mail.example.com".to_string(),
            ttl: "900".to_string(),
            prio: Some("10".to_string()),
        })
    );
}

#[test]
fn an_edit_removes_a_priority_but_not_a_ttl() {
    assert_eq!(
        operation_of(
            vec![entry("MX", "@", "mail.example.com")],
            Status::Modify,
            vec![removed("ttl"), removed("prio")],
        ),
        Ok(PorkbunOperation::Edit {
            domain: "example.com".to_string(),
            id: "5".to_string(),
            name: "@".to_string(),
            record_type: "MX".to_string(),
            content: "mail.example.com".to_string(),
            ttl: "3600".to_string(),
            prio: None,
        })
    );
}

#[test]
fn a_rename_takes_on_the_head_identity() {
    let head = object(vec![("type", string("CNAME")), ("name", string("new"))]);
    let operation = operation_of(
        vec![head],
        Status::Rename { chain: vec![entry("MX", "@", "mail.example.com"), Json::Null] },
        Vec::new(),
    );
    assert_eq!(
        operation,
        Ok(PorkbunOperation::Edit {
            domain: "example.com".to_string(),
            id: "5".to_string(),
            name: "new".to_string(),
            record_type: "CNAME".to_string(),
            content: "mail.example.com".to_string(),
            ttl: "3600".to_string(),
            prio: Some("10".to_string()),
        })
    );
}

#[test]
fn malformed_changes() {
    assert_eq!(
        operation_of(Vec::new(), Status::Delete, Vec::new()),
        Err(failed("Porkbun providerKey must be a non-empty list"))
    );
    assert_eq!(
        operation_of(
            vec![entry("A", "www", "1.2.3.4")],
            Status::Rename { chain: Vec::new() },
            Vec::new()
        ),
        Err(failed("Rename chain must be a non-empty list"))
    );
    assert_eq!(
        operation_of(vec![entry("A", "www", "1.2.3.4")], Status::Delete, Vec::new()),
        Err(failed("No live Porkbun record found for providerKey A/www/1.2.3.4"))
    );
}

// ---- The carried form ----

#[test]
fn carried_forms() {
    let create = PorkbunOperation::Create {
        domain: "example.com".to_string(),
        name: "www".to_string(),
        record_type: "A".to_string(),
        content: "1.2.3.4".to_string(),
        ttl: "600".to_string(),
        prio: None,
    };
    assert_eq!(
        create.to_json().text(),
        "{\"action\":\"create\",\"domain\":\"example.com\",\"name\":\"www\",\
         \"record_type\":\"A\",\"content\":\"1.2.3.4\",\"ttl\":\"600\",\"prio\":null}"
    );
    let delete = PorkbunOperation::Delete {
        domain: "example.com".to_string(),
        id: "9".to_string(),
        name: "@".to_string(),
        record_type: "TXT".to_string(),
        content: "say \"hi\"\n".to_string(),
    };
    assert_eq!(
        delete.to_json().text(),
        "{\"action\":\"delete\",\"domain\":\"example.com\",\"id\":\"9\",\"name\":\"@\",\
         \"record_type\":\"TXT\",\"content\":\"say \\\"hi\\\"\\n\"}"
    );
    assert_ne!(create.to_json(), delete.to_json());
}

#[test]
fn debug_forms() {
    let operations = vec![
        PorkbunOperation::Create {
            domain: "example.com".to_string(),
            name: "\"q\"".to_string(),
            record_type: "A".to_string(),
            content: "1.2.3.4\n".to_string(),
            ttl: "600".to_string(),
            prio: None,
        },
        PorkbunOperation::Edit {
            domain: "example.com".to_string(),
            id: "5".to_string(),
            name: "@".to_string(),
            record_type: "MX".to_string(),
            content: "mail".to_string(),
            ttl: "600".to_string(),
            prio: Some("10".to_string()),
        },
        PorkbunOperation::Delete {
            domain: "example.com".to_string(),
            id: "5".to_string(),
            name: "@".to_string(),
            record_type: "MX".to_string(),
            content: "é\u{1}".to_string(),
        },
    ];
    for op in &operations {
        assert_eq!(op.debug_form(), format!("{op:?}"));
    }
    assert_eq!(
        operations[1].debug_form(),
        "Edit { domain: \"example.com\", id: \"5\", name: \"@\", record_type: \"MX\", \
         content: \"mail\", ttl: \"600\", prio: Some(\"10\") }"
    );
}

#[test]
fn json_debug_forms_are_those_of_serde_json() {
    let json = object(vec![
        ("a\"", Json::Array(vec![])),
        ("b", object(vec![])),
        (
            "c",
            Json::Array(vec![
                Json::Null,
                Json::Bool(true),
                Json::Bool(false),
                Json::Number(JsonNumber::Unsigned(u64::MAX)),
                Json::Number(JsonNumber::Signed(-1)),
                Json::Number(JsonNumber::Float("0.5".to_string())),
                string("é\u{1}\n"),
            ]),
        ),
        ("d", object(vec![("e", Json::Null), ("f", Json::Null)])),
    ]);
    let value: serde_json::Value =
        serde_json::from_str(&json.text()).expect("the text must be JSON");
    assert_eq!(json.debug_form(), format!("{value:?}"));
    assert_eq!(
        entry("A", "www", "1").debug_form(),
        "Object {\"type\": String(\"A\"), \"name\": String(\"www\"), \
         \"content\": String(\"1\")}"
    );
}

// ---- Descriptions ----

fn bare_change(status: Status) -> DiffNode {
    DiffNode { provider_key: Vec::new(), status, field_changes: Vec::new() }
}

fn deletion() -> PorkbunOperation {
    PorkbunOperation::Delete {
        domain: "example.com".to_string(),
        id: "5".to_string(),
        name: "@".to_string(),
        record_type: "MX".to_string(),
        content: "mail".to_string(),
    }
}

#[test]
fn a_mismatch_is_shown_and_not_worded_as_a_request() {
    let command = "(unrecognised op pairing: Delete { domain: \"example.com\", id: \"5\", \
                   name: \"@\", record_type: \"MX\", content: \"mail\" })";
    for (status, text) in vec![
        (Status::Add, "Porkbun runbook step (Add)"),
        (Status::Modify, "Porkbun runbook step (Modify)"),
        (
            Status::Rename { chain: vec![Json::Null] },
            "Porkbun runbook step (Rename { chain: [Null] })",
        ),
        (
            Status::Rename { chain: vec![object(vec![("a", string("b"))]), Json::Bool(true)] },
            "Porkbun runbook step (Rename { chain: [Object {\"a\": String(\"b\")}, Bool(true)] })",
        ),
        (Status::Rename { chain: Vec::new() }, "Porkbun runbook step (Rename { chain: [] })"),
    ] {
        assert_eq!(
            describe(&bare_change(status), "example.com", &deletion()),
            Ok((text.to_string(), command.to_string()))
        );
    }
}

#[test]
fn a_match_is_worded_as_a_request() {
    assert_eq!(
        describe(&bare_change(Status::Delete), "example.com", &deletion()),
        Ok((
            "Delete MX record @.example.com (mail)".to_string(),
            "POST /dns/delete/example.com/5".to_string()
        ))
    );
}

#[test]
fn a_step_carries_its_operation() {
    let index = build_live_index(&live_tree(), &vec![Ok(live_mx())]).expect("must index");
    let change = DiffNode {
        provider_key: vec![entry("MX", "@", "mail.example.com")],
        status: Status::Delete,
        field_changes: Vec::new(),
    };
    let op = diff_node_to_op(&change, "example.com", &index).expect("must have an operation");
    let step = build_step(&change, "example.com", &index).expect("must have a step");
    assert_eq!(step.operation, op.to_json());
    assert_eq!(step.body, None);
    assert_eq!(
        describe(&change, "example.com", &op),
        Ok((step.description.clone(), step.command.clone()))
    );
}

// ---- JSON text ----

#[test]
fn json_texts_are_those_of_serde_json() {
    let json = object(vec![
        ("a\t\"\\", Json::Array(vec![])),
        ("b", object(vec![])),
        (
            "c",
            Json::Array(vec![
                Json::Null,
                Json::Bool(false),
                Json::Number(JsonNumber::Unsigned(0)),
                Json::Number(JsonNumber::Unsigned(u64::MAX)),
                Json::Number(JsonNumber::Signed(i64::MIN)),
                Json::Number(JsonNumber::Float("0.5".to_string())),
                string("é\u{1}\u{1f}\u{8}\u{c}\r\n/\u{7f}"),
            ]),
        ),
        ("d", object(vec![("e", string("")), ("f", Json::Array(vec![string("g")]))])),
    ]);
    let text = json.text();
    let value: serde_json::Value = serde_json::from_str(&text).expect("the text must be JSON");
    assert_eq!(value.to_string(), text);
    assert_eq!(
        text,
        "{\"a\\t\\\"\\\\\":[],\"b\":{},\"c\":[null,false,0,18446744073709551615,\
         -9223372036854775808,0.5,\"é\\u0001\\u001f\\b\\f\\r\\n/\u{7f}\"],\"d\":{\"e\":\"\",\"f\":[\"g\"]}}"
    );
}
