//! Translation of planned changes into Porkbun operations.
//!
//! A Porkbun DNS record is identified by the triple `(type, name, content)`.
//! Most record types permit several records on the same `(type, name)`, so the
//! triple is the smallest tuple that tells records apart.  It lives in
//! `__nixhapi.providerKey` as an object `{type, name, content}`.
//!
//! A change of `content` is, by default, a change of identity, which reaches
//! this module as a deletion and an addition.  A declared rename is carried out
//! as one edit of the record in place.
use vstd::hash_map::StringHashMap;
use vstd::prelude::*;
use crate::error::{ErrorView, ProviderError};
use crate::json;
use crate::json::{optional_member, string_member, Json, JsonView, Members};
use crate::model;
use crate::plan::{
    DiffNode, DiffNodeView, FieldDiff, FieldDiffView, FieldTarget, FieldTargetView, Status,
    StatusView,
};
use crate::text;
use crate::text::{copy_opt, debug, same, strip_suffix};

verus! {

/// Name of the zone root on the wire.
pub const APEX: &'static str = "@";

/// TTL of a record that the desired state declares without one.
pub const DEFAULT_TTL: &'static str = "600";

/// A live DNS record.
#[derive(Debug, Clone, PartialEq, Eq)]
pub struct LiveRecord {
    /// The identifier that Porkbun assigned.
    pub id: String,
    /// Full name (such as `"www.example.com"`).
    pub name: String,
    pub record_type: String,
    pub content: String,
    pub ttl: String,
    pub prio: Option<String>,
}

/// One API operation, as a runbook step carries it.
#[derive(Debug, Clone, PartialEq, Eq)]
pub enum PorkbunOperation {
    Create {
        domain: String,
        name: String,
        record_type: String,
        content: String,
        ttl: String,
        prio: Option<String>,
    },
    Edit {
        domain: String,
        id: String,
        name: String,
        record_type: String,
        content: String,
        ttl: String,
        prio: Option<String>,
    },
    Delete {
        domain: String,
        id: String,
        /// Kept for human-readable runbook output only.
        name: String,
        record_type: String,
        /// Kept for human-readable runbook output only.
        content: String,
    },
}

/// The identity of a DNS record, as each providerKey entry spells it.
#[derive(Debug, Clone, PartialEq, Eq)]
pub struct RecordIdent {
    pub record_type: String,
    pub name: String,
    /// `None` only where an entry comes without `content`.
    pub content: Option<String>,
}

/// What a live record says.
pub struct LiveRecordView {
    pub id: Seq<char>,
    pub name: Seq<char>,
    pub record_type: Seq<char>,
    pub content: Seq<char>,
    pub ttl: Seq<char>,
    pub prio: Option<Seq<char>>,
}

/// What an operation says.
pub enum OperationView {
    Create {
        domain: Seq<char>,
        name: Seq<char>,
        record_type: Seq<char>,
        content: Seq<char>,
        ttl: Seq<char>,
        prio: Option<Seq<char>>,
    },
    Edit {
        domain: Seq<char>,
        id: Seq<char>,
        name: Seq<char>,
        record_type: Seq<char>,
        content: Seq<char>,
        ttl: Seq<char>,
        prio: Option<Seq<char>>,
    },
    Delete {
        domain: Seq<char>,
        id: Seq<char>,
        name: Seq<char>,
        record_type: Seq<char>,
        content: Seq<char>,
    },
}

/// What an identity says.
pub struct RecordIdentView {
    pub record_type: Seq<char>,
    pub name: Seq<char>,
    pub content: Option<Seq<char>>,
}

impl View for LiveRecord {
    type V = LiveRecordView;

    open spec fn view(&self) -> LiveRecordView {
        LiveRecordView {
            id: self.id@,
            name: self.name@,
            record_type: self.record_type@,
            content: self.content@,
            ttl: self.ttl@,
            prio: model::opt_view(self.prio),
        }
    }
}

impl View for PorkbunOperation {
    type V = OperationView;

    open spec fn view(&self) -> OperationView {
        match self {
            PorkbunOperation::Create { domain, name, record_type, content, ttl, prio } => {
                OperationView::Create {
                    domain: domain@,
                    name: name@,
                    record_type: record_type@,
                    content: content@,
                    ttl: ttl@,
                    prio: model::opt_view(*prio),
                }
            },
            PorkbunOperation::Edit { domain, id, name, record_type, content, ttl, prio } => {
                OperationView::Edit {
                    domain: domain@,
                    id: id@,
                    name: name@,
                    record_type: record_type@,
                    content: content@,
                    ttl: ttl@,
                    prio: model::opt_view(*prio),
                }
            },
            PorkbunOperation::Delete { domain, id, name, record_type, content } => {
                OperationView::Delete {
                    domain: domain@,
                    id: id@,
                    name: name@,
                    record_type: record_type@,
                    content: content@,
                }
            },
        }
    }
}

impl View for RecordIdent {
    type V = RecordIdentView;

    open spec fn view(&self) -> RecordIdentView {
        RecordIdentView {
            record_type: self.record_type@,
            name: self.name@,
            content: model::opt_view(self.content),
        }
    }
}

/// The name of a record within its zone: `"@"` for the zone root, the part
/// before the domain for a name under it, and any other name as it is.
pub open spec fn relative(fqdn: Seq<char>, domain: Seq<char>) -> Seq<char> {
    let suffix = "."@ + domain;
    if fqdn == domain {
        APEX@
    } else if text::ends_in(fqdn, suffix) {
        fqdn.take(fqdn.len() - suffix.len())
    } else {
        fqdn
    }
}

/// `"<type>/<name>"` or `"<type>/<name>/<content>"`.
pub open spec fn display_text(ident: RecordIdentView) -> Seq<char> {
    match ident.content {
        Some(content) => ident.record_type + "/"@ + ident.name + "/"@ + content,
        None => ident.record_type + "/"@ + ident.name,
    }
}

/// The identity that a providerKey entry spells, or what is wrong with it.
pub open spec fn entry_ident(entry: JsonView) -> Result<RecordIdentView, Seq<char>> {
    if !(entry is Object) {
        Err(
            "Porkbun providerKey entry must be an object {type, name, content}, got "@
                + json::json_text(entry),
        )
    } else {
        match (
            json::string_of(json::member(entry, "type"@)),
            json::string_of(json::member(entry, "name"@)),
            json::member(entry, "content"@),
        ) {
            (None, _, _) => Err("Porkbun providerKey entry is missing string field \"type\""@),
            (_, None, _) => Err("Porkbun providerKey entry is missing string field \"name\""@),
            (Some(record_type), Some(name), None) => Ok(
                RecordIdentView { record_type, name, content: None },
            ),
            (Some(record_type), Some(name), Some(JsonView::Null)) => Ok(
                RecordIdentView { record_type, name, content: None },
            ),
            (Some(record_type), Some(name), Some(JsonView::String(content))) => Ok(
                RecordIdentView { record_type, name, content: Some(content) },
            ),
            (_, _, Some(other)) => Err(
                "Porkbun providerKey entry \"content\" must be a string or null, got "@
                    + json::json_text(other),
            ),
        }
    }
}

/// [`entry_ident`], with a failure of the operation in place of the message.
pub open spec fn provider_key_entry(entry: JsonView) -> Result<RecordIdentView, ErrorView> {
    match entry_ident(entry) {
        Ok(ident) => Ok(ident),
        Err(message) => Err(ErrorView::OperationFailed(message)),
    }
}

/// The fields that a change names.  For each, `None` stands for a field that
/// the change does not mention, `Some(None)` for one that it removes, and
/// `Some(Some(value))` for one that it sets.
pub struct DesiredFieldsView {
    pub content: Option<Option<Seq<char>>>,
    pub ttl: Option<Option<Seq<char>>>,
    pub prio: Option<Option<Seq<char>>>,
}

/// The slot of a field, by its name.
pub open spec fn slot(fields: DesiredFieldsView, field: Seq<char>) -> Option<Option<Seq<char>>> {
    if field == "content"@ {
        fields.content
    } else if field == "ttl"@ {
        fields.ttl
    } else if field == "prio"@ {
        fields.prio
    } else {
        None
    }
}

/// The value that a slot sets, where it sets one.
pub open spec fn set_value(slot: Option<Option<Seq<char>>>) -> Option<Seq<char>> {
    match slot {
        Some(value) => value,
        None => None,
    }
}

/// The text of a field value: a string is itself, a number is its notation.
pub open spec fn value_text(field: Seq<char>, value: JsonView) -> Result<Seq<char>, ErrorView> {
    match value {
        JsonView::String(s) => Ok(s),
        JsonView::Number(n) => Ok(n),
        other => Err(
            ErrorView::OperationFailed(
                "field "@ + text::debug_text(field) + " must be a string, got "@ + json::json_text(
                    other,
                ),
            ),
        ),
    }
}

/// What one field change wants: a text, or the removal of the field.
pub open spec fn field_target(diff: FieldDiffView) -> Result<Option<Seq<char>>, ErrorView> {
    match diff.to {
        FieldTargetView::Value { value } => match value_text(diff.field, value) {
            Ok(t) => Ok(Some(t)),
            Err(e) => Err(e),
        },
        FieldTargetView::Removed => Ok(None),
        FieldTargetView::DerivedPlaceholder => Err(
            ErrorView::OperationFailed(
                "field "@ + text::debug_text(diff.field)
                    + " carries an unresolved derivedFrom placeholder; Porkbun does not support derivedFrom inputs"@,
            ),
        ),
    }
}

/// `fields` with one field changed.
pub open spec fn with_field(
    fields: DesiredFieldsView,
    field: Seq<char>,
    target: Option<Seq<char>>,
) -> Result<DesiredFieldsView, ErrorView> {
    if field == "content"@ {
        Ok(DesiredFieldsView { content: Some(target), ..fields })
    } else if field == "ttl"@ {
        Ok(DesiredFieldsView { ttl: Some(target), ..fields })
    } else if field == "prio"@ {
        Ok(DesiredFieldsView { prio: Some(target), ..fields })
    } else {
        Err(
            ErrorView::OperationFailed(
                "unsupported Porkbun field "@ + text::debug_text(field) + " in diff"@,
            ),
        )
    }
}

/// No field mentioned.
pub open spec fn no_fields() -> DesiredFieldsView {
    DesiredFieldsView { content: None, ttl: None, prio: None }
}

/// The fields that a list of changes names, a later mention of a field
/// replacing an earlier one; or the failure of the first change that has one.
pub open spec fn desired_fields(diffs: Seq<FieldDiffView>) -> Result<DesiredFieldsView, ErrorView>
    decreases diffs.len(),
{
    if diffs.len() == 0 {
        Ok(no_fields())
    } else {
        match desired_fields(diffs.drop_last()) {
            Err(e) => Err(e),
            Ok(fields) => match field_target(diffs.last()) {
                Err(e) => Err(e),
                Ok(target) => with_field(fields, diffs.last().field, target),
            },
        }
    }
}

/// The live record of an identity.
pub open spec fn live_record(
    ident: RecordIdentView,
    index: Map<Seq<char>, LiveRecordView>,
) -> Result<LiveRecordView, ErrorView> {
    if index.contains_key(display_text(ident)) {
        Ok(index[display_text(ident)])
    } else {
        Err(
            ErrorView::OperationFailed(
                "No live Porkbun record found for providerKey "@ + display_text(ident),
            ),
        )
    }
}

/// The first of two optional values that is there.
pub open spec fn first_of(a: Option<Seq<char>>, b: Option<Seq<char>>) -> Option<Seq<char>> {
    match a {
        Some(v) => Some(v),
        None => b,
    }
}

/// An optional value, or what stands in for it.
pub open spec fn or_else(a: Option<Seq<char>>, b: Seq<char>) -> Seq<char> {
    match a {
        Some(v) => v,
        None => b,
    }
}

/// The creation of a record.  Its content is the one that the change sets,
/// else the one of its identity; there is no creation without a content.
pub open spec fn create_op(
    domain: Seq<char>,
    target: RecordIdentView,
    diffs: Seq<FieldDiffView>,
) -> Result<OperationView, ErrorView> {
    match desired_fields(diffs) {
        Err(e) => Err(e),
        Ok(fields) => match first_of(set_value(fields.content), target.content) {
            None => Err(
                ErrorView::OperationFailed(
                    "Add of "@ + display_text(target)
                        + ": no content available from either the diff or the providerKey"@,
                ),
            ),
            Some(content) => Ok(
                OperationView::Create {
                    domain,
                    name: target.name,
                    record_type: target.record_type,
                    content,
                    ttl: or_else(set_value(fields.ttl), DEFAULT_TTL@),
                    prio: set_value(fields.prio),
                },
            ),
        },
    }
}

/// The edit that gives the live record the identity `target`.  What the change
/// does not mention keeps its live value.
pub open spec fn edit_op(
    domain: Seq<char>,
    target: RecordIdentView,
    live: LiveRecordView,
    diffs: Seq<FieldDiffView>,
) -> Result<OperationView, ErrorView> {
    match desired_fields(diffs) {
        Err(e) => Err(e),
        Ok(fields) => Ok(
            OperationView::Edit {
                domain,
                id: live.id,
                name: target.name,
                record_type: target.record_type,
                content: or_else(first_of(target.content, set_value(fields.content)), live.content),
                ttl: or_else(set_value(fields.ttl), live.ttl),
                prio: if fields.prio is Some {
                    set_value(fields.prio)
                } else {
                    live.prio
                },
            },
        ),
    }
}

/// The operation that carries out a planned change.
pub open spec fn operation_for(
    node: DiffNodeView,
    domain: Seq<char>,
    index: Map<Seq<char>, LiveRecordView>,
) -> Result<OperationView, ErrorView> {
    if node.provider_key.len() == 0 {
        Err(ErrorView::OperationFailed("Porkbun providerKey must be a non-empty list"@))
    } else {
        match provider_key_entry(node.provider_key[0]) {
            Err(e) => Err(e),
            Ok(head) => match node.status {
                StatusView::Add => create_op(domain, head, node.field_changes),
                StatusView::Modify => match live_record(head, index) {
                    Err(e) => Err(e),
                    Ok(live) => edit_op(domain, head, live, node.field_changes),
                },
                StatusView::Rename { chain } => if chain.len() == 0 {
                    Err(ErrorView::OperationFailed("Rename chain must be a non-empty list"@))
                } else {
                    match provider_key_entry(chain[0]) {
                        Err(e) => Err(e),
                        Ok(old) => match live_record(old, index) {
                            Err(e) => Err(e),
                            Ok(live) => edit_op(domain, head, live, node.field_changes),
                        },
                    }
                },
                StatusView::Delete => match live_record(head, index) {
                    Err(e) => Err(e),
                    Ok(live) => Ok(
                        OperationView::Delete {
                            domain,
                            id: live.id,
                            name: head.name,
                            record_type: head.record_type,
                            content: live.content,
                        },
                    ),
                },
            },
        }
    }
}

/// What a live index holds.
pub open spec fn index_view(index: Map<Seq<char>, LiveRecord>) -> Map<Seq<char>, LiveRecordView> {
    index.map_values(|record: LiveRecord| record@)
}

/// An optional text as `{:?}` shows it.
pub open spec fn optional_debug(value: Option<Seq<char>>) -> Seq<char> {
    match value {
        Some(s) => "Some("@ + text::debug_text(s) + ")"@,
        None => "None"@,
    }
}

/// An operation as `{:?}` shows it.
pub open spec fn operation_debug(op: OperationView) -> Seq<char> {
    match op {
        OperationView::Create { domain, name, record_type, content, ttl, prio } => {
            "Create { domain: "@ + text::debug_text(domain) + ", name: "@ + text::debug_text(name)
                + ", record_type: "@ + text::debug_text(record_type) + ", content: "@
                + text::debug_text(content) + ", ttl: "@ + text::debug_text(ttl) + ", prio: "@
                + optional_debug(prio) + " }"@
        },
        OperationView::Edit { domain, id, name, record_type, content, ttl, prio } => {
            "Edit { domain: "@ + text::debug_text(domain) + ", id: "@ + text::debug_text(id)
                + ", name: "@ + text::debug_text(name) + ", record_type: "@
                + text::debug_text(record_type) + ", content: "@ + text::debug_text(content)
                + ", ttl: "@ + text::debug_text(ttl) + ", prio: "@ + optional_debug(prio) + " }"@
        },
        OperationView::Delete { domain, id, name, record_type, content } => {
            "Delete { domain: "@ + text::debug_text(domain) + ", id: "@ + text::debug_text(id)
                + ", name: "@ + text::debug_text(name) + ", record_type: "@
                + text::debug_text(record_type) + ", content: "@ + text::debug_text(content)
                + " }"@
        },
    }
}

/// An operation in the form in which a runbook step carries it: an object with
/// the kind of the operation under `action` and every field by its name.
pub open spec fn operation_json(op: OperationView) -> JsonView {
    match op {
        OperationView::Create { domain, name, record_type, content, ttl, prio } => JsonView::Object(
            seq![
                ("action"@, JsonView::String("create"@)),
                ("domain"@, JsonView::String(domain)),
                ("name"@, JsonView::String(name)),
                ("record_type"@, JsonView::String(record_type)),
                ("content"@, JsonView::String(content)),
                ("ttl"@, JsonView::String(ttl)),
                ("prio"@, json::string_or_null(prio)),
            ],
        ),
        OperationView::Edit { domain, id, name, record_type, content, ttl, prio } => JsonView::Object(
            seq![
                ("action"@, JsonView::String("edit"@)),
                ("domain"@, JsonView::String(domain)),
                ("id"@, JsonView::String(id)),
                ("name"@, JsonView::String(name)),
                ("record_type"@, JsonView::String(record_type)),
                ("content"@, JsonView::String(content)),
                ("ttl"@, JsonView::String(ttl)),
                ("prio"@, json::string_or_null(prio)),
            ],
        ),
        OperationView::Delete { domain, id, name, record_type, content } => JsonView::Object(
            seq![
                ("action"@, JsonView::String("delete"@)),
                ("domain"@, JsonView::String(domain)),
                ("id"@, JsonView::String(id)),
                ("name"@, JsonView::String(name)),
                ("record_type"@, JsonView::String(record_type)),
                ("content"@, JsonView::String(content)),
            ],
        ),
    }
}

/// The members of the first `n` members that are objects.
pub open spec fn object_bodies(members: Members, n: nat) -> Seq<Members>
    decreases n,
{
    if n == 0 {
        Seq::empty()
    } else {
        let before = object_bodies(members, (n - 1) as nat);
        match members[n - 1].1 {
            JsonView::Object(body) => before.push(body),
            _ => before,
        }
    }
}

/// The keyed nodes of a live tree.
pub open spec fn live_nodes(live: JsonView) -> Seq<Members> {
    match live {
        JsonView::Object(members) => object_bodies(members, members.len()),
        _ => Seq::empty(),
    }
}

/// All members but those with this key.
pub open spec fn without(members: Members, key: Seq<char>) -> Members {
    members.filter(|m: (Seq<char>, JsonView)| m.0 != key)
}

/// The bodies of the keyed nodes of a live tree, without their metadata: each
/// is to be decoded as a live record.
pub open spec fn live_bodies(live: JsonView) -> Seq<JsonView> {
    let nodes = live_nodes(live);
    Seq::new(nodes.len(), |i: int| JsonView::Object(without(nodes[i], "__nixhapi"@)))
}

/// The index entry of one keyed node, given what its body decodes to.
pub open spec fn index_entry(
    node: Members,
    decoded: Result<LiveRecordView, Seq<char>>,
) -> Result<(Seq<char>, LiveRecordView), ErrorView> {
    match model::lookup(node, "__nixhapi"@) {
        None => Err(ErrorView::LiveStateParse("live-state record is missing __nixhapi block"@)),
        Some(meta) => match json::member(meta, "providerKey"@) {
            Some(JsonView::Array(keys)) => if keys.len() == 0 {
                Err(no_provider_key())
            } else {
                match (entry_ident(keys[0]), decoded) {
                    (Err(message), _) => Err(
                        ErrorView::LiveStateParse("live-state providerKey head: "@ + message),
                    ),
                    (Ok(ident), Err(message)) => Err(
                        ErrorView::LiveStateParse(
                            "live record for providerKey "@ + display_text(ident) + ": "@ + message,
                        ),
                    ),
                    (Ok(ident), Ok(record)) => Ok((display_text(ident), record)),
                }
            },
            _ => Err(no_provider_key()),
        },
    }
}

/// The failure of a node without a providerKey list.
pub open spec fn no_provider_key() -> ErrorView {
    ErrorView::LiveStateParse("live-state __nixhapi.providerKey must be a non-empty list"@)
}

/// The index of the first `n` keyed nodes, a later node replacing an earlier
/// one of the same identity; or the failure of the first node that has one.
pub open spec fn index_upto(
    nodes: Seq<Members>,
    decoded: Seq<Result<LiveRecordView, Seq<char>>>,
    n: nat,
) -> Result<Map<Seq<char>, LiveRecordView>, ErrorView>
    decreases n,
{
    if n == 0 {
        Ok(Map::empty())
    } else {
        match index_upto(nodes, decoded, (n - 1) as nat) {
            Err(e) => Err(e),
            Ok(index) => match index_entry(nodes[n - 1], decoded[n - 1]) {
                Err(e) => Err(e),
                Ok((key, record)) => Ok(index.insert(key, record)),
            },
        }
    }
}

/// The index of a live tree.
pub open spec fn live_index(
    live: JsonView,
    decoded: Seq<Result<LiveRecordView, Seq<char>>>,
) -> Result<Map<Seq<char>, LiveRecordView>, ErrorView> {
    match live {
        JsonView::Null => Ok(Map::empty()),
        JsonView::Object(members) => index_upto(live_nodes(live), decoded, live_nodes(live).len()),
        _ => Err(ErrorView::LiveStateParse("expected an object at the top of live state"@)),
    }
}

/// What the decoded bodies say.
pub open spec fn decoded_view(decoded: Seq<Result<LiveRecord, String>>) -> Seq<
    Result<LiveRecordView, Seq<char>>,
> {
    Seq::new(decoded.len(), |i: int| model::result_view(decoded[i]))
}

/// Domain-relative record name.  The zone root (name == domain) is `"@"`.
pub fn relative_name(fqdn: &str, domain: &str) -> (r: String)
    ensures
        r@ == relative(fqdn@, domain@),
{
    if same(fqdn, domain) {
        return APEX.to_string();
    }
    let mut suffix = ".".to_string();
    suffix.append(domain);
    match strip_suffix(fqdn, suffix.as_str()) {
        Some(rel) => rel.to_string(),
        None => fqdn.to_string(),
    }
}

impl RecordIdent {
    /// Display string: `"<type>/<name>"` or `"<type>/<name>/<content>"`.
    pub fn display(&self) -> (r: String)
        ensures
            r@ == display_text(self@),
    {
        let mut out = self.record_type.clone();
        out.append("/");
        out.append(self.name.as_str());
        match &self.content {
            Some(content) => {
                out.append("/");
                out.append(content.as_str());
            },
            None => {},
        }
        out
    }

    /// The key under which the live index holds the record.
    pub fn lookup_key(&self) -> (r: String)
        ensures
            r@ == display_text(self@),
    {
        self.display()
    }
}

impl LiveRecord {
    /// A copy of the record.
    pub fn copy(&self) -> (r: LiveRecord)
        ensures
            r@ == self@,
    {
        LiveRecord {
            id: self.id.clone(),
            name: self.name.clone(),
            record_type: self.record_type.clone(),
            content: self.content.clone(),
            ttl: self.ttl.clone(),
            prio: copy_opt(&self.prio),
        }
    }
}

impl PorkbunOperation {
    /// The form in which a runbook step carries the operation.
    pub fn to_json(&self) -> (r: Json)
        ensures
            r@ == operation_json(self@),
    {
        broadcast use json::lemma_compound_view;

        let mut out: Vec<(String, Json)> = Vec::new();
        match self {
            PorkbunOperation::Create { domain, name, record_type, content, ttl, prio } => {
                out.push(string_member("action", "create"));
                out.push(string_member("domain", domain.as_str()));
                out.push(string_member("name", name.as_str()));
                out.push(string_member("record_type", record_type.as_str()));
                out.push(string_member("content", content.as_str()));
                out.push(string_member("ttl", ttl.as_str()));
                out.push(optional_member("prio", prio));
            },
            PorkbunOperation::Edit { domain, id, name, record_type, content, ttl, prio } => {
                out.push(string_member("action", "edit"));
                out.push(string_member("domain", domain.as_str()));
                out.push(string_member("id", id.as_str()));
                out.push(string_member("name", name.as_str()));
                out.push(string_member("record_type", record_type.as_str()));
                out.push(string_member("content", content.as_str()));
                out.push(string_member("ttl", ttl.as_str()));
                out.push(optional_member("prio", prio));
            },
            PorkbunOperation::Delete { domain, id, name, record_type, content } => {
                out.push(string_member("action", "delete"));
                out.push(string_member("domain", domain.as_str()));
                out.push(string_member("id", id.as_str()));
                out.push(string_member("name", name.as_str()));
                out.push(string_member("record_type", record_type.as_str()));
                out.push(string_member("content", content.as_str()));
            },
        }
        assert(model::entries_view(out@) =~= operation_json(self@)->Object_0);
        Json::Object(out)
    }

    /// The operation as `{:?}` shows it.
    pub fn debug_form(&self) -> (r: String)
        ensures
            r@ == operation_debug(self@),
    {
        match self {
            PorkbunOperation::Create { domain, name, record_type, content, ttl, prio } => {
                let mut out = "Create { domain: ".to_string();
                out.append(debug(domain.as_str()).as_str());
                append_field(&mut out, ", name: ", name);
                append_field(&mut out, ", record_type: ", record_type);
                append_field(&mut out, ", content: ", content);
                append_field(&mut out, ", ttl: ", ttl);
                append_prio(&mut out, prio);
                out
            },
            PorkbunOperation::Edit { domain, id, name, record_type, content, ttl, prio } => {
                let mut out = "Edit { domain: ".to_string();
                out.append(debug(domain.as_str()).as_str());
                append_field(&mut out, ", id: ", id);
                append_field(&mut out, ", name: ", name);
                append_field(&mut out, ", record_type: ", record_type);
                append_field(&mut out, ", content: ", content);
                append_field(&mut out, ", ttl: ", ttl);
                append_prio(&mut out, prio);
                out
            },
            PorkbunOperation::Delete { domain, id, name, record_type, content } => {
                let mut out = "Delete { domain: ".to_string();
                out.append(debug(domain.as_str()).as_str());
                append_field(&mut out, ", id: ", id);
                append_field(&mut out, ", name: ", name);
                append_field(&mut out, ", record_type: ", record_type);
                append_field(&mut out, ", content: ", content);
                out.append(" }");
                out
            },
        }
    }
}

/// Appends a labelled text as `{:?}` shows it.
fn append_field(out: &mut String, label: &str, value: &String)
    ensures
        final(out)@ == old(out)@ + label@ + text::debug_text(value@),
{
    out.append(label);
    out.append(debug(value.as_str()).as_str());
}

/// Appends a priority as `{:?}` shows it, as the last field.
fn append_prio(out: &mut String, prio: &Option<String>)
    ensures
        final(out)@ == old(out)@ + ", prio: "@ + optional_debug(model::opt_view(*prio)) + " }"@,
{
    let ghost start = out@ + ", prio: "@;
    out.append(", prio: ");
    match prio {
        Some(s) => {
            out.append("Some(");
            out.append(debug(s.as_str()).as_str());
            out.append(")");
            assert(out@ =~= start + optional_debug(model::opt_view(*prio)));
        },
        None => {
            out.append("None");
        },
    }
    out.append(" }");
}

fn parse_entry(entry: &Json) -> (r: Result<RecordIdent, String>)
    ensures
        model::result_view(r) == entry_ident(entry@),
{
    match entry {
        Json::Object(_) => {},
        _ => {
            let mut m =
                "Porkbun providerKey entry must be an object {type, name, content}, got ".to_string();
            m.append(entry.text().as_str());
            return Err(m);
        },
    }
    let record_type: Option<&str> = match entry.get("type") {
        Some(v) => v.as_str(),
        None => None,
    };
    let record_type: &str = match record_type {
        Some(s) => s,
        None => {
            return Err("Porkbun providerKey entry is missing string field \"type\"".to_string());
        },
    };
    let name: Option<&str> = match entry.get("name") {
        Some(v) => v.as_str(),
        None => None,
    };
    let name: &str = match name {
        Some(s) => s,
        None => {
            return Err("Porkbun providerKey entry is missing string field \"name\"".to_string());
        },
    };
    let content: Option<String> = match entry.get("content") {
        None => None,
        Some(Json::Null) => None,
        Some(Json::String(s)) => Some(s.clone()),
        Some(other) => {
            let mut m =
                "Porkbun providerKey entry \"content\" must be a string or null, got ".to_string();
            m.append(other.text().as_str());
            return Err(m);
        },
    };
    Ok(RecordIdent { record_type: record_type.to_string(), name: name.to_string(), content })
}

/// Parses one `__nixhapi.providerKey` entry.
///
/// The canonical shape is the object form `{type, name, content}`; anything
/// else is rejected.
pub fn parse_provider_key_entry(entry: &Json) -> (r: Result<RecordIdent, ProviderError>)
    ensures
        model::result_view(r) == provider_key_entry(entry@),
{
    match parse_entry(entry) {
        Ok(ident) => Ok(ident),
        Err(message) => Err(ProviderError::OperationFailed(message)),
    }
}

/// The number of objects among the first members does not shrink.
proof fn lemma_object_bodies_grow(members: Members, a: nat, b: nat)
    requires
        a <= b,
    ensures
        object_bodies(members, a).len() <= object_bodies(members, b).len(),
        object_bodies(members, a) =~= object_bodies(members, b).take(
            object_bodies(members, a).len() as int,
        ),
    decreases b,
{
    if a < b {
        lemma_object_bodies_grow(members, a, (b - 1) as nat);
    }
}

/// A failure among the first nodes is the failure of the whole index.
proof fn lemma_index_prefix(
    nodes: Seq<Members>,
    decoded: Seq<Result<LiveRecordView, Seq<char>>>,
    a: nat,
    b: nat,
)
    requires
        a <= b,
        index_upto(nodes, decoded, a) is Err,
    ensures
        index_upto(nodes, decoded, b) == index_upto(nodes, decoded, a),
    decreases b,
{
    if a < b {
        lemma_index_prefix(nodes, decoded, a, (b - 1) as nat);
    }
}

/// A copy of an object's members, without those with this key.
fn body_without(members: &Vec<(String, Json)>, key: &str) -> (r: Json)
    ensures
        r@ == JsonView::Object(without(model::entries_view(members@), key@)),
{
    broadcast use json::lemma_compound_view;

    let mut out: Vec<(String, Json)> = Vec::new();
    let ghost all = model::entries_view(members@);
    let ghost keep = |m: (Seq<char>, JsonView)| m.0 != key@;
    let mut i: usize = 0;
    assert(model::entries_view(out@) =~= without(all.take(0), key@)) by {
        reveal(Seq::filter);
    }
    while i < members.len()
        invariant
            i <= members.len(),
            all == model::entries_view(members@),
            keep == (|m: (Seq<char>, JsonView)| m.0 != key@),
            model::entries_view(out@) == all.take(i as int).filter(keep),
        decreases members.len() - i,
    {
        let ghost before = out@;
        proof {
            reveal(Seq::filter);
            assert(all.take(i + 1).drop_last() =~= all.take(i as int));
            assert(all.take(i + 1).last() == all[i as int]);
        }
        if !same(members[i].0.as_str(), key) {
            out.push((members[i].0.clone(), members[i].1.copy()));
            assert(model::entries_view(out@) =~= model::entries_view(before).push(all[i as int]));
        }
        i = i + 1;
    }
    assert(all.take(i as int) =~= all);
    Json::Object(out)
}

/// The bodies of the keyed nodes of a live tree, without their `__nixhapi`
/// metadata and in the order of the tree: what is to be decoded as
/// [`LiveRecord`]s for [`build_live_index`].
pub fn live_record_bodies(live: &Json) -> (r: Vec<Json>)
    ensures
        model::views(r@) == live_bodies(live@),
{
    broadcast use json::lemma_compound_view;

    let mut out: Vec<Json> = Vec::new();
    match live {
        Json::Object(members) => {
            let ghost all = model::entries_view(members@);
            let ghost nodes = object_bodies(all, all.len());
            let mut i: usize = 0;
            while i < members.len()
                invariant
                    i <= members.len(),
                    all == model::entries_view(members@),
                    live@ == JsonView::Object(all),
                    nodes == live_nodes(live@),
                    nodes == object_bodies(all, all.len()),
                    out@.len() == object_bodies(all, i as nat).len(),
                    forall|k: int|
                        0 <= k < out@.len() ==> (#[trigger] out@[k])@ == JsonView::Object(
                            without(nodes[k], "__nixhapi"@),
                        ),
                decreases members.len() - i,
            {
                proof {
                    lemma_object_bodies_grow(all, (i + 1) as nat, all.len());
                }
                match &members[i].1 {
                    Json::Object(body) => {
                        let ghost upto = object_bodies(all, (i + 1) as nat);
                        proof {
                            json::lemma_compound_view(members@[i as int].1);
                        }
                        assert(all[i as int].1 == JsonView::Object(model::entries_view(body@)));
                        assert(upto.last() == nodes[upto.len() - 1]);
                        out.push(body_without(body, "__nixhapi"));
                    },
                    _ => {},
                }
                i = i + 1;
            }
        },
        _ => {},
    }
    assert(model::views(out@) =~= live_bodies(live@));
    out
}

fn no_provider_key_error() -> (r: ProviderError)
    ensures
        r@ == no_provider_key(),
{
    ProviderError::LiveStateParse(
        "live-state __nixhapi.providerKey must be a non-empty list".to_string(),
    )
}

/// The key and the record of one keyed node.
fn live_entry(node: &Json, decoded: &Result<LiveRecord, String>) -> (r: Result<
    (String, LiveRecord),
    ProviderError,
>)
    requires
        node@ is Object,
    ensures
        match r {
            Ok((key, record)) => index_entry(node@->Object_0, model::result_view(*decoded)) == Ok::<
                (Seq<char>, LiveRecordView),
                ErrorView,
            >((key@, record@)),
            Err(e) => index_entry(node@->Object_0, model::result_view(*decoded)) == Err::<
                (Seq<char>, LiveRecordView),
                ErrorView,
            >(e@),
        },
{
    broadcast use json::lemma_compound_view;

    let meta = match node.get("__nixhapi") {
        Some(meta) => meta,
        None => {
            return Err(
                ProviderError::LiveStateParse(
                    "live-state record is missing __nixhapi block".to_string(),
                ),
            );
        },
    };
    let keys = match meta.get("providerKey") {
        Some(Json::Array(keys)) => keys,
        _ => {
            return Err(no_provider_key_error());
        },
    };
    if keys.len() == 0 {
        return Err(no_provider_key_error());
    }
    let ident = match parse_entry(&keys[0]) {
        Ok(ident) => ident,
        Err(message) => {
            let mut m = "live-state providerKey head: ".to_string();
            m.append(message.as_str());
            return Err(ProviderError::LiveStateParse(m));
        },
    };
    match decoded {
        Ok(record) => Ok((ident.lookup_key(), record.copy())),
        Err(message) => {
            let mut m = "live record for providerKey ".to_string();
            m.append(ident.display().as_str());
            m.append(": ");
            m.append(message.as_str());
            Err(ProviderError::LiveStateParse(m))
        },
    }
}

/// Walks a live tree and gives the records in it by identity.
///
/// `decoded` holds what each of [`live_record_bodies`] decodes to, or why it
/// does not.  The attribute names of the tree are informational: the index goes
/// by the first providerKey entry of each node.  Every failure is one of parsing
/// the live state; that of a rejected entry holds the entry's own message.
pub fn build_live_index(live: &Json, decoded: &Vec<Result<LiveRecord, String>>) -> (r: Result<
    StringHashMap<LiveRecord>,
    ProviderError,
>)
    requires
        decoded@.len() == live_bodies(live@).len(),
    ensures
        match r {
            Ok(index) => live_index(live@, decoded_view(decoded@)) == Ok::<
                Map<Seq<char>, LiveRecordView>,
                ErrorView,
            >(index_view(index@)),
            Err(e) => live_index(live@, decoded_view(decoded@)) == Err::<
                Map<Seq<char>, LiveRecordView>,
                ErrorView,
            >(e@),
        },
{
    broadcast use json::lemma_compound_view;

    let mut index: StringHashMap<LiveRecord> = StringHashMap::new();
    assert(index_view(index@) =~= Map::empty());
    let members = match live {
        Json::Object(members) => members,
        Json::Null => {
            return Ok(index);
        },
        _ => {
            return Err(
                ProviderError::LiveStateParse(
                    "expected an object at the top of live state".to_string(),
                ),
            );
        },
    };
    let ghost all = model::entries_view(members@);
    let ghost nodes = live_nodes(live@);
    let ghost results = decoded_view(decoded@);
    let mut i: usize = 0;
    let mut seen: usize = 0;
    while i < members.len()
        invariant
            i <= members.len(),
            all == model::entries_view(members@),
            nodes == object_bodies(all, all.len()),
            results == decoded_view(decoded@),
            decoded@.len() == nodes.len(),
            seen == object_bodies(all, i as nat).len(),
            index_upto(nodes, results, seen as nat) == Ok::<
                Map<Seq<char>, LiveRecordView>,
                ErrorView,
            >(index_view(index@)),
            live@ == JsonView::Object(all),
            nodes == live_nodes(live@),
        decreases members.len() - i,
    {
        proof {
            lemma_object_bodies_grow(all, (i + 1) as nat, all.len());
        }
        match &members[i].1 {
            Json::Object(_) => {
                let node = &members[i].1;
                proof {
                    let upto = object_bodies(all, (i + 1) as nat);
                    assert(upto.last() == nodes[upto.len() - 1]);
                    assert(nodes[seen as int] == node@->Object_0);
                    assert(results[seen as int] == model::result_view(decoded@[seen as int]));
                }
                match live_entry(node, &decoded[seen]) {
                    Ok((key, record)) => {
                        let ghost before = index@;
                        index.insert(key, record);
                        assert(index_view(index@) =~= index_view(before).insert(key@, record@));
                    },
                    Err(e) => {
                        proof {
                            lemma_index_prefix(nodes, results, (seen + 1) as nat, nodes.len());
                        }
                        return Err(e);
                    },
                }
                assert(seen < decoded.len());
                seen = seen + 1;
            },
            _ => {},
        }
        i = i + 1;
    }
    Ok(index)
}

/// The fields that a change names.
struct DesiredFields {
    content: Option<Option<String>>,
    ttl: Option<Option<String>>,
    prio: Option<Option<String>>,
}

spec fn slot_view(slot: Option<Option<String>>) -> Option<Option<Seq<char>>> {
    match slot {
        Some(value) => Some(model::opt_view(value)),
        None => None,
    }
}

impl View for DesiredFields {
    type V = DesiredFieldsView;

    closed spec fn view(&self) -> DesiredFieldsView {
        DesiredFieldsView {
            content: slot_view(self.content),
            ttl: slot_view(self.ttl),
            prio: slot_view(self.prio),
        }
    }
}

/// The field names differ.
proof fn lemma_field_names()
    ensures
        "content"@ != "ttl"@,
        "content"@ != "prio"@,
        "ttl"@ != "prio"@,
{
    reveal_strlit("content");
    reveal_strlit("ttl");
    reveal_strlit("prio");
    assert("content"@.len() == 7);
    assert("ttl"@.len() == 3);
    assert("prio"@.len() == 4);
}

impl DesiredFields {
    fn from_diff(diffs: &Vec<FieldDiff>) -> (r: Result<DesiredFields, ProviderError>)
        ensures
            model::result_view(r) == desired_fields(model::views(diffs@)),
    {
        let mut out = DesiredFields { content: None, ttl: None, prio: None };
        let ghost all = model::views(diffs@);
        let mut i: usize = 0;
        assert(all.take(0) =~= Seq::empty());
        while i < diffs.len()
            invariant
                i <= diffs.len(),
                all == model::views(diffs@),
                desired_fields(all.take(i as int)) == Ok::<DesiredFieldsView, ErrorView>(out@),
            decreases diffs.len() - i,
        {
            let diff = &diffs[i];
            proof {
                let upto = all.take(i + 1);
                assert(upto.drop_last() =~= all.take(i as int));
                assert(upto.last() == diff@);
                lemma_desired_fields_prefix(all, i + 1);
            }
            let target: Option<String> = match &diff.to {
                FieldTarget::Value { value } => {
                    match value_to_string(diff.field.as_str(), value) {
                        Ok(t) => Some(t),
                        Err(e) => {
                            return Err(e);
                        },
                    }
                },
                FieldTarget::Removed => None,
                FieldTarget::DerivedPlaceholder => {
                    let mut m = "field ".to_string();
                    m.append(debug(diff.field.as_str()).as_str());
                    m.append(
                        " carries an unresolved derivedFrom placeholder; Porkbun does not support derivedFrom inputs",
                    );
                    return Err(ProviderError::OperationFailed(m));
                },
            };
            if same(diff.field.as_str(), "content") {
                out.content = Some(target);
            } else if same(diff.field.as_str(), "ttl") {
                out.ttl = Some(target);
            } else if same(diff.field.as_str(), "prio") {
                out.prio = Some(target);
            } else {
                let mut m = "unsupported Porkbun field ".to_string();
                m.append(debug(diff.field.as_str()).as_str());
                m.append(" in diff");
                return Err(ProviderError::OperationFailed(m));
            }
            i = i + 1;
        }
        assert(all.take(i as int) =~= all);
        Ok(out)
    }

    fn optional_set(&self, field: &str) -> (r: Option<String>)
        ensures
            model::opt_view(r) == set_value(slot(self@, field@)),
    {
        let value: &Option<Option<String>> = if same(field, "content") {
            &self.content
        } else if same(field, "ttl") {
            &self.ttl
        } else if same(field, "prio") {
            &self.prio
        } else {
            return None;
        };
        match value {
            Some(inner) => copy_opt(inner),
            None => None,
        }
    }

    fn has(&self, field: &str) -> (r: bool)
        ensures
            r == slot(self@, field@) is Some,
    {
        if same(field, "content") {
            self.content.is_some()
        } else if same(field, "ttl") {
            self.ttl.is_some()
        } else if same(field, "prio") {
            self.prio.is_some()
        } else {
            false
        }
    }
}

/// A failure among the first changes is the failure of the whole list.
proof fn lemma_desired_fields_prefix(diffs: Seq<FieldDiffView>, n: int)
    requires
        0 <= n <= diffs.len(),
    ensures
        desired_fields(diffs.take(n)) is Err ==> desired_fields(diffs) == desired_fields(
            diffs.take(n),
        ),
    decreases diffs.len() - n,
{
    if n == diffs.len() {
        assert(diffs.take(n) =~= diffs);
    } else {
        lemma_desired_fields_prefix(diffs, n + 1);
        assert(diffs.take(n + 1).drop_last() =~= diffs.take(n));
    }
}

fn value_to_string(field: &str, value: &Json) -> (r: Result<String, ProviderError>)
    ensures
        model::result_view(r) == value_text(field@, value@),
{
    match value {
        Json::String(s) => Ok(s.clone()),
        Json::Number(n) => Ok(n.text()),
        other => {
            let mut m = "field ".to_string();
            m.append(debug(field).as_str());
            m.append(" must be a string, got ");
            m.append(other.text().as_str());
            Err(ProviderError::OperationFailed(m))
        },
    }
}

fn default_ttl() -> (r: String)
    ensures
        r@ == DEFAULT_TTL@,
{
    DEFAULT_TTL.to_string()
}

fn lookup_live<'a>(ident: &RecordIdent, index: &'a StringHashMap<LiveRecord>) -> (r: Result<
    &'a LiveRecord,
    ProviderError,
>)
    ensures
        model::result_view(r) == live_record(ident@, index_view(index@)),
{
    match index.get(ident.lookup_key().as_str()) {
        Some(live) => Ok(live),
        None => {
            let mut m = "No live Porkbun record found for providerKey ".to_string();
            m.append(ident.display().as_str());
            Err(ProviderError::OperationFailed(m))
        },
    }
}

fn build_edit_op(
    domain: &str,
    target: &RecordIdent,
    live: &LiveRecord,
    diffs: &Vec<FieldDiff>,
) -> (r: Result<PorkbunOperation, ProviderError>)
    ensures
        model::result_view(r) == edit_op(domain@, target@, live@, model::views(diffs@)),
{
    let fields = match DesiredFields::from_diff(diffs) {
        Ok(fields) => fields,
        Err(e) => {
            return Err(e);
        },
    };
    proof {
        lemma_field_names();
    }
    // The target content is the one of the desired identity; without one, that
    // of the change; without either, the live one, so that a pure change of TTL
    // or priority does not clear the content.
    let content = match &target.content {
        Some(content) => content.clone(),
        None => match fields.optional_set("content") {
            Some(content) => content,
            None => live.content.clone(),
        },
    };
    let ttl = match fields.optional_set("ttl") {
        Some(ttl) => ttl,
        None => live.ttl.clone(),
    };
    let prio = if fields.has("prio") {
        fields.optional_set("prio")
    } else {
        copy_opt(&live.prio)
    };
    Ok(
        PorkbunOperation::Edit {
            domain: domain.to_string(),
            id: live.id.clone(),
            name: target.name.clone(),
            record_type: target.record_type.clone(),
            content,
            ttl,
            prio,
        },
    )
}

/// Translates one planned change into the operation that carries it out.
///
/// Porkbun records are flat, so a change has no children to look into.
pub fn diff_node_to_op(
    node: &DiffNode,
    domain: &str,
    live_index: &StringHashMap<LiveRecord>,
) -> (r: Result<PorkbunOperation, ProviderError>)
    ensures
        model::result_view(r) == operation_for(node@, domain@, index_view(live_index@)),
{
    if node.provider_key.len() == 0 {
        return Err(
            ProviderError::OperationFailed(
                "Porkbun providerKey must be a non-empty list".to_string(),
            ),
        );
    }
    let head_ident = match parse_provider_key_entry(&node.provider_key[0]) {
        Ok(ident) => ident,
        Err(e) => {
            return Err(e);
        },
    };
    match &node.status {
        Status::Add => {
            let fields = match DesiredFields::from_diff(&node.field_changes) {
                Ok(fields) => fields,
                Err(e) => {
                    return Err(e);
                },
            };
            proof {
                lemma_field_names();
            }
            let content = match fields.optional_set("content") {
                Some(content) => content,
                None => match &head_ident.content {
                    Some(content) => content.clone(),
                    None => {
                        let mut m = "Add of ".to_string();
                        m.append(head_ident.display().as_str());
                        m.append(
                            ": no content available from either the diff or the providerKey",
                        );
                        return Err(ProviderError::OperationFailed(m));
                    },
                },
            };
            let ttl = match fields.optional_set("ttl") {
                Some(ttl) => ttl,
                None => default_ttl(),
            };
            let prio = fields.optional_set("prio");
            Ok(
                PorkbunOperation::Create {
                    domain: domain.to_string(),
                    name: head_ident.name,
                    record_type: head_ident.record_type,
                    content,
                    ttl,
                    prio,
                },
            )
        },
        Status::Modify => {
            match lookup_live(&head_ident, live_index) {
                Ok(live) => build_edit_op(domain, &head_ident, live, &node.field_changes),
                Err(e) => Err(e),
            }
        },
        Status::Rename { chain } => {
            // The first key of the chain is the one in the live state; the edit
            // gives its record the identity of the head.
            if chain.len() == 0 {
                return Err(
                    ProviderError::OperationFailed(
                        "Rename chain must be a non-empty list".to_string(),
                    ),
                );
            }
            match parse_provider_key_entry(&chain[0]) {
                Ok(live_ident) => match lookup_live(&live_ident, live_index) {
                    Ok(live) => build_edit_op(domain, &head_ident, live, &node.field_changes),
                    Err(e) => Err(e),
                },
                Err(e) => Err(e),
            }
        },
        Status::Delete => {
            match lookup_live(&head_ident, live_index) {
                Ok(live) => Ok(
                    PorkbunOperation::Delete {
                        domain: domain.to_string(),
                        id: live.id.clone(),
                        name: head_ident.name,
                        record_type: head_ident.record_type,
                        content: live.content.clone(),
                    },
                ),
                Err(e) => Err(e),
            }
        },
    }
}

} // verus!
