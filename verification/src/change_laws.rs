//! What a planned change comes to, stated on the change itself: its providerKey
//! entries, the last mention of each field, and the live record that it names.
use vstd::prelude::*;
use crate::apply;
use crate::client::{AuthView, ClientView};
use crate::config;
use crate::error::ErrorView;
use crate::field_value::FieldValueView;
use crate::json;
use crate::json::JsonView;
use crate::laws;
use crate::operation;
use crate::operation::{DesiredFieldsView, LiveRecordView, OperationView, RecordIdentView};
use crate::plan::{DiffNodeView, FieldDiffView, FieldTargetView, RunbookStepView, StatusView};
use crate::provider;
use crate::text;

verus! {

// ---- Names ----
/// A name is given relative to its zone: `"@"` for the zone root, what stands
/// before the domain for a name under it, and any other name unchanged, so that
/// nothing is silently dropped.
pub proof fn law_names_are_relative_to_the_zone(fqdn: Seq<char>, domain: Seq<char>)
    ensures
        fqdn == domain ==> operation::relative(fqdn, domain) == seq!['@'],
        fqdn != domain ==> forall|rel: Seq<char>|
            fqdn == #[trigger] (rel + seq!['.'] + domain) ==> operation::relative(fqdn, domain)
                == rel,
        fqdn != domain && (forall|rel: Seq<char>|
            fqdn != #[trigger] (rel + seq!['.'] + domain)) ==> operation::relative(fqdn, domain)
            == fqdn,
{
    reveal_strlit(".");
    reveal_strlit("@");
    assert(operation::APEX@ =~= seq!['@']);
    let suffix = "."@ + domain;
    assert(suffix =~= seq!['.'] + domain);
    assert forall|rel: Seq<char>|
        fqdn != domain && fqdn == #[trigger] (rel + seq!['.'] + domain) implies operation::relative(
        fqdn,
        domain,
    ) == rel by {
        assert(fqdn =~= rel + suffix);
        assert(fqdn.skip(fqdn.len() - suffix.len()) =~= suffix);
        assert(fqdn.take(fqdn.len() - suffix.len()) =~= rel);
    }
    if text::ends_in(fqdn, suffix) {
        let rel = fqdn.take(fqdn.len() - suffix.len());
        assert(fqdn =~= rel + fqdn.skip(fqdn.len() - suffix.len()));
        assert(rel + suffix =~= rel + seq!['.'] + domain);
        assert(fqdn == rel + seq!['.'] + domain);
    }
}

// ---- Identities ----
/// How a record is named: type, name and, where there is one, content, with
/// slashes between them.
pub open spec fn record_text(
    record_type: Seq<char>,
    name: Seq<char>,
    content: Option<Seq<char>>,
) -> Seq<char> {
    match content {
        Some(content) => record_type + seq!['/'] + name + seq!['/'] + content,
        None => record_type + seq!['/'] + name,
    }
}

/// A record is displayed, and looked up, by its type, name and content.
pub proof fn law_display_text(
    record_type: Seq<char>,
    name: Seq<char>,
    content: Option<Seq<char>>,
)
    ensures
        operation::display_text(RecordIdentView { record_type, name, content }) == record_text(
            record_type,
            name,
            content,
        ),
{
    reveal_strlit("/");
    assert("/"@ =~= seq!['/']);
}

/// Whether a providerKey entry spells a type, a name and a content; a content
/// that is absent or null is none.
pub open spec fn spells(
    entry: JsonView,
    record_type: Seq<char>,
    name: Seq<char>,
    content: Option<Seq<char>>,
) -> bool {
    &&& entry is Object
    &&& json::member(entry, "type"@) == Some(JsonView::String(record_type))
    &&& json::member(entry, "name"@) == Some(JsonView::String(name))
    &&& match content {
        Some(content) => json::member(entry, "content"@) == Some(JsonView::String(content)),
        None => json::member(entry, "content"@) is None || json::member(entry, "content"@) == Some(
            JsonView::Null,
        ),
    }
}

/// A providerKey entry is read as what it spells.
pub proof fn law_entry_is_read_as_it_spells(
    entry: JsonView,
    record_type: Seq<char>,
    name: Seq<char>,
    content: Option<Seq<char>>,
)
    requires
        spells(entry, record_type, name, content),
    ensures
        operation::provider_key_entry(entry) == Ok::<RecordIdentView, ErrorView>(
            RecordIdentView { record_type, name, content },
        ),
{
}

/// A providerKey entry that spells nothing is rejected.
pub proof fn law_entry_that_spells_nothing_is_rejected(entry: JsonView)
    requires
        forall|record_type: Seq<char>, name: Seq<char>, content: Option<Seq<char>>|
            !#[trigger] spells(entry, record_type, name, content),
    ensures
        operation::provider_key_entry(entry) matches Err(e) && e is OperationFailed,
{
    match operation::provider_key_entry(entry) {
        Ok(ident) => {
            assert(spells(entry, ident.record_type, ident.name, ident.content));
        },
        Err(_) => {},
    }
}

// ---- Fields ----
/// What one field change asks for: a text, by a string or by a number, or the
/// removal of the field.  Nothing else can be asked for.
pub open spec fn wish(diff: FieldDiffView) -> Option<Option<Seq<char>>> {
    match diff.to {
        FieldTargetView::Value { value: JsonView::String(s) } => Some(Some(s)),
        FieldTargetView::Value { value: JsonView::Number(n) } => Some(Some(n)),
        FieldTargetView::Removed => Some(None),
        _ => None,
    }
}

/// Whether a field change can be carried out.
pub open spec fn supported(diff: FieldDiffView) -> bool {
    &&& diff.field == "content"@ || diff.field == "ttl"@ || diff.field == "prio"@
    &&& wish(diff) is Some
}

/// Whether all field changes can be carried out.
pub open spec fn all_supported(diffs: Seq<FieldDiffView>) -> bool {
    forall|i: int| 0 <= i < diffs.len() ==> supported(#[trigger] diffs[i])
}

/// Whether this is what the last mention of a field asks for; `None` where the
/// field is not mentioned at all.
pub open spec fn last_wish(
    diffs: Seq<FieldDiffView>,
    field: Seq<char>,
    asked: Option<Option<Seq<char>>>,
) -> bool {
    match asked {
        None => forall|i: int| 0 <= i < diffs.len() ==> (#[trigger] diffs[i]).field != field,
        Some(_) => exists|i: int|
            0 <= i < diffs.len() && (#[trigger] diffs[i]).field == field && wish(diffs[i]) == asked
                && forall|j: int| i < j < diffs.len() ==> (#[trigger] diffs[j]).field != field,
    }
}

/// What the last mention of each field asks for.
pub struct Wishes {
    pub content: Option<Option<Seq<char>>>,
    pub ttl: Option<Option<Seq<char>>>,
    pub prio: Option<Option<Seq<char>>>,
}

/// Whether field changes can be carried out and ask for this.
pub open spec fn asks_for(diffs: Seq<FieldDiffView>, wishes: Wishes) -> bool {
    &&& all_supported(diffs)
    &&& last_wish(diffs, "content"@, wishes.content)
    &&& last_wish(diffs, "ttl"@, wishes.ttl)
    &&& last_wish(diffs, "prio"@, wishes.prio)
}

/// A value that is asked for, or what stands in for it where the field is not
/// mentioned or is removed.
pub open spec fn asked_or(asked: Option<Option<Seq<char>>>, otherwise: Seq<char>) -> Seq<char> {
    match asked {
        Some(Some(value)) => value,
        _ => otherwise,
    }
}

proof fn lemma_supported_fields(diffs: Seq<FieldDiffView>)
    requires
        all_supported(diffs),
    ensures
        operation::desired_fields(diffs) is Ok,
    decreases diffs.len(),
{
    if diffs.len() > 0 {
        let before = diffs.drop_last();
        assert forall|i: int| 0 <= i < before.len() implies supported(#[trigger] before[i]) by {
            assert(before[i] == diffs[i]);
        }
        lemma_supported_fields(before);
        assert(supported(diffs[diffs.len() - 1]));
    }
}

proof fn lemma_slot(
    diffs: Seq<FieldDiffView>,
    field: Seq<char>,
    asked: Option<Option<Seq<char>>>,
)
    requires
        all_supported(diffs),
        field == "content"@ || field == "ttl"@ || field == "prio"@,
        last_wish(diffs, field, asked),
    ensures
        operation::desired_fields(diffs) matches Ok(fields) && operation::slot(fields, field)
            == asked,
    decreases diffs.len(),
{
    lemma_field_names();
    lemma_supported_fields(diffs);
    if diffs.len() > 0 {
        let n = diffs.len() - 1;
        let before = diffs.drop_last();
        assert forall|i: int| 0 <= i < before.len() implies supported(#[trigger] before[i]) by {
            assert(before[i] == diffs[i]);
        }
        lemma_supported_fields(before);
        assert(supported(diffs[n]));
        if diffs[n].field == field {
            if asked is Some {
                let i = choose|i: int|
                    0 <= i < diffs.len() && (#[trigger] diffs[i]).field == field && wish(diffs[i])
                        == asked && forall|j: int|
                        i < j < diffs.len() ==> (#[trigger] diffs[j]).field != field;
                assert(i == n);
            }
        } else {
            match asked {
                None => {
                    assert forall|i: int| 0 <= i < before.len() implies (
                    #[trigger] before[i]).field != field by {
                        assert(before[i] == diffs[i]);
                    }
                },
                Some(_) => {
                    let i = choose|i: int|
                        0 <= i < diffs.len() && (#[trigger] diffs[i]).field == field && wish(
                            diffs[i],
                        ) == asked && forall|j: int|
                            i < j < diffs.len() ==> (#[trigger] diffs[j]).field != field;
                    assert(before[i] == diffs[i]);
                    assert forall|j: int| i < j < before.len() implies (
                    #[trigger] before[j]).field != field by {
                        assert(before[j] == diffs[j]);
                    }
                },
            }
            lemma_slot(before, field, asked);
        }
    }
}

proof fn lemma_wishes(diffs: Seq<FieldDiffView>, wishes: Wishes)
    requires
        asks_for(diffs, wishes),
    ensures
        operation::desired_fields(diffs) == Ok::<DesiredFieldsView, ErrorView>(
            DesiredFieldsView { content: wishes.content, ttl: wishes.ttl, prio: wishes.prio },
        ),
{
    lemma_field_names();
    lemma_slot(diffs, "content"@, wishes.content);
    lemma_slot(diffs, "ttl"@, wishes.ttl);
    lemma_slot(diffs, "prio"@, wishes.prio);
}

proof fn lemma_field_names()
    ensures
        "content"@.len() == 7,
        "ttl"@.len() == 3,
        "prio"@.len() == 4,
{
    reveal_strlit("content");
    reveal_strlit("ttl");
    reveal_strlit("prio");
}

// ---- Operations ----
/// An addition creates the record that its first providerKey entry spells.  The
/// content is the one that is asked for, else the one of the entry; the TTL is
/// the one that is asked for, else 600; the priority is the one that is asked
/// for, else none.  Without a content the addition fails.
pub proof fn law_addition_creates_what_is_asked_for(
    node: DiffNodeView,
    domain: Seq<char>,
    index: Map<Seq<char>, LiveRecordView>,
    record_type: Seq<char>,
    name: Seq<char>,
    content: Option<Seq<char>>,
    wishes: Wishes,
)
    requires
        node.status is Add,
        node.provider_key.len() > 0,
        spells(node.provider_key[0], record_type, name, content),
        asks_for(node.field_changes, wishes),
    ensures
        match (wishes.content, content) {
            (Some(Some(asked)), _) => operation::operation_for(node, domain, index) == Ok::<
                OperationView,
                ErrorView,
            >(
                OperationView::Create {
                    domain,
                    name,
                    record_type,
                    content: asked,
                    ttl: asked_or(wishes.ttl, seq!['6', '0', '0']),
                    prio: match wishes.prio {
                        Some(asked) => asked,
                        None => None,
                    },
                },
            ),
            (_, Some(content)) => operation::operation_for(node, domain, index) == Ok::<
                OperationView,
                ErrorView,
            >(
                OperationView::Create {
                    domain,
                    name,
                    record_type,
                    content,
                    ttl: asked_or(wishes.ttl, seq!['6', '0', '0']),
                    prio: match wishes.prio {
                        Some(asked) => asked,
                        None => None,
                    },
                },
            ),
            (_, None) => operation::operation_for(node, domain, index) == Err::<
                OperationView,
                ErrorView,
            >(
                ErrorView::OperationFailed(
                    "Add of "@ + record_text(record_type, name, content)
                        + ": no content available from either the diff or the providerKey"@,
                ),
            ),
        },
{
    lemma_wishes(node.field_changes, wishes);
    reveal_strlit("600");
    assert(operation::DEFAULT_TTL@ =~= seq!['6', '0', '0']);
    law_display_text(record_type, name, content);
}

/// A modification or a rename edits the live record that it names, in place: it
/// gives the record the identity that the first providerKey entry spells, and
/// the TTL and the priority that are asked for.  What is not asked for keeps its
/// live value, and a priority that is to be removed is.
pub proof fn law_edit_does_what_is_asked_for(
    node: DiffNodeView,
    domain: Seq<char>,
    index: Map<Seq<char>, LiveRecordView>,
    record_type: Seq<char>,
    name: Seq<char>,
    content: Option<Seq<char>>,
    old: RecordIdentView,
    wishes: Wishes,
)
    requires
        node.provider_key.len() > 0,
        spells(node.provider_key[0], record_type, name, content),
        names_live_record(node, old),
        index.contains_key(record_text(old.record_type, old.name, old.content)),
        asks_for(node.field_changes, wishes),
    ensures
        ({
            let live = index[record_text(old.record_type, old.name, old.content)];
            operation::operation_for(node, domain, index) == Ok::<OperationView, ErrorView>(
                OperationView::Edit {
                    domain,
                    id: live.id,
                    name,
                    record_type,
                    content: match content {
                        Some(content) => content,
                        None => asked_or(wishes.content, live.content),
                    },
                    ttl: asked_or(wishes.ttl, live.ttl),
                    prio: match wishes.prio {
                        Some(asked) => asked,
                        None => live.prio,
                    },
                },
            )
        }),
{
    lemma_wishes(node.field_changes, wishes);
    law_display_text(old.record_type, old.name, old.content);
}

/// Whether a modification or a rename is about the live record of this identity:
/// the one that its first providerKey entry spells, or for a rename the first
/// entry of its chain.
pub open spec fn names_live_record(node: DiffNodeView, old: RecordIdentView) -> bool {
    match node.status {
        StatusView::Modify => spells(
            node.provider_key[0],
            old.record_type,
            old.name,
            old.content,
        ),
        StatusView::Rename { chain } => chain.len() > 0 && spells(
            chain[0],
            old.record_type,
            old.name,
            old.content,
        ),
        _ => false,
    }
}

/// A deletion removes the live record that its first providerKey entry spells,
/// by the identifier that Porkbun gave it, whatever field changes come with it.
pub proof fn law_deletion_removes_the_named_record(
    node: DiffNodeView,
    domain: Seq<char>,
    index: Map<Seq<char>, LiveRecordView>,
    record_type: Seq<char>,
    name: Seq<char>,
    content: Option<Seq<char>>,
)
    requires
        node.status is Delete,
        node.provider_key.len() > 0,
        spells(node.provider_key[0], record_type, name, content),
        index.contains_key(record_text(record_type, name, content)),
    ensures
        ({
            let live = index[record_text(record_type, name, content)];
            operation::operation_for(node, domain, index) == Ok::<OperationView, ErrorView>(
                OperationView::Delete {
                    domain,
                    id: live.id,
                    name,
                    record_type,
                    content: live.content,
                },
            )
        }),
{
    law_display_text(record_type, name, content);
}

/// Field changes that cannot be carried out fail the change, whatever else it
/// asks for, unless it is a deletion.
pub proof fn law_unsupported_field_is_rejected(
    node: DiffNodeView,
    domain: Seq<char>,
    index: Map<Seq<char>, LiveRecordView>,
    i: int,
)
    requires
        0 <= i < node.field_changes.len(),
        !supported(node.field_changes[i]),
        !(node.status is Delete),
    ensures
        operation::operation_for(node, domain, index) is Err,
{
    lemma_unsupported_fails(node.field_changes, i);
}

proof fn lemma_unsupported_fails(diffs: Seq<FieldDiffView>, i: int)
    requires
        0 <= i < diffs.len(),
        !supported(diffs[i]),
    ensures
        operation::desired_fields(diffs) is Err,
    decreases diffs.len(),
{
    if i < diffs.len() - 1 {
        lemma_unsupported_fails(diffs.drop_last(), i);
    }
}

/// Why a field change cannot be carried out: its value is not known yet, or is
/// neither a string nor a number, or its field is none that Porkbun has.
pub open spec fn objection(diff: FieldDiffView) -> ErrorView {
    ErrorView::OperationFailed(
        match diff.to {
            FieldTargetView::DerivedPlaceholder => "field "@ + text::debug_text(diff.field)
                + " carries an unresolved derivedFrom placeholder; Porkbun does not support derivedFrom inputs"@,
            FieldTargetView::Value { value } if wish(diff) is None => "field "@ + text::debug_text(
                diff.field,
            ) + " must be a string, got "@ + json::json_text(value),
            _ => "unsupported Porkbun field "@ + text::debug_text(diff.field) + " in diff"@,
        },
    )
}

/// The first field change that cannot be carried out is the one that is
/// reported, with the reason.
pub proof fn law_first_unsupported_field_is_reported(
    node: DiffNodeView,
    domain: Seq<char>,
    index: Map<Seq<char>, LiveRecordView>,
    record_type: Seq<char>,
    name: Seq<char>,
    content: Option<Seq<char>>,
    i: int,
)
    requires
        node.status is Add || (node.status is Modify && index.contains_key(
            record_text(record_type, name, content),
        )),
        node.provider_key.len() > 0,
        spells(node.provider_key[0], record_type, name, content),
        0 <= i < node.field_changes.len(),
        !supported(node.field_changes[i]),
        forall|j: int| 0 <= j < i ==> supported(#[trigger] node.field_changes[j]),
    ensures
        operation::operation_for(node, domain, index) == Err::<OperationView, ErrorView>(
            objection(node.field_changes[i]),
        ),
{
    law_display_text(record_type, name, content);
    lemma_first_objection(node.field_changes, i);
}

proof fn lemma_first_objection(diffs: Seq<FieldDiffView>, i: int)
    requires
        0 <= i < diffs.len(),
        !supported(diffs[i]),
        forall|j: int| 0 <= j < i ==> supported(#[trigger] diffs[j]),
    ensures
        operation::desired_fields(diffs) == Err::<DesiredFieldsView, ErrorView>(
            objection(diffs[i]),
        ),
    decreases diffs.len(),
{
    let before = diffs.drop_last();
    assert forall|j: int| 0 <= j < i && j < before.len() implies supported(#[trigger] before[j]) by {
        assert(supported(diffs[j]));
    }
    if i < diffs.len() - 1 {
        lemma_first_objection(before, i);
    } else {
        lemma_supported_fields(before);
    }
}

/// A change without a providerKey, with one that spells nothing, with an empty
/// rename chain, or of a record that is not live, an addition aside, is
/// rejected.
pub proof fn law_change_of_nothing_is_rejected(
    node: DiffNodeView,
    domain: Seq<char>,
    index: Map<Seq<char>, LiveRecordView>,
)
    ensures
        node.provider_key.len() == 0 ==> operation::operation_for(node, domain, index) is Err,
        node.provider_key.len() > 0 && operation::provider_key_entry(node.provider_key[0]) is Err
            ==> operation::operation_for(node, domain, index) is Err,
        node.status matches StatusView::Rename { chain } ==> (chain.len() == 0
            || operation::provider_key_entry(chain[0]) is Err) ==> operation::operation_for(
            node,
            domain,
            index,
        ) is Err,
        !(node.status is Add) && index.dom() == Set::<Seq<char>>::empty()
            ==> operation::operation_for(node, domain, index) is Err,
{
}

/// A modification, a rename or a deletion of a record that is not live says
/// which record is missing.
pub proof fn law_missing_record_is_named(
    node: DiffNodeView,
    domain: Seq<char>,
    index: Map<Seq<char>, LiveRecordView>,
    head: RecordIdentView,
    old: RecordIdentView,
)
    requires
        node.provider_key.len() > 0,
        spells(node.provider_key[0], head.record_type, head.name, head.content),
        names_live_record(node, old) || (node.status is Delete && old == head),
        !index.contains_key(record_text(old.record_type, old.name, old.content)),
    ensures
        operation::operation_for(node, domain, index) == Err::<OperationView, ErrorView>(
            ErrorView::OperationFailed(
                "No live Porkbun record found for providerKey "@ + record_text(
                    old.record_type,
                    old.name,
                    old.content,
                ),
            ),
        ),
{
    law_display_text(old.record_type, old.name, old.content);
}

/// Whatever is wrong with a change, it is reported as a failed operation.
pub proof fn law_rejections_are_failed_operations(
    node: DiffNodeView,
    domain: Seq<char>,
    index: Map<Seq<char>, LiveRecordView>,
)
    ensures
        operation::operation_for(node, domain, index) matches Err(e) ==> e is OperationFailed,
{
    lemma_field_failures(node.field_changes);
}

proof fn lemma_field_failures(diffs: Seq<FieldDiffView>)
    ensures
        operation::desired_fields(diffs) matches Err(e) ==> e is OperationFailed,
    decreases diffs.len(),
{
    if diffs.len() > 0 {
        lemma_field_failures(diffs.drop_last());
    }
}

// ---- Descriptions ----
/// The zone of an operation.
pub open spec fn zone_of(op: OperationView) -> Seq<char> {
    match op {
        OperationView::Create { domain, .. } => domain,
        OperationView::Edit { domain, .. } => domain,
        OperationView::Delete { domain, .. } => domain,
    }
}

/// The command of a step is the request that its operation makes, as seen from
/// the address of the API.
pub proof fn law_command_is_the_request(
    status: StatusView,
    op: OperationView,
    auth: AuthView,
)
    requires
        provider::pairs(status, op),
    ensures
        provider::description(status, zone_of(op), op) matches Ok((_, command)) ==> command
            == "POST "@ + apply::op_call(
            ClientView { base_url: Seq::empty(), auth },
            op,
        ).url,
{
    reveal_strlit("POST ");
    reveal_strlit("POST /dns/create/");
    reveal_strlit("POST /dns/edit/");
    reveal_strlit("POST /dns/delete/");
    reveal_strlit("/dns/create/");
    reveal_strlit("/dns/edit/");
    reveal_strlit("/dns/delete/");
    let url = apply::op_call(ClientView { base_url: Seq::empty(), auth }, op).url;
    assert("POST /dns/create/"@ =~= "POST "@ + "/dns/create/"@);
    assert("POST /dns/edit/"@ =~= "POST "@ + "/dns/edit/"@);
    assert("POST /dns/delete/"@ =~= "POST "@ + "/dns/delete/"@);
    match op {
        OperationView::Create { domain, .. } => {
            assert("POST "@ + url =~= "POST /dns/create/"@ + domain);
        },
        OperationView::Edit { domain, id, .. } => {
            assert("POST "@ + url =~= "POST /dns/edit/"@ + domain + "/"@ + id);
        },
        OperationView::Delete { domain, id, .. } => {
            assert("POST "@ + url =~= "POST /dns/delete/"@ + domain + "/"@ + id);
        },
    }
}

/// The description of a step says what is done, to which record, and with which
/// content.
pub proof fn law_description_says_what_is_done(
    status: StatusView,
    domain: Seq<char>,
    op: OperationView,
)
    ensures
        status is Add ==> (op matches OperationView::Create { name, record_type, content, .. } ==> (
        provider::description(status, domain, op) matches Ok((said, _)) && said == "Create "@
            + record_type + " record "@ + name + "."@ + domain + " → "@ + content)),
        status is Modify ==> (op matches OperationView::Edit { name, record_type, content, .. }
            ==> (provider::description(status, domain, op) matches Ok((said, _)) && said == "Edit "@
            + record_type + " record "@ + name + "."@ + domain + " (content="@ + content + ")"@)),
        status is Delete ==> (op matches OperationView::Delete { name, record_type, content, .. }
            ==> (provider::description(status, domain, op) matches Ok((said, _)) && said
            == "Delete "@ + record_type + " record "@ + name + "."@ + domain + " ("@ + content
            + ")"@)),
{
}

/// The description of a rename says where it comes from and where it goes: the
/// first and the last entry of its chain.
pub proof fn law_rename_says_both_ends(
    chain: Seq<JsonView>,
    domain: Seq<char>,
    op: OperationView,
    from: RecordIdentView,
    to: RecordIdentView,
)
    requires
        op is Edit,
        chain.len() > 0,
        spells(chain[0], from.record_type, from.name, from.content),
        spells(chain[chain.len() - 1], to.record_type, to.name, to.content),
    ensures
        op matches OperationView::Edit { name, record_type, content, .. } && (
        provider::description(StatusView::Rename { chain }, domain, op) matches Ok((said, _))
            && said == "Rename "@ + record_text(from.record_type, from.name, from.content) + " → "@
            + record_text(to.record_type, to.name, to.content) + " (apply as edit of "@
            + record_type + " "@ + name + "."@ + domain + " → "@ + content + ")"@),
{
    law_display_text(from.record_type, from.name, from.content);
    law_display_text(to.record_type, to.name, to.content);
}

/// An operation that is not of the sort that the status takes is shown, and no
/// command is given for it.
pub proof fn law_mismatch_is_no_command(status: StatusView, domain: Seq<char>, op: OperationView)
    requires
        match status {
            StatusView::Add => !(op is Create),
            StatusView::Modify => !(op is Edit),
            StatusView::Rename { .. } => !(op is Edit),
            StatusView::Delete => !(op is Delete),
        },
    ensures
        provider::description(status, domain, op) matches Ok((said, command)) && said.take(22)
            == "Porkbun runbook step ("@ && command.take(26) == "(unrecognised op pairing: "@,
{
    reveal_strlit("Porkbun runbook step (");
    reveal_strlit("(unrecognised op pairing: ");
    let (said, command) = provider::description(status, domain, op)->Ok_0;
    assert(said.take(22) =~= "Porkbun runbook step ("@);
    assert(command.take(26) =~= "(unrecognised op pairing: "@);
}

/// A rename whose chain has an end that spells nothing cannot be described.
pub proof fn law_rename_needs_both_ends(
    chain: Seq<JsonView>,
    domain: Seq<char>,
    op: OperationView,
)
    requires
        op is Edit,
        chain.len() > 0,
        operation::provider_key_entry(chain[0]) is Err || operation::provider_key_entry(
            chain[chain.len() - 1],
        ) is Err,
    ensures
        provider::description(StatusView::Rename { chain }, domain, op) is Err,
{
}

/// An operation is shown with its sort and all of its fields.
pub proof fn law_operations_are_shown_in_full(
    domain: Seq<char>,
    id: Seq<char>,
    name: Seq<char>,
    record_type: Seq<char>,
    content: Seq<char>,
    ttl: Seq<char>,
    prio: Option<Seq<char>>,
)
    ensures
        ({
            let record = ", name: "@ + text::debug_text(name) + ", record_type: "@
                + text::debug_text(record_type) + ", content: "@ + text::debug_text(content);
            let rest = ", ttl: "@ + text::debug_text(ttl) + ", prio: "@ + match prio {
                Some(prio) => "Some("@ + text::debug_text(prio) + ")"@,
                None => "None"@,
            } + " }"@;
            let zone = " { domain: "@ + text::debug_text(domain);
            let which = ", id: "@ + text::debug_text(id);
            &&& operation::operation_debug(
                OperationView::Create { domain, name, record_type, content, ttl, prio },
            ) == "Create"@ + zone + record + rest
            &&& operation::operation_debug(
                OperationView::Edit { domain, id, name, record_type, content, ttl, prio },
            ) == "Edit"@ + zone + which + record + rest
            &&& operation::operation_debug(
                OperationView::Delete { domain, id, name, record_type, content },
            ) == "Delete"@ + zone + which + record + " }"@
        }),
{
    reveal_strlit("Create");
    reveal_strlit("Edit");
    reveal_strlit("Delete");
    reveal_strlit(" { domain: ");
    reveal_strlit("Create { domain: ");
    reveal_strlit("Edit { domain: ");
    reveal_strlit("Delete { domain: ");
    assert("Create { domain: "@ =~= "Create"@ + " { domain: "@);
    assert("Edit { domain: "@ =~= "Edit"@ + " { domain: "@);
    assert("Delete { domain: "@ =~= "Delete"@ + " { domain: "@);
    let record = ", name: "@ + text::debug_text(name) + ", record_type: "@ + text::debug_text(
        record_type,
    ) + ", content: "@ + text::debug_text(content);
    let rest = ", ttl: "@ + text::debug_text(ttl) + ", prio: "@ + match prio {
        Some(prio) => "Some("@ + text::debug_text(prio) + ")"@,
        None => "None"@,
    } + " }"@;
    let zone = " { domain: "@ + text::debug_text(domain);
    let which = ", id: "@ + text::debug_text(id);
    assert(operation::operation_debug(
        OperationView::Create { domain, name, record_type, content, ttl, prio },
    ) =~= "Create"@ + zone + record + rest);
    assert(operation::operation_debug(
        OperationView::Edit { domain, id, name, record_type, content, ttl, prio },
    ) =~= "Edit"@ + zone + which + record + rest);
    assert(operation::operation_debug(
        OperationView::Delete { domain, id, name, record_type, content },
    ) =~= "Delete"@ + zone + which + record + " }"@);
}

// ---- Runbooks ----
/// A runbook fails as its configuration does, else as its live state does, else
/// with the first change that has no step; otherwise it has, change by change,
/// the step of that change in the configured zone.
pub proof fn law_runbook_is_made_change_by_change(
    changes: Seq<DiffNodeView>,
    live: JsonView,
    decoded: Seq<Result<LiveRecordView, Seq<char>>>,
    config: Seq<(Seq<char>, FieldValueView)>,
)
    ensures
        config::resolved(config) matches Err(e) ==> provider::runbook(
            changes,
            live,
            decoded,
            config,
        ) == Err::<Seq<RunbookStepView>, ErrorView>(e),
        config::resolved(config) matches Ok(c) ==> match operation::live_index(live, decoded) {
            Err(e) => provider::runbook(changes, live, decoded, config) == Err::<
                Seq<RunbookStepView>,
                ErrorView,
            >(e),
            Ok(index) => match provider::runbook(changes, live, decoded, config) {
                Ok(steps) => steps.len() == changes.len() && forall|i: int|
                    0 <= i < changes.len() ==> provider::step_for(
                        #[trigger] changes[i],
                        c.domain,
                        index,
                    ) == Ok::<RunbookStepView, ErrorView>(steps[i]),
                Err(e) => exists|i: int|
                    0 <= i < changes.len() && provider::step_for(
                        #[trigger] changes[i],
                        c.domain,
                        index,
                    ) == Err::<RunbookStepView, ErrorView>(e) && forall|j: int|
                        0 <= j < i ==> provider::step_for(#[trigger] changes[j], c.domain, index)
                            is Ok,
            },
        },
{
    if let (Ok(c), Ok(index)) = (config::resolved(config), operation::live_index(live, decoded)) {
        laws::law_one_step_per_change(changes, c.domain, index);
    }
}

} // verus!
