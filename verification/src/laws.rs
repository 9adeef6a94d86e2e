//! What holds of the library as a whole.
use vstd::prelude::*;
use crate::apply;
use crate::apply::{ApplyRunView, ApplyStepView, ReplyView};
use crate::client;
use crate::client::{AuthView, ClientView, PorkbunRecordView, RecordRequestView};
use crate::error::ErrorView;
use crate::field_value::FieldValueView;
use crate::json;
use crate::json::{JsonView, Members};
use crate::model;
use crate::operation;
use crate::operation::{LiveRecordView, OperationView, RecordIdentView};
use crate::plan;
use crate::plan::{ApplyReportView, DiffNodeView, FieldDiffView, RunbookStepView, StatusView};
use crate::provider;
use crate::text;

verus! {

// ---- Record names and identities ----
/// The zone root is `"@"`, and a name under the zone is the part before the
/// domain: putting the domain back gives the name.
pub proof fn law_relative_name(rel: Seq<char>, domain: Seq<char>)
    ensures
        operation::relative(domain, domain) == operation::APEX@,
        operation::relative(rel + "."@ + domain, domain) == rel,
{
    let suffix = "."@ + domain;
    let fqdn = rel + "."@ + domain;
    reveal_strlit(".");
    assert(fqdn =~= rel + suffix);
    assert(fqdn.len() > domain.len());
    assert(fqdn.skip(fqdn.len() - suffix.len()) =~= suffix);
    assert(fqdn.take(fqdn.len() - suffix.len()) =~= rel);
}

/// Whether a name is the zone root or lies under it.
pub open spec fn in_zone(fqdn: Seq<char>, domain: Seq<char>) -> bool {
    fqdn == domain || text::ends_in(fqdn, "."@ + domain)
}

/// Within a zone, different names have different relative names, the name
/// `"@.<domain>"` aside.
pub proof fn law_relative_names_differ(a: Seq<char>, b: Seq<char>, domain: Seq<char>)
    requires
        in_zone(a, domain),
        in_zone(b, domain),
        a != operation::APEX@ + "."@ + domain,
        b != operation::APEX@ + "."@ + domain,
        operation::relative(a, domain) == operation::relative(b, domain),
    ensures
        a == b,
{
    let suffix = "."@ + domain;
    let apex = operation::APEX@;
    assert(apex + "."@ + domain =~= apex + suffix);
    if a != domain {
        assert(a =~= a.take(a.len() - suffix.len()) + suffix);
    }
    if b != domain {
        assert(b =~= b.take(b.len() - suffix.len()) + suffix);
    }
}

/// The display text, and with it the key of the live index, tells identities
/// apart whose type and name are free of slashes.
pub proof fn law_display_tells_identities_apart(a: RecordIdentView, b: RecordIdentView)
    requires
        !a.record_type.contains('/'),
        !a.name.contains('/'),
        !b.record_type.contains('/'),
        !b.name.contains('/'),
        operation::display_text(a) == operation::display_text(b),
    ensures
        a == b,
{
    reveal_strlit("/");
    let slash = seq!['/'];
    assert("/"@ =~= slash);
    let rest_a = match a.content {
        Some(c) => a.name + slash + c,
        None => a.name,
    };
    let rest_b = match b.content {
        Some(c) => b.name + slash + c,
        None => b.name,
    };
    assert(operation::display_text(a) =~= a.record_type + slash + rest_a);
    assert(operation::display_text(b) =~= b.record_type + slash + rest_b);
    lemma_split_unique(a.record_type, rest_a, b.record_type, rest_b);
    match (a.content, b.content) {
        (Some(c), Some(d)) => {
            lemma_split_unique(a.name, c, b.name, d);
        },
        (Some(c), None) => {
            assert(rest_a[a.name.len() as int] == '/');
            assert(b.name.contains('/'));
        },
        (None, Some(d)) => {
            assert(rest_b[b.name.len() as int] == '/');
            assert(a.name.contains('/'));
        },
        (None, None) => {},
    }
}

/// A text splits at its first slash in one way only.
proof fn lemma_split_unique(a: Seq<char>, x: Seq<char>, b: Seq<char>, y: Seq<char>)
    requires
        !a.contains('/'),
        !b.contains('/'),
        a + seq!['/'] + x == b + seq!['/'] + y,
    ensures
        a == b,
        x == y,
{
    let s = a + seq!['/'] + x;
    let t = b + seq!['/'] + y;
    assert(s[a.len() as int] == '/');
    assert(t[b.len() as int] == '/');
    if a.len() < b.len() {
        assert(b[a.len() as int] == t[a.len() as int]);
        assert(b.contains('/'));
    }
    if b.len() < a.len() {
        assert(a[b.len() as int] == s[b.len() as int]);
        assert(a.contains('/'));
    }
    assert(a =~= s.take(a.len() as int));
    assert(b =~= t.take(a.len() as int));
    assert(x =~= s.skip((a.len() + 1) as int));
    assert(y =~= t.skip((a.len() + 1) as int));
}

/// An identity written as a providerKey entry reads back as itself.
pub proof fn law_provider_key_reads_back(ident: RecordIdentView)
    ensures
        operation::provider_key_entry(provider::key_json(ident)) == Ok::<
            RecordIdentView,
            ErrorView,
        >(ident),
{
    lemma_member_names();
    let members = provider::key_json(ident)->Object_0;
    assert(model::distinct_keys(members));
    model::lemma_lookup_at(members, 0);
    model::lemma_lookup_at(members, 1);
    model::lemma_lookup_at(members, 2);
}

// ---- Changes and operations ----
/// What the changes want of a field is what its last mention wants; a field
/// that is not mentioned is left alone.
pub proof fn law_last_mention_counts(diffs: Seq<FieldDiffView>, field: Seq<char>)
    requires
        field == "content"@ || field == "ttl"@ || field == "prio"@,
    ensures
        operation::desired_fields(diffs) matches Ok(fields) ==> match last_mention(diffs, field) {
            Some(diff) => operation::field_target(diff) matches Ok(target) && operation::slot(
                fields,
                field,
            ) == Some(target),
            None => operation::slot(fields, field) is None,
        },
    decreases diffs.len(),
{
    lemma_member_names();
    if diffs.len() > 0 {
        law_last_mention_counts(diffs.drop_last(), field);
    }
}

/// The last change that mentions a field.
pub open spec fn last_mention(diffs: Seq<FieldDiffView>, field: Seq<char>) -> Option<FieldDiffView>
    decreases diffs.len(),
{
    if diffs.len() == 0 {
        None
    } else if diffs.last().field == field {
        Some(diffs.last())
    } else {
        last_mention(diffs.drop_last(), field)
    }
}

/// A change with a placeholder in place of a value is rejected, unless it is a
/// deletion, which takes no field values.
pub proof fn law_placeholder_is_rejected(
    node: DiffNodeView,
    domain: Seq<char>,
    index: Map<Seq<char>, LiveRecordView>,
    i: int,
)
    requires
        0 <= i < node.field_changes.len(),
        node.field_changes[i].to is DerivedPlaceholder,
        !(node.status is Delete),
    ensures
        operation::operation_for(node, domain, index) is Err,
{
    lemma_placeholder_fails(node.field_changes, i);
}

proof fn lemma_placeholder_fails(diffs: Seq<FieldDiffView>, i: int)
    requires
        0 <= i < diffs.len(),
        diffs[i].to is DerivedPlaceholder,
    ensures
        operation::desired_fields(diffs) is Err,
    decreases diffs.len(),
{
    if i < diffs.len() - 1 {
        lemma_placeholder_fails(diffs.drop_last(), i);
    }
}

/// An addition does not depend on the live state, and it creates the record of
/// its head identity under the given domain: with the content that the change
/// sets, or else that of the identity.
pub proof fn law_addition(
    node: DiffNodeView,
    domain: Seq<char>,
    index: Map<Seq<char>, LiveRecordView>,
    other: Map<Seq<char>, LiveRecordView>,
)
    requires
        node.status is Add,
    ensures
        operation::operation_for(node, domain, index) == operation::operation_for(
            node,
            domain,
            other,
        ),
        operation::operation_for(node, domain, index) matches Ok(op) ==> {
            &&& operation::provider_key_entry(node.provider_key[0]) matches Ok(head)
            &&& op matches OperationView::Create {
                domain: op_domain,
                name,
                record_type,
                content,
                ttl,
                prio,
            }
            &&& op_domain == domain && name == head.name && record_type == head.record_type
            &&& last_mention(node.field_changes, "content"@) is None ==> head.content == Some(
                content,
            )
            &&& last_mention(node.field_changes, "ttl"@) is None ==> ttl == operation::DEFAULT_TTL@
            &&& last_mention(node.field_changes, "prio"@) is None ==> prio is None
        },
{
    lemma_member_names();
    law_last_mention_counts(node.field_changes, "content"@);
    law_last_mention_counts(node.field_changes, "ttl"@);
    law_last_mention_counts(node.field_changes, "prio"@);
}

/// The identity under which a change finds its live record: the head, or for a
/// rename the first key of the chain.
pub open spec fn live_key(node: DiffNodeView) -> JsonView {
    match node.status {
        StatusView::Rename { chain } => chain[0],
        _ => node.provider_key[0],
    }
}

/// A modification or a rename is one edit, in place, of the live record that it
/// refers to.  The record takes on the head identity, keeps its content where
/// neither the identity nor the change says otherwise, and keeps the TTL and
/// the priority that the change does not mention.
pub proof fn law_edit_in_place(
    node: DiffNodeView,
    domain: Seq<char>,
    index: Map<Seq<char>, LiveRecordView>,
)
    requires
        node.status is Modify || node.status is Rename,
    ensures
        operation::operation_for(node, domain, index) matches Ok(op) ==> {
            &&& operation::provider_key_entry(node.provider_key[0]) matches Ok(head)
            &&& operation::provider_key_entry(live_key(node)) matches Ok(old)
            &&& index.contains_key(operation::display_text(old))
            &&& op matches OperationView::Edit {
                domain: op_domain,
                id,
                name,
                record_type,
                content,
                ttl,
                prio,
            }
            &&& op_domain == domain && name == head.name && record_type == head.record_type
            &&& id == index[operation::display_text(old)].id
            &&& head.content matches Some(c) ==> content == c
            &&& head.content is None && last_mention(node.field_changes, "content"@) is None
                ==> content == index[operation::display_text(old)].content
            &&& last_mention(node.field_changes, "ttl"@) is None ==> ttl
                == index[operation::display_text(old)].ttl
            &&& last_mention(node.field_changes, "prio"@) is None ==> prio
                == index[operation::display_text(old)].prio
        },
{
    lemma_member_names();
    law_last_mention_counts(node.field_changes, "content"@);
    law_last_mention_counts(node.field_changes, "ttl"@);
    law_last_mention_counts(node.field_changes, "prio"@);
}

/// A deletion removes the live record of its head identity and nothing else,
/// whatever field changes come with it.
pub proof fn law_deletion(
    node: DiffNodeView,
    domain: Seq<char>,
    index: Map<Seq<char>, LiveRecordView>,
)
    requires
        node.status is Delete,
    ensures
        operation::operation_for(node, domain, index) matches Ok(op) ==> {
            &&& operation::provider_key_entry(node.provider_key[0]) matches Ok(head)
            &&& index.contains_key(operation::display_text(head))
            &&& op matches OperationView::Delete { domain: op_domain, id, .. }
            &&& op_domain == domain && id == index[operation::display_text(head)].id
        },
{
}

/// A change of a record that is not live, an addition aside, fails with a
/// message that names the record.
pub proof fn law_missing_live_record(
    node: DiffNodeView,
    domain: Seq<char>,
    index: Map<Seq<char>, LiveRecordView>,
    head: RecordIdentView,
    old: RecordIdentView,
)
    requires
        !(node.status is Add),
        node.provider_key.len() > 0,
        node.status matches StatusView::Rename { chain } ==> chain.len() > 0,
        operation::provider_key_entry(node.provider_key[0]) == Ok::<RecordIdentView, ErrorView>(
            head,
        ),
        operation::provider_key_entry(live_key(node)) == Ok::<RecordIdentView, ErrorView>(old),
        !index.contains_key(operation::display_text(old)),
    ensures
        operation::operation_for(node, domain, index) == Err::<OperationView, ErrorView>(
            ErrorView::OperationFailed(
                "No live Porkbun record found for providerKey "@ + operation::display_text(old),
            ),
        ),
{
}

/// The form in which a runbook step carries an operation tells operations
/// apart, so that it determines the operation.
pub proof fn law_carried_form_determines_operation(a: OperationView, b: OperationView)
    requires
        operation::operation_json(a) == operation::operation_json(b),
    ensures
        a == b,
{
    law_carried_form_reads_back(a);
    law_carried_form_reads_back(b);
}

/// The text of a member, where it is one.
pub open spec fn text_at(v: JsonView, name: Seq<char>) -> Option<Seq<char>> {
    json::string_of(json::member(v, name))
}

/// An optional text: absent or null, or a text; nothing where it is neither.
pub open spec fn optional_text_at(v: JsonView, name: Seq<char>) -> Option<Option<Seq<char>>> {
    match json::member(v, name) {
        None => Some(None),
        Some(JsonView::Null) => Some(None),
        Some(JsonView::String(s)) => Some(Some(s)),
        Some(_) => None,
    }
}

/// The operation that a value spells, where it spells one: `action` says which,
/// and every field is a string, but for the priority, which may be absent or
/// null.
pub open spec fn spelled_operation(v: JsonView) -> Option<OperationView> {
    match (
        text_at(v, "action"@),
        text_at(v, "domain"@),
        text_at(v, "name"@),
        text_at(v, "record_type"@),
        text_at(v, "content"@),
    ) {
        (Some(action), Some(domain), Some(name), Some(record_type), Some(content)) => {
            if action == "create"@ {
                match (text_at(v, "ttl"@), optional_text_at(v, "prio"@)) {
                    (Some(ttl), Some(prio)) => Some(
                        OperationView::Create { domain, name, record_type, content, ttl, prio },
                    ),
                    _ => None,
                }
            } else if action == "edit"@ {
                match (text_at(v, "id"@), text_at(v, "ttl"@), optional_text_at(v, "prio"@)) {
                    (Some(id), Some(ttl), Some(prio)) => Some(
                        OperationView::Edit { domain, id, name, record_type, content, ttl, prio },
                    ),
                    _ => None,
                }
            } else if action == "delete"@ {
                match text_at(v, "id"@) {
                    Some(id) => Some(
                        OperationView::Delete { domain, id, name, record_type, content },
                    ),
                    None => None,
                }
            } else {
                None
            }
        },
        _ => None,
    }
}

/// The form in which an operation is carried reads back as that operation.
pub proof fn law_carried_form_reads_back(op: OperationView)
    ensures
        spelled_operation(operation::operation_json(op)) == Some(op),
{
    lemma_member_names();
    lemma_operation_names();
    let members = operation::operation_json(op)->Object_0;
    assert(model::distinct_keys(members));
    model::lemma_lookup_at(members, 0);
    model::lemma_lookup_at(members, 1);
    model::lemma_lookup_at(members, 2);
    model::lemma_lookup_at(members, 3);
    model::lemma_lookup_at(members, 4);
    model::lemma_lookup_at(members, 5);
    if members.len() >= 7 {
        model::lemma_lookup_at(members, 6);
    }
    if members.len() >= 8 {
        model::lemma_lookup_at(members, 7);
    }
}

/// Lengths, and first letters where lengths agree, of the names of operations.
proof fn lemma_operation_names()
    ensures
        "action"@.len() == 6 && "action"@[0] == 'a',
        "domain"@.len() == 6 && "domain"@[0] == 'd',
        "record_type"@.len() == 11,
        "create"@.len() == 6 && "create"@[0] == 'c',
        "edit"@.len() == 4,
        "delete"@.len() == 6 && "delete"@[0] == 'd',
{
    reveal_strlit("action");
    reveal_strlit("domain");
    reveal_strlit("record_type");
    reveal_strlit("create");
    reveal_strlit("edit");
    reveal_strlit("delete");
}

/// A step carries the operation of its change, so that execution gets back that
/// very operation, and describes it; a change without an operation has no step.
pub proof fn law_step_carries_its_operation(
    node: DiffNodeView,
    domain: Seq<char>,
    index: Map<Seq<char>, LiveRecordView>,
)
    ensures
        operation::operation_for(node, domain, index) matches Err(e) ==> provider::step_for(
            node,
            domain,
            index,
        ) == Err::<RunbookStepView, ErrorView>(e),
        provider::step_for(node, domain, index) matches Ok(step) ==> {
            &&& operation::operation_for(node, domain, index) matches Ok(op)
            &&& spelled_operation(step.operation) == Some(op)
            &&& step.body is None
            &&& provider::description(node.status, domain, op) == Ok::<
                (Seq<char>, Seq<char>),
                ErrorView,
            >((step.description, step.command))
        },
{
    if let Ok(op) = operation::operation_for(node, domain, index) {
        law_carried_form_reads_back(op);
    }
}

// ---- Requests ----
/// A create or edit request carries, in one flat object, the credentials and
/// every field of the record; a record without priority has no such member.
pub proof fn law_request_carries_credentials_and_record(
    auth: AuthView,
    record: RecordRequestView,
)
    ensures
        ({
            let body = JsonView::Object(
                client::auth_members(auth) + client::record_members(record),
            );
            &&& json::member(body, "apikey"@) == Some(JsonView::String(auth.apikey))
            &&& json::member(body, "secretapikey"@) == Some(JsonView::String(auth.secretapikey))
            &&& json::member(body, "name"@) == Some(JsonView::String(record.name))
            &&& json::member(body, "type"@) == Some(JsonView::String(record.record_type))
            &&& json::member(body, "content"@) == Some(JsonView::String(record.content))
            &&& json::member(body, "ttl"@) == Some(JsonView::String(record.ttl))
            &&& json::member(body, "prio"@) == match record.prio {
                Some(prio) => Some(JsonView::String(prio)),
                None => None,
            }
        }),
{
    lemma_member_names();
    let members = client::auth_members(auth) + client::record_members(record);
    assert(model::distinct_keys(members));
    model::lemma_lookup_at(members, 0);
    model::lemma_lookup_at(members, 1);
    model::lemma_lookup_at(members, 2);
    model::lemma_lookup_at(members, 3);
    model::lemma_lookup_at(members, 4);
    model::lemma_lookup_at(members, 5);
    model::lemma_lookup(members, "prio"@);
    if record.prio is Some {
        model::lemma_lookup_at(members, 6);
    }
}

// ---- Runbooks ----
/// A runbook has one step per change, in the order of the changes.
pub proof fn law_one_step_per_change(
    changes: Seq<DiffNodeView>,
    domain: Seq<char>,
    index: Map<Seq<char>, LiveRecordView>,
)
    ensures
        match provider::steps_for(changes, domain, index) {
            Ok(steps) => steps.len() == changes.len() && forall|i: int|
                0 <= i < changes.len() ==> provider::step_for(
                    #[trigger] changes[i],
                    domain,
                    index,
                ) == Ok::<RunbookStepView, ErrorView>(steps[i]),
            Err(e) => exists|i: int|
                0 <= i < changes.len() && provider::step_for(
                    #[trigger] changes[i],
                    domain,
                    index,
                ) == Err::<RunbookStepView, ErrorView>(e) && forall|j: int|
                    0 <= j < i ==> provider::step_for(#[trigger] changes[j], domain, index) is Ok,
        },
    decreases changes.len(),
{
    if changes.len() > 0 {
        let before = changes.drop_last();
        let last = changes.len() - 1;
        law_one_step_per_change(before, domain, index);
        assert forall|i: int| 0 <= i < last implies before[i] == #[trigger] changes[i] by {}
        match provider::steps_for(before, domain, index) {
            Err(e) => {
                let i = choose|i: int|
                    0 <= i < before.len() && provider::step_for(
                        #[trigger] before[i],
                        domain,
                        index,
                    ) == Err::<RunbookStepView, ErrorView>(e) && forall|j: int|
                        0 <= j < i ==> provider::step_for(#[trigger] before[j], domain, index) is Ok;
                assert(provider::step_for(changes[i], domain, index) == Err::<
                    RunbookStepView,
                    ErrorView,
                >(e));
                assert forall|j: int| 0 <= j < i implies provider::step_for(
                    #[trigger] changes[j],
                    domain,
                    index,
                ) is Ok by {
                    assert(provider::step_for(before[j], domain, index) is Ok);
                }
            },
            Ok(steps) => {
                assert forall|j: int| 0 <= j < last implies provider::step_for(
                    #[trigger] changes[j],
                    domain,
                    index,
                ) == Ok::<RunbookStepView, ErrorView>(steps[j]) by {
                    assert(provider::step_for(before[j], domain, index) == Ok::<
                        RunbookStepView,
                        ErrorView,
                    >(steps[j]));
                }
                assert(changes[last] == changes.last());
            },
        }
    }
}

/// A plan without changes has an empty runbook.
pub proof fn law_no_changes_no_steps(
    live: JsonView,
    decoded: Seq<Result<LiveRecordView, Seq<char>>>,
    config: Seq<(Seq<char>, FieldValueView)>,
)
    requires
        crate::config::resolved(config) is Ok,
        operation::live_index(live, decoded) is Ok,
    ensures
        provider::runbook(Seq::empty(), live, decoded, config) == Ok::<
            Seq<RunbookStepView>,
            ErrorView,
        >(Seq::empty()),
{
}

// ---- Execution ----
/// A run after a number of replies.
pub open spec fn after(run: ApplyRunView, replies: Seq<ReplyView>) -> ApplyRunView
    decreases replies.len(),
{
    if replies.len() == 0 {
        run
    } else {
        apply::resumed(after(run, replies.drop_last()), replies.last())
    }
}

/// The report of operations that were all done.
pub open spec fn report_of(ops: Seq<OperationView>) -> ApplyReportView
    decreases ops.len(),
{
    if ops.len() == 0 {
        plan::empty_report()
    } else {
        apply::reported(report_of(ops.drop_last()), ops.last())
    }
}

/// Steps that carry these operations.
pub open spec fn carries(steps: Seq<ApplyStepView>, ops: Seq<OperationView>) -> bool {
    &&& steps.len() == ops.len()
    &&& forall|i: int|
        0 <= i < steps.len() ==> (#[trigger] steps[i]).operation == Ok::<OperationView, Seq<char>>(
            ops[i],
        )
}

/// Whether a reply reports success.
pub open spec fn succeeded(reply: ReplyView) -> bool {
    reply matches Ok(resp) && resp.status == "SUCCESS"@
}

/// Execution sends one request per step, in order, as long as the replies
/// report success; and once every step has had its reply, the run comes to the
/// report that lists the record of each operation.
pub proof fn law_run_to_completion(
    client: ClientView,
    steps: Seq<ApplyStepView>,
    ops: Seq<OperationView>,
    replies: Seq<ReplyView>,
)
    requires
        carries(steps, ops),
        replies.len() <= ops.len(),
        forall|i: int| 0 <= i < replies.len() ==> succeeded(#[trigger] replies[i]),
    ensures
        ({
            let run = after(apply::started(client, steps), replies);
            if replies.len() < ops.len() {
                apply::due_call(run) == Some(apply::op_call(client, ops[replies.len() as int]))
            } else {
                &&& apply::due_call(run) is None
                &&& apply::ending(run) == Ok::<ApplyReportView, ErrorView>(report_of(ops))
            }
        }),
{
    lemma_after_successes(client, steps, ops, replies);
    if replies.len() == ops.len() {
        assert(ops.take(replies.len() as int) =~= ops);
    }
}

proof fn lemma_after_successes(
    client: ClientView,
    steps: Seq<ApplyStepView>,
    ops: Seq<OperationView>,
    replies: Seq<ReplyView>,
)
    requires
        carries(steps, ops),
        replies.len() <= ops.len(),
        forall|i: int| 0 <= i < replies.len() ==> succeeded(#[trigger] replies[i]),
    ensures
        after(apply::started(client, steps), replies) == (ApplyRunView {
            next: replies.len() as int,
            report: report_of(ops.take(replies.len() as int)),
            ..apply::started(client, steps)
        }),
    decreases replies.len(),
{
    if replies.len() == 0 {
        assert(ops.take(0) =~= Seq::empty());
    } else {
        let before = replies.drop_last();
        let n = before.len() as int;
        assert forall|i: int| 0 <= i < before.len() implies succeeded(#[trigger] before[i]) by {
            assert(before[i] == replies[i]);
        }
        lemma_after_successes(client, steps, ops, before);
        assert(succeeded(replies[n]));
        assert(steps[n].operation == Ok::<OperationView, Seq<char>>(ops[n]));
        assert(ops.take(n + 1).drop_last() =~= ops.take(n));
        assert(ops.take(n + 1).last() == ops[n]);
    }
}

/// The operations that changes ask for.
pub open spec fn planned(
    changes: Seq<DiffNodeView>,
    domain: Seq<char>,
    index: Map<Seq<char>, LiveRecordView>,
) -> Seq<OperationView> {
    Seq::new(changes.len(), |i: int| operation::operation_for(changes[i], domain, index)->Ok_0)
}

/// What is planned is what is executed: where each step's operation is decoded
/// as it is spelled, a run sends, change by change, the request of the operation
/// that the change asks for, as long as the replies report success, and ends in
/// the report of those operations.
pub proof fn law_runbook_is_executed_as_planned(
    changes: Seq<DiffNodeView>,
    domain: Seq<char>,
    index: Map<Seq<char>, LiveRecordView>,
    runbook: Seq<RunbookStepView>,
    steps: Seq<ApplyStepView>,
    client: ClientView,
    replies: Seq<ReplyView>,
)
    requires
        provider::steps_for(changes, domain, index) == Ok::<Seq<RunbookStepView>, ErrorView>(
            runbook,
        ),
        steps.len() == runbook.len(),
        forall|i: int|
            0 <= i < runbook.len() ==> (spelled_operation((#[trigger] runbook[i]).operation)
                matches Some(op) ==> steps[i].operation == Ok::<OperationView, Seq<char>>(op)),
        replies.len() <= changes.len(),
        forall|i: int| 0 <= i < replies.len() ==> succeeded(#[trigger] replies[i]),
    ensures
        carries(steps, planned(changes, domain, index)),
        ({
            let ops = planned(changes, domain, index);
            let run = after(apply::started(client, steps), replies);
            if replies.len() < ops.len() {
                apply::due_call(run) == Some(apply::op_call(client, ops[replies.len() as int]))
            } else {
                &&& apply::due_call(run) is None
                &&& apply::ending(run) == Ok::<ApplyReportView, ErrorView>(report_of(ops))
            }
        }),
{
    let ops = planned(changes, domain, index);
    law_one_step_per_change(changes, domain, index);
    assert forall|i: int| 0 <= i < steps.len() implies (#[trigger] steps[i]).operation == Ok::<
        OperationView,
        Seq<char>,
    >(ops[i]) by {
        assert(provider::step_for(changes[i], domain, index) == Ok::<RunbookStepView, ErrorView>(
            runbook[i],
        ));
        law_step_carries_its_operation(changes[i], domain, index);
    }
    law_run_to_completion(client, steps, ops, replies);
}

/// A runbook without steps sends nothing and comes to an empty report.
pub proof fn law_empty_run(client: ClientView)
    ensures
        apply::due_call(apply::started(client, Seq::empty())) is None,
        apply::ending(apply::started(client, Seq::empty())) == Ok::<ApplyReportView, ErrorView>(
            plan::empty_report(),
        ),
{
}

/// The first request that fails ends the run with the failure of its operation:
/// nothing is sent after it, whatever else comes in.
pub proof fn law_failure_ends_the_run(run: ApplyRunView, op: OperationView, reply: ReplyView)
    requires
        apply::due(run) == Some(op),
        !succeeded(reply),
    ensures
        ({
            let url = apply::op_call(run.client, op).url;
            let failed = apply::resumed(run, reply);
            &&& client::status_result(reply, url) matches Err(e) && apply::ending(failed) == Err::<
                ApplyReportView,
                ErrorView,
            >(apply::op_failure(op, e))
            &&& apply::due_call(failed) is None
            &&& forall|later: ReplyView| #[trigger] apply::resumed(failed, later) == failed
        }),
{
}

/// A step whose operation does not decode ends the run when its turn comes,
/// without a request.
pub proof fn law_undecodable_step_ends_the_run(run: ApplyRunView, message: Seq<char>)
    requires
        run.failure is None,
        0 <= run.next < run.steps.len(),
        run.steps[run.next].operation == Err::<OperationView, Seq<char>>(message),
    ensures
        apply::due_call(run) is None,
        apply::ending(run) == Err::<ApplyReportView, ErrorView>(
            apply::decode_failure(run.steps[run.next].description, message),
        ),
{
}

/// Every reply to a request that was due either ends the run or brings it one
/// step further, so a run ends after at most one request per step.
pub proof fn law_run_makes_progress(run: ApplyRunView, reply: ReplyView)
    requires
        apply::due(run) is Some,
    ensures
        apply::resumed(run, reply).steps == run.steps,
        apply::resumed(run, reply).failure is Some || apply::resumed(run, reply).next == run.next
            + 1,
{
}

// ---- Live state ----
/// The live record that a node body spells, where it spells one: every field is
/// a string, but for the priority, which may be absent or null.
pub open spec fn spelled_record(body: JsonView) -> Option<LiveRecordView> {
    match (
        json::string_of(json::member(body, "id"@)),
        json::string_of(json::member(body, "name"@)),
        json::string_of(json::member(body, "type"@)),
        json::string_of(json::member(body, "content"@)),
        json::string_of(json::member(body, "ttl"@)),
    ) {
        (Some(id), Some(name), Some(record_type), Some(content), Some(ttl)) => match json::member(
            body,
            "prio"@,
        ) {
            None => Some(LiveRecordView { id, name, record_type, content, ttl, prio: None }),
            Some(JsonView::Null) => Some(
                LiveRecordView { id, name, record_type, content, ttl, prio: None },
            ),
            Some(JsonView::String(prio)) => Some(
                LiveRecordView { id, name, record_type, content, ttl, prio: Some(prio) },
            ),
            Some(_) => None,
        },
        _ => None,
    }
}

/// Whether each body that spells a record was decoded to that record.
pub open spec fn decoded_as_spelled(
    bodies: Seq<JsonView>,
    decoded: Seq<Result<LiveRecordView, Seq<char>>>,
) -> bool {
    &&& decoded.len() == bodies.len()
    &&& forall|i: int|
        0 <= i < bodies.len() ==> (spelled_record(#[trigger] bodies[i]) matches Some(record)
            ==> decoded[i] == Ok::<LiveRecordView, Seq<char>>(record))
}

/// Whether a value is the node of a record: an object whose metadata names the
/// identity first, and that spells the record.  The order of members, here and
/// further in, makes no difference.
pub open spec fn is_node_of(
    v: JsonView,
    ident: RecordIdentView,
    record: LiveRecordView,
) -> bool {
    &&& v is Object
    &&& json::member(v, "__nixhapi"@) matches Some(meta)
    &&& json::member(meta, "providerKey"@) matches Some(JsonView::Array(keys))
    &&& keys.len() > 0
    &&& operation::provider_key_entry(keys[0]) == Ok::<RecordIdentView, ErrorView>(ident)
    &&& spelled_record(v) == Some(record)
}

/// Whether these are the nodes of these records, under whatever names and in
/// whatever order, with no identity twice.
pub open spec fn are_nodes_of(
    members: Members,
    idents: Seq<RecordIdentView>,
    records: Seq<LiveRecordView>,
) -> bool {
    &&& members.len() == idents.len() == records.len()
    &&& forall|i: int|
        0 <= i < members.len() ==> is_node_of((#[trigger] members[i]).1, idents[i], records[i])
    &&& forall|i: int, j: int|
        0 <= i < j < idents.len() ==> operation::display_text(#[trigger] idents[i])
            != operation::display_text(#[trigger] idents[j])
}

/// Whether an index holds these records, each under its identity, and nothing
/// else.
pub open spec fn holds_exactly(
    index: Map<Seq<char>, LiveRecordView>,
    idents: Seq<RecordIdentView>,
    records: Seq<LiveRecordView>,
) -> bool {
    &&& forall|i: int|
        0 <= i < idents.len() ==> {
            let key = operation::display_text(#[trigger] idents[i]);
            index.contains_key(key) && index[key] == records[i]
        }
    &&& forall|key: Seq<char>| #[trigger]
        index.contains_key(key) ==> exists|i: int|
            0 <= i < idents.len() && operation::display_text(#[trigger] idents[i]) == key
}

/// A live tree is indexed by the identities in it, whatever its attribute names
/// and its order: every record is found, field by field, under its identity, and
/// nothing else is.
pub proof fn law_live_trees_are_indexed(
    members: Members,
    idents: Seq<RecordIdentView>,
    records: Seq<LiveRecordView>,
    decoded: Seq<Result<LiveRecordView, Seq<char>>>,
)
    requires
        are_nodes_of(members, idents, records),
        decoded_as_spelled(operation::live_bodies(JsonView::Object(members)), decoded),
    ensures
        operation::live_index(JsonView::Object(members), decoded) matches Ok(index)
            && holds_exactly(index, idents, records),
{
    let tree = JsonView::Object(members);
    let keys = Seq::new(idents.len(), |i: int| operation::display_text(idents[i]));
    let index = Map::new(
        |key: Seq<char>| keys.contains(key),
        |key: Seq<char>| records[keys.index_of(key)],
    );
    assert forall|i: int| 0 <= i < members.len() implies (#[trigger] members[i]).1 is Object by {
        assert(is_node_of(members[i].1, idents[i], records[i]));
    }
    lemma_all_objects(members, members.len());
    let nodes = operation::live_nodes(tree);
    assert forall|i: int| 0 <= i < members.len() implies operation::index_entry(
        #[trigger] nodes[i],
        decoded[i],
    ) == Ok::<(Seq<char>, LiveRecordView), ErrorView>((keys[i], index[keys[i]])) by {
        assert(is_node_of(members[i].1, idents[i], records[i]));
        assert(nodes[i] == members[i].1->Object_0);
        lemma_metadata_spells_nothing(nodes[i]);
        assert(operation::live_bodies(tree)[i] == JsonView::Object(
            operation::without(nodes[i], "__nixhapi"@),
        ));
        assert(decoded[i] == Ok::<LiveRecordView, Seq<char>>(records[i]));
        lemma_key_index(idents, keys, i);
    }
    lemma_index_of_entries(keys, nodes, decoded, index, members.len());
    let found = operation::index_upto(nodes, decoded, members.len())->Ok_0;
    assert forall|i: int| 0 <= i < idents.len() implies ({
        let key = operation::display_text(#[trigger] idents[i]);
        found.contains_key(key) && found[key] == records[i]
    }) by {
        assert(found.contains_key(keys[i]));
        lemma_key_index(idents, keys, i);
    }
    assert forall|key: Seq<char>| #[trigger] found.contains_key(key) implies exists|i: int|
        0 <= i < idents.len() && operation::display_text(#[trigger] idents[i]) == key by {
        let i = choose|i: int| 0 <= i < members.len() && #[trigger] keys[i] == key;
        assert(operation::display_text(idents[i]) == key);
    }
}

/// Where no display text occurs twice, each has its own place.
proof fn lemma_key_index(idents: Seq<RecordIdentView>, keys: Seq<Seq<char>>, i: int)
    requires
        keys == Seq::new(idents.len(), |i: int| operation::display_text(idents[i])),
        0 <= i < idents.len(),
        forall|i: int, j: int|
            0 <= i < j < idents.len() ==> operation::display_text(#[trigger] idents[i])
                != operation::display_text(#[trigger] idents[j]),
    ensures
        keys.contains(keys[i]),
        keys.index_of(keys[i]) == i,
{
    let k = keys.index_of(keys[i]);
    assert(0 <= k < keys.len() && keys[k] == keys[i]);
    assert(operation::display_text(idents[k]) == operation::display_text(idents[i]));
}

/// The node that the listing gives a record is a node of that record.
pub proof fn law_listed_nodes_are_nodes(ident: RecordIdentView, record: LiveRecordView)
    ensures
        is_node_of(provider::node_json(ident, record), ident, record),
{
    lemma_node(ident, record);
    law_provider_key_reads_back(ident);
    let node = provider::node_json(ident, record)->Object_0;
    lemma_metadata_spells_nothing(node);
    let meta = node[0].1->Object_0;
    assert(meta[0] == ("providerKey"@, JsonView::Array(seq![provider::key_json(ident)])));
    assert(json::member(node[0].1, "providerKey"@) == Some(meta[0].1));
    assert(json::member(JsonView::Object(node), "__nixhapi"@) == Some(node[0].1));
}

/// The nodes that the listing gives records are indexed under the identities of
/// the records, under whatever names and in whatever order they come back.
pub proof fn law_listed_nodes_are_indexed(
    members: Members,
    idents: Seq<RecordIdentView>,
    records: Seq<LiveRecordView>,
    decoded: Seq<Result<LiveRecordView, Seq<char>>>,
)
    requires
        members.len() == idents.len() == records.len(),
        forall|i: int|
            0 <= i < members.len() ==> (#[trigger] members[i]).1 == provider::node_json(
                idents[i],
                records[i],
            ),
        forall|i: int, j: int|
            0 <= i < j < idents.len() ==> operation::display_text(#[trigger] idents[i])
                != operation::display_text(#[trigger] idents[j]),
        decoded_as_spelled(operation::live_bodies(JsonView::Object(members)), decoded),
    ensures
        operation::live_index(JsonView::Object(members), decoded) matches Ok(index)
            && holds_exactly(index, idents, records),
{
    assert forall|i: int| 0 <= i < members.len() implies is_node_of(
        (#[trigger] members[i]).1,
        idents[i],
        records[i],
    ) by {
        law_listed_nodes_are_nodes(idents[i], records[i]);
    }
    law_live_trees_are_indexed(members, idents, records, decoded);
}

/// A change that names a record of a live tree reaches exactly that record: a
/// deletion, a modification and a rename go to the identifier that Porkbun gave
/// it.
pub proof fn law_change_reaches_its_record(
    members: Members,
    idents: Seq<RecordIdentView>,
    records: Seq<LiveRecordView>,
    decoded: Seq<Result<LiveRecordView, Seq<char>>>,
    domain: Seq<char>,
    node: DiffNodeView,
    head: RecordIdentView,
    k: int,
)
    requires
        are_nodes_of(members, idents, records),
        decoded_as_spelled(operation::live_bodies(JsonView::Object(members)), decoded),
        0 <= k < idents.len(),
        !(node.status is Add),
        node.provider_key.len() > 0,
        node.status matches StatusView::Rename { chain } ==> chain.len() > 0,
        operation::provider_key_entry(node.provider_key[0]) == Ok::<RecordIdentView, ErrorView>(
            head,
        ),
        operation::provider_key_entry(live_key(node)) == Ok::<RecordIdentView, ErrorView>(
            idents[k],
        ),
    ensures
        operation::live_index(JsonView::Object(members), decoded) matches Ok(index)
            && operation::operation_for(node, domain, index) == if node.status is Delete {
            Ok(
                OperationView::Delete {
                    domain,
                    id: records[k].id,
                    name: head.name,
                    record_type: head.record_type,
                    content: records[k].content,
                },
            )
        } else {
            operation::edit_op(domain, head, records[k], node.field_changes)
        },
{
    law_live_trees_are_indexed(members, idents, records, decoded);
    assert(idents[k] == idents[k]);
}

/// Whatever is wrong with a live state, it is reported as that.
pub proof fn law_live_state_failures(
    live: JsonView,
    decoded: Seq<Result<LiveRecordView, Seq<char>>>,
)
    ensures
        operation::live_index(live, decoded) matches Err(e) ==> e is LiveStateParse,
{
    let nodes = operation::live_nodes(live);
    lemma_index_failures(nodes, decoded, nodes.len());
}

proof fn lemma_index_failures(
    nodes: Seq<Members>,
    decoded: Seq<Result<LiveRecordView, Seq<char>>>,
    n: nat,
)
    ensures
        operation::index_upto(nodes, decoded, n) matches Err(e) ==> e is LiveStateParse,
    decreases n,
{
    if n > 0 {
        lemma_index_failures(nodes, decoded, (n - 1) as nat);
    }
}

/// The metadata of a node has no part in what the node spells.
proof fn lemma_metadata_spells_nothing(node: Members)
    ensures
        spelled_record(JsonView::Object(operation::without(node, "__nixhapi"@))) == spelled_record(
            JsonView::Object(node),
        ),
{
    lemma_member_names();
    lemma_lookup_without(node, "__nixhapi"@, "id"@);
    lemma_lookup_without(node, "__nixhapi"@, "name"@);
    lemma_lookup_without(node, "__nixhapi"@, "type"@);
    lemma_lookup_without(node, "__nixhapi"@, "content"@);
    lemma_lookup_without(node, "__nixhapi"@, "ttl"@);
    lemma_lookup_without(node, "__nixhapi"@, "prio"@);
}

/// Leaving out one key leaves the others as they are.
pub proof fn lemma_lookup_without(members: Members, left_out: Seq<char>, key: Seq<char>)
    requires
        key != left_out,
    ensures
        model::lookup(operation::without(members, left_out), key) == model::lookup(members, key),
    decreases members.len(),
{
    reveal(Seq::filter);
    if members.len() > 0 {
        let before = members.drop_last();
        lemma_lookup_without(before, left_out, key);
        assert(members =~= before.push(members.last()));
        lemma_lookup_push(before, members.last(), key);
        lemma_lookup_push(operation::without(before, left_out), members.last(), key);
    }
}

/// What a lookup finds once there is one more entry.
proof fn lemma_lookup_push(members: Members, last: (Seq<char>, JsonView), key: Seq<char>)
    ensures
        model::lookup(members.push(last), key) == match model::lookup(members, key) {
            Some(v) => Some(v),
            None => if last.0 == key {
                Some(last.1)
            } else {
                None
            },
        },
    decreases members.len(),
{
    reveal_with_fuel(model::lookup, 2);
    let all = members.push(last);
    if members.len() > 0 {
        assert(all.skip(1) =~= members.skip(1).push(last));
        assert(all[0] == members[0]);
        lemma_lookup_push(members.skip(1), last, key);
    } else {
        assert(all[0] == last);
        assert(all.skip(1) =~= Seq::empty());
    }
}

/// The first `n` retrieved records by identity, a later one replacing an earlier
/// one of the same identity.
pub open spec fn records_by_identity(
    records: Seq<PorkbunRecordView>,
    domain: Seq<char>,
    n: nat,
) -> Map<Seq<char>, LiveRecordView>
    decreases n,
{
    if n == 0 {
        Map::empty()
    } else {
        records_by_identity(records, domain, (n - 1) as nat).insert(
            operation::display_text(provider::record_ident(records[n - 1], domain)),
            provider::kept_record(records[n - 1]),
        )
    }
}

/// What is listed is what a plan finds: the index of the listed tree holds each
/// retrieved record, field by field, under its identity.
pub proof fn law_listed_records_are_found(
    records: Seq<PorkbunRecordView>,
    domain: Seq<char>,
    decoded: Seq<Result<LiveRecordView, Seq<char>>>,
)
    requires
        decoded_as_spelled(operation::live_bodies(provider::live_tree(records, domain)), decoded),
    ensures
        operation::live_index(provider::live_tree(records, domain), decoded) == Ok::<
            Map<Seq<char>, LiveRecordView>,
            ErrorView,
        >(records_by_identity(records, domain, records.len())),
{
    let n = records.len();
    let members = provider::tree_members(records, domain, n);
    let index = records_by_identity(records, domain, n);
    let tree = provider::live_tree(records, domain);
    lemma_tree_members(records, domain, n);
    lemma_all_objects(members, members.len());
    let nodes = operation::live_nodes(tree);
    assert forall|i: int| 0 <= i < members.len() implies operation::index_entry(
        #[trigger] nodes[i],
        decoded[i],
    ) == Ok::<(Seq<char>, LiveRecordView), ErrorView>((members[i].0, index[members[i].0])) by {
        assert(tree_entry_in(members[i], index, records, domain, n));
        let k = choose|k: int| #[trigger] entry_of(members[i], index, records, domain, k) && 0 <= k
            < n;
        let ident = provider::record_ident(records[k], domain);
        let record = provider::kept_record(records[k]);
        lemma_node(ident, record);
        assert(nodes[i] == provider::node_json(ident, record)->Object_0);
        assert(operation::live_bodies(tree)[i] == JsonView::Object(
            operation::without(nodes[i], "__nixhapi"@),
        ));
        assert(decoded[i] == Ok::<LiveRecordView, Seq<char>>(record));
    }
    let keys = Seq::new(members.len(), |i: int| members[i].0);
    lemma_index_of_entries(keys, nodes, decoded, index, members.len());
    assert forall|i: int| 0 <= i < members.len() implies keys[i] == (#[trigger] members[i]).0 by {}
    assert(operation::index_upto(nodes, decoded, members.len())->Ok_0 =~= index);
}

/// Whether no later record has the identity of the `k`-th.
pub open spec fn last_of_its_identity(
    records: Seq<PorkbunRecordView>,
    domain: Seq<char>,
    k: int,
) -> bool {
    forall|j: int|
        k < j < records.len() ==> operation::display_text(
            provider::record_ident(#[trigger] records[j], domain),
        ) != operation::display_text(provider::record_ident(records[k], domain))
}

/// A change that names a listed record reaches exactly that record: a deletion
/// and an edit go to the identifier that Porkbun gave it, also where other
/// records have the same type and name.
pub proof fn law_listed_record_is_the_one_changed(
    records: Seq<PorkbunRecordView>,
    domain: Seq<char>,
    decoded: Seq<Result<LiveRecordView, Seq<char>>>,
    k: int,
    node: DiffNodeView,
)
    requires
        decoded_as_spelled(operation::live_bodies(provider::live_tree(records, domain)), decoded),
        0 <= k < records.len(),
        last_of_its_identity(records, domain, k),
        node.provider_key.len() > 0,
        node.status is Delete || node.status is Modify,
        node.provider_key[0] == provider::key_json(provider::record_ident(records[k], domain)),
    ensures
        ({
            let ident = provider::record_ident(records[k], domain);
            &&& operation::live_index(provider::live_tree(records, domain), decoded) matches Ok(
                index,
            )
            &&& node.status is Delete ==> operation::operation_for(node, domain, index) == Ok::<
                OperationView,
                ErrorView,
            >(
                OperationView::Delete {
                    domain,
                    id: records[k].id,
                    name: ident.name,
                    record_type: ident.record_type,
                    content: records[k].content,
                },
            )
            &&& node.status is Modify ==> operation::operation_for(node, domain, index)
                == operation::edit_op(
                domain,
                ident,
                provider::kept_record(records[k]),
                node.field_changes,
            )
        }),
{
    law_listed_records_are_found(records, domain, decoded);
    lemma_last_is_kept(records, domain, k, records.len());
    law_provider_key_reads_back(provider::record_ident(records[k], domain));
}

proof fn lemma_last_is_kept(
    records: Seq<PorkbunRecordView>,
    domain: Seq<char>,
    k: int,
    n: nat,
)
    requires
        0 <= k < n <= records.len(),
        last_of_its_identity(records, domain, k),
    ensures
        ({
            let key = operation::display_text(provider::record_ident(records[k], domain));
            let index = records_by_identity(records, domain, n);
            index.contains_key(key) && index[key] == provider::kept_record(records[k])
        }),
    decreases n,
{
    if k < n - 1 {
        lemma_last_is_kept(records, domain, k, (n - 1) as nat);
        assert(records[n - 1] == records[n - 1]);
    }
}

/// The listed tree holds each identity once.
pub proof fn law_listed_identities_are_distinct(
    records: Seq<PorkbunRecordView>,
    domain: Seq<char>,
)
    ensures
        model::distinct_keys(provider::live_tree(records, domain)->Object_0),
{
    lemma_tree_members(records, domain, records.len());
}

/// The tree entry of the `k`-th record, as the index has it.
spec fn entry_of(
    m: (Seq<char>, JsonView),
    index: Map<Seq<char>, LiveRecordView>,
    records: Seq<PorkbunRecordView>,
    domain: Seq<char>,
    k: int,
) -> bool {
    let ident = provider::record_ident(records[k], domain);
    let record = provider::kept_record(records[k]);
    &&& m == (operation::display_text(ident), provider::node_json(ident, record))
    &&& index.contains_key(m.0)
    &&& index[m.0] == record
}

spec fn tree_entry_in(
    m: (Seq<char>, JsonView),
    index: Map<Seq<char>, LiveRecordView>,
    records: Seq<PorkbunRecordView>,
    domain: Seq<char>,
    n: nat,
) -> bool {
    exists|k: int| #[trigger] entry_of(m, index, records, domain, k) && 0 <= k < n
}

proof fn lemma_tree_members(records: Seq<PorkbunRecordView>, domain: Seq<char>, n: nat)
    ensures
        ({
            let members = provider::tree_members(records, domain, n);
            let index = records_by_identity(records, domain, n);
            &&& model::distinct_keys(members)
            &&& forall|i: int|
                0 <= i < members.len() ==> tree_entry_in(
                    #[trigger] members[i],
                    index,
                    records,
                    domain,
                    n,
                )
            &&& forall|key: Seq<char>|
                #[trigger] index.contains_key(key) ==> exists|i: int|
                    0 <= i < members.len() && (#[trigger] members[i]).0 == key
        }),
    decreases n,
{
    if n > 0 {
        let before = provider::tree_members(records, domain, (n - 1) as nat);
        let old_index = records_by_identity(records, domain, (n - 1) as nat);
        lemma_tree_members(records, domain, (n - 1) as nat);
        let ident = provider::record_ident(records[n - 1], domain);
        let record = provider::kept_record(records[n - 1]);
        let key = operation::display_text(ident);
        let value = provider::node_json(ident, record);
        let members = provider::tree_members(records, domain, n);
        let index = records_by_identity(records, domain, n);
        model::lemma_put_distinct(before, key, value);
        model::lemma_lookup(before, key);
        assert forall|i: int| 0 <= i < members.len() implies tree_entry_in(
            #[trigger] members[i],
            index,
            records,
            domain,
            n,
        ) by {
            if members[i].0 == key {
                if i < before.len() {
                    assert(before[i].0 == key);
                }
                assert(members[i] == (key, value));
                assert(entry_of(members[i], index, records, domain, n - 1));
            } else {
                assert(members[i] == before[i]);
                assert(tree_entry_in(before[i], old_index, records, domain, (n - 1) as nat));
                let k = choose|k: int| #[trigger] entry_of(before[i], old_index, records, domain, k)
                    && 0 <= k < n - 1;
                assert(entry_of(members[i], index, records, domain, k));
            }
        }
        assert forall|k: Seq<char>| #[trigger] index.contains_key(k) implies exists|i: int|
            0 <= i < members.len() && (#[trigger] members[i]).0 == k by {
            if k == key {
                if model::lookup(before, key) is Some {
                    let i = choose|i: int| 0 <= i < before.len() && (#[trigger] before[i]).0 == key;
                    assert(members[i].0 == key);
                } else {
                    assert(members[before.len() as int].0 == key);
                }
            } else {
                assert(old_index.contains_key(k));
                let i = choose|i: int| 0 <= i < before.len() && (#[trigger] before[i]).0 == k;
                assert(members[i].0 == k);
            }
        }
    }
}

/// Where every member so far is an object, each is a node.
proof fn lemma_all_objects(members: Members, n: nat)
    requires
        n <= members.len(),
        forall|i: int| 0 <= i < n ==> (#[trigger] members[i]).1 is Object,
    ensures
        operation::object_bodies(members, n).len() == n,
        forall|i: int|
            0 <= i < n ==> #[trigger] operation::object_bodies(members, n)[i]
                == members[i].1->Object_0,
    decreases n,
{
    if n > 0 {
        lemma_all_objects(members, (n - 1) as nat);
        assert(members[n - 1].1 is Object);
    }
}

/// The index of nodes whose entries are known.
proof fn lemma_index_of_entries(
    keys: Seq<Seq<char>>,
    nodes: Seq<Members>,
    decoded: Seq<Result<LiveRecordView, Seq<char>>>,
    index: Map<Seq<char>, LiveRecordView>,
    n: nat,
)
    requires
        n <= keys.len(),
        nodes.len() == keys.len(),
        forall|i: int|
            0 <= i < keys.len() ==> operation::index_entry(#[trigger] nodes[i], decoded[i])
                == Ok::<(Seq<char>, LiveRecordView), ErrorView>(
                (keys[i], index[keys[i]]),
            ),
    ensures
        operation::index_upto(nodes, decoded, n) matches Ok(part) && (forall|key: Seq<char>|
            #[trigger] part.contains_key(key) ==> part[key] == index[key] && exists|i: int|
                0 <= i < n && #[trigger] keys[i] == key) && (forall|i: int|
            0 <= i < n ==> part.contains_key(#[trigger] keys[i])),
    decreases n,
{
    if n > 0 {
        lemma_index_of_entries(keys, nodes, decoded, index, (n - 1) as nat);
        assert(operation::index_entry(nodes[n - 1], decoded[n - 1]) is Ok);
        let before = operation::index_upto(nodes, decoded, (n - 1) as nat)->Ok_0;
        let part = operation::index_upto(nodes, decoded, n)->Ok_0;
        let last = keys[n - 1];
        assert forall|key: Seq<char>| #[trigger] part.contains_key(key) implies part[key]
            == index[key] && exists|i: int| 0 <= i < n && #[trigger] keys[i] == key by {
            if key != last {
                assert(before.contains_key(key));
                let i = choose|i: int| 0 <= i < n - 1 && #[trigger] keys[i] == key;
                assert(keys[i] == key);
            } else {
                assert(keys[n - 1] == key);
            }
        }
    }
}

/// A node spells its record beside its metadata, and names its identity in it.
proof fn lemma_node(ident: RecordIdentView, record: LiveRecordView)
    ensures
        ({
            let node = provider::node_json(ident, record)->Object_0;
            &&& spelled_record(JsonView::Object(operation::without(node, "__nixhapi"@))) == Some(
                record,
            )
            &&& operation::index_entry(node, Ok(record)) == Ok::<
                (Seq<char>, LiveRecordView),
                ErrorView,
            >((operation::display_text(ident), record))
        }),
{
    lemma_node_fields(ident, record);
    lemma_fields_spell(record);
    lemma_node_key(ident, record);
}

/// The members of a node beside its metadata.
spec fn node_fields(record: LiveRecordView) -> Members {
    seq![
        ("id"@, JsonView::String(record.id)),
        ("name"@, JsonView::String(record.name)),
        ("type"@, JsonView::String(record.record_type)),
        ("content"@, JsonView::String(record.content)),
        ("ttl"@, JsonView::String(record.ttl)),
        ("prio"@, json::string_or_null(record.prio)),
    ]
}

proof fn lemma_node_fields(ident: RecordIdentView, record: LiveRecordView)
    ensures
        operation::without(provider::node_json(ident, record)->Object_0, "__nixhapi"@)
            == node_fields(record),
{
    lemma_member_names();
    let node = provider::node_json(ident, record)->Object_0;
    let meta = seq![node[0]];
    let fields = node_fields(record);
    let keep = |m: (Seq<char>, JsonView)| m.0 != "__nixhapi"@;
    assert(node =~= meta + fields);
    assert(meta.filter(keep) =~= Seq::empty()) by {
        reveal_with_fuel(Seq::filter, 2);
        assert(meta.drop_last() =~= Seq::empty());
    }
    assert forall|i: int| 0 <= i < fields.len() implies keep(#[trigger] fields[i]) by {
        assert(i == 0 || i == 1 || i == 2 || i == 3 || i == 4 || i == 5);
    }
    lemma_filter_all(fields, keep);
    Seq::filter_distributes_over_add(meta, fields, keep);
    assert(meta.filter(keep) + fields.filter(keep) =~= fields);
}

proof fn lemma_fields_spell(record: LiveRecordView)
    ensures
        spelled_record(JsonView::Object(node_fields(record))) == Some(record),
{
    lemma_member_names();
    let fields = node_fields(record);
    assert(model::distinct_keys(fields));
    model::lemma_lookup_at(fields, 0);
    model::lemma_lookup_at(fields, 1);
    model::lemma_lookup_at(fields, 2);
    model::lemma_lookup_at(fields, 3);
    model::lemma_lookup_at(fields, 4);
    model::lemma_lookup_at(fields, 5);
}

proof fn lemma_node_key(ident: RecordIdentView, record: LiveRecordView)
    ensures
        operation::index_entry(provider::node_json(ident, record)->Object_0, Ok(record)) == Ok::<
            (Seq<char>, LiveRecordView),
            ErrorView,
        >((operation::display_text(ident), record)),
{
    law_provider_key_reads_back(ident);
    let node = provider::node_json(ident, record)->Object_0;
    let meta = node[0].1->Object_0;
    assert(meta[0] == ("providerKey"@, JsonView::Array(seq![provider::key_json(ident)])));
    assert(json::member(node[0].1, "providerKey"@) == Some(meta[0].1));
}

/// A filter that every item passes changes nothing.
proof fn lemma_filter_all<T>(items: Seq<T>, keep: spec_fn(T) -> bool)
    requires
        forall|i: int| 0 <= i < items.len() ==> keep(#[trigger] items[i]),
    ensures
        items.filter(keep) == items,
    decreases items.len(),
{
    reveal(Seq::filter);
    if items.len() > 0 {
        let before = items.drop_last();
        assert forall|i: int| 0 <= i < before.len() implies keep(#[trigger] before[i]) by {
            assert(before[i] == items[i]);
        }
        lemma_filter_all(before, keep);
        assert(keep(items[items.len() - 1]));
        assert(items =~= before.push(items.last()));
    } else {
        assert(items.filter(keep) =~= items);
    }
}

/// Lengths, and first letters where lengths agree, by which member names differ.
proof fn lemma_member_names()
    ensures
        "__nixhapi"@.len() == 9,
        "id"@.len() == 2,
        "name"@.len() == 4 && "name"@[0] == 'n',
        "type"@.len() == 4 && "type"@[0] == 't',
        "content"@.len() == 7,
        "ttl"@.len() == 3,
        "prio"@.len() == 4 && "prio"@[0] == 'p',
        "apikey"@.len() == 6,
        "secretapikey"@.len() == 12,
{
    reveal_strlit("__nixhapi");
    reveal_strlit("id");
    reveal_strlit("name");
    reveal_strlit("type");
    reveal_strlit("content");
    reveal_strlit("ttl");
    reveal_strlit("prio");
    reveal_strlit("apikey");
    reveal_strlit("secretapikey");
}

} // verus!
