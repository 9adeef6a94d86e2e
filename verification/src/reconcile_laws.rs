//! What holds of reconciliation as a whole.
use vstd::prelude::*;
use crate::error::ErrorView;
use crate::field_value::FieldValueView;
use crate::json;
use crate::json::JsonView;
use crate::model;
use crate::operation::LiveRecordView;
use crate::plan::RunbookStepView;
use crate::reconcile;
use crate::reconcile::{
    ChangeView, DesiredRecordView, FieldDiffView, FieldsView, OperationView, PlanView,
    ResolutionView,
};
use crate::text;

verus! {

// ---- Record keys ----
/// A record key reads back as the type and the name that it was built from,
/// whatever the name, as long as the type has no slash.
pub proof fn law_record_key_reads_back(record_type: Seq<char>, name: Seq<char>)
    requires
        !record_type.contains('/'),
    ensures
        reconcile::parsed_key(record_type + "/"@ + name) == Some((record_type, name)),
{
    reveal_strlit("/");
    assert("/"@ =~= seq!['/']);
    let key = record_type + "/"@ + name;
    key.index_of_first_ensures('/');
    assert(key[record_type.len() as int] == '/');
    let i = key.index_of_first('/').unwrap();
    if i < record_type.len() {
        assert(record_type[i] == '/');
    }
    assert(key.take(i) =~= record_type);
    assert(key.skip(i + 1) =~= name);
}

/// The parts of a record key spell the key again, so no two keys have the same
/// parts; and a key without a slash has none.
pub proof fn law_key_parts_spell_the_key(key: Seq<char>)
    ensures
        match reconcile::parsed_key(key) {
            Some((record_type, name)) => {
                &&& record_type + "/"@ + name == key
                &&& !record_type.contains('/')
            },
            None => !key.contains('/'),
        },
{
    reveal_strlit("/");
    assert("/"@ =~= seq!['/']);
    key.index_of_first_ensures('/');
    match key.index_of_first('/') {
        Some(i) => {
            assert(key =~= key.take(i) + "/"@ + key.skip(i + 1));
        },
        None => {},
    }
}

// ---- Fields ----
/// A live record with the fields of an edit.  An edit without a priority leaves
/// the priority as it is.
pub open spec fn edited(live: LiveRecordView, fields: FieldsView) -> LiveRecordView {
    LiveRecordView {
        content: fields.content,
        ttl: fields.ttl,
        prio: match fields.prio {
            Some(prio) => Some(prio),
            None => live.prio,
        },
        ..live
    }
}

/// An edit settles its record: once its fields are live, nothing is left to
/// change.
pub proof fn law_edit_settles(desired: DesiredRecordView, live: LiveRecordView)
    ensures
        reconcile::field_changes(
            desired,
            edited(live, reconcile::fields_for_edit(desired, live)),
        ).len() == 0,
{
}

/// A creation settles its record: once its fields are live, nothing is left to
/// change.
pub proof fn law_creation_settles(
    desired: DesiredRecordView,
    fields: FieldsView,
    id: Seq<char>,
    name: Seq<char>,
    record_type: Seq<char>,
)
    requires
        reconcile::fields_for_create(desired) == Ok::<FieldsView, ErrorView>(fields),
    ensures
        reconcile::field_changes(
            desired,
            LiveRecordView {
                id,
                name,
                record_type,
                content: fields.content,
                ttl: fields.ttl,
                prio: fields.prio,
            },
        ).len() == 0,
{
}

/// Whether the desired state leaves a field alone: it is unmanaged, it does not
/// resolve, or it is initial and set already.
pub open spec fn left_alone(field: ResolutionView, live: Seq<char>) -> bool {
    match field {
        Err(_) => true,
        Ok(FieldValueView::Unmanaged) => true,
        Ok(FieldValueView::Initial(_)) => live.len() > 0,
        Ok(FieldValueView::Managed(_)) => false,
    }
}

/// A field that the desired state leaves alone keeps its live value and is no
/// change; any other field takes the desired value.
pub proof fn law_ownership(field: ResolutionView, live: Seq<char>, name: Seq<char>)
    ensures
        left_alone(field, live) ==> {
            &&& reconcile::effective(field, live) == live
            &&& reconcile::field_change(name, field, live).len() == 0
        },
        !left_alone(field, live) ==> Some(reconcile::effective(field, live))
            == reconcile::resolved_value(field),
{
}

/// An edit names what it changes: each field change goes from the live value of
/// a field to another one, which is the one that the edit sends.
pub proof fn law_changes_are_what_an_edit_sends(desired: DesiredRecordView, live: LiveRecordView)
    ensures
        ({
            let changes = reconcile::field_changes(desired, live);
            let fields = reconcile::fields_for_edit(desired, live);
            forall|i: int|
                0 <= i < changes.len() ==> {
                    let change = #[trigger] changes[i];
                    &&& change.from != change.to
                    &&& ({
                        ||| change == (FieldDiffView {
                            field: "content"@,
                            from: Some(live.content),
                            to: Some(fields.content),
                        })
                        ||| change == (FieldDiffView {
                            field: "ttl"@,
                            from: Some(live.ttl),
                            to: Some(fields.ttl),
                        })
                        ||| change == (FieldDiffView {
                            field: "prio"@,
                            from: Some(reconcile::live_prio(live)),
                            to: fields.prio,
                        })
                    })
                }
        }),
{
}

// ---- Plans ----
/// The word by which an operation says what it does.
pub open spec fn action_of(change: ChangeView) -> Seq<char> {
    match change {
        ChangeView::Add { .. } => "create"@,
        ChangeView::Modify { .. } => "edit"@,
        ChangeView::Delete { .. } => "delete"@,
    }
}

/// The record that a change is about.
pub open spec fn resource_of(change: ChangeView) -> Seq<char> {
    match change {
        ChangeView::Add { resource_id, .. } => resource_id,
        ChangeView::Modify { resource_id, .. } => resource_id,
        ChangeView::Delete { resource_id } => resource_id,
    }
}

/// Whether a step's operation has this text under this name.
pub open spec fn says(step: RunbookStepView, name: Seq<char>, value: Seq<char>) -> bool {
    json::member(step.operation, name) == Some(JsonView::String(value))
}

/// Whether a step does what a change says: the right action, in the zone, on the
/// type and the name that the record's key spells; and, where the record is
/// live, on the identifier that Porkbun gave it.  A live record whose key spells
/// neither type nor name goes by its own.
pub open spec fn does(
    step: RunbookStepView,
    change: ChangeView,
    domain: Seq<char>,
    live: Seq<(Seq<char>, LiveRecordView)>,
) -> bool {
    let key = resource_of(change);
    &&& says(step, "action"@, action_of(change))
    &&& says(step, "domain"@, domain)
    &&& match reconcile::parsed_key(key) {
        Some((record_type, name)) => says(step, "record_type"@, record_type) && says(
            step,
            "name"@,
            name,
        ),
        None => change is Delete && (model::lookup(live, key) matches Some(record) && says(
            step,
            "record_type"@,
            record.record_type,
        ) && says(step, "name"@, record.name)),
    }
    &&& match model::lookup(live, key) {
        Some(record) => !(change is Add) && says(step, "id"@, record.id),
        None => change is Add,
    }
}

/// Whether each change has its step, in the same place.
pub open spec fn paired(
    plan: PlanView,
    domain: Seq<char>,
    live: Seq<(Seq<char>, LiveRecordView)>,
) -> bool {
    &&& plan.changes.len() == plan.steps.len()
    &&& forall|i: int|
        #![trigger plan.changes[i]]
        #![trigger plan.steps[i]]
        0 <= i < plan.changes.len() ==> does(plan.steps[i], plan.changes[i], domain, live)
}

/// Whether no record occurs twice.
pub open spec fn no_record_twice(changes: Seq<ChangeView>) -> bool {
    forall|i: int, j: int|
        0 <= i < j < changes.len() ==> resource_of(#[trigger] changes[i]) != resource_of(
            #[trigger] changes[j],
        )
}

/// Whether every deletion comes after every addition and modification.
pub open spec fn deletions_last(changes: Seq<ChangeView>) -> bool {
    forall|i: int, j: int|
        0 <= i < j < changes.len() && #[trigger] changes[i] is Delete ==> #[trigger] changes[j]
            is Delete
}

/// A plan that can be carried out step by step.
pub open spec fn orderly(
    plan: PlanView,
    domain: Seq<char>,
    live: Seq<(Seq<char>, LiveRecordView)>,
) -> bool {
    &&& paired(plan, domain, live)
    &&& no_record_twice(plan.changes)
    &&& deletions_last(plan.changes)
}

/// A plan has one step per change, in the same order, and each step carries the
/// action, the zone, the type, the name and the identifier that its change calls
/// for; no record occurs twice; and deletions come last.
pub proof fn law_plans_are_orderly(
    desired: Seq<(Seq<char>, DesiredRecordView)>,
    live: Seq<(Seq<char>, LiveRecordView)>,
    domain: Seq<char>,
    exprs: Seq<Result<Seq<char>, Seq<char>>>,
    results: Seq<Seq<Option<JsonView>>>,
)
    requires
        model::distinct_keys(desired),
        model::distinct_keys(live),
    ensures
        reconcile::full_plan(Ok(desired), Ok(live), domain, exprs, results) matches Ok(plan)
            ==> orderly(plan, domain, live),
{
    if let Ok(plan) = reconcile::full_plan(Ok(desired), Ok(live), domain, exprs, results) {
        let n = desired.len();
        lemma_desired_orderly(desired, live, domain, n);
        lemma_live_orderly(desired, live, results, domain, live.len());
        let a = reconcile::desired_plans(desired, live, domain, n)->Ok_0;
        let b = reconcile::live_plans(desired, live, results, domain, live.len());
        assert forall|i: int, j: int|
            0 <= i < a.changes.len() && 0 <= j < b.changes.len() implies resource_of(
            #[trigger] a.changes[i],
        ) != resource_of(#[trigger] b.changes[j]) by {
            assert(desired_change(a.changes[i], desired, n));
            assert(live_change(b.changes[j], desired, live, live.len()));
            let k = choose|k: int|
                0 <= k < n && (#[trigger] desired[k]).0 == resource_of(a.changes[i]);
            model::lemma_lookup_at(desired, k);
        }
        assert forall|i: int|
            #![trigger plan.changes[i]]
            #![trigger plan.steps[i]]
            0 <= i < plan.changes.len() implies does(
            plan.steps[i],
            plan.changes[i],
            domain,
            live,
        ) by {
            if i < a.changes.len() {
                assert(does(a.steps[i], a.changes[i], domain, live));
            } else {
                let k = i - a.changes.len();
                assert(does(b.steps[k], b.changes[k], domain, live));
            }
        }
        assert forall|i: int| 0 <= i < plan.changes.len() implies (#[trigger] plan.changes[i]
            is Delete <==> i >= a.changes.len()) by {
            if i < a.changes.len() {
                assert(desired_change(a.changes[i], desired, n));
            } else {
                assert(live_change(b.changes[i - a.changes.len()], desired, live, live.len()));
            }
        }
    }
}

/// Whether a change is about one of the first `n` desired records.
spec fn desired_change(
    change: ChangeView,
    desired: Seq<(Seq<char>, DesiredRecordView)>,
    n: nat,
) -> bool {
    &&& !(change is Delete)
    &&& exists|k: int| 0 <= k < n && (#[trigger] desired[k]).0 == resource_of(change)
}

/// Whether a change removes one of the first `n` live records, one that is not
/// desired.
spec fn live_change(
    change: ChangeView,
    desired: Seq<(Seq<char>, DesiredRecordView)>,
    live: Seq<(Seq<char>, LiveRecordView)>,
    n: nat,
) -> bool {
    &&& change is Delete
    &&& model::lookup(desired, resource_of(change)) is None
    &&& exists|k: int| 0 <= k < n && (#[trigger] live[k]).0 == resource_of(change)
}

proof fn lemma_desired_orderly(
    desired: Seq<(Seq<char>, DesiredRecordView)>,
    live: Seq<(Seq<char>, LiveRecordView)>,
    domain: Seq<char>,
    n: nat,
)
    requires
        n <= desired.len(),
        model::distinct_keys(desired),
    ensures
        reconcile::desired_plans(desired, live, domain, n) matches Ok(plan) ==> {
            &&& paired(plan, domain, live)
            &&& no_record_twice(plan.changes)
            &&& forall|i: int|
                0 <= i < plan.changes.len() ==> desired_change(
                    #[trigger] plan.changes[i],
                    desired,
                    n,
                )
        },
    decreases n,
{
    if n > 0 {
        lemma_desired_orderly(desired, live, domain, (n - 1) as nat);
        if let Ok(plan) = reconcile::desired_plans(desired, live, domain, n) {
            let before = reconcile::desired_plans(desired, live, domain, (n - 1) as nat)->Ok_0;
            let last = desired[n - 1];
            let own = reconcile::desired_plan(last.0, last.1, live, domain)->Ok_0;
            let m = before.changes.len();
            lemma_desired_step(last, live, domain);
            assert forall|i: int| 0 <= i < m implies resource_of(#[trigger] before.changes[i])
                != last.0 by {
                assert(desired_change(before.changes[i], desired, (n - 1) as nat));
                let k = choose|k: int|
                    0 <= k < n - 1 && (#[trigger] desired[k]).0 == resource_of(before.changes[i]);
                assert(desired[k].0 != desired[n - 1].0);
            }
            assert forall|i: int|
                0 <= i < plan.changes.len() implies desired_change(
                #[trigger] plan.changes[i],
                desired,
                n,
            ) by {
                if i < m {
                    assert(desired_change(before.changes[i], desired, (n - 1) as nat));
                } else {
                    assert(desired[n - 1].0 == resource_of(plan.changes[i]));
                }
            }
            assert forall|i: int|
                #![trigger plan.changes[i]]
                #![trigger plan.steps[i]]
                0 <= i < plan.changes.len() implies does(
                plan.steps[i],
                plan.changes[i],
                domain,
                live,
            ) by {
                if i < m {
                    assert(does(before.steps[i], before.changes[i], domain, live));
                }
            }
        }
    }
}

/// What a desired record takes is at most one change, about that record, and the
/// step that does it.
proof fn lemma_desired_step(
    entry: (Seq<char>, DesiredRecordView),
    live: Seq<(Seq<char>, LiveRecordView)>,
    domain: Seq<char>,
)
    ensures
        reconcile::desired_plan(entry.0, entry.1, live, domain) matches Ok(plan) ==> {
            &&& plan.changes.len() == plan.steps.len() <= 1
            &&& plan.changes.len() == 1 ==> {
                &&& !(plan.changes[0] is Delete)
                &&& resource_of(plan.changes[0]) == entry.0
                &&& does(plan.steps[0], plan.changes[0], domain, live)
            }
        },
{
    if let Ok(plan) = reconcile::desired_plan(entry.0, entry.1, live, domain) {
        let (record_type, name) = reconcile::parsed_key(entry.0)->Some_0;
        match model::lookup(live, entry.0) {
            None => {
                let fields = reconcile::fields_for_create(entry.1)->Ok_0;
                lemma_operation_members(
                    OperationView::Create {
                        domain,
                        name,
                        record_type,
                        content: fields.content,
                        ttl: fields.ttl,
                        prio: fields.prio,
                    },
                );
            },
            Some(record) => {
                let fields = reconcile::fields_for_edit(entry.1, record);
                lemma_operation_members(
                    OperationView::Edit {
                        domain,
                        id: record.id,
                        name,
                        record_type,
                        content: fields.content,
                        ttl: fields.ttl,
                        prio: fields.prio,
                    },
                );
            },
        }
    }
}

proof fn lemma_live_orderly(
    desired: Seq<(Seq<char>, DesiredRecordView)>,
    live: Seq<(Seq<char>, LiveRecordView)>,
    results: Seq<Seq<Option<JsonView>>>,
    domain: Seq<char>,
    n: nat,
)
    requires
        n <= live.len(),
        model::distinct_keys(live),
    ensures
        ({
            let plan = reconcile::live_plans(desired, live, results, domain, n);
            &&& paired(plan, domain, live)
            &&& no_record_twice(plan.changes)
            &&& forall|i: int|
                0 <= i < plan.changes.len() ==> live_change(
                    #[trigger] plan.changes[i],
                    desired,
                    live,
                    n,
                )
        }),
    decreases n,
{
    if n > 0 {
        lemma_live_orderly(desired, live, results, domain, (n - 1) as nat);
        let plan = reconcile::live_plans(desired, live, results, domain, n);
        let before = reconcile::live_plans(desired, live, results, domain, (n - 1) as nat);
        let last = live[n - 1];
        let m = before.changes.len();
        lemma_live_step(last, desired, results[n - 1], domain, live, n - 1);
        assert forall|i: int| 0 <= i < m implies resource_of(#[trigger] before.changes[i])
            != last.0 by {
            assert(live_change(before.changes[i], desired, live, (n - 1) as nat));
            let k = choose|k: int|
                0 <= k < n - 1 && (#[trigger] live[k]).0 == resource_of(before.changes[i]);
            assert(live[k].0 != live[n - 1].0);
        }
        assert forall|i: int| 0 <= i < plan.changes.len() implies live_change(
            #[trigger] plan.changes[i],
            desired,
            live,
            n,
        ) by {
            if i < m {
                assert(live_change(before.changes[i], desired, live, (n - 1) as nat));
            } else {
                assert(live[n - 1].0 == resource_of(plan.changes[i]));
            }
        }
        assert forall|i: int|
            #![trigger plan.changes[i]]
            #![trigger plan.steps[i]]
            0 <= i < plan.changes.len() implies does(
            plan.steps[i],
            plan.changes[i],
            domain,
            live,
        ) by {
            if i < m {
                assert(does(before.steps[i], before.changes[i], domain, live));
            }
        }
    }
}

/// What a live record takes is at most its removal, and the step that does it.
proof fn lemma_live_step(
    entry: (Seq<char>, LiveRecordView),
    desired: Seq<(Seq<char>, DesiredRecordView)>,
    results: Seq<Option<JsonView>>,
    domain: Seq<char>,
    live: Seq<(Seq<char>, LiveRecordView)>,
    k: int,
)
    requires
        model::distinct_keys(live),
        0 <= k < live.len(),
        live[k] == entry,
    ensures
        ({
            let plan = reconcile::live_plan(entry.0, entry.1, desired, results, domain);
            &&& plan.changes.len() == plan.steps.len() <= 1
            &&& plan.changes.len() == 1 ==> {
                &&& plan.changes[0] is Delete
                &&& model::lookup(desired, entry.0) is None
                &&& resource_of(plan.changes[0]) == entry.0
                &&& does(plan.steps[0], plan.changes[0], domain, live)
            }
        }),
{
    model::lemma_lookup_at(live, k);
    let (record_type, name) = match reconcile::parsed_key(entry.0) {
        Some(parts) => parts,
        None => (entry.1.record_type, entry.1.name),
    };
    lemma_operation_members(
        OperationView::Delete { domain, id: entry.1.id, name, record_type },
    );
}

/// What is found in the form in which an operation is carried.
proof fn lemma_operation_members(op: OperationView)
    ensures
        ({
            let v = reconcile::operation_json(op);
            match op {
                OperationView::Create { domain, name, record_type, .. } => {
                    &&& json::member(v, "action"@) == Some(JsonView::String("create"@))
                    &&& json::member(v, "domain"@) == Some(JsonView::String(domain))
                    &&& json::member(v, "name"@) == Some(JsonView::String(name))
                    &&& json::member(v, "record_type"@) == Some(JsonView::String(record_type))
                },
                OperationView::Edit { domain, id, name, record_type, .. } => {
                    &&& json::member(v, "action"@) == Some(JsonView::String("edit"@))
                    &&& json::member(v, "domain"@) == Some(JsonView::String(domain))
                    &&& json::member(v, "id"@) == Some(JsonView::String(id))
                    &&& json::member(v, "name"@) == Some(JsonView::String(name))
                    &&& json::member(v, "record_type"@) == Some(JsonView::String(record_type))
                },
                OperationView::Delete { domain, id, name, record_type } => {
                    &&& json::member(v, "action"@) == Some(JsonView::String("delete"@))
                    &&& json::member(v, "domain"@) == Some(JsonView::String(domain))
                    &&& json::member(v, "id"@) == Some(JsonView::String(id))
                    &&& json::member(v, "name"@) == Some(JsonView::String(name))
                    &&& json::member(v, "record_type"@) == Some(JsonView::String(record_type))
                },
            }
        }),
{
    reveal_strlit("action");
    reveal_strlit("domain");
    reveal_strlit("id");
    reveal_strlit("name");
    reveal_strlit("record_type");
    reveal_strlit("content");
    reveal_strlit("ttl");
    reveal_strlit("prio");
    assert("action"@.len() == 6 && "action"@[0] == 'a');
    assert("domain"@.len() == 6 && "domain"@[0] == 'd');
    assert("name"@.len() == 4 && "name"@[0] == 'n');
    assert("prio"@.len() == 4 && "prio"@[0] == 'p');
    assert("id"@.len() == 2 && "record_type"@.len() == 11);
    assert("content"@.len() == 7 && "ttl"@.len() == 3);
    let members = reconcile::operation_json(op)->Object_0;
    assert(model::distinct_keys(members));
    model::lemma_lookup_at(members, 0);
    model::lemma_lookup_at(members, 1);
    model::lemma_lookup_at(members, 2);
    model::lemma_lookup_at(members, 3);
    model::lemma_lookup_at(members, 4);
}

/// Whether a change is called for: an addition for a desired record that is not
/// live, a modification for one whose live fields differ, a deletion for a live
/// record that is neither desired nor exempt.
pub open spec fn called_for(
    change: ChangeView,
    desired: Seq<(Seq<char>, DesiredRecordView)>,
    live: Seq<(Seq<char>, LiveRecordView)>,
    results: Seq<Seq<Option<JsonView>>>,
) -> bool {
    ||| exists|i: int|
        0 <= i < desired.len() && desired_calls_for(change, #[trigger] desired[i], live)
    ||| exists|i: int|
        0 <= i < live.len() && live_calls_for(change, #[trigger] live[i], desired, results[i])
}

pub open spec fn desired_calls_for(
    change: ChangeView,
    entry: (Seq<char>, DesiredRecordView),
    live: Seq<(Seq<char>, LiveRecordView)>,
) -> bool {
    match change {
        ChangeView::Add { resource_id, fields } => {
            &&& resource_id == entry.0
            &&& model::lookup(live, entry.0) is None
            &&& reconcile::fields_for_create(entry.1) matches Ok(new) && fields
                == reconcile::new_fields(new)
        },
        ChangeView::Modify { resource_id, field_changes } => {
            &&& resource_id == entry.0
            &&& model::lookup(live, entry.0) matches Some(record) && field_changes
                == reconcile::field_changes(entry.1, record) && field_changes.len() > 0
        },
        ChangeView::Delete { .. } => false,
    }
}

pub open spec fn live_calls_for(
    change: ChangeView,
    entry: (Seq<char>, LiveRecordView),
    desired: Seq<(Seq<char>, DesiredRecordView)>,
    results: Seq<Option<JsonView>>,
) -> bool {
    &&& change == ChangeView::Delete { resource_id: entry.0 }
    &&& model::lookup(desired, entry.0) is None
    &&& !reconcile::ignored(results)
}

/// A plan holds exactly the changes that are called for.  So a live record that
/// is desired, or that an ignore expression exempts, is never deleted, and every
/// other one is.
pub proof fn law_plan_holds_what_is_called_for(
    desired: Seq<(Seq<char>, DesiredRecordView)>,
    live: Seq<(Seq<char>, LiveRecordView)>,
    domain: Seq<char>,
    exprs: Seq<Result<Seq<char>, Seq<char>>>,
    results: Seq<Seq<Option<JsonView>>>,
    change: ChangeView,
)
    ensures
        reconcile::full_plan(Ok(desired), Ok(live), domain, exprs, results) matches Ok(plan) ==> (
        plan.changes.contains(change) <==> called_for(change, desired, live, results)),
{
    if let Ok(plan) = reconcile::full_plan(Ok(desired), Ok(live), domain, exprs, results) {
        lemma_desired_changes(desired, live, domain, desired.len(), change);
        lemma_live_changes(desired, live, results, domain, live.len(), change);
        let a = reconcile::desired_plans(desired, live, domain, desired.len())->Ok_0;
        let b = reconcile::live_plans(desired, live, results, domain, live.len());
        lemma_contains_joined(a.changes, b.changes, change);
    }
}

proof fn lemma_contains_joined(a: Seq<ChangeView>, b: Seq<ChangeView>, change: ChangeView)
    ensures
        (a + b).contains(change) <==> a.contains(change) || b.contains(change),
{
    let all = a + b;
    if a.contains(change) {
        let i = choose|i: int| 0 <= i < a.len() && a[i] == change;
        assert(all[i] == change);
    }
    if b.contains(change) {
        let i = choose|i: int| 0 <= i < b.len() && b[i] == change;
        assert(all[a.len() + i] == change);
    }
    if all.contains(change) {
        let i = choose|i: int| 0 <= i < all.len() && all[i] == change;
        if i < a.len() {
            assert(a[i] == change);
        } else {
            assert(b[i - a.len()] == change);
        }
    }
}

proof fn lemma_desired_changes(
    desired: Seq<(Seq<char>, DesiredRecordView)>,
    live: Seq<(Seq<char>, LiveRecordView)>,
    domain: Seq<char>,
    n: nat,
    change: ChangeView,
)
    requires
        n <= desired.len(),
    ensures
        reconcile::desired_plans(desired, live, domain, n) matches Ok(plan) ==> (
        plan.changes.contains(change) <==> exists|i: int|
            0 <= i < n && desired_calls_for(change, #[trigger] desired[i], live)),
    decreases n,
{
    if n > 0 {
        lemma_desired_changes(desired, live, domain, (n - 1) as nat, change);
        let last = desired[n - 1];
        if let Ok(plan) = reconcile::desired_plans(desired, live, domain, n) {
            let before = reconcile::desired_plans(desired, live, domain, (n - 1) as nat)->Ok_0;
            let own = reconcile::desired_plan(last.0, last.1, live, domain)->Ok_0;
            lemma_contains_joined(before.changes, own.changes, change);
            if own.changes.len() > 0 {
                assert(own.changes[0] == own.changes.last());
            }
            assert(own.changes.contains(change) <==> desired_calls_for(change, last, live));
            if exists|i: int| 0 <= i < n && desired_calls_for(change, #[trigger] desired[i], live) {
                let i = choose|i: int|
                    0 <= i < n && desired_calls_for(change, #[trigger] desired[i], live);
                assert(i == n - 1 || i < n - 1);
            }
        }
    }
}

proof fn lemma_live_changes(
    desired: Seq<(Seq<char>, DesiredRecordView)>,
    live: Seq<(Seq<char>, LiveRecordView)>,
    results: Seq<Seq<Option<JsonView>>>,
    domain: Seq<char>,
    n: nat,
    change: ChangeView,
)
    requires
        n <= live.len(),
    ensures
        reconcile::live_plans(desired, live, results, domain, n).changes.contains(change)
            <==> exists|i: int|
            0 <= i < n && live_calls_for(change, #[trigger] live[i], desired, results[i]),
    decreases n,
{
    if n > 0 {
        lemma_live_changes(desired, live, results, domain, (n - 1) as nat, change);
        let last = live[n - 1];
        let before = reconcile::live_plans(desired, live, results, domain, (n - 1) as nat);
        let own = reconcile::live_plan(last.0, last.1, desired, results[n - 1], domain);
        lemma_contains_joined(before.changes, own.changes, change);
        if own.changes.len() > 0 {
            assert(own.changes[0] == own.changes.last());
        }
        assert(own.changes.contains(change) <==> live_calls_for(
            change,
            last,
            desired,
            results[n - 1],
        ));
        if exists|i: int|
            0 <= i < n && live_calls_for(change, #[trigger] live[i], desired, results[i]) {
            let i = choose|i: int|
                0 <= i < n && live_calls_for(change, #[trigger] live[i], desired, results[i]);
            assert(i == n - 1 || i < n - 1);
        }
    }
}

/// Where the live records agree with the desired ones, and the others are
/// exempt, there is nothing to do.
pub proof fn law_agreement_needs_nothing(
    desired: Seq<(Seq<char>, DesiredRecordView)>,
    live: Seq<(Seq<char>, LiveRecordView)>,
    domain: Seq<char>,
    exprs: Seq<Result<Seq<char>, Seq<char>>>,
    results: Seq<Seq<Option<JsonView>>>,
)
    requires
        reconcile::ignore_exprs(exprs) is Ok,
        forall|i: int|
            0 <= i < desired.len() ==> {
                let entry = #[trigger] desired[i];
                &&& reconcile::parsed_key(entry.0) is Some
                &&& model::lookup(live, entry.0) matches Some(record) && reconcile::field_changes(
                    entry.1,
                    record,
                ).len() == 0
            },
        forall|i: int|
            0 <= i < live.len() ==> model::lookup(desired, (#[trigger] live[i]).0) is Some
                || reconcile::ignored(results[i]),
    ensures
        reconcile::full_plan(Ok(desired), Ok(live), domain, exprs, results) == Ok::<
            PlanView,
            ErrorView,
        >(reconcile::empty_plan()),
{
    lemma_agreeing_desired(desired, live, domain, desired.len());
    lemma_agreeing_live(desired, live, results, domain, live.len());
    assert(reconcile::joined(reconcile::empty_plan(), reconcile::empty_plan())
        =~= reconcile::empty_plan());
}

proof fn lemma_agreeing_desired(
    desired: Seq<(Seq<char>, DesiredRecordView)>,
    live: Seq<(Seq<char>, LiveRecordView)>,
    domain: Seq<char>,
    n: nat,
)
    requires
        n <= desired.len(),
        forall|i: int|
            0 <= i < desired.len() ==> {
                let entry = #[trigger] desired[i];
                &&& reconcile::parsed_key(entry.0) is Some
                &&& model::lookup(live, entry.0) matches Some(record) && reconcile::field_changes(
                    entry.1,
                    record,
                ).len() == 0
            },
    ensures
        reconcile::desired_plans(desired, live, domain, n) == Ok::<PlanView, ErrorView>(
            reconcile::empty_plan(),
        ),
    decreases n,
{
    if n > 0 {
        lemma_agreeing_desired(desired, live, domain, (n - 1) as nat);
        let entry = desired[n - 1];
        assert(model::lookup(live, entry.0) is Some);
        assert(reconcile::joined(reconcile::empty_plan(), reconcile::empty_plan())
            =~= reconcile::empty_plan());
    }
}

proof fn lemma_agreeing_live(
    desired: Seq<(Seq<char>, DesiredRecordView)>,
    live: Seq<(Seq<char>, LiveRecordView)>,
    results: Seq<Seq<Option<JsonView>>>,
    domain: Seq<char>,
    n: nat,
)
    requires
        n <= live.len(),
        forall|i: int|
            0 <= i < live.len() ==> model::lookup(desired, (#[trigger] live[i]).0) is Some
                || reconcile::ignored(results[i]),
    ensures
        reconcile::live_plans(desired, live, results, domain, n) == reconcile::empty_plan(),
    decreases n,
{
    if n > 0 {
        lemma_agreeing_live(desired, live, results, domain, (n - 1) as nat);
        let entry = live[n - 1];
        assert(model::lookup(desired, entry.0) is Some || reconcile::ignored(results[n - 1]));
        assert(reconcile::joined(reconcile::empty_plan(), reconcile::empty_plan())
            =~= reconcile::empty_plan());
    }
}

/// Two operations that are carried in the same form are the same.
pub proof fn law_carried_form_determines_operation(a: OperationView, b: OperationView)
    requires
        reconcile::operation_json(a) == reconcile::operation_json(b),
    ensures
        a == b,
{
    let x = reconcile::operation_json(a)->Object_0;
    let y = reconcile::operation_json(b)->Object_0;
    assert(x.len() == y.len());
    assert(x[1] == y[1] && x[2] == y[2] && x[3] == y[3] && x[4] == y[4]);
    if x.len() >= 7 {
        assert(x[5] == y[5] && x[6] == y[6]);
    }
    if x.len() >= 8 {
        assert(x[7] == y[7]);
    }
}

// ---- Fields, one by one ----
/// The value that a field has to take: a managed one its own, an initial one its
/// own while the live side has none; any other field none.
pub open spec fn wanted(field: ResolutionView, live: Seq<char>) -> Option<Seq<char>> {
    match field {
        Ok(FieldValueView::Managed(value)) => Some(value),
        Ok(FieldValueView::Initial(value)) => if live.len() == 0 {
            Some(value)
        } else {
            None
        },
        _ => None,
    }
}

/// The value that a field has to take, or the live one.
pub open spec fn wanted_or_live(field: ResolutionView, live: Seq<char>) -> Seq<char> {
    match wanted(field, live) {
        Some(value) => value,
        None => live,
    }
}

/// A live priority; one that is not there is empty.
pub open spec fn prio_of(live: LiveRecordView) -> Seq<char> {
    match live.prio {
        Some(prio) => prio,
        None => Seq::empty(),
    }
}

/// Whether changes hold the change of a field where one is due, from the live
/// value to the one that the field has to take, and none where none is.
pub open spec fn changed_as_due(
    changes: Seq<FieldDiffView>,
    name: Seq<char>,
    field: ResolutionView,
    live: Seq<char>,
) -> bool {
    if wanted(field, live) is Some && wanted(field, live) != Some(live) {
        changes.contains(FieldDiffView { field: name, from: Some(live), to: wanted(field, live) })
    } else {
        not_changed(changes, name)
    }
}

/// Whether changes leave a field out.
pub open spec fn not_changed(changes: Seq<FieldDiffView>, name: Seq<char>) -> bool {
    forall|i: int| 0 <= i < changes.len() ==> (#[trigger] changes[i]).field != name
}

/// The field changes of a live record are complete, and hold nothing else: each
/// of content, TTL and, where it is desired, priority is changed if and only if
/// it has to take another value than the live one.
pub proof fn law_field_changes_are_complete(desired: DesiredRecordView, live: LiveRecordView)
    ensures
        ({
            let changes = reconcile::field_changes(desired, live);
            &&& changed_as_due(changes, "content"@, desired.content, live.content)
            &&& changed_as_due(changes, "ttl"@, desired.ttl, live.ttl)
            &&& match desired.prio {
                Some(prio) => changed_as_due(changes, "prio"@, prio, prio_of(live)),
                None => not_changed(changes, "prio"@),
            }
            &&& forall|i: int|
                0 <= i < changes.len() ==> (#[trigger] changes[i]).field == "content"@
                    || changes[i].field == "ttl"@ || changes[i].field == "prio"@
            &&& forall|i: int, j: int|
                0 <= i < j < changes.len() ==> (#[trigger] changes[i]).field != (
                #[trigger] changes[j]).field
        }),
{
    lemma_field_names();
    let changes = reconcile::field_changes(desired, live);
    let a = reconcile::field_change("content"@, desired.content, live.content);
    let b = reconcile::field_change("ttl"@, desired.ttl, live.ttl);
    let c = match desired.prio {
        Some(prio) => reconcile::field_change("prio"@, prio, reconcile::live_prio(live)),
        None => Seq::empty(),
    };
    assert(changes =~= a + b + c);
    if a.len() > 0 {
        assert(changes[0] == a[0]);
    }
    if b.len() > 0 {
        assert(changes[a.len() as int] == b[0]);
    }
    if c.len() > 0 {
        assert(changes[(a.len() + b.len()) as int] == c[0]);
    }
}

/// Where there are no field changes, every managed field of the live record has
/// its desired value.
pub proof fn law_no_field_changes_is_agreement(desired: DesiredRecordView, live: LiveRecordView)
    requires
        reconcile::field_changes(desired, live).len() == 0,
    ensures
        desired.content matches Ok(FieldValueView::Managed(value)) ==> live.content == value,
        desired.ttl matches Ok(FieldValueView::Managed(value)) ==> live.ttl == value,
        desired.prio matches Some(Ok(FieldValueView::Managed(value))) ==> prio_of(live) == value,
{
    law_field_changes_are_complete(desired, live);
}

proof fn lemma_field_names()
    ensures
        "content"@.len() == 7,
        "ttl"@.len() == 3,
        "prio"@.len() == 4,
{
    reveal_strlit("content");
    reveal_strlit("ttl");
    reveal_strlit("prio");
}

/// An edit gives each field the value that it has to take, and leaves the others
/// at their live value; a priority that is not desired is not sent.
pub proof fn law_edit_sends_what_is_wanted(desired: DesiredRecordView, live: LiveRecordView)
    ensures
        reconcile::fields_for_edit(desired, live) == (FieldsView {
            content: wanted_or_live(desired.content, live.content),
            ttl: wanted_or_live(desired.ttl, live.ttl),
            prio: match desired.prio {
                Some(prio) => Some(wanted_or_live(prio, prio_of(live))),
                None => None,
            },
        }),
{
}

/// The text of a field of a new record: managed and initial count alike.
pub open spec fn given(field: ResolutionView) -> Option<Seq<char>> {
    match field {
        Ok(FieldValueView::Managed(value)) => Some(value),
        Ok(FieldValueView::Initial(value)) => Some(value),
        _ => None,
    }
}

/// The TTL of a new record: the one that is given, else 600.
pub open spec fn new_ttl(desired: DesiredRecordView) -> Seq<char> {
    match given(desired.ttl) {
        Some(ttl) => ttl,
        None => seq!['6', '0', '0'],
    }
}

/// The priority of a new record: the one that is given, else none.
pub open spec fn new_prio(desired: DesiredRecordView) -> Option<Seq<char>> {
    match desired.prio {
        Some(prio) => given(prio),
        None => None,
    }
}

/// A record can be created if and only if its content is given and its TTL
/// resolves; the failure says why it cannot.
pub proof fn law_new_record_takes_what_is_given(desired: DesiredRecordView)
    ensures
        given(desired.content) matches Some(content) ==> desired.ttl is Ok
            ==> reconcile::fields_for_create(desired) == Ok::<FieldsView, ErrorView>(
            FieldsView { content, ttl: new_ttl(desired), prio: new_prio(desired) },
        ),
        given(desired.content) is Some ==> (desired.ttl matches Err(e)
            ==> reconcile::fields_for_create(desired) == Err::<FieldsView, ErrorView>(
            ErrorView::OperationFailed(e),
        )),
        desired.content matches Err(e) ==> reconcile::fields_for_create(desired) == Err::<
            FieldsView,
            ErrorView,
        >(ErrorView::OperationFailed(e)),
        desired.content == Ok::<FieldValueView, Seq<char>>(FieldValueView::Unmanaged)
            ==> (reconcile::fields_for_create(desired) matches Err(e) && e is OperationFailed),
{
    reveal_strlit("600");
    assert("600"@ =~= seq!['6', '0', '0']);
}

/// The field changes of a new record are its fields: content and TTL, and a
/// priority where there is one, none of them there before.
pub proof fn law_new_fields_are_all_of_them(fields: FieldsView)
    ensures
        ({
            let changes = reconcile::new_fields(fields);
            &&& changes.len() == if fields.prio is Some {
                3int
            } else {
                2int
            }
            &&& changes.contains(
                FieldDiffView { field: "content"@, from: None, to: Some(fields.content) },
            )
            &&& changes.contains(FieldDiffView { field: "ttl"@, from: None, to: Some(fields.ttl) })
            &&& fields.prio is Some ==> changes.contains(
                FieldDiffView { field: "prio"@, from: None, to: fields.prio },
            )
        }),
{
    let changes = reconcile::new_fields(fields);
    assert(changes[0] == (FieldDiffView { field: "content"@, from: None, to: Some(fields.content) }));
    assert(changes[1] == (FieldDiffView { field: "ttl"@, from: None, to: Some(fields.ttl) }));
    if fields.prio is Some {
        assert(changes[2] == (FieldDiffView { field: "prio"@, from: None, to: fields.prio }));
    }
}

// ---- Steps, field by field ----
/// Whether a step's operation has this priority; null where there is none.
pub open spec fn says_prio(step: RunbookStepView, prio: Option<Seq<char>>) -> bool {
    json::member(step.operation, "prio"@) == match prio {
        Some(prio) => Some(JsonView::String(prio)),
        None => Some(JsonView::Null),
    }
}

/// Whether a step carries the field values that its change calls for, taken from
/// the desired record and the live one.
pub open spec fn carries_values(
    step: RunbookStepView,
    change: ChangeView,
    desired: Seq<(Seq<char>, DesiredRecordView)>,
    live: Seq<(Seq<char>, LiveRecordView)>,
) -> bool {
    match change {
        ChangeView::Add { resource_id, .. } => {
            &&& model::lookup(desired, resource_id) matches Some(want)
            &&& given(want.content) matches Some(content) && says(step, "content"@, content)
            &&& says(step, "ttl"@, new_ttl(want))
            &&& says_prio(step, new_prio(want))
        },
        ChangeView::Modify { resource_id, .. } => {
            &&& model::lookup(desired, resource_id) matches Some(want)
            &&& model::lookup(live, resource_id) matches Some(have)
            &&& says(step, "content"@, wanted_or_live(want.content, have.content))
            &&& says(step, "ttl"@, wanted_or_live(want.ttl, have.ttl))
            &&& match want.prio {
                Some(prio) => says_prio(step, Some(wanted_or_live(prio, prio_of(have)))),
                None => says_prio(step, None),
            }
        },
        ChangeView::Delete { .. } => true,
    }
}

/// Whether a step is worded as its change: what is done, to which record, and by
/// which request.
pub open spec fn worded(
    step: RunbookStepView,
    change: ChangeView,
    domain: Seq<char>,
    live: Seq<(Seq<char>, LiveRecordView)>,
) -> bool {
    let key = resource_of(change);
    let (record_type, name) = match (reconcile::parsed_key(key), model::lookup(live, key)) {
        (Some(parts), _) => parts,
        (None, Some(record)) => (record.record_type, record.name),
        (None, None) => (Seq::empty(), Seq::empty()),
    };
    let id = match model::lookup(live, key) {
        Some(record) => record.id,
        None => Seq::empty(),
    };
    let what = record_type + " record "@ + name + "."@ + domain;
    &&& step.body is None
    &&& match change {
        ChangeView::Add { .. } => step.description == "Create "@ + what && step.command
            == "POST /dns/create/"@ + domain,
        ChangeView::Modify { .. } => step.description == "Edit "@ + what && step.command
            == "POST /dns/edit/"@ + domain + "/"@ + id,
        ChangeView::Delete { .. } => step.description == "Delete "@ + what && step.command
            == "POST /dns/delete/"@ + domain + "/"@ + id,
    }
}

/// Every step of a plan carries the values that its change calls for, and is
/// worded as that change.
pub proof fn law_steps_carry_the_wanted_values(
    desired: Seq<(Seq<char>, DesiredRecordView)>,
    live: Seq<(Seq<char>, LiveRecordView)>,
    domain: Seq<char>,
    exprs: Seq<Result<Seq<char>, Seq<char>>>,
    results: Seq<Seq<Option<JsonView>>>,
)
    requires
        model::distinct_keys(desired),
        model::distinct_keys(live),
    ensures
        reconcile::full_plan(Ok(desired), Ok(live), domain, exprs, results) matches Ok(plan) ==> {
            &&& plan.changes.len() == plan.steps.len()
            &&& forall|i: int|
                #![trigger plan.changes[i]]
                #![trigger plan.steps[i]]
                0 <= i < plan.changes.len() ==> carries_values(
                    plan.steps[i],
                    plan.changes[i],
                    desired,
                    live,
                ) && worded(plan.steps[i], plan.changes[i], domain, live)
        },
{
    if let Ok(plan) = reconcile::full_plan(Ok(desired), Ok(live), domain, exprs, results) {
        let good = |step: RunbookStepView, change: ChangeView|
            carries_values(step, change, desired, live) && worded(step, change, domain, live);
        assert forall|k: int| 0 <= k < desired.len() implies all_good(
            reconcile::desired_plan(
                (#[trigger] desired[k]).0,
                desired[k].1,
                live,
                domain,
            ),
            good,
        ) by {
            model::lemma_lookup_at(desired, k);
            lemma_desired_step_values(desired[k], desired, live, domain);
        }
        assert forall|k: int| 0 <= k < live.len() implies all_good(
            Ok(
                reconcile::live_plan(
                    (#[trigger] live[k]).0,
                    live[k].1,
                    desired,
                    results[k],
                    domain,
                ),
            ),
            good,
        ) by {
            model::lemma_lookup_at(live, k);
            lemma_live_step_values(live[k], desired, results[k], live, domain);
        }
        lemma_desired_good(desired, live, domain, desired.len(), good);
        lemma_live_good(desired, live, results, domain, live.len(), good);
        let a = reconcile::desired_plans(desired, live, domain, desired.len())->Ok_0;
        let b = reconcile::live_plans(desired, live, results, domain, live.len());
        assert forall|i: int|
            #![trigger plan.changes[i]]
            #![trigger plan.steps[i]]
            0 <= i < plan.changes.len() implies good(plan.steps[i], plan.changes[i]) by {
            if i < a.changes.len() {
                assert(good(a.steps[i], a.changes[i]));
            } else {
                let k = i - a.changes.len();
                assert(good(b.steps[k], b.changes[k]));
            }
        }
    }
}

/// Whether each step of a plan stands in a relation to its change.
spec fn all_good(
    plan: Result<PlanView, ErrorView>,
    good: spec_fn(RunbookStepView, ChangeView) -> bool,
) -> bool {
    plan matches Ok(plan) ==> {
        &&& plan.changes.len() == plan.steps.len()
        &&& forall|i: int|
            #![trigger plan.changes[i]]
            #![trigger plan.steps[i]]
            0 <= i < plan.changes.len() ==> good(plan.steps[i], plan.changes[i])
    }
}

proof fn lemma_joined_good(
    a: PlanView,
    b: PlanView,
    good: spec_fn(RunbookStepView, ChangeView) -> bool,
)
    requires
        all_good(Ok(a), good),
        all_good(Ok(b), good),
    ensures
        all_good(Ok(reconcile::joined(a, b)), good),
{
    let all = reconcile::joined(a, b);
    assert forall|i: int|
        #![trigger all.changes[i]]
        #![trigger all.steps[i]]
        0 <= i < all.changes.len() implies good(all.steps[i], all.changes[i]) by {
        if i < a.changes.len() {
            assert(good(a.steps[i], a.changes[i]));
        } else {
            let k = i - a.changes.len();
            assert(good(b.steps[k], b.changes[k]));
        }
    }
}

proof fn lemma_desired_good(
    desired: Seq<(Seq<char>, DesiredRecordView)>,
    live: Seq<(Seq<char>, LiveRecordView)>,
    domain: Seq<char>,
    n: nat,
    good: spec_fn(RunbookStepView, ChangeView) -> bool,
)
    requires
        n <= desired.len(),
        forall|k: int|
            0 <= k < desired.len() ==> all_good(
                reconcile::desired_plan((#[trigger] desired[k]).0, desired[k].1, live, domain),
                good,
            ),
    ensures
        all_good(reconcile::desired_plans(desired, live, domain, n), good),
    decreases n,
{
    if n > 0 {
        lemma_desired_good(desired, live, domain, (n - 1) as nat, good);
        let last = desired[n - 1];
        if let Ok(_) = reconcile::desired_plans(desired, live, domain, n) {
            lemma_joined_good(
                reconcile::desired_plans(desired, live, domain, (n - 1) as nat)->Ok_0,
                reconcile::desired_plan(last.0, last.1, live, domain)->Ok_0,
                good,
            );
        }
    }
}

proof fn lemma_live_good(
    desired: Seq<(Seq<char>, DesiredRecordView)>,
    live: Seq<(Seq<char>, LiveRecordView)>,
    results: Seq<Seq<Option<JsonView>>>,
    domain: Seq<char>,
    n: nat,
    good: spec_fn(RunbookStepView, ChangeView) -> bool,
)
    requires
        n <= live.len(),
        forall|k: int|
            0 <= k < live.len() ==> all_good(
                Ok(
                    reconcile::live_plan(
                        (#[trigger] live[k]).0,
                        live[k].1,
                        desired,
                        results[k],
                        domain,
                    ),
                ),
                good,
            ),
    ensures
        all_good(Ok(reconcile::live_plans(desired, live, results, domain, n)), good),
    decreases n,
{
    if n > 0 {
        lemma_live_good(desired, live, results, domain, (n - 1) as nat, good);
        let last = live[n - 1];
        lemma_joined_good(
            reconcile::live_plans(desired, live, results, domain, (n - 1) as nat),
            reconcile::live_plan(last.0, last.1, desired, results[n - 1], domain),
            good,
        );
    }
}

proof fn lemma_desired_step_values(
    entry: (Seq<char>, DesiredRecordView),
    desired: Seq<(Seq<char>, DesiredRecordView)>,
    live: Seq<(Seq<char>, LiveRecordView)>,
    domain: Seq<char>,
)
    requires
        model::lookup(desired, entry.0) == Some(entry.1),
    ensures
        reconcile::desired_plan(entry.0, entry.1, live, domain) matches Ok(plan) ==> {
            &&& plan.changes.len() == plan.steps.len() <= 1
            &&& plan.changes.len() == 1 ==> carries_values(
                plan.steps[0],
                plan.changes[0],
                desired,
                live,
            ) && worded(plan.steps[0], plan.changes[0], domain, live)
        },
{
    if let Ok(plan) = reconcile::desired_plan(entry.0, entry.1, live, domain) {
        let (record_type, name) = reconcile::parsed_key(entry.0)->Some_0;
        law_new_record_takes_what_is_given(entry.1);
        let what = record_type + " record "@ + name + "."@ + domain;
        assert("Create "@ + record_type + " record "@ + name + "."@ + domain =~= "Create "@ + what);
        assert("Edit "@ + record_type + " record "@ + name + "."@ + domain =~= "Edit "@ + what);
        match model::lookup(live, entry.0) {
            None => {
                let fields = reconcile::fields_for_create(entry.1)->Ok_0;
                lemma_operation_values(
                    OperationView::Create {
                        domain,
                        name,
                        record_type,
                        content: fields.content,
                        ttl: fields.ttl,
                        prio: fields.prio,
                    },
                );
            },
            Some(record) => {
                law_edit_sends_what_is_wanted(entry.1, record);
                let fields = reconcile::fields_for_edit(entry.1, record);
                lemma_operation_values(
                    OperationView::Edit {
                        domain,
                        id: record.id,
                        name,
                        record_type,
                        content: fields.content,
                        ttl: fields.ttl,
                        prio: fields.prio,
                    },
                );
            },
        }
    }
}

proof fn lemma_live_step_values(
    entry: (Seq<char>, LiveRecordView),
    desired: Seq<(Seq<char>, DesiredRecordView)>,
    results: Seq<Option<JsonView>>,
    live: Seq<(Seq<char>, LiveRecordView)>,
    domain: Seq<char>,
)
    requires
        model::lookup(live, entry.0) == Some(entry.1),
    ensures
        ({
            let plan = reconcile::live_plan(entry.0, entry.1, desired, results, domain);
            &&& plan.changes.len() == plan.steps.len() <= 1
            &&& plan.changes.len() == 1 ==> carries_values(
                plan.steps[0],
                plan.changes[0],
                desired,
                live,
            ) && worded(plan.steps[0], plan.changes[0], domain, live)
        }),
{
    let (record_type, name) = match reconcile::parsed_key(entry.0) {
        Some(parts) => parts,
        None => (entry.1.record_type, entry.1.name),
    };
    let what = record_type + " record "@ + name + "."@ + domain;
    assert("Delete "@ + record_type + " record "@ + name + "."@ + domain =~= "Delete "@ + what);
}

/// The field values in the form in which a creation or an edit is carried.
proof fn lemma_operation_values(op: OperationView)
    ensures
        ({
            let v = reconcile::operation_json(op);
            match op {
                OperationView::Create { content, ttl, prio, .. } => {
                    &&& json::member(v, "content"@) == Some(JsonView::String(content))
                    &&& json::member(v, "ttl"@) == Some(JsonView::String(ttl))
                    &&& json::member(v, "prio"@) == match prio {
                        Some(prio) => Some(JsonView::String(prio)),
                        None => Some(JsonView::Null),
                    }
                },
                OperationView::Edit { content, ttl, prio, .. } => {
                    &&& json::member(v, "content"@) == Some(JsonView::String(content))
                    &&& json::member(v, "ttl"@) == Some(JsonView::String(ttl))
                    &&& json::member(v, "prio"@) == match prio {
                        Some(prio) => Some(JsonView::String(prio)),
                        None => Some(JsonView::Null),
                    }
                },
                OperationView::Delete { .. } => true,
            }
        }),
{
    reveal_strlit("action");
    reveal_strlit("domain");
    reveal_strlit("id");
    reveal_strlit("name");
    reveal_strlit("record_type");
    reveal_strlit("content");
    reveal_strlit("ttl");
    reveal_strlit("prio");
    assert("action"@.len() == 6 && "action"@[0] == 'a');
    assert("domain"@.len() == 6 && "domain"@[0] == 'd');
    assert("name"@.len() == 4 && "name"@[0] == 'n');
    assert("prio"@.len() == 4 && "prio"@[0] == 'p');
    assert("id"@.len() == 2 && "record_type"@.len() == 11);
    assert("content"@.len() == 7 && "ttl"@.len() == 3);
    let members = reconcile::operation_json(op)->Object_0;
    assert(model::distinct_keys(members));
    model::lemma_lookup_at(members, 4);
    if members.len() >= 7 {
        model::lemma_lookup_at(members, 5);
        model::lemma_lookup_at(members, 6);
    }
    if members.len() >= 8 {
        model::lemma_lookup_at(members, 7);
    }
}

// ---- Success and failure ----
/// Whether a desired record can be planned: its key has a slash, and it is live
/// or can be created.
pub open spec fn plannable(
    entry: (Seq<char>, DesiredRecordView),
    live: Seq<(Seq<char>, LiveRecordView)>,
) -> bool {
    &&& entry.0.contains('/')
    &&& model::lookup(live, entry.0) is None ==> given(entry.1.content) is Some && entry.1.ttl
        is Ok
}

/// A plan is made if and only if both states decode, every ignore expression
/// resolves, and every desired record can be planned.  A state that does not
/// decode is reported as such.
pub proof fn law_when_a_plan_is_made(
    desired: Result<Seq<(Seq<char>, DesiredRecordView)>, Seq<char>>,
    live: Result<Seq<(Seq<char>, LiveRecordView)>, Seq<char>>,
    domain: Seq<char>,
    exprs: Seq<Result<Seq<char>, Seq<char>>>,
    results: Seq<Seq<Option<JsonView>>>,
)
    ensures
        desired matches Err(e) ==> reconcile::full_plan(desired, live, domain, exprs, results)
            == Err::<PlanView, ErrorView>(ErrorView::DesiredStateParse(e)),
        desired is Ok ==> (live matches Err(e) ==> reconcile::full_plan(
            desired,
            live,
            domain,
            exprs,
            results,
        ) == Err::<PlanView, ErrorView>(ErrorView::LiveStateParse(e))),
        (desired matches Ok(wants) && live matches Ok(has) && (forall|i: int|
            0 <= i < exprs.len() ==> #[trigger] exprs[i] is Ok) && (forall|i: int|
            0 <= i < wants.len() ==> plannable(#[trigger] wants[i], has))) <==> reconcile::full_plan(
            desired,
            live,
            domain,
            exprs,
            results,
        ) is Ok,
{
    lemma_ignore_exprs(exprs);
    if let (Ok(wants), Ok(has)) = (desired, live) {
        lemma_when_planned(wants, has, domain, wants.len());
    }
}

proof fn lemma_ignore_exprs(exprs: Seq<Result<Seq<char>, Seq<char>>>)
    ensures
        (forall|i: int| 0 <= i < exprs.len() ==> #[trigger] exprs[i] is Ok)
            <==> reconcile::ignore_exprs(exprs) is Ok,
        reconcile::ignore_exprs(exprs) matches Ok(texts) ==> texts.len() == exprs.len() && forall|i: int|
            0 <= i < exprs.len() ==> #[trigger] exprs[i] == Ok::<Seq<char>, Seq<char>>(texts[i]),
    decreases exprs.len(),
{
    if exprs.len() > 0 {
        let before = exprs.drop_last();
        lemma_ignore_exprs(before);
        assert forall|i: int| 0 <= i < before.len() implies before[i] == #[trigger] exprs[i] by {}
        assert(exprs.last() == exprs[exprs.len() - 1]);
        if forall|i: int| 0 <= i < exprs.len() ==> #[trigger] exprs[i] is Ok {
            assert forall|i: int| 0 <= i < before.len() implies #[trigger] before[i] is Ok by {
                assert(exprs[i] is Ok);
            }
            assert(exprs[exprs.len() - 1] is Ok);
        }
        if reconcile::ignore_exprs(exprs) is Ok {
            assert forall|i: int| 0 <= i < exprs.len() implies #[trigger] exprs[i] is Ok by {
                if i < before.len() {
                    assert(before[i] is Ok);
                }
            }
            let texts = reconcile::ignore_exprs(exprs)->Ok_0;
            let earlier = reconcile::ignore_exprs(before)->Ok_0;
            assert forall|i: int| 0 <= i < exprs.len() implies #[trigger] exprs[i] == Ok::<
                Seq<char>,
                Seq<char>,
            >(texts[i]) by {
                if i < before.len() {
                    assert(before[i] == Ok::<Seq<char>, Seq<char>>(earlier[i]));
                }
            }
        }
    }
}

/// Ignore expressions are taken as they resolve, all of them and in order; the
/// failure of one says so.
pub proof fn law_ignore_expressions(exprs: Seq<Result<Seq<char>, Seq<char>>>, i: int)
    requires
        0 <= i < exprs.len(),
    ensures
        reconcile::ignore_exprs(exprs) matches Ok(texts) ==> texts.len() == exprs.len() && exprs[i]
            == Ok::<Seq<char>, Seq<char>>(texts[i]),
        exprs[i] is Err ==> reconcile::ignore_exprs(exprs) is Err,
        (forall|j: int| 0 <= j < i ==> #[trigger] exprs[j] is Ok) ==> (exprs[i] matches Err(e)
            ==> reconcile::ignore_exprs(exprs) == Err::<Seq<Seq<char>>, ErrorView>(
            ErrorView::OperationFailed("Failed to resolve ignore expression: "@ + e),
        )),
{
    lemma_ignore_exprs(exprs);
    assert(exprs[i] == exprs[i]);
    if exprs[i] is Err && (forall|j: int| 0 <= j < i ==> #[trigger] exprs[j] is Ok) {
        lemma_first_failure(exprs, i);
    }
}

proof fn lemma_first_failure(exprs: Seq<Result<Seq<char>, Seq<char>>>, i: int)
    requires
        0 <= i < exprs.len(),
        exprs[i] is Err,
        forall|j: int| 0 <= j < i ==> #[trigger] exprs[j] is Ok,
    ensures
        reconcile::ignore_exprs(exprs) == Err::<Seq<Seq<char>>, ErrorView>(
            ErrorView::OperationFailed(
                "Failed to resolve ignore expression: "@ + exprs[i]->Err_0,
            ),
        ),
    decreases exprs.len(),
{
    let before = exprs.drop_last();
    if i < exprs.len() - 1 {
        assert forall|j: int| 0 <= j < i implies #[trigger] before[j] is Ok by {
            assert(exprs[j] is Ok);
        }
        lemma_first_failure(before, i);
    } else {
        assert forall|j: int| 0 <= j < before.len() implies #[trigger] before[j] is Ok by {
            assert(exprs[j] is Ok);
        }
        lemma_ignore_exprs(before);
    }
}

proof fn lemma_when_planned(
    desired: Seq<(Seq<char>, DesiredRecordView)>,
    live: Seq<(Seq<char>, LiveRecordView)>,
    domain: Seq<char>,
    n: nat,
)
    requires
        n <= desired.len(),
    ensures
        (forall|i: int| 0 <= i < n ==> plannable(#[trigger] desired[i], live))
            <==> reconcile::desired_plans(desired, live, domain, n) is Ok,
    decreases n,
{
    if n > 0 {
        lemma_when_planned(desired, live, domain, (n - 1) as nat);
        let last = desired[n - 1];
        law_key_parts_spell_the_key(last.0);
        reveal_strlit("/");
        if let Some((record_type, name)) = reconcile::parsed_key(last.0) {
            assert(last.0[record_type.len() as int] == '/');
        }
        law_new_record_takes_what_is_given(last.1);
        assert(plannable(last, live) <==> reconcile::desired_plan(
            last.0,
            last.1,
            live,
            domain,
        ) is Ok);
        if reconcile::desired_plans(desired, live, domain, n) is Ok {
            assert forall|i: int| 0 <= i < n implies plannable(#[trigger] desired[i], live) by {
                if i == n - 1 {
                    assert(plannable(last, live));
                }
            }
        }
    }
}

/// A live record is exempt if and only if some ignore expression yields
/// something for it that is neither null nor false.
pub proof fn law_exemption(results: Seq<Option<JsonView>>)
    ensures
        reconcile::ignored(results) <==> exists|i: int|
            0 <= i < results.len() && #[trigger] results[i] is Some && results[i] != Some(
                JsonView::Null,
            ) && results[i] != Some(JsonView::Bool(false)),
{
    if exists|i: int|
        0 <= i < results.len() && #[trigger] results[i] is Some && results[i] != Some(
            JsonView::Null,
        ) && results[i] != Some(JsonView::Bool(false)) {
        let i = choose|i: int|
            0 <= i < results.len() && #[trigger] results[i] is Some && results[i] != Some(
                JsonView::Null,
            ) && results[i] != Some(JsonView::Bool(false));
        assert(results[i] matches Some(v) && reconcile::truthy(v));
    }
}

/// A value counts as true unless it is null or false.
pub proof fn law_truthiness(v: JsonView)
    ensures
        reconcile::truthy(v) <==> v != JsonView::Null && v != JsonView::Bool(false),
{
}

/// The value of a field after an edit is the one that it has to take, else the
/// live one.
pub proof fn law_effective_value(field: ResolutionView, live: Seq<char>)
    ensures
        reconcile::effective(field, live) == wanted_or_live(field, live),
{
}

/// The first desired record that cannot be planned is the one that is reported:
/// a key without a slash by that key, any other as its creation fails.
pub proof fn law_first_unplannable_record_is_reported(
    desired: Seq<(Seq<char>, DesiredRecordView)>,
    live: Seq<(Seq<char>, LiveRecordView)>,
    domain: Seq<char>,
    exprs: Seq<Result<Seq<char>, Seq<char>>>,
    results: Seq<Seq<Option<JsonView>>>,
    i: int,
)
    requires
        forall|j: int| 0 <= j < exprs.len() ==> #[trigger] exprs[j] is Ok,
        0 <= i < desired.len(),
        !plannable(desired[i], live),
        forall|j: int| 0 <= j < i ==> plannable(#[trigger] desired[j], live),
    ensures
        reconcile::full_plan(Ok(desired), Ok(live), domain, exprs, results) matches Err(e) && e
            == if !desired[i].0.contains('/') {
            ErrorView::DesiredStateParse(
                "Record key "@ + text::debug_text(desired[i].0)
                    + " must be in <type>/<name> format"@,
            )
        } else {
            reconcile::fields_for_create(desired[i].1)->Err_0
        },
{
    lemma_ignore_exprs(exprs);
    lemma_first_unplannable(desired, live, domain, desired.len(), i);
}

proof fn lemma_first_unplannable(
    desired: Seq<(Seq<char>, DesiredRecordView)>,
    live: Seq<(Seq<char>, LiveRecordView)>,
    domain: Seq<char>,
    n: nat,
    i: int,
)
    requires
        0 <= i < n <= desired.len(),
        !plannable(desired[i], live),
        forall|j: int| 0 <= j < i ==> plannable(#[trigger] desired[j], live),
    ensures
        reconcile::desired_plans(desired, live, domain, n) matches Err(e) && e
            == if !desired[i].0.contains('/') {
            ErrorView::DesiredStateParse(
                "Record key "@ + text::debug_text(desired[i].0)
                    + " must be in <type>/<name> format"@,
            )
        } else {
            reconcile::fields_for_create(desired[i].1)->Err_0
        },
    decreases n,
{
    if i < n - 1 {
        lemma_first_unplannable(desired, live, domain, (n - 1) as nat, i);
    } else {
        lemma_when_planned(desired, live, domain, i as nat);
        let last = desired[i];
        law_key_parts_spell_the_key(last.0);
        reveal_strlit("/");
        if let Some((record_type, name)) = reconcile::parsed_key(last.0) {
            assert(last.0[record_type.len() as int] == '/');
        }
        law_new_record_takes_what_is_given(last.1);
    }
}

} // verus!
