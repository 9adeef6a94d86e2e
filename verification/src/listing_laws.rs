//! What is listed of a zone, and what is found of it again, stated on the
//! retrieved records and on the nodes of a live tree themselves.
use vstd::prelude::*;
use crate::change_laws;
use crate::client;
use crate::client::{ClientErrorView, PorkbunRecordView, RetrieveResponseView};
use crate::config;
use crate::error::ErrorView;
use crate::field_value::FieldValueView;
use crate::json;
use crate::json::{JsonView, Members};
use crate::laws;
use crate::model;
use crate::operation;
use crate::operation::{LiveRecordView, RecordIdentView};
use crate::provider;
use crate::request_laws;
use crate::value_laws;

verus! {

// ---- Listing ----
/// The name under which a retrieved record is listed: its type, its name within
/// the zone, and its content.
pub open spec fn listed_as(record: PorkbunRecordView, domain: Seq<char>) -> Seq<char> {
    change_laws::record_text(
        record.record_type,
        operation::relative(record.name, domain),
        Some(record.content),
    )
}

/// Whether a node spells a retrieved record: its own identifier, name, type,
/// content, TTL and priority, a record without priority having null; and the
/// record's identity as the only entry of its providerKey.
pub open spec fn lists(node: JsonView, record: PorkbunRecordView, domain: Seq<char>) -> bool {
    &&& request_laws::holds(node, "id"@, record.id)
    &&& request_laws::holds(node, "name"@, record.name)
    &&& request_laws::holds(node, "type"@, record.record_type)
    &&& request_laws::holds(node, "content"@, record.content)
    &&& request_laws::holds(node, "ttl"@, record.ttl)
    &&& match record.prio {
        Some(prio) => request_laws::holds(node, "prio"@, prio),
        None => json::member(node, "prio"@) == Some(JsonView::Null),
    }
    &&& json::member(node, "__nixhapi"@) matches Some(meta)
    &&& json::member(meta, "providerKey"@) matches Some(JsonView::Array(keys))
    &&& keys.len() == 1
    &&& change_laws::spells(
        keys[0],
        record.record_type,
        operation::relative(record.name, domain),
        Some(record.content),
    )
}

/// Whether a tree lists records: each one that no later record of the same name
/// replaces has its node, and there are no other nodes.
pub open spec fn lists_all(
    tree: JsonView,
    records: Seq<PorkbunRecordView>,
    domain: Seq<char>,
) -> bool {
    &&& forall|k: int|
        0 <= k < records.len() && !replaced(records, domain, k) ==> (json::member(
            tree,
            listed_as(#[trigger] records[k], domain),
        ) matches Some(node) && lists(node, records[k], domain))
    &&& forall|key: Seq<char>| #[trigger]
        json::member(tree, key) is Some ==> exists|k: int|
            0 <= k < records.len() && listed_as(#[trigger] records[k], domain) == key
}

/// Whether a later record is listed under the same name.
pub open spec fn replaced(records: Seq<PorkbunRecordView>, domain: Seq<char>, k: int) -> bool {
    exists|j: int|
        k < j < records.len() && listed_as(#[trigger] records[j], domain) == listed_as(
            records[k],
            domain,
        )
}

/// A zone's records are all listed, whatever their type, with every field that
/// was retrieved.
pub proof fn law_every_record_is_listed(
    config: Seq<(Seq<char>, FieldValueView)>,
    domain: Seq<char>,
    reply: RetrieveResponseView,
)
    requires
        config::resolved(config) matches Ok(c) && c.domain == domain,
        reply.status == "SUCCESS"@,
    ensures
        provider::listing(config, Ok(reply)) matches Ok(tree) && lists_all(
            tree,
            reply.records,
            domain,
        ),
{
    let records = reply.records;
    let tree = provider::live_tree(records, domain);
    let members = provider::tree_members(records, domain, records.len());
    assert forall|k: int| 0 <= k < records.len() && !replaced(records, domain, k) implies (
    json::member(tree, listed_as(#[trigger] records[k], domain)) matches Some(node) && lists(
        node,
        records[k],
        domain,
    )) by {
        assert forall|j: int| k < j < records.len() implies listed_as(
            #[trigger] records[j],
            domain,
        ) != listed_as(records[k], domain) by {}
        lemma_tree_lookup(records, domain, records.len(), k);
        lemma_node_lists(records[k], domain);
    }
    assert forall|key: Seq<char>| #[trigger] json::member(tree, key) is Some implies exists|k: int|
        0 <= k < records.len() && listed_as(#[trigger] records[k], domain) == key by {
        lemma_tree_keys(records, domain, records.len(), key);
    }
}

proof fn lemma_listed_as(record: PorkbunRecordView, domain: Seq<char>)
    ensures
        operation::display_text(provider::record_ident(record, domain)) == listed_as(
            record,
            domain,
        ),
{
    change_laws::law_display_text(
        record.record_type,
        operation::relative(record.name, domain),
        Some(record.content),
    );
}

proof fn lemma_tree_lookup(
    records: Seq<PorkbunRecordView>,
    domain: Seq<char>,
    n: nat,
    k: int,
)
    requires
        0 <= k < n <= records.len(),
        forall|j: int|
            k < j < n ==> listed_as(#[trigger] records[j], domain) != listed_as(
                records[k],
                domain,
            ),
    ensures
        model::lookup(provider::tree_members(records, domain, n), listed_as(records[k], domain))
            == Some(
            provider::node_json(
                provider::record_ident(records[k], domain),
                provider::kept_record(records[k]),
            ),
        ),
    decreases n,
{
    let last = records[n - 1];
    let ident = provider::record_ident(last, domain);
    lemma_listed_as(last, domain);
    lemma_listed_as(records[k], domain);
    value_laws::law_put_and_look_up(
        provider::tree_members(records, domain, (n - 1) as nat),
        operation::display_text(ident),
        provider::node_json(ident, provider::kept_record(last)),
        listed_as(records[k], domain),
    );
    if k < n - 1 {
        assert(listed_as(records[n - 1], domain) != listed_as(records[k], domain));
        lemma_tree_lookup(records, domain, (n - 1) as nat, k);
    }
}

proof fn lemma_tree_keys(
    records: Seq<PorkbunRecordView>,
    domain: Seq<char>,
    n: nat,
    key: Seq<char>,
)
    requires
        n <= records.len(),
        model::lookup(provider::tree_members(records, domain, n), key) is Some,
    ensures
        exists|k: int| 0 <= k < n && listed_as(#[trigger] records[k], domain) == key,
    decreases n,
{
    if n > 0 {
        let last = records[n - 1];
        let ident = provider::record_ident(last, domain);
        lemma_listed_as(last, domain);
        value_laws::law_put_and_look_up(
            provider::tree_members(records, domain, (n - 1) as nat),
            operation::display_text(ident),
            provider::node_json(ident, provider::kept_record(last)),
            key,
        );
        if listed_as(last, domain) == key {
            assert(listed_as(records[n - 1], domain) == key);
        } else {
            lemma_tree_keys(records, domain, (n - 1) as nat, key);
            let k = choose|k: int|
                0 <= k < n - 1 && listed_as(#[trigger] records[k], domain) == key;
            assert(listed_as(records[k], domain) == key);
        }
    }
}

proof fn lemma_node_lists(record: PorkbunRecordView, domain: Seq<char>)
    ensures
        lists(
            provider::node_json(
                provider::record_ident(record, domain),
                provider::kept_record(record),
            ),
            record,
            domain,
        ),
{
    lemma_node_names();
    let ident = provider::record_ident(record, domain);
    let node = provider::node_json(ident, provider::kept_record(record));
    let members = node->Object_0;
    assert(model::distinct_keys(members));
    model::lemma_lookup_at(members, 0);
    model::lemma_lookup_at(members, 1);
    model::lemma_lookup_at(members, 2);
    model::lemma_lookup_at(members, 3);
    model::lemma_lookup_at(members, 4);
    model::lemma_lookup_at(members, 5);
    model::lemma_lookup_at(members, 6);
    let meta = members[0].1->Object_0;
    assert(meta[0] == ("providerKey"@, JsonView::Array(seq![provider::key_json(ident)])));
    assert(json::member(members[0].1, "providerKey"@) == Some(meta[0].1));
    let key = provider::key_json(ident)->Object_0;
    assert(model::distinct_keys(key));
    model::lemma_lookup_at(key, 0);
    model::lemma_lookup_at(key, 1);
    model::lemma_lookup_at(key, 2);
}

proof fn lemma_node_names()
    ensures
        "__nixhapi"@.len() == 9,
        "id"@.len() == 2,
        "name"@.len() == 4 && "name"@[0] == 'n',
        "type"@.len() == 4 && "type"@[0] == 't',
        "content"@.len() == 7,
        "ttl"@.len() == 3,
        "prio"@.len() == 4 && "prio"@[0] == 'p',
{
    reveal_strlit("__nixhapi");
    reveal_strlit("id");
    reveal_strlit("name");
    reveal_strlit("type");
    reveal_strlit("content");
    reveal_strlit("ttl");
    reveal_strlit("prio");
}

/// Where the configuration fails, so does the listing, in the same way; where
/// the retrieval fails, the listing names the zone and the reason.
pub proof fn law_listing_failures(
    config: Seq<(Seq<char>, FieldValueView)>,
    reply: Result<RetrieveResponseView, Seq<char>>,
)
    ensures
        config::resolved(config) matches Err(e) ==> {
            &&& provider::listing(config, reply) == Err::<JsonView, ErrorView>(e)
            &&& provider::retrieval(config) is Err
            &&& provider::retrieval(config)->Err_0 == e
        },
        config::resolved(config) matches Ok(c) ==> {
            let url = c.base_url + "/dns/retrieve/"@ + c.domain;
            let failed = "Failed to retrieve DNS records for "@ + c.domain + ": "@;
            &&& reply matches Err(reason) ==> provider::listing(config, reply) == Err::<
                JsonView,
                ErrorView,
            >(
                ErrorView::ConnectionFailed(
                    failed + client::client_error_text(ClientErrorView::RequestFailed(reason)),
                ),
            )
            &&& reply matches Ok(r) ==> r.status != "SUCCESS"@ ==> provider::listing(config, reply)
                == Err::<JsonView, ErrorView>(
                ErrorView::ConnectionFailed(
                    failed + client::client_error_text(
                        ClientErrorView::ApiError {
                            endpoint: url,
                            message: match r.message {
                                Some(m) => m,
                                None => Seq::empty(),
                            },
                        },
                    ),
                ),
            )
        },
{
}

/// A record of any type that was listed can be changed by what was listed: its
/// node is a node of that very record.
pub proof fn law_listed_node_spells_its_record(
    node: JsonView,
    record: PorkbunRecordView,
    domain: Seq<char>,
)
    requires
        node is Object,
        lists(node, record, domain),
    ensures
        laws::is_node_of(
            node,
            RecordIdentView {
                record_type: record.record_type,
                name: operation::relative(record.name, domain),
                content: Some(record.content),
            },
            LiveRecordView {
                id: record.id,
                name: record.name,
                record_type: record.record_type,
                content: record.content,
                ttl: record.ttl,
                prio: record.prio,
            },
        ),
{
}

// ---- Live trees ----
/// A live state is an object, or null, which holds nothing; anything else is
/// rejected.
pub proof fn law_live_state_is_an_object(
    live: JsonView,
    decoded: Seq<Result<LiveRecordView, Seq<char>>>,
)
    ensures
        live is Null ==> operation::live_index(live, decoded) == Ok::<
            Map<Seq<char>, LiveRecordView>,
            ErrorView,
        >(Map::empty()),
        !(live is Null) && !(live is Object) ==> operation::live_index(live, decoded) is Err,
{
}

/// The members that are objects.
pub open spec fn objects_in(members: Members) -> Seq<(Seq<char>, JsonView)> {
    members.filter(|m: (Seq<char>, JsonView)| m.1 is Object)
}

/// The nodes of a live tree are its members that are objects, in order; other
/// members count for nothing.
pub proof fn law_nodes_are_the_objects(members: Members)
    ensures
        ({
            let nodes = operation::live_nodes(JsonView::Object(members));
            let objects = objects_in(members);
            &&& nodes.len() == objects.len()
            &&& forall|i: int|
                0 <= i < nodes.len() ==> JsonView::Object(#[trigger] nodes[i]) == objects[i].1
        }),
{
    lemma_objects(members, members.len());
    assert(members.take(members.len() as int) =~= members);
}

proof fn lemma_objects(members: Members, n: nat)
    requires
        n <= members.len(),
    ensures
        ({
            let nodes = operation::object_bodies(members, n);
            let objects = objects_in(members.take(n as int));
            &&& nodes.len() == objects.len()
            &&& forall|i: int|
                0 <= i < nodes.len() ==> JsonView::Object(#[trigger] nodes[i]) == objects[i].1
        }),
    decreases n,
{
    reveal(Seq::filter);
    if n > 0 {
        lemma_objects(members, (n - 1) as nat);
        assert(members.take(n as int).drop_last() =~= members.take(n - 1));
        assert(members.take(n as int).last() == members[n - 1]);
    }
}

/// The body of a node is the node without its metadata: every other member is
/// as it was.
pub proof fn law_bodies_are_nodes_without_metadata(members: Members, i: int, key: Seq<char>)
    requires
        0 <= i < operation::live_nodes(JsonView::Object(members)).len(),
    ensures
        ({
            let nodes = operation::live_nodes(JsonView::Object(members));
            let bodies = operation::live_bodies(JsonView::Object(members));
            &&& bodies.len() == nodes.len()
            &&& bodies[i] is Object
            &&& json::member(bodies[i], key) == if key == "__nixhapi"@ {
                None
            } else {
                json::member(JsonView::Object(nodes[i]), key)
            }
        }),
{
    let node = operation::live_nodes(JsonView::Object(members))[i];
    if key != "__nixhapi"@ {
        laws::lemma_lookup_without(node, "__nixhapi"@, key);
    } else {
        let rest = operation::without(node, "__nixhapi"@);
        let keep = |m: (Seq<char>, JsonView)| m.0 != "__nixhapi"@;
        assert forall|j: int| 0 <= j < rest.len() implies (#[trigger] rest[j]).0 != key by {
            node.lemma_filter_pred(keep, j);
        }
        model::lemma_lookup(rest, key);
    }
}

/// Whether a node names its identity: its metadata has a providerKey list whose
/// first entry spells one.
pub open spec fn names_identity(node: Members, ident: RecordIdentView) -> bool {
    &&& json::member(JsonView::Object(node), "__nixhapi"@) matches Some(meta)
    &&& json::member(meta, "providerKey"@) matches Some(JsonView::Array(keys))
    &&& keys.len() > 0
    &&& change_laws::spells(keys[0], ident.record_type, ident.name, ident.content)
}

/// A live tree with a node that names no identity, or whose body does not
/// decode, is rejected as a whole.
pub proof fn law_malformed_node_is_rejected(
    live: JsonView,
    decoded: Seq<Result<LiveRecordView, Seq<char>>>,
    i: int,
)
    requires
        0 <= i < operation::live_nodes(live).len(),
        (forall|ident: RecordIdentView|
            !#[trigger] names_identity(operation::live_nodes(live)[i], ident)) || decoded[i] is Err,
    ensures
        operation::live_index(live, decoded) is Err,
{
    let nodes = operation::live_nodes(live);
    match operation::index_entry(nodes[i], decoded[i]) {
        Ok(_) => {
            let meta = model::lookup(nodes[i], "__nixhapi"@)->Some_0;
            let keys = json::member(meta, "providerKey"@)->Some_0->Array_0;
            let ident = operation::entry_ident(keys[0])->Ok_0;
            assert(names_identity(nodes[i], ident));
        },
        Err(_) => {
            lemma_index_fails(nodes, decoded, nodes.len(), i);
        },
    }
}

proof fn lemma_index_fails(
    nodes: Seq<Members>,
    decoded: Seq<Result<LiveRecordView, Seq<char>>>,
    n: nat,
    i: int,
)
    requires
        0 <= i < n,
        operation::index_entry(nodes[i], decoded[i]) is Err,
    ensures
        operation::index_upto(nodes, decoded, n) is Err,
    decreases n,
{
    if i < n - 1 {
        lemma_index_fails(nodes, decoded, (n - 1) as nat, i);
    }
}

/// Where every node names an identity and every body decodes, the tree is
/// indexed: under each identity stands the record of the last node that names
/// it, and there is nothing else.
pub proof fn law_last_node_of_an_identity_counts(
    live: JsonView,
    decoded: Seq<Result<LiveRecordView, Seq<char>>>,
    idents: Seq<RecordIdentView>,
    records: Seq<LiveRecordView>,
)
    requires
        live is Object,
        idents.len() == operation::live_nodes(live).len(),
        forall|i: int|
            0 <= i < idents.len() ==> names_identity(
                operation::live_nodes(live)[i],
                #[trigger] idents[i],
            ) && decoded[i] == Ok::<LiveRecordView, Seq<char>>(records[i]),
    ensures
        operation::live_index(live, decoded) matches Ok(index) && (forall|i: int|
            0 <= i < idents.len() && (forall|j: int|
                i < j < idents.len() ==> key_of(#[trigger] idents[j]) != key_of(idents[i]))
                ==> index.contains_key(key_of(#[trigger] idents[i])) && index[key_of(idents[i])]
                == records[i]) && (forall|key: Seq<char>| #[trigger]
            index.contains_key(key) ==> exists|i: int|
                0 <= i < idents.len() && key_of(#[trigger] idents[i]) == key),
{
    let nodes = operation::live_nodes(live);
    assert forall|i: int| 0 <= i < idents.len() implies operation::index_entry(
        #[trigger] nodes[i],
        decoded[i],
    ) == Ok::<(Seq<char>, LiveRecordView), ErrorView>((key_of(idents[i]), records[i])) by {
        let ident = idents[i];
        assert(names_identity(nodes[i], ident));
        change_laws::law_display_text(ident.record_type, ident.name, ident.content);
    }
    lemma_index(nodes, decoded, idents, records, idents.len());
}

/// The text under which an identity is indexed.
pub open spec fn key_of(ident: RecordIdentView) -> Seq<char> {
    change_laws::record_text(ident.record_type, ident.name, ident.content)
}

proof fn lemma_index(
    nodes: Seq<Members>,
    decoded: Seq<Result<LiveRecordView, Seq<char>>>,
    idents: Seq<RecordIdentView>,
    records: Seq<LiveRecordView>,
    n: nat,
)
    requires
        n <= idents.len() == nodes.len(),
        forall|i: int|
            0 <= i < idents.len() ==> operation::index_entry(#[trigger] nodes[i], decoded[i])
                == Ok::<(Seq<char>, LiveRecordView), ErrorView>((key_of(idents[i]), records[i])),
    ensures
        operation::index_upto(nodes, decoded, n) matches Ok(index) && (forall|i: int|
            0 <= i < n && (forall|j: int|
                i < j < n ==> key_of(#[trigger] idents[j]) != key_of(idents[i]))
                ==> index.contains_key(key_of(#[trigger] idents[i])) && index[key_of(idents[i])]
                == records[i]) && (forall|key: Seq<char>| #[trigger]
            index.contains_key(key) ==> exists|i: int|
                0 <= i < n && key_of(#[trigger] idents[i]) == key),
    decreases n,
{
    if n > 0 {
        lemma_index(nodes, decoded, idents, records, (n - 1) as nat);
        assert(operation::index_entry(nodes[n - 1], decoded[n - 1]) is Ok);
        let before = operation::index_upto(nodes, decoded, (n - 1) as nat)->Ok_0;
        let index = operation::index_upto(nodes, decoded, n)->Ok_0;
        assert forall|i: int|
            0 <= i < n && (forall|j: int|
                i < j < n ==> key_of(#[trigger] idents[j]) != key_of(
                    idents[i],
                )) implies index.contains_key(key_of(#[trigger] idents[i]))
            && index[key_of(idents[i])] == records[i] by {
            if i < n - 1 {
                assert(key_of(idents[n - 1]) != key_of(idents[i]));
                assert(before.contains_key(key_of(idents[i])));
            }
        }
        assert forall|key: Seq<char>| #[trigger] index.contains_key(key) implies exists|i: int|
            0 <= i < n && key_of(#[trigger] idents[i]) == key by {
            if key == key_of(idents[n - 1]) {
                assert(key_of(idents[n - 1]) == key);
            } else {
                assert(before.contains_key(key));
                let i = choose|i: int| 0 <= i < n - 1 && key_of(#[trigger] idents[i]) == key;
                assert(key_of(idents[i]) == key);
            }
        }
    }
}

/// What is wrong with a node, where something is: it has no metadata, its
/// metadata no providerKey list with an entry, that entry spells nothing, or its
/// body does not decode.
pub proof fn law_what_is_wrong_with_a_node(
    node: Members,
    decoded: Result<LiveRecordView, Seq<char>>,
    ident: RecordIdentView,
)
    ensures
        json::member(JsonView::Object(node), "__nixhapi"@) is None ==> operation::index_entry(
            node,
            decoded,
        ) == Err::<(Seq<char>, LiveRecordView), ErrorView>(
            ErrorView::LiveStateParse("live-state record is missing __nixhapi block"@),
        ),
        json::member(JsonView::Object(node), "__nixhapi"@) matches Some(meta) ==> {
            let listed = json::member(meta, "providerKey"@);
            &&& (!(listed matches Some(JsonView::Array(keys)) && keys.len() > 0))
                ==> operation::index_entry(node, decoded) == Err::<
                (Seq<char>, LiveRecordView),
                ErrorView,
            >(
                ErrorView::LiveStateParse(
                    "live-state __nixhapi.providerKey must be a non-empty list"@,
                ),
            )
            &&& listed matches Some(JsonView::Array(keys)) ==> (keys.len() > 0 ==> (
            operation::provider_key_entry(keys[0]) matches Err(ErrorView::OperationFailed(why))
                ==> operation::index_entry(node, decoded) == Err::<
                (Seq<char>, LiveRecordView),
                ErrorView,
            >(ErrorView::LiveStateParse("live-state providerKey head: "@ + why))))
        },
        names_identity(node, ident) ==> (decoded matches Err(why) ==> operation::index_entry(
            node,
            decoded,
        ) == Err::<(Seq<char>, LiveRecordView), ErrorView>(
            ErrorView::LiveStateParse(
                "live record for providerKey "@ + key_of(ident) + ": "@ + why,
            ),
        )),
        names_identity(node, ident) ==> (decoded matches Ok(record) ==> operation::index_entry(
            node,
            decoded,
        ) == Ok::<(Seq<char>, LiveRecordView), ErrorView>((key_of(ident), record))),
{
    change_laws::law_display_text(ident.record_type, ident.name, ident.content);
}

/// The first node with something wrong is the one that is reported.
pub proof fn law_first_malformed_node_is_reported(
    live: JsonView,
    decoded: Seq<Result<LiveRecordView, Seq<char>>>,
    i: int,
)
    requires
        live is Object,
        0 <= i < operation::live_nodes(live).len(),
        operation::index_entry(operation::live_nodes(live)[i], decoded[i]) is Err,
        forall|j: int|
            0 <= j < i ==> operation::index_entry(
                #[trigger] operation::live_nodes(live)[j],
                decoded[j],
            ) is Ok,
    ensures
        operation::live_index(live, decoded) is Err,
        operation::live_index(live, decoded)->Err_0 == operation::index_entry(
            operation::live_nodes(live)[i],
            decoded[i],
        )->Err_0,
{
    let nodes = operation::live_nodes(live);
    lemma_index_reports(nodes, decoded, nodes.len(), i);
}

proof fn lemma_index_reports(
    nodes: Seq<Members>,
    decoded: Seq<Result<LiveRecordView, Seq<char>>>,
    n: nat,
    i: int,
)
    requires
        0 <= i < n <= nodes.len(),
        operation::index_entry(nodes[i], decoded[i]) is Err,
        forall|j: int|
            0 <= j < i ==> operation::index_entry(#[trigger] nodes[j], decoded[j]) is Ok,
    ensures
        operation::index_upto(nodes, decoded, n) is Err,
        operation::index_upto(nodes, decoded, n)->Err_0 == operation::index_entry(
            nodes[i],
            decoded[i],
        )->Err_0,
    decreases n,
{
    if i < n - 1 {
        lemma_index_reports(nodes, decoded, (n - 1) as nat, i);
    } else {
        lemma_index_goes_on(nodes, decoded, i as nat);
    }
}

proof fn lemma_index_goes_on(
    nodes: Seq<Members>,
    decoded: Seq<Result<LiveRecordView, Seq<char>>>,
    n: nat,
)
    requires
        n <= nodes.len(),
        forall|j: int|
            0 <= j < n ==> operation::index_entry(#[trigger] nodes[j], decoded[j]) is Ok,
    ensures
        operation::index_upto(nodes, decoded, n) is Ok,
    decreases n,
{
    if n > 0 {
        lemma_index_goes_on(nodes, decoded, (n - 1) as nat);
        assert(operation::index_entry(nodes[n - 1], decoded[n - 1]) is Ok);
    }
}

} // verus!
