//! What holds of the operations on the settings, whatever the settings are.

use crate::assoc::{
    distinct, keys_of, lemma_lookup_put_other, lemma_lookup_put_same, lemma_lookup_without_same,
    lemma_position, lemma_put_same_value, lemma_without_absent, lookup, position, put, without,
};
use crate::codec::toml_of_json;
use crate::json::JsonTree;
use crate::settings::{
    activated, active_provider, child_entries, deleted_child, deleted_node, dropped_from_child,
    merged, provider_record, providers_key, upserted_child, upserted_node, Entries,
};
use crate::tree::{
    lemma_entry_well_formed, lemma_put_well_formed, lemma_without_well_formed, toml_well_formed,
    TomlTree,
};
use vstd::prelude::*;

verus! {

/// The record of provider `name` in the tree, where there is one.
pub open spec fn provider_entry(cfg: TomlTree, name: Seq<char>) -> Option<TomlTree> {
    match cfg.entry_table(providers_key()) {
        Some(providers) => lookup(providers, name),
        None => None,
    }
}

/// The field `key` of the record of provider `name`, where there is one.
pub open spec fn provider_field(cfg: TomlTree, name: Seq<char>, key: Seq<char>) -> Option<
    TomlTree,
> {
    match provider_entry(cfg, name) {
        Some(record) => record.entry(key),
        None => None,
    }
}

/// The fields given to an upsert, member by member; none where what was
/// given is no object.
pub open spec fn members_of(fields: JsonTree) -> Seq<(Seq<char>, JsonTree)> {
    match fields {
        JsonTree::Object(members) => members,
        _ => Seq::empty(),
    }
}

/// Whether the fields given to an upsert say nothing about `key`.
pub open spec fn silent_on(fields: JsonTree, key: Seq<char>) -> bool {
    match fields {
        JsonTree::Object(members) => position(keys_of(members), key) is None,
        _ => true,
    }
}

/// The three field names that an upsert looks at are different names.
proof fn lemma_field_names_differ()
    ensures
        "name"@ != "wire_api"@,
        "name"@ != "base_url"@,
        "wire_api"@ != "base_url"@,
{
    reveal_strlit("name");
    reveal_strlit("wire_api");
    reveal_strlit("base_url");
    assert("name"@.len() == 4);
    assert("wire_api"@.len() == 8);
    assert("base_url"@.len() == 8);
    assert("wire_api"@[0] == 'w');
    assert("base_url"@[0] == 'b');
}

/// Merging fields leaves a key that they do not mention as it was.
pub proof fn lemma_merged_keeps(record: Entries, fields: Seq<(Seq<char>, JsonTree)>, key: Seq<char>)
    requires
        position(keys_of(fields), key) is None,
    ensures
        lookup(merged(record, fields), key) == lookup(record, key),
    decreases fields.len(),
{
    if fields.len() > 0 {
        let front = fields.drop_last();
        lemma_position(keys_of(fields), key);
        assert(keys_of(fields).drop_last() =~= keys_of(front));
        assert(keys_of(fields).last() == fields.last().0);
        lemma_merged_keeps(record, front, key);
        lemma_lookup_put_other(
            merged(record, front),
            fields.last().0,
            toml_of_json(fields.last().1),
            key,
        );
    }
}

/// Merging fields that are a mapping stores every one of them as given.
pub proof fn lemma_merged_sets(record: Entries, fields: Seq<(Seq<char>, JsonTree)>, i: int)
    requires
        distinct(keys_of(fields)),
        0 <= i < fields.len(),
    ensures
        lookup(merged(record, fields), fields[i].0) == Some(toml_of_json(fields[i].1)),
    decreases fields.len(),
{
    let front = fields.drop_last();
    let last = fields.last();
    if i == fields.len() - 1 {
        lemma_lookup_put_same(merged(record, front), last.0, toml_of_json(last.1));
    } else {
        assert(keys_of(front) =~= keys_of(fields).drop_last());
        assert(keys_of(fields)[i] != keys_of(fields)[fields.len() - 1]);
        lemma_merged_sets(record, front, i);
        lemma_lookup_put_other(merged(record, front), last.0, toml_of_json(last.1), fields[i].0);
    }
}

/// What an upsert writes into the record: the provider's name under `name`,
/// some wire protocol under `wire_api`, every other key that the fields do
/// not mention as it was, and the single field of a one-field request as
/// given.
pub proof fn lemma_provider_record(existing: Option<TomlTree>, name: Seq<char>, fields: JsonTree)
    ensures
        lookup(provider_record(existing, name, fields), "name"@) == Some(TomlTree::String(name)),
        lookup(provider_record(existing, name, fields), "wire_api"@) is Some,
        forall|key: Seq<char>|
            key != "name"@ && key != "wire_api"@ && silent_on(fields, key) ==> #[trigger] lookup(
                provider_record(existing, name, fields),
                key,
            ) == (match existing {
                Some(TomlTree::Table(entries)) => lookup(entries, key),
                _ => None,
            }),
        forall|key: Seq<char>, value: JsonTree|
            key != "name"@ && fields == JsonTree::Object(seq![(key, value)]) ==> lookup(
                provider_record(existing, name, fields),
                key,
            ) == Some(toml_of_json(value)),
        forall|i: int|
            distinct(keys_of(members_of(fields))) && 0 <= i < members_of(fields).len() && (
            #[trigger] members_of(fields)[i]).0 != "name"@ ==> lookup(
                provider_record(existing, name, fields),
                members_of(fields)[i].0,
            ) == Some(toml_of_json(members_of(fields)[i].1)),
{
    lemma_field_names_differ();
    let start: Entries = match existing {
        Some(TomlTree::Table(entries)) => entries,
        _ => Seq::empty(),
    };
    let filled = match fields {
        JsonTree::Object(members) => merged(start, members),
        _ => start,
    };
    let named = put(filled, "name"@, TomlTree::String(name));
    let record = provider_record(existing, name, fields);
    lemma_lookup_put_same(filled, "name"@, TomlTree::String(name));
    lemma_lookup_put_other(named, "wire_api"@, TomlTree::String("responses"@), "name"@);
    lemma_lookup_put_same(named, "wire_api"@, TomlTree::String("responses"@));
    lemma_position(keys_of(Seq::<(Seq<char>, TomlTree)>::empty()), "name"@);
    assert forall|key: Seq<char>|
        key != "name"@ && key != "wire_api"@ && silent_on(fields, key) implies #[trigger] lookup(
        record,
        key,
    ) == lookup(start, key) by {
        if let JsonTree::Object(members) = fields {
            lemma_merged_keeps(start, members, key);
        }
        lemma_lookup_put_other(filled, "name"@, TomlTree::String(name), key);
        lemma_lookup_put_other(named, "wire_api"@, TomlTree::String("responses"@), key);
    }
    assert forall|key: Seq<char>|
        key != "name"@ && key != "wire_api"@ && silent_on(fields, key) implies #[trigger] lookup(
        record,
        key,
    ) == (match existing {
        Some(TomlTree::Table(entries)) => lookup(entries, key),
        _ => None,
    }) by {
        lemma_position(keys_of(Seq::<(Seq<char>, TomlTree)>::empty()), key);
    }
    assert forall|i: int|
        distinct(keys_of(members_of(fields))) && 0 <= i < members_of(fields).len() && (
        #[trigger] members_of(fields)[i]).0 != "name"@ implies lookup(
        record,
        members_of(fields)[i].0,
    ) == Some(toml_of_json(members_of(fields)[i].1)) by {
        let members = members_of(fields);
        let key = members[i].0;
        lemma_merged_sets(start, members, i);
        lemma_lookup_put_other(filled, "name"@, TomlTree::String(name), key);
        if key != "wire_api"@ {
            lemma_lookup_put_other(named, "wire_api"@, TomlTree::String("responses"@), key);
        }
    }
    assert forall|key: Seq<char>, value: JsonTree|
        key != "name"@ && fields == JsonTree::Object(seq![(key, value)]) implies lookup(
        record,
        key,
    ) == Some(toml_of_json(value)) by {
        let members = seq![(key, value)];
        assert(members.drop_last() =~= Seq::empty());
        assert(merged(start, members.drop_last()) == start);
        assert(filled == put(start, key, toml_of_json(value)));
        lemma_lookup_put_same(start, key, toml_of_json(value));
        lemma_lookup_put_other(filled, "name"@, TomlTree::String(name), key);
        if key != "wire_api"@ {
            lemma_lookup_put_other(named, "wire_api"@, TomlTree::String("responses"@), key);
        } else {
            assert(lookup(named, "wire_api"@) is Some);
        }
    }
}

/// What an upsert that succeeds leaves in the tree: the record that
/// `provider_record` describes, under the provider's name.
pub proof fn lemma_upsert_writes_record(cfg: TomlTree, name: Seq<char>, fields: JsonTree)
    requires
        upserted_node(cfg, name, fields) is Ok,
    ensures
        provider_entry(upserted_node(cfg, name, fields)->Ok_0, name) == Some(
            TomlTree::Table(provider_record(provider_entry(cfg, name), name, fields)),
        ),
{
    let root = cfg->Table_0;
    let providers = child_entries(root, providers_key())->Some_0;
    let record = provider_record(lookup(providers, name), name, fields);
    lemma_lookup_put_same(providers, name, TomlTree::Table(record));
    lemma_lookup_put_same(root, providers_key(), TomlTree::Table(put(providers, name, TomlTree::Table(record))));
    lemma_position(keys_of(Seq::<(Seq<char>, TomlTree)>::empty()), name);
}

/// Merge, not replace: an upsert keeps every field of the record that the
/// request does not mention, sets `name` to the key, and sets every field
/// of a request that is a mapping to the value given.
pub proof fn lemma_upsert_merges(
    cfg: TomlTree,
    name: Seq<char>,
    fields: JsonTree,
    key: Seq<char>,
)
    requires
        upserted_node(cfg, name, fields) is Ok,
    ensures
        provider_field(upserted_node(cfg, name, fields)->Ok_0, name, "name"@) == Some(
            TomlTree::String(name),
        ),
        provider_field(upserted_node(cfg, name, fields)->Ok_0, name, "wire_api"@) is Some,
        key != "name"@ && key != "wire_api"@ && silent_on(fields, key) ==> provider_field(
            upserted_node(cfg, name, fields)->Ok_0,
            name,
            key,
        ) == provider_field(cfg, name, key),
        forall|value: JsonTree|
            key != "name"@ && fields == JsonTree::Object(seq![(key, value)]) ==> provider_field(
                upserted_node(cfg, name, fields)->Ok_0,
                name,
                key,
            ) == Some(toml_of_json(value)),
        forall|i: int|
            distinct(keys_of(members_of(fields))) && 0 <= i < members_of(fields).len() && (
            #[trigger] members_of(fields)[i]).0 != "name"@ ==> provider_field(
                upserted_node(cfg, name, fields)->Ok_0,
                name,
                members_of(fields)[i].0,
            ) == Some(toml_of_json(members_of(fields)[i].1)),
{
    lemma_upsert_writes_record(cfg, name, fields);
    lemma_provider_record(provider_entry(cfg, name), name, fields);
    let record = provider_record(provider_entry(cfg, name), name, fields);
    if key != "name"@ && key != "wire_api"@ && silent_on(fields, key) {
        assert(lookup(record, key) == (match provider_entry(cfg, name) {
            Some(TomlTree::Table(entries)) => lookup(entries, key),
            _ => None,
        }));
    }
}

/// Idempotence: an upsert without fields that succeeds yields a tree that a
/// second such upsert leaves exactly as it is.
pub proof fn lemma_upsert_is_idempotent(cfg: TomlTree, name: Seq<char>)
    requires
        upserted_node(cfg, name, JsonTree::Object(Seq::empty())) is Ok,
    ensures
        upserted_node(
            upserted_node(cfg, name, JsonTree::Object(Seq::empty()))->Ok_0,
            name,
            JsonTree::Object(Seq::empty()),
        ) == upserted_node(cfg, name, JsonTree::Object(Seq::empty())),
{
    lemma_field_names_differ();
    let none = JsonTree::Object(Seq::empty());
    let root = cfg->Table_0;
    let providers = child_entries(root, providers_key())->Some_0;
    let record = provider_record(lookup(providers, name), name, none);
    let providers1 = put(providers, name, TomlTree::Table(record));
    let root1 = put(root, providers_key(), TomlTree::Table(providers1));
    lemma_lookup_put_same(providers, name, TomlTree::Table(record));
    lemma_lookup_put_same(root, providers_key(), TomlTree::Table(providers1));
    lemma_provider_record(lookup(providers, name), name, none);
    // the record is a fixed point of the rules that build it
    let named = put(record, "name"@, TomlTree::String(name));
    lemma_put_same_value(record, "name"@, TomlTree::String(name));
    assert(named == record);
    assert(provider_record(Some(TomlTree::Table(record)), name, none) == record);
    lemma_put_same_value(providers1, name, TomlTree::Table(record));
    lemma_put_same_value(root1, providers_key(), TomlTree::Table(providers1));
}

/// Validation: a provider that does not exist yet cannot be created by a
/// request that gives no `base_url`.
pub proof fn lemma_new_provider_needs_base_url(cfg: TomlTree, name: Seq<char>, fields: JsonTree)
    requires
        provider_entry(cfg, name) is None,
        silent_on(fields, "base_url"@),
    ensures
        upserted_node(cfg, name, fields) is Err,
{
    lemma_field_names_differ();
    if let TomlTree::Table(root) = cfg {
        if let Some(providers) = child_entries(root, providers_key()) {
            lemma_position(keys_of(Seq::<(Seq<char>, TomlTree)>::empty()), name);
            assert(lookup(providers, name) is None);
            lemma_provider_record(None, name, fields);
            lemma_position(keys_of(Seq::<(Seq<char>, TomlTree)>::empty()), "base_url"@);
        }
    }
}

/// Validation: the active provider is not deleted without force, and the
/// settings are left untouched.
pub proof fn lemma_delete_active_needs_force(cfg: TomlTree, name: Seq<char>)
    requires
        active_provider(cfg) == Some(name),
    ensures
        deleted_node(cfg, name, false) is Err,
{
}

/// With force, or for a provider that is not active, a deletion succeeds on
/// every settings table, and the provider's entry is gone afterwards.
pub proof fn lemma_delete_removes_entry(cfg: TomlTree, name: Seq<char>, force: bool)
    requires
        cfg is Table,
        force || active_provider(cfg) != Some(name),
    ensures
        deleted_node(cfg, name, force) is Ok,
        provider_entry(deleted_node(cfg, name, force)->Ok_0, name) is None,
{
    let root = cfg->Table_0;
    match lookup(root, providers_key()) {
        Some(TomlTree::Table(entries)) => {
            lemma_lookup_put_same(root, providers_key(), TomlTree::Table(without(entries, name)));
            lemma_lookup_without_same(entries, name);
        },
        _ => {},
    }
}

/// Deleting a provider that the settings do not define changes nothing.
pub proof fn lemma_delete_absent_changes_nothing(cfg: TomlTree, name: Seq<char>)
    requires
        cfg is Table,
        provider_entry(cfg, name) is None,
    ensures
        deleted_node(cfg, name, true) == Ok::<TomlTree, Seq<char>>(cfg),
{
    let root = cfg->Table_0;
    match lookup(root, providers_key()) {
        Some(TomlTree::Table(entries)) => {
            lemma_without_absent(entries, name);
            lemma_put_same_value(root, providers_key(), TomlTree::Table(entries));
        },
        _ => {},
    }
}

/// A deletion touches nothing but the provider's entry: every other setting
/// at the top of the tree, and every other provider, is as it was.
pub proof fn lemma_delete_keeps_the_rest(
    cfg: TomlTree,
    name: Seq<char>,
    force: bool,
    other: Seq<char>,
)
    requires
        deleted_node(cfg, name, force) is Ok,
    ensures
        other != providers_key() ==> deleted_node(cfg, name, force)->Ok_0.entry(other)
            == cfg.entry(other),
        other != name ==> provider_entry(deleted_node(cfg, name, force)->Ok_0, other)
            == provider_entry(cfg, other),
{
    let root = cfg->Table_0;
    match lookup(root, providers_key()) {
        Some(TomlTree::Table(entries)) => {
            let kept = TomlTree::Table(without(entries, name));
            lemma_lookup_put_same(root, providers_key(), kept);
            if other != providers_key() {
                lemma_lookup_put_other(root, providers_key(), kept, other);
            }
            if other != name {
                crate::assoc::lemma_lookup_without_other(entries, name, other);
            }
        },
        _ => {},
    }
}

/// An upsert touches nothing but the provider's record: every other setting
/// at the top of the tree, and every other provider, is as it was.
pub proof fn lemma_upsert_keeps_the_rest(
    cfg: TomlTree,
    name: Seq<char>,
    fields: JsonTree,
    other: Seq<char>,
)
    requires
        upserted_node(cfg, name, fields) is Ok,
    ensures
        other != providers_key() ==> upserted_node(cfg, name, fields)->Ok_0.entry(other)
            == cfg.entry(other),
        other != name ==> provider_entry(upserted_node(cfg, name, fields)->Ok_0, other)
            == provider_entry(cfg, other),
{
    let root = cfg->Table_0;
    let providers = child_entries(root, providers_key())->Some_0;
    let record = TomlTree::Table(provider_record(lookup(providers, name), name, fields));
    let after = TomlTree::Table(put(providers, name, record));
    lemma_lookup_put_same(root, providers_key(), after);
    if other != providers_key() {
        lemma_lookup_put_other(root, providers_key(), after, other);
    }
    if other != name {
        lemma_lookup_put_other(providers, name, record, other);
        lemma_position(keys_of(Seq::<(Seq<char>, TomlTree)>::empty()), other);
    }
}

/// Full replace: after a server or a project was stored, its entry is
/// exactly the record given, whatever stood there before, and every other
/// entry of that table is as it was.
pub proof fn lemma_upsert_child_replaces(
    cfg: TomlTree,
    child: Seq<char>,
    name: Seq<char>,
    entry: TomlTree,
    invalid: Seq<char>,
    other: Seq<char>,
)
    requires
        upserted_child(cfg, child, name, entry, invalid) is Ok,
    ensures
        upserted_child(cfg, child, name, entry, invalid)->Ok_0.entry_table(child) is Some,
        lookup(
            upserted_child(cfg, child, name, entry, invalid)->Ok_0.entry_table(child)->Some_0,
            name,
        ) == Some(entry),
        other != name ==> lookup(
            upserted_child(cfg, child, name, entry, invalid)->Ok_0.entry_table(child)->Some_0,
            other,
        ) == lookup(child_entries(cfg->Table_0, child)->Some_0, other),
{
    let root = cfg->Table_0;
    let entries = child_entries(root, child)->Some_0;
    lemma_lookup_put_same(root, child, TomlTree::Table(put(entries, name, entry)));
    lemma_lookup_put_same(entries, name, entry);
    if other != name {
        lemma_lookup_put_other(entries, name, entry, other);
    }
}

/// After a server or a project was deleted from a settings table, its entry
/// is gone.
pub proof fn lemma_delete_child_removes(cfg: TomlTree, child: Seq<char>, name: Seq<char>)
    requires
        cfg is Table,
    ensures
        deleted_child(cfg, child, name) is Ok,
        deleted_child(cfg, child, name)->Ok_0.entry_table(child) matches Some(entries) ==> lookup(
            entries,
            name,
        ) is None,
        deleted_child(cfg, child, name)->Ok_0.entry_table(child) is Some <==> cfg.entry_table(
            child,
        ) is Some,
{
    let root = cfg->Table_0;
    match lookup(root, child) {
        Some(TomlTree::Table(entries)) => {
            lemma_lookup_put_same(root, child, TomlTree::Table(without(entries, name)));
            lemma_lookup_without_same(entries, name);
        },
        _ => {},
    }
}

/// Switch: once a provider was made active in a settings table, it is the
/// active provider, and nothing else at the top of the tree has changed.
pub proof fn lemma_activated_is_active(cfg: TomlTree, name: Seq<char>, other: Seq<char>)
    requires
        cfg is Table,
    ensures
        active_provider(activated(cfg, name)) == Some(name),
        other != crate::settings::active_key() ==> activated(cfg, name).entry(other) == cfg.entry(
            other,
        ),
{
    let root = cfg->Table_0;
    lemma_lookup_put_same(root, crate::settings::active_key(), TomlTree::String(name));
    if other != crate::settings::active_key() {
        lemma_lookup_put_other(root, crate::settings::active_key(), TomlTree::String(name), other);
    }
}

/// Merging well-formed fields into a well-formed record gives a well-formed
/// record.
pub proof fn lemma_merged_well_formed(record: Entries, fields: Seq<(Seq<char>, JsonTree)>)
    requires
        toml_well_formed(TomlTree::Table(record)),
        forall|i: int| 0 <= i < fields.len() ==> (#[trigger] fields[i]).1.well_formed(),
    ensures
        toml_well_formed(TomlTree::Table(merged(record, fields))),
    decreases fields.len(),
{
    if fields.len() > 0 {
        let front = fields.drop_last();
        assert forall|i: int| 0 <= i < front.len() implies (#[trigger] front[i]).1.well_formed() by {
            assert(front[i] == fields[i]);
        }
        lemma_merged_well_formed(record, front);
        assert(fields[fields.len() - 1].1.well_formed());
        crate::codec::lemma_codec_keeps_well_formed(fields.last().1, TomlTree::Boolean(false));
        lemma_put_well_formed(
            merged(record, front),
            fields.last().0,
            toml_of_json(fields.last().1),
        );
    }
}

/// The settings stay a tree of mappings: whatever an operation on
/// well-formed settings returns is well formed, given well-formed fields.
pub proof fn lemma_operations_keep_well_formed(
    cfg: TomlTree,
    name: Seq<char>,
    fields: JsonTree,
    force: bool,
    child: Seq<char>,
    entry: TomlTree,
    invalid: Seq<char>,
)
    requires
        cfg.well_formed(),
    ensures
        fields.well_formed() ==> (upserted_node(cfg, name, fields) matches Ok(tree)
            ==> tree.well_formed()),
        deleted_node(cfg, name, force) matches Ok(tree) ==> tree.well_formed(),
        activated(cfg, name).well_formed(),
        entry.well_formed() ==> (upserted_child(cfg, child, name, entry, invalid) matches Ok(tree)
            ==> tree.well_formed()),
        deleted_child(cfg, child, name) matches Ok(tree) ==> tree.well_formed(),
        crate::settings::deleted_project(cfg, name).well_formed(),
{
    let empty = Seq::<(Seq<char>, TomlTree)>::empty();
    assert(toml_well_formed(TomlTree::Table(empty)));
    if let TomlTree::Table(root) = cfg {
        // activation
        lemma_put_well_formed(root, crate::settings::active_key(), TomlTree::String(name));
        // removal from a child table
        lemma_dropped_well_formed(root, providers_key(), name);
        lemma_dropped_well_formed(root, child, name);
        lemma_dropped_well_formed(root, crate::settings::projects_key(), name);
        // full replace in a child table
        if entry.well_formed() {
            if let Some(entries) = child_entries(root, child) {
                if lookup(root, child) is Some {
                    lemma_entry_well_formed(root, child);
                }
                lemma_put_well_formed(entries, name, entry);
                lemma_put_well_formed(root, child, TomlTree::Table(put(entries, name, entry)));
            }
        }
        // merge into a provider record
        if fields.well_formed() {
            if let Some(providers) = child_entries(root, providers_key()) {
                if lookup(root, providers_key()) is Some {
                    lemma_entry_well_formed(root, providers_key());
                }
                let existing = lookup(providers, name);
                let start: Entries = match existing {
                    Some(TomlTree::Table(entries)) => entries,
                    _ => empty,
                };
                if existing is Some {
                    lemma_entry_well_formed(providers, name);
                }
                let filled = match fields {
                    JsonTree::Object(members) => merged(start, members),
                    _ => start,
                };
                if let JsonTree::Object(members) = fields {
                    assert forall|i: int| 0 <= i < members.len() implies (
                    #[trigger] members[i]).1.well_formed() by {}
                    lemma_merged_well_formed(start, members);
                }
                let named = put(filled, "name"@, TomlTree::String(name));
                lemma_put_well_formed(filled, "name"@, TomlTree::String(name));
                lemma_put_well_formed(named, "wire_api"@, TomlTree::String("responses"@));
                let record = provider_record(existing, name, fields);
                lemma_put_well_formed(providers, name, TomlTree::Table(record));
                lemma_put_well_formed(
                    root,
                    providers_key(),
                    TomlTree::Table(put(providers, name, TomlTree::Table(record))),
                );
            }
        }
    }
}

/// Dropping a name from a child table keeps the root well formed.
proof fn lemma_dropped_well_formed(root: Entries, child: Seq<char>, name: Seq<char>)
    requires
        toml_well_formed(TomlTree::Table(root)),
    ensures
        toml_well_formed(TomlTree::Table(dropped_from_child(root, child, name))),
{
    match lookup(root, child) {
        Some(TomlTree::Table(entries)) => {
            lemma_entry_well_formed(root, child);
            lemma_without_well_formed(entries, name);
            lemma_put_well_formed(root, child, TomlTree::Table(without(entries, name)));
        },
        _ => {},
    }
}

} // verus!
