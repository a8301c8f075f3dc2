//! The settings tree and the operations on its sub-collections: provider
//! definitions, auxiliary servers and trusted projects.
//!
//! Every operation takes the tree as a value and returns the tree to be
//! saved; nothing is held between calls.

use crate::assoc::{discard, find, lookup, model, put, store, without};
use crate::codec::{json_to_toml, toml_of_json};
use crate::error::{ConfigError, ErrorKind};
use crate::json::{json_members, JsonTree, JsonValue};
use crate::text::same;
use crate::tree::{
    clone_entries, lemma_toml_array_view, lemma_toml_table_view, toml_items, TomlTree, TomlValue,
};
use vstd::prelude::*;

verus! {

/// The entries of a table, by key.
pub type Entries = Seq<(Seq<char>, TomlTree)>;

/// Key of the active provider's name.
pub open spec fn active_key() -> Seq<char> {
    "model_provider"@
}

/// Key of the table of provider definitions.
pub open spec fn providers_key() -> Seq<char> {
    "model_providers"@
}

/// The wire protocol that a provider gets when none is given.
pub open spec fn default_wire_api() -> Seq<char> {
    "responses"@
}

/// The name of the provider in effect, where the tree names one.
pub open spec fn active_provider(cfg: TomlTree) -> Option<Seq<char>> {
    cfg.entry_text(active_key())
}

/// The entries of the sub-table under `key`: none where the key is absent,
/// and no answer where the key holds something that is not a table.
pub open spec fn child_entries(root: Entries, key: Seq<char>) -> Option<Entries> {
    match lookup(root, key) {
        None => Some(Seq::empty()),
        Some(TomlTree::Table(entries)) => Some(entries),
        Some(_) => None,
    }
}

/// `record` after every member of `fields` was stored into it, in order, so
/// that a later member overwrites an earlier one with the same key.
pub open spec fn merged(record: Entries, fields: Seq<(Seq<char>, JsonTree)>) -> Entries
    decreases fields.len(),
{
    if fields.len() == 0 {
        record
    } else {
        put(merged(record, fields.drop_last()), fields.last().0, toml_of_json(fields.last().1))
    }
}

/// The record that an upsert writes for provider `name`: what was there (or
/// nothing), with the given fields merged in, `name` set to the key, and
/// `wire_api` defaulted where it is still absent.
pub open spec fn provider_record(existing: Option<TomlTree>, name: Seq<char>, fields: JsonTree) -> Entries {
    let start = match existing {
        Some(TomlTree::Table(entries)) => entries,
        _ => Seq::empty(),
    };
    let filled = match fields {
        JsonTree::Object(members) => merged(start, members),
        _ => start,
    };
    let named = put(filled, "name"@, TomlTree::String(name));
    if lookup(named, "wire_api"@) is Some {
        named
    } else {
        put(named, "wire_api"@, TomlTree::String(default_wire_api()))
    }
}

/// What an upsert of provider `name` makes of the tree: the new tree, or the
/// message of the rule that refuses it.
pub open spec fn upserted_node(cfg: TomlTree, name: Seq<char>, fields: JsonTree) -> Result<
    TomlTree,
    Seq<char>,
> {
    match cfg {
        TomlTree::Table(root) => match child_entries(root, providers_key()) {
            Some(providers) => {
                let record = provider_record(lookup(providers, name), name, fields);
                if lookup(providers, name) is None && lookup(record, "base_url"@) is None {
                    Err("base_url is required for new provider"@)
                } else {
                    Ok(
                        TomlTree::Table(
                            put(
                                root,
                                providers_key(),
                                TomlTree::Table(put(providers, name, TomlTree::Table(record))),
                            ),
                        ),
                    )
                }
            },
            None => Err("invalid model_providers"@),
        },
        _ => Err("invalid config root"@),
    }
}

/// The root after `name` was dropped from the sub-table under `child`; the
/// root as it is where there is no such sub-table.
pub open spec fn dropped_from_child(root: Entries, child: Seq<char>, name: Seq<char>) -> Entries {
    match lookup(root, child) {
        Some(TomlTree::Table(entries)) => put(root, child, TomlTree::Table(without(entries, name))),
        _ => root,
    }
}

/// What a deletion of provider `name` makes of the tree: the new tree, or the
/// message of the rule that refuses it. The active provider is deleted only
/// with `force`.
pub open spec fn deleted_node(cfg: TomlTree, name: Seq<char>, force: bool) -> Result<
    TomlTree,
    Seq<char>,
> {
    if !force && active_provider(cfg) == Some(name) {
        Err("cannot delete active provider without force"@)
    } else {
        match cfg {
            TomlTree::Table(root) => Ok(
                TomlTree::Table(dropped_from_child(root, providers_key(), name)),
            ),
            _ => Err("invalid config root"@),
        }
    }
}

/// The tree with `name` as its active provider; a tree that is no table is
/// left as it is.
pub open spec fn activated(cfg: TomlTree, name: Seq<char>) -> TomlTree {
    match cfg {
        TomlTree::Table(root) => TomlTree::Table(put(root, active_key(), TomlTree::String(name))),
        _ => cfg,
    }
}

/// A validation failure with `message` as its text.
fn refuse<T>(message: &str) -> (r: Result<T, ConfigError>)
    ensures
        r matches Err(e) && e@ == (ErrorKind::Validation, message@),
{
    Err(ConfigError::new(ErrorKind::Validation, message))
}

/// A copy of the entries of the sub-table under `key`.
fn child_table(root: &Vec<(String, TomlValue)>, key: &String) -> (r: Option<
    Vec<(String, TomlValue)>,
>)
    ensures
        match r {
            Some(entries) => child_entries(model(root@), key@) == Some(model(entries@)),
            None => child_entries(model(root@), key@) is None,
        },
{
    match find(root, key) {
        Some(i) => match &root[i].1 {
            TomlValue::Table(entries) => {
                proof {
                    lemma_toml_table_view(*entries);
                }
                Some(clone_entries(entries))
            },
            _ => None,
        },
        None => {
            let empty: Vec<(String, TomlValue)> = Vec::new();
            assert(model(empty@) =~= Seq::empty());
            Some(empty)
        },
    }
}

/// Stores every member of `fields` into `record`, in order.
fn merge_fields(record: &mut Vec<(String, TomlValue)>, fields: &Vec<(String, JsonValue)>)
    ensures
        model(final(record)@) == merged(model(old(record)@), json_members(fields@)),
{
    let ghost start = model(record@);
    let ghost all = json_members(fields@);
    let mut i: usize = 0;
    assert(all.take(0) =~= Seq::empty());
    while i < fields.len()
        invariant
            i <= fields.len(),
            all == json_members(fields@),
            model(record@) == merged(start, all.take(i as int)),
        decreases fields.len() - i,
    {
        let key = fields[i].0.clone();
        let image = json_to_toml(&fields[i].1);
        store(record, key, image);
        proof {
            let next = all.take(i + 1);
            assert(next.drop_last() =~= all.take(i as int));
            assert(next.last() == all[i as int]);
        }
        i += 1;
    }
    assert(all.take(fields.len() as int) =~= all);
}

/// The record to write for provider `name`.
fn build_record(
    existing: Option<&TomlValue>,
    name: &str,
    fields: &JsonValue,
) -> (r: Vec<(String, TomlValue)>)
    ensures
        model(r@) == provider_record(
            match existing {
                Some(v) => Some(v@),
                None => None,
            },
            name@,
            fields@,
        ),
{
    let mut record: Vec<(String, TomlValue)> = match existing {
        Some(TomlValue::Table(entries)) => {
            proof {
                lemma_toml_table_view(*entries);
            }
            clone_entries(entries)
        },
        _ => {
            let empty: Vec<(String, TomlValue)> = Vec::new();
            assert(model(empty@) =~= Seq::empty());
            empty
        },
    };
    match fields.as_object() {
        Some(members) => {
            merge_fields(&mut record, members);
        },
        None => {},
    }
    store(&mut record, "name".to_owned(), TomlValue::text_of(name));
    let wire = "wire_api".to_owned();
    if find(&record, &wire).is_none() {
        store(&mut record, wire, TomlValue::text_of("responses"));
    }
    record
}

/// Creates or updates the definition of provider `name`. The fields given
/// are merged into the existing record; `name` is forced to the key and
/// `wire_api` is defaulted. A provider that did not exist must end up with a
/// `base_url`, or the call is refused and nothing is changed.
pub fn upsert_node(cfg: TomlValue, name: &str, fields: &JsonValue) -> (r: Result<
    TomlValue,
    ConfigError,
>)
    ensures
        match r {
            Ok(tree) => upserted_node(cfg@, name@, fields@) == Ok::<TomlTree, Seq<char>>(tree@),
            Err(e) => upserted_node(cfg@, name@, fields@) == Err::<TomlTree, Seq<char>>(e@.1)
                && e@.0 == ErrorKind::Validation,
        },
{
    let mut root = match cfg {
        TomlValue::Table(entries) => entries,
        _ => {
            return refuse("invalid config root");
        },
    };
    proof {
        lemma_toml_table_view(root);
    }
    let providers_name = "model_providers".to_owned();
    let mut providers = match child_table(&root, &providers_name) {
        Some(entries) => entries,
        None => {
            return refuse("invalid model_providers");
        },
    };
    let key = name.to_owned();
    let place = find(&providers, &key);
    let record = match place {
        Some(i) => build_record(Some(&providers[i].1), name, fields),
        None => build_record(None, name, fields),
    };
    if place.is_none() && find(&record, &"base_url".to_owned()).is_none() {
        return refuse("base_url is required for new provider");
    }
    proof {
        lemma_toml_table_view(record);
    }
    store(&mut providers, key, TomlValue::Table(record));
    proof {
        lemma_toml_table_view(providers);
    }
    store(&mut root, providers_name, TomlValue::Table(providers));
    proof {
        lemma_toml_table_view(root);
    }
    Ok(TomlValue::Table(root))
}

/// Drops `name` from the sub-table under `child`, where there is one.
fn drop_from_child(root: &mut Vec<(String, TomlValue)>, child: &str, name: &str)
    ensures
        model(final(root)@) == dropped_from_child(model(old(root)@), child@, name@),
{
    let child_key = child.to_owned();
    match find(root, &child_key) {
        Some(i) => match &root[i].1 {
            TomlValue::Table(entries) => {
                proof {
                    lemma_toml_table_view(*entries);
                }
                let mut kept = clone_entries(entries);
                discard(&mut kept, &name.to_owned());
                proof {
                    lemma_toml_table_view(kept);
                }
                store(root, child_key, TomlValue::Table(kept));
            },
            _ => {},
        },
        None => {},
    }
}

/// Whether `name` is the provider that the tree names as active.
pub fn is_active(cfg: &TomlValue, name: &str) -> (r: bool)
    ensures
        r == (active_provider(cfg@) == Some(name@)),
{
    match cfg.get("model_provider") {
        Some(v) => match v.as_str() {
            Some(current) => same(current, name),
            None => false,
        },
        None => false,
    }
}

/// Deletes the definition of provider `name`. The active provider is deleted
/// only with `force`; without it the call is refused.
pub fn delete_node(cfg: TomlValue, name: &str, force: bool) -> (r: Result<TomlValue, ConfigError>)
    ensures
        match r {
            Ok(tree) => deleted_node(cfg@, name@, force) == Ok::<TomlTree, Seq<char>>(tree@),
            Err(e) => deleted_node(cfg@, name@, force) == Err::<TomlTree, Seq<char>>(e@.1) && e@.0
                == ErrorKind::Validation,
        },
{
    if !force && is_active(&cfg, name) {
        return refuse("cannot delete active provider without force");
    }
    let mut root = match cfg {
        TomlValue::Table(entries) => entries,
        _ => {
            return refuse("invalid config root");
        },
    };
    proof {
        lemma_toml_table_view(root);
    }
    drop_from_child(&mut root, "model_providers", name);
    proof {
        lemma_toml_table_view(root);
    }
    Ok(TomlValue::Table(root))
}

/// Makes `name` the active provider.
pub fn set_active(cfg: TomlValue, name: &str) -> (r: TomlValue)
    ensures
        r@ == activated(cfg@, name@),
{
    match cfg {
        TomlValue::Table(entries) => {
            let mut root = entries;
            proof {
                lemma_toml_table_view(root);
            }
            store(&mut root, "model_provider".to_owned(), TomlValue::text_of(name));
            proof {
                lemma_toml_table_view(root);
            }
            TomlValue::Table(root)
        },
        other => other,
    }
}

/// Key of the table of auxiliary servers.
pub open spec fn servers_key() -> Seq<char> {
    "mcp_servers"@
}

/// Key of the table of trusted projects.
pub open spec fn projects_key() -> Seq<char> {
    "projects"@
}

/// What storing `entry` under `name` in the sub-table under `child` makes of
/// the tree: the whole record is replaced. `invalid` is the message for a
/// tree whose entry under `child` is no table.
pub open spec fn upserted_child(
    cfg: TomlTree,
    child: Seq<char>,
    name: Seq<char>,
    entry: TomlTree,
    invalid: Seq<char>,
) -> Result<TomlTree, Seq<char>> {
    match cfg {
        TomlTree::Table(root) => match child_entries(root, child) {
            Some(entries) => Ok(
                TomlTree::Table(put(root, child, TomlTree::Table(put(entries, name, entry)))),
            ),
            None => Err(invalid),
        },
        _ => Err("invalid config root"@),
    }
}

/// Stores `entry` under `name` in the sub-table under `child`, which is
/// created where it is missing.
fn upsert_child(cfg: TomlValue, child: &str, name: &str, entry: TomlValue, invalid: &str) -> (r:
    Result<TomlValue, ConfigError>)
    ensures
        match r {
            Ok(tree) => upserted_child(cfg@, child@, name@, entry@, invalid@) == Ok::<
                TomlTree,
                Seq<char>,
            >(tree@),
            Err(e) => upserted_child(cfg@, child@, name@, entry@, invalid@) == Err::<
                TomlTree,
                Seq<char>,
            >(e@.1) && e@.0 == ErrorKind::Validation,
        },
{
    let mut root = match cfg {
        TomlValue::Table(entries) => entries,
        _ => {
            return refuse("invalid config root");
        },
    };
    proof {
        lemma_toml_table_view(root);
    }
    let child_key = child.to_owned();
    let mut entries = match child_table(&root, &child_key) {
        Some(entries) => entries,
        None => {
            return refuse(invalid);
        },
    };
    store(&mut entries, name.to_owned(), entry);
    proof {
        lemma_toml_table_view(entries);
    }
    store(&mut root, child_key, TomlValue::Table(entries));
    proof {
        lemma_toml_table_view(root);
    }
    Ok(TomlValue::Table(root))
}

/// The texts of a run of stored strings, in order.
pub open spec fn texts(items: Seq<String>) -> Seq<Seq<char>> {
    Seq::new(items.len(), |i: int| items[i]@)
}

/// An auxiliary server: a named helper process with its command line.
#[derive(Debug, PartialEq)]
pub struct McpServer {
    pub name: String,
    pub command: Option<String>,
    pub args: Option<Vec<String>>,
}

/// The mathematical model of an `McpServer`.
pub struct McpServerModel {
    pub name: Seq<char>,
    pub command: Option<Seq<char>>,
    pub args: Option<Seq<Seq<char>>>,
}

impl View for McpServer {
    type V = McpServerModel;

    open spec fn view(&self) -> McpServerModel {
        McpServerModel {
            name: self.name@,
            command: match self.command {
                Some(c) => Some(c@),
                None => None,
            },
            args: match self.args {
                Some(a) => Some(texts(a@)),
                None => None,
            },
        }
    }
}

/// A trusted project: a path with its trust classification.
#[derive(Debug, PartialEq)]
pub struct ProjectEntry {
    pub path: String,
    pub trust_level: String,
}

impl View for ProjectEntry {
    type V = (Seq<char>, Seq<char>);

    open spec fn view(&self) -> (Seq<char>, Seq<char>) {
        (self.path@, self.trust_level@)
    }
}

/// The record of a server with the given command line.
pub open spec fn server_record(command: Seq<char>, args: Seq<Seq<char>>) -> TomlTree {
    TomlTree::Table(
        seq![
            ("command"@, TomlTree::String(command)),
            ("args"@, TomlTree::Array(Seq::new(args.len(), |i: int| TomlTree::String(args[i])))),
        ],
    )
}

/// The record of a project with the given trust classification.
pub open spec fn project_record(trust_level: Seq<char>) -> TomlTree {
    TomlTree::Table(seq![("trust_level"@, TomlTree::String(trust_level))])
}

/// The strings among `items`, in order; what is no string is passed over.
pub open spec fn strings_among(items: Seq<TomlTree>) -> Seq<Seq<char>>
    decreases items.len(),
{
    if items.len() == 0 {
        Seq::empty()
    } else {
        match items.last() {
            TomlTree::String(s) => strings_among(items.drop_last()).push(s),
            _ => strings_among(items.drop_last()),
        }
    }
}

/// The server that a table entry describes.
pub open spec fn server_of(entry: (Seq<char>, TomlTree)) -> McpServerModel {
    McpServerModel {
        name: entry.0,
        command: entry.1.entry_text("command"@),
        args: match entry.1.entry("args"@) {
            Some(TomlTree::Array(items)) => Some(strings_among(items)),
            _ => None,
        },
    }
}

/// The project that a table entry describes; a missing trust classification
/// is the empty text.
pub open spec fn project_of(entry: (Seq<char>, TomlTree)) -> (Seq<char>, Seq<char>) {
    (
        entry.0,
        match entry.1.entry_text("trust_level"@) {
            Some(level) => level,
            None => Seq::empty(),
        },
    )
}

/// The servers that the tree defines, in the order of its table.
pub open spec fn listed_servers(cfg: TomlTree) -> Seq<McpServerModel> {
    match cfg.entry_table(servers_key()) {
        Some(entries) => Seq::new(entries.len(), |i: int| server_of(entries[i])),
        None => Seq::empty(),
    }
}

/// The projects that the tree lists, in the order of its table.
pub open spec fn listed_projects(cfg: TomlTree) -> Seq<(Seq<char>, Seq<char>)> {
    match cfg.entry_table(projects_key()) {
        Some(entries) => Seq::new(entries.len(), |i: int| project_of(entries[i])),
        None => Seq::empty(),
    }
}

/// The views of a run of servers.
pub open spec fn servers_view(servers: Seq<McpServer>) -> Seq<McpServerModel> {
    Seq::new(servers.len(), |i: int| servers[i]@)
}

/// The views of a run of projects.
pub open spec fn projects_view(projects: Seq<ProjectEntry>) -> Seq<(Seq<char>, Seq<char>)> {
    Seq::new(projects.len(), |i: int| projects[i]@)
}

/// The strings among the items of an array.
fn collect_strings(items: &Vec<TomlValue>) -> (r: Vec<String>)
    ensures
        texts(r@) == strings_among(toml_items(items@)),
{
    let ghost all = toml_items(items@);
    let mut out: Vec<String> = Vec::new();
    let mut i: usize = 0;
    assert(all.take(0) =~= Seq::empty());
    assert(texts(out@) =~= Seq::empty());
    while i < items.len()
        invariant
            i <= items.len(),
            all == toml_items(items@),
            texts(out@) == strings_among(all.take(i as int)),
        decreases items.len() - i,
    {
        proof {
            let next = all.take(i + 1);
            assert(next.drop_last() =~= all.take(i as int));
            assert(next.last() == items@[i as int]@);
        }
        let ghost before = texts(out@);
        match &items[i] {
            TomlValue::String(s) => {
                out.push(s.clone());
                assert(texts(out@) =~= before.push(s@));
            },
            _ => {},
        }
        i += 1;
    }
    assert(all.take(items.len() as int) =~= all);
    out
}

/// The auxiliary servers that the tree defines, in the order of its table.
pub fn list_mcp_servers(cfg: &TomlValue) -> (r: Vec<McpServer>)
    ensures
        servers_view(r@) == listed_servers(cfg@),
{
    let mut out: Vec<McpServer> = Vec::new();
    let entries = match cfg.get("mcp_servers") {
        Some(TomlValue::Table(entries)) => {
            proof {
                lemma_toml_table_view(*entries);
            }
            entries
        },
        _ => {
            assert(servers_view(out@) =~= Seq::empty());
            return out;
        },
    };
    let mut i: usize = 0;
    while i < entries.len()
        invariant
            i <= entries.len(),
            out.len() == i,
            forall|j: int| 0 <= j < i ==> out@[j]@ == server_of(model(entries@)[j]),
        decreases entries.len() - i,
    {
        let item = &entries[i].1;
        let command = item.get_text("command");
        let args = match item.get("args") {
            Some(TomlValue::Array(items)) => {
                proof {
                    lemma_toml_array_view(*items);
                }
                Some(collect_strings(items))
            },
            _ => None,
        };
        out.push(McpServer { name: entries[i].0.clone(), command, args });
        i += 1;
    }
    assert(servers_view(out@) =~= listed_servers(cfg@));
    out
}

/// The array of the given strings.
fn string_array(args: &Vec<String>) -> (r: TomlValue)
    ensures
        r@ == TomlTree::Array(Seq::new(args@.len(), |i: int| TomlTree::String(args@[i]@))),
{
    let mut out: Vec<TomlValue> = Vec::new();
    let mut i: usize = 0;
    while i < args.len()
        invariant
            i <= args.len(),
            out.len() == i,
            forall|j: int| 0 <= j < i ==> out@[j]@ == TomlTree::String(args@[j]@),
        decreases args.len() - i,
    {
        out.push(TomlValue::String(args[i].clone()));
        i += 1;
    }
    proof {
        lemma_toml_array_view(out);
        assert(toml_items(out@) =~= Seq::new(args@.len(), |i: int| TomlTree::String(args@[i]@)));
    }
    TomlValue::Array(out)
}

/// Creates or replaces the definition of the auxiliary server `name`: the
/// whole record is written anew.
pub fn upsert_mcp_server(cfg: TomlValue, name: &str, command: &str, args: &Vec<String>) -> (r:
    Result<TomlValue, ConfigError>)
    ensures
        match r {
            Ok(tree) => upserted_child(
                cfg@,
                servers_key(),
                name@,
                server_record(command@, texts(args@)),
                "invalid mcp_servers"@,
            ) == Ok::<TomlTree, Seq<char>>(tree@),
            Err(e) => upserted_child(
                cfg@,
                servers_key(),
                name@,
                server_record(command@, texts(args@)),
                "invalid mcp_servers"@,
            ) == Err::<TomlTree, Seq<char>>(e@.1) && e@.0 == ErrorKind::Validation,
        },
{
    let mut record: Vec<(String, TomlValue)> = Vec::new();
    record.push(("command".to_owned(), TomlValue::text_of(command)));
    record.push(("args".to_owned(), string_array(args)));
    proof {
        lemma_toml_table_view(record);
        assert(TomlTree::Table(model(record@))->Table_0 =~= server_record(
            command@,
            texts(args@),
        )->Table_0) by {
            assert(Seq::new(args@.len(), |i: int| TomlTree::String(args@[i]@)) =~= Seq::new(
                texts(args@).len(),
                |i: int| TomlTree::String(texts(args@)[i]),
            ));
        }
    }
    upsert_child(cfg, "mcp_servers", name, TomlValue::Table(record), "invalid mcp_servers")
}

/// What dropping `name` from the sub-table under `child` makes of a tree that
/// must be a table.
pub open spec fn deleted_child(cfg: TomlTree, child: Seq<char>, name: Seq<char>) -> Result<
    TomlTree,
    Seq<char>,
> {
    match cfg {
        TomlTree::Table(root) => Ok(TomlTree::Table(dropped_from_child(root, child, name))),
        _ => Err("invalid config root"@),
    }
}

/// Deletes the definition of the auxiliary server `name`.
pub fn delete_mcp_server(cfg: TomlValue, name: &str) -> (r: Result<TomlValue, ConfigError>)
    ensures
        match r {
            Ok(tree) => deleted_child(cfg@, servers_key(), name@) == Ok::<TomlTree, Seq<char>>(
                tree@,
            ),
            Err(e) => deleted_child(cfg@, servers_key(), name@) == Err::<TomlTree, Seq<char>>(
                e@.1,
            ) && e@.0 == ErrorKind::Validation,
        },
{
    let mut root = match cfg {
        TomlValue::Table(entries) => entries,
        _ => {
            return refuse("invalid config root");
        },
    };
    proof {
        lemma_toml_table_view(root);
    }
    drop_from_child(&mut root, "mcp_servers", name);
    proof {
        lemma_toml_table_view(root);
    }
    Ok(TomlValue::Table(root))
}

/// The trusted projects that the tree lists, in the order of its table.
pub fn list_projects(cfg: &TomlValue) -> (r: Vec<ProjectEntry>)
    ensures
        projects_view(r@) == listed_projects(cfg@),
{
    let mut out: Vec<ProjectEntry> = Vec::new();
    let entries = match cfg.get("projects") {
        Some(TomlValue::Table(entries)) => {
            proof {
                lemma_toml_table_view(*entries);
            }
            entries
        },
        _ => {
            assert(projects_view(out@) =~= Seq::empty());
            return out;
        },
    };
    let mut i: usize = 0;
    while i < entries.len()
        invariant
            i <= entries.len(),
            out.len() == i,
            forall|j: int| 0 <= j < i ==> out@[j]@ == project_of(model(entries@)[j]),
        decreases entries.len() - i,
    {
        let trust_level = match entries[i].1.get_text("trust_level") {
            Some(level) => level,
            None => String::new(),
        };
        out.push(ProjectEntry { path: entries[i].0.clone(), trust_level });
        i += 1;
    }
    assert(projects_view(out@) =~= listed_projects(cfg@));
    out
}

/// Creates or replaces the entry of the trusted project at `path`.
pub fn upsert_project(cfg: TomlValue, path: &str, trust_level: &str) -> (r: Result<
    TomlValue,
    ConfigError,
>)
    ensures
        match r {
            Ok(tree) => upserted_child(
                cfg@,
                projects_key(),
                path@,
                project_record(trust_level@),
                "invalid projects"@,
            ) == Ok::<TomlTree, Seq<char>>(tree@),
            Err(e) => upserted_child(
                cfg@,
                projects_key(),
                path@,
                project_record(trust_level@),
                "invalid projects"@,
            ) == Err::<TomlTree, Seq<char>>(e@.1) && e@.0 == ErrorKind::Validation,
        },
{
    let mut record: Vec<(String, TomlValue)> = Vec::new();
    record.push(("trust_level".to_owned(), TomlValue::text_of(trust_level)));
    proof {
        lemma_toml_table_view(record);
        assert(model(record@) =~= project_record(trust_level@)->Table_0);
    }
    upsert_child(cfg, "projects", path, TomlValue::Table(record), "invalid projects")
}

/// The tree without the trusted project at `path`; a tree that is no table
/// is left as it is.
pub open spec fn deleted_project(cfg: TomlTree, path: Seq<char>) -> TomlTree {
    match cfg {
        TomlTree::Table(root) => TomlTree::Table(dropped_from_child(root, projects_key(), path)),
        _ => cfg,
    }
}

/// Deletes the entry of the trusted project at `path`.
pub fn delete_project(cfg: TomlValue, path: &str) -> (r: TomlValue)
    ensures
        r@ == deleted_project(cfg@, path@),
{
    match cfg {
        TomlValue::Table(entries) => {
            let mut root = entries;
            proof {
                lemma_toml_table_view(root);
            }
            drop_from_child(&mut root, "projects", path);
            proof {
                lemma_toml_table_view(root);
            }
            TomlValue::Table(root)
        },
        other => other,
    }
}

} // verus!
