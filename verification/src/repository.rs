//! Load, change, save: each operation on the settings takes the text of the
//! settings file and returns the text to save in its place. Reading and
//! writing the file is left to the caller.

use crate::codec::{json_of_toml, toml_to_json};
use crate::error::{ConfigError, ErrorKind};
use crate::json::{JsonTree, JsonValue};
use crate::settings::{
    activated, deleted_child, deleted_node, deleted_project, listed_projects, listed_servers,
    project_record, projects_key, projects_view, server_record, servers_key, servers_view, texts,
    upserted_child, upserted_node, McpServer, ProjectEntry,
};
use crate::toml_text::{
    read_toml, toml_document, toml_pretty, toml_read_error_text, toml_write_error_text, write_toml,
};
use crate::tree::{TomlTree, TomlValue};
use vstd::prelude::*;

verus! {

/// Whether `text` begins with `prefix`.
pub open spec fn has_prefix(text: Seq<char>, prefix: Seq<char>) -> bool {
    prefix.len() <= text.len() && text.take(prefix.len() as int) == prefix
}

/// The view of the result of an operation that returns text.
pub open spec fn outcome(r: Result<String, ConfigError>) -> Result<Seq<char>, (ErrorKind, Seq<char>)> {
    match r {
        Ok(text) => Ok(text@),
        Err(e) => Err(e@),
    }
}

/// Whether `result` is what load, change, save owes for the settings text
/// `text` and the change `change`:
/// text that does not parse is a parse failure; a change that is refused is
/// a validation failure with the rule's message; otherwise the result is the
/// text written for the changed tree, or a parse failure where the tree
/// cannot be written.
pub open spec fn rewrites(
    text: Seq<char>,
    change: spec_fn(TomlTree) -> Result<TomlTree, Seq<char>>,
    result: Result<Seq<char>, (ErrorKind, Seq<char>)>,
) -> bool {
    match toml_document(text) {
        None => result matches Err(e) && e.0 == ErrorKind::Parse && has_prefix(
            e.1,
            "parse toml failed: "@,
        ),
        Some(tree) => match change(tree) {
            Err(message) => result == Err::<Seq<char>, (ErrorKind, Seq<char>)>(
                (ErrorKind::Validation, message),
            ),
            Ok(changed) => match toml_pretty(changed) {
                Some(out) => result == Ok::<Seq<char>, (ErrorKind, Seq<char>)>(out),
                None => result matches Err(e) && e.0 == ErrorKind::Parse,
            },
        },
    }
}

/// A parse failure whose message is `prefix` followed by `detail`.
fn unreadable(prefix: &str, detail: &str) -> (r: ConfigError)
    ensures
        r@.0 == ErrorKind::Parse,
        has_prefix(r@.1, prefix@),
{
    let e = ConfigError::with_detail(ErrorKind::Parse, prefix, detail);
    assert((prefix@ + detail@).take(prefix@.len() as int) =~= prefix@);
    e
}

/// The message for a file at `path` that could not be read, with the
/// system's `detail`.
pub open spec fn read_failure_message(path: Seq<char>, detail: Seq<char>) -> Seq<char> {
    "read "@ + path + " failed: "@ + detail
}

/// The failure for a file that could not be read.
pub fn read_failure(path: &str, detail: &str) -> (r: ConfigError)
    ensures
        r@ == (ErrorKind::Io, read_failure_message(path@, detail@)),
{
    let mut message = crate::text::join3("read ", path, " failed: ");
    message.append(detail);
    ConfigError { kind: ErrorKind::Io, message }
}

/// Parses the text of the settings file. Text that does not parse is a
/// failure: the settings have no empty default.
pub fn read_config_value(text: &str) -> (r: Result<TomlValue, ConfigError>)
    ensures
        match r {
            Ok(tree) => toml_document(text@) == Some(tree@) && tree@.well_formed(),
            Err(e) => toml_document(text@) is None && e@.0 == ErrorKind::Parse && has_prefix(
                e@.1,
                "parse toml failed: "@,
            ),
        },
{
    match read_toml(text) {
        Ok(tree) => Ok(tree),
        Err(error) => {
            let detail = toml_read_error_text(&error);
            Err(unreadable("parse toml failed: ", detail.as_str()))
        },
    }
}

/// The text to save for a settings tree.
pub fn write_config_value(cfg: &TomlValue) -> (r: Result<String, ConfigError>)
    ensures
        match r {
            Ok(text) => toml_pretty(cfg@) == Some(text@),
            Err(e) => toml_pretty(cfg@) is None && e@.0 == ErrorKind::Parse,
        },
{
    match write_toml(cfg) {
        Ok(text) => Ok(text),
        Err(Some(error)) => {
            let detail = toml_write_error_text(&error);
            Err(ConfigError::new(ErrorKind::Parse, detail.as_str()))
        },
        Err(None) => Err(ConfigError::new(ErrorKind::Parse, "value cannot be written as TOML")),
    }
}

/// The text to save for the outcome of a change.
fn save(changed: Result<TomlValue, ConfigError>) -> (r: Result<String, ConfigError>)
    requires
        changed matches Err(e) ==> e@.0 == ErrorKind::Validation,
    ensures
        match changed {
            Err(e) => outcome(r) == Err::<Seq<char>, (ErrorKind, Seq<char>)>(e@),
            Ok(tree) => match toml_pretty(tree@) {
                Some(out) => outcome(r) == Ok::<Seq<char>, (ErrorKind, Seq<char>)>(out),
                None => outcome(r) matches Err(e) && e.0 == ErrorKind::Parse,
            },
        },
{
    match changed {
        Ok(tree) => write_config_value(&tree),
        Err(e) => Err(e),
    }
}

/// The whole settings as a dynamic value, for callers outside.
pub fn get_full_config(text: &str) -> (r: Result<JsonValue, ConfigError>)
    ensures
        match r {
            Ok(value) => toml_document(text@) matches Some(tree) && value@ == json_of_toml(tree)
                && value@.well_formed(),
            Err(e) => toml_document(text@) is None && e@.0 == ErrorKind::Parse && has_prefix(
                e@.1,
                "parse toml failed: "@,
            ),
        },
{
    match read_config_value(text) {
        Ok(tree) => {
            proof {
                crate::codec::lemma_codec_keeps_well_formed(JsonTree::Null, tree@);
            }
            Ok(toml_to_json(&tree))
        },
        Err(e) => Err(e),
    }
}

/// Checks raw settings text before it is written: text that does not parse
/// is rejected, so that the file is never touched with it.
pub fn write_config_raw(text: &str) -> (r: Result<(), ConfigError>)
    ensures
        match r {
            Ok(_) => toml_document(text@) is Some,
            Err(e) => toml_document(text@) is None && e@.0 == ErrorKind::Parse && has_prefix(
                e@.1,
                "TOML parse error: "@,
            ),
        },
{
    match read_toml(text) {
        Ok(_) => Ok(()),
        Err(error) => {
            let detail = toml_read_error_text(&error);
            Err(unreadable("TOML parse error: ", detail.as_str()))
        },
    }
}

/// Creates or updates a provider in the settings text.
pub fn upsert_node(text: &str, name: &str, fields: &JsonValue) -> (r: Result<String, ConfigError>)
    ensures
        rewrites(text@, |tree: TomlTree| upserted_node(tree, name@, fields@), outcome(r)),
{
    match read_config_value(text) {
        Ok(cfg) => save(crate::settings::upsert_node(cfg, name, fields)),
        Err(e) => Err(e),
    }
}

/// Deletes a provider from the settings text.
pub fn delete_node(text: &str, name: &str, force: bool) -> (r: Result<String, ConfigError>)
    ensures
        rewrites(text@, |tree: TomlTree| deleted_node(tree, name@, force), outcome(r)),
{
    match read_config_value(text) {
        Ok(cfg) => save(crate::settings::delete_node(cfg, name, force)),
        Err(e) => Err(e),
    }
}

/// Makes `name` the active provider in the settings text.
pub fn set_active(text: &str, name: &str) -> (r: Result<String, ConfigError>)
    ensures
        rewrites(
            text@,
            |tree: TomlTree| Ok::<TomlTree, Seq<char>>(activated(tree, name@)),
            outcome(r),
        ),
{
    match read_config_value(text) {
        Ok(cfg) => save(Ok(crate::settings::set_active(cfg, name))),
        Err(e) => Err(e),
    }
}

/// Creates or replaces an auxiliary server in the settings text.
pub fn upsert_mcp_server(text: &str, name: &str, command: &str, args: &Vec<String>) -> (r: Result<
    String,
    ConfigError,
>)
    ensures
        rewrites(
            text@,
            |tree: TomlTree|
                upserted_child(
                    tree,
                    servers_key(),
                    name@,
                    server_record(command@, texts(args@)),
                    "invalid mcp_servers"@,
                ),
            outcome(r),
        ),
{
    match read_config_value(text) {
        Ok(cfg) => save(crate::settings::upsert_mcp_server(cfg, name, command, args)),
        Err(e) => Err(e),
    }
}

/// Deletes an auxiliary server from the settings text.
pub fn delete_mcp_server(text: &str, name: &str) -> (r: Result<String, ConfigError>)
    ensures
        rewrites(text@, |tree: TomlTree| deleted_child(tree, servers_key(), name@), outcome(r)),
{
    match read_config_value(text) {
        Ok(cfg) => save(crate::settings::delete_mcp_server(cfg, name)),
        Err(e) => Err(e),
    }
}

/// Creates or replaces a trusted project in the settings text.
pub fn upsert_project(text: &str, path: &str, trust_level: &str) -> (r: Result<String, ConfigError>)
    ensures
        rewrites(
            text@,
            |tree: TomlTree|
                upserted_child(
                    tree,
                    projects_key(),
                    path@,
                    project_record(trust_level@),
                    "invalid projects"@,
                ),
            outcome(r),
        ),
{
    match read_config_value(text) {
        Ok(cfg) => save(crate::settings::upsert_project(cfg, path, trust_level)),
        Err(e) => Err(e),
    }
}

/// Deletes a trusted project from the settings text.
pub fn delete_project(text: &str, path: &str) -> (r: Result<String, ConfigError>)
    ensures
        rewrites(
            text@,
            |tree: TomlTree| Ok::<TomlTree, Seq<char>>(deleted_project(tree, path@)),
            outcome(r),
        ),
{
    match read_config_value(text) {
        Ok(cfg) => save(Ok(crate::settings::delete_project(cfg, path))),
        Err(e) => Err(e),
    }
}

/// The auxiliary servers that the settings text defines.
pub fn list_mcp_servers(text: &str) -> (r: Result<Vec<McpServer>, ConfigError>)
    ensures
        match r {
            Ok(servers) => toml_document(text@) matches Some(tree) && servers_view(servers@)
                == listed_servers(tree),
            Err(e) => toml_document(text@) is None && e@.0 == ErrorKind::Parse && has_prefix(
                e@.1,
                "parse toml failed: "@,
            ),
        },
{
    match read_config_value(text) {
        Ok(cfg) => Ok(crate::settings::list_mcp_servers(&cfg)),
        Err(e) => Err(e),
    }
}

/// The trusted projects that the settings text lists.
pub fn list_projects(text: &str) -> (r: Result<Vec<ProjectEntry>, ConfigError>)
    ensures
        match r {
            Ok(projects) => toml_document(text@) matches Some(tree) && projects_view(projects@)
                == listed_projects(tree),
            Err(e) => toml_document(text@) is None && e@.0 == ErrorKind::Parse && has_prefix(
                e@.1,
                "parse toml failed: "@,
            ),
        },
{
    match read_config_value(text) {
        Ok(cfg) => Ok(crate::settings::list_projects(&cfg)),
        Err(e) => Err(e),
    }
}

} // verus!
