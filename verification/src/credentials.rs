//! The credential store: one record per provider, kept apart from the
//! settings. A store that is missing, empty or unreadable is an empty store.

use crate::assoc::{
    discard, lemma_lookup_put_same, lemma_lookup_without_same, lookup, put, store, without,
};
use crate::error::{ConfigError, ErrorKind};
use crate::json::{json_members, lemma_json_object_view, JsonTree, JsonValue};
use crate::json_text::{json_document, json_error_text, json_pretty, read_json, write_json};
use crate::text::{text_view, trim, trimmed};
use vstd::prelude::*;

verus! {

/// The records of a store, by provider name.
pub type Records = Seq<(Seq<char>, JsonTree)>;

/// The member of a record that holds the secret key.
pub open spec fn secret_field() -> Seq<char> {
    "OPENAI_API_KEY"@
}

/// The record that holds `key` as its secret and nothing else.
pub open spec fn secret_record(key: Seq<char>) -> JsonTree {
    JsonTree::Object(seq![(secret_field(), JsonTree::String(key))])
}

/// The secret key stored for `name`, where its record holds one as text.
pub open spec fn secret_of(records: Records, name: Seq<char>) -> Option<Seq<char>> {
    match lookup(records, name) {
        Some(record) => record.member_text(secret_field()),
        None => None,
    }
}

/// Whether a usable credential is stored for `name`: a secret key that is
/// not the empty text.
pub open spec fn has_credential(records: Records, name: Seq<char>) -> bool {
    match secret_of(records, name) {
        Some(key) => key.len() > 0,
        None => false,
    }
}

/// The value that the content of the credential file stands for: always a
/// mapping. `None` is a file that is missing or cannot be read. Content that
/// parses to an object stands for that object; content that is blank, does
/// not parse, or parses to anything else stands for the empty object.
pub open spec fn credentials_value(content: Option<Seq<char>>) -> JsonTree {
    match content {
        None => JsonTree::Object(Seq::empty()),
        Some(text) => if trimmed(text).len() == 0 {
            JsonTree::Object(Seq::empty())
        } else {
            match json_document(trimmed(text)) {
                Some(JsonTree::Object(members)) => JsonTree::Object(members),
                _ => JsonTree::Object(Seq::empty()),
            }
        },
    }
}

/// The records that the content of the credential file stands for.
pub open spec fn loaded_records(content: Option<Seq<char>>) -> Records {
    credentials_value(content)->Object_0
}

/// The credential store, as loaded from its file.
#[derive(Debug, PartialEq)]
pub struct Credentials {
    pub records: Vec<(String, JsonValue)>,
}

impl View for Credentials {
    type V = Records;

    open spec fn view(&self) -> Records {
        json_members(self.records@)
    }
}

/// The empty object.
fn empty_object() -> (r: JsonValue)
    ensures
        r@ == JsonTree::Object(Seq::empty()),
        r@.well_formed(),
{
    let members: Vec<(String, JsonValue)> = Vec::new();
    proof {
        lemma_json_object_view(members);
        assert(json_members(members@) =~= Seq::empty());
    }
    JsonValue::Object(members)
}

/// The record that holds `key` as its secret.
pub fn record_of(key: &str) -> (r: JsonValue)
    ensures
        r@ == secret_record(key@),
{
    let mut members: Vec<(String, JsonValue)> = Vec::new();
    members.push(("OPENAI_API_KEY".to_owned(), JsonValue::String(key.to_owned())));
    proof {
        lemma_json_object_view(members);
        assert(json_members(members@) =~= seq![(secret_field(), JsonTree::String(key@))]);
    }
    JsonValue::Object(members)
}

/// The value that the content of the credential file stands for: a mapping,
/// whatever the file holds, and never a failure.
pub fn get_credentials(content: Option<&str>) -> (r: JsonValue)
    ensures
        r@ == credentials_value(text_view(content)),
        r@ is Object,
        r@.well_formed(),
{
    match content {
        None => empty_object(),
        Some(text) => {
            let body = trim(text);
            if body.is_empty() {
                empty_object()
            } else {
                match read_json(body) {
                    Ok(JsonValue::Object(members)) => {
                        proof {
                            lemma_json_object_view(members);
                        }
                        JsonValue::Object(members)
                    },
                    _ => empty_object(),
                }
            }
        },
    }
}

impl Credentials {
    /// Whether the store is a mapping: each provider has at most one record,
    /// and every record is well formed.
    pub open spec fn well_formed(&self) -> bool {
        JsonTree::Object(self@).well_formed()
    }

    /// A store without records.
    pub fn new() -> (r: Credentials)
        ensures
            r@ == Seq::<(Seq<char>, JsonTree)>::empty(),
            r.well_formed(),
    {
        let records: Vec<(String, JsonValue)> = Vec::new();
        assert(json_members(records@) =~= Seq::empty());
        Credentials { records }
    }

    /// Loads the store from the content of its file; never a failure.
    pub fn load(content: Option<&str>) -> (r: Credentials)
        ensures
            r@ == loaded_records(text_view(content)),
            r.well_formed(),
    {
        match get_credentials(content) {
            JsonValue::Object(members) => {
                proof {
                    lemma_json_object_view(members);
                }
                Credentials { records: members }
            },
            _ => Credentials::new(),
        }
    }

    /// The secret key stored for `name`.
    pub fn secret(&self, name: &str) -> (r: Option<String>)
        ensures
            match r {
                Some(key) => secret_of(self@, name@) == Some(key@),
                None => secret_of(self@, name@) is None,
            },
    {
        match crate::assoc::find(&self.records, &name.to_owned()) {
            Some(i) => self.records[i].1.get_text("OPENAI_API_KEY"),
            None => None,
        }
    }

    /// Whether a usable credential is stored for `name`.
    pub fn has_credential(&self, name: &str) -> (r: bool)
        ensures
            r == has_credential(self@, name@),
    {
        match self.secret(name) {
            Some(key) => !key.as_str().is_empty(),
            None => false,
        }
    }

    /// Stores `key` as the secret of `name`, in place of any record that was
    /// there.
    pub fn set(&mut self, name: &str, key: &str)
        ensures
            final(self)@ == put(old(self)@, name@, secret_record(key@)),
            old(self).well_formed() ==> final(self).well_formed(),
    {
        proof {
            if self.well_formed() {
                let record = seq![(secret_field(), JsonTree::String(key@))];
                assert(record.len() == 1);
                assert(crate::assoc::keys_of(record).len() == 1);
                assert(crate::json::json_well_formed(record[0].1));
                assert(crate::json::json_well_formed(JsonTree::Object(record)));
                crate::json::lemma_json_put_well_formed(self@, name@, secret_record(key@));
            }
        }
        store(&mut self.records, name.to_owned(), record_of(key));
    }

    /// Removes the record of `name`.
    pub fn remove(&mut self, name: &str)
        ensures
            final(self)@ == without(old(self)@, name@),
            old(self).well_formed() ==> final(self).well_formed(),
    {
        proof {
            if self.well_formed() {
                crate::json::lemma_json_without_well_formed(self@, name@);
            }
        }
        discard(&mut self.records, &name.to_owned());
    }

    /// The text to save for the store. It fails only where the store cannot
    /// be written as text.
    pub fn render(&self) -> (r: Result<String, ConfigError>)
        ensures
            match r {
                Ok(text) => json_pretty(JsonTree::Object(self@)) == Some(text@),
                Err(e) => json_pretty(JsonTree::Object(self@)) is None && e@.0 == ErrorKind::Parse,
            },
    {
        let members = crate::json::clone_json_members(&self.records);
        proof {
            lemma_json_object_view(members);
        }
        render_json(&JsonValue::Object(members))
    }
}

/// The indented text of a dynamic value.
pub fn render_json(value: &JsonValue) -> (r: Result<String, ConfigError>)
    ensures
        match r {
            Ok(text) => json_pretty(value@) == Some(text@),
            Err(e) => json_pretty(value@) is None && e@.0 == ErrorKind::Parse,
        },
{
    match write_json(value) {
        Ok(text) => Ok(text),
        Err(Some(error)) => {
            let detail = json_error_text(&error);
            Err(ConfigError::new(ErrorKind::Parse, detail.as_str()))
        },
        Err(None) => Err(ConfigError::new(ErrorKind::Parse, "value cannot be written as JSON")),
    }
}

/// Reads one dynamic value from text.
pub fn parse_json(text: &str) -> (r: Result<JsonValue, ConfigError>)
    ensures
        match r {
            Ok(value) => json_document(text@) == Some(value@) && value@.well_formed(),
            Err(e) => json_document(text@) is None && e@.0 == ErrorKind::Parse,
        },
{
    match read_json(text) {
        Ok(value) => Ok(value),
        Err(error) => {
            let detail = json_error_text(&error);
            Err(ConfigError::new(ErrorKind::Parse, detail.as_str()))
        },
    }
}

/// The credential to store out of what a caller supplied: the text without
/// the white space around it, and none where nothing is left.
pub open spec fn supplied(credential: Option<Seq<char>>) -> Option<Seq<char>> {
    match credential {
        Some(text) => if trimmed(text).len() == 0 {
            None
        } else {
            Some(trimmed(text))
        },
        None => None,
    }
}

/// The credential to store out of what a caller supplied. A credential that
/// is blank counts as not supplied.
pub fn supplied_credential(credential: Option<&str>) -> (r: Option<String>)
    ensures
        match r {
            Some(key) => supplied(text_view(credential)) == Some(key@),
            None => supplied(text_view(credential)) is None,
        },
{
    match credential {
        Some(text) => {
            let key = trim(text);
            if key.is_empty() {
                None
            } else {
                Some(key.to_owned())
            }
        },
        None => None,
    }
}

/// What setting the credential of `name` to `key` makes of the store whose
/// file holds `content`: the records to save, or the message of the rule
/// that refuses the request. Name and key count without the white space
/// around them.
pub open spec fn updated_credentials(content: Option<Seq<char>>, name: Seq<char>, key: Seq<char>) -> Result<
    Records,
    Seq<char>,
> {
    if trimmed(name).len() == 0 {
        Err("provider name is empty"@)
    } else if trimmed(key).len() == 0 {
        Err("credential is empty"@)
    } else {
        Ok(put(loaded_records(content), trimmed(name), secret_record(trimmed(key))))
    }
}

/// An update of the store, ready to be saved: the provider whose credential
/// was set, by its trimmed name, and the text of the store.
#[derive(Debug, PartialEq)]
pub struct CredentialUpdate {
    pub provider: String,
    pub content: String,
}

/// Sets the credential of provider `name` and returns the text to save for
/// the store. An empty name or key is refused.
pub fn update_node_credential(content: Option<&str>, name: &str, key: &str) -> (r: Result<
    CredentialUpdate,
    ConfigError,
>)
    ensures
        match updated_credentials(text_view(content), name@, key@) {
            Err(message) => r matches Err(e) && e@ == (ErrorKind::Validation, message),
            Ok(records) => match json_pretty(JsonTree::Object(records)) {
                Some(text) => r matches Ok(update) && update.content@ == text && update.provider@
                    == trimmed(name@),
                None => r matches Err(e) && e@.0 == ErrorKind::Parse,
            },
        },
{
    let name = trim(name);
    let key = trim(key);
    if name.is_empty() {
        return Err(ConfigError::new(ErrorKind::Validation, "provider name is empty"));
    }
    if key.is_empty() {
        return Err(ConfigError::new(ErrorKind::Validation, "credential is empty"));
    }
    let mut credentials = Credentials::load(content);
    credentials.set(name, key);
    match credentials.render() {
        Ok(content) => Ok(CredentialUpdate { provider: name.to_owned(), content }),
        Err(e) => Err(e),
    }
}

/// Whether the store whose file holds `content` has a secret key for `name`:
/// the read-back test after a write.
pub fn credential_persisted(content: Option<&str>, name: &str) -> (r: bool)
    ensures
        r == secret_of(loaded_records(text_view(content)), name@) is Some,
{
    Credentials::load(content).secret(name).is_some()
}

/// Removes the record of `name` from the store whose file holds `content`
/// and returns the text to save.
pub fn remove_credential(content: Option<&str>, name: &str) -> (r: Result<String, ConfigError>)
    ensures
        match r {
            Ok(text) => json_pretty(
                JsonTree::Object(without(loaded_records(text_view(content)), name@)),
            ) == Some(text@),
            Err(e) => json_pretty(
                JsonTree::Object(without(loaded_records(text_view(content)), name@)),
            ) is None && e@.0 == ErrorKind::Parse,
        },
{
    let mut credentials = Credentials::load(content);
    credentials.remove(name);
    credentials.render()
}

/// Stores the credential of `name` in the store whose file holds `content`
/// and returns the text to save.
pub fn store_credential(content: Option<&str>, name: &str, key: &str) -> (r: Result<
    String,
    ConfigError,
>)
    ensures
        match r {
            Ok(text) => json_pretty(
                JsonTree::Object(
                    put(loaded_records(text_view(content)), name@, secret_record(key@)),
                ),
            ) == Some(text@),
            Err(e) => json_pretty(
                JsonTree::Object(
                    put(loaded_records(text_view(content)), name@, secret_record(key@)),
                ),
            ) is None && e@.0 == ErrorKind::Parse,
        },
{
    let mut credentials = Credentials::load(content);
    credentials.set(name, key);
    credentials.render()
}

/// A credential that was set can be read back, and it is usable exactly
/// when the key is not empty.
pub proof fn lemma_set_then_secret(records: Records, name: Seq<char>, key: Seq<char>)
    ensures
        secret_of(put(records, name, secret_record(key)), name) == Some(key),
        has_credential(put(records, name, secret_record(key)), name) <==> key.len() > 0,
{
    lemma_lookup_put_same(records, name, secret_record(key));
    let members = seq![(secret_field(), JsonTree::String(key))];
    crate::assoc::lemma_position_is(crate::assoc::keys_of(members), secret_field(), 0);
}

/// After a removal no credential is left for the provider.
pub proof fn lemma_remove_then_none(records: Records, name: Seq<char>)
    ensures
        secret_of(without(records, name), name) is None,
        !has_credential(without(records, name), name),
{
    lemma_lookup_without_same(records, name);
}

/// Defensive load: a missing file, a file without content, and a file whose
/// content does not parse or parses to no object all stand for the empty
/// store.
pub proof fn lemma_load_defaults(text: Seq<char>)
    ensures
        loaded_records(None) == Seq::<(Seq<char>, JsonTree)>::empty(),
        loaded_records(Some(Seq::<char>::empty())) == Seq::<(Seq<char>, JsonTree)>::empty(),
        trimmed(text).len() == 0 ==> loaded_records(Some(text)) == Seq::<
            (Seq<char>, JsonTree),
        >::empty(),
        !(json_document(trimmed(text)) matches Some(JsonTree::Object(_))) ==> loaded_records(
            Some(text),
        ) == Seq::<(Seq<char>, JsonTree)>::empty(),
{
    assert(crate::text::leading_space(Seq::<char>::empty()) == 0);
    assert(trimmed(Seq::<char>::empty()).len() == 0);
}

} // verus!
