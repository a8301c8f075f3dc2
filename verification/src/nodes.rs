//! Providers as the user sees them: the settings joined with the credential
//! store, and the switch of the active provider.

use crate::assoc::lemma_position;
use crate::codec::json_of_toml;
use crate::credentials::{
    credentials_value, get_credentials, has_credential, loaded_records, record_of, render_json,
    secret_of, secret_record, Credentials, Records,
};
use crate::error::{ConfigError, ErrorKind};
use crate::json::{json_members, lemma_json_object_view, JsonTree, JsonValue};
use crate::json_text::json_pretty;
use crate::repository::{get_full_config, has_prefix};
use crate::text::{join3, text_view};
use crate::toml_text::toml_document;
use vstd::prelude::*;

verus! {

/// A provider with what the list shows of it.
#[derive(Debug, PartialEq)]
pub struct ProviderInfo {
    pub name: String,
    pub base_url: Option<String>,
    pub wire_api: Option<String>,
    pub requires_openai_auth: Option<bool>,
    pub has_credential: bool,
}

/// The mathematical model of a `ProviderInfo`.
pub struct ProviderModel {
    pub name: Seq<char>,
    pub base_url: Option<Seq<char>>,
    pub wire_api: Option<Seq<char>>,
    pub requires_openai_auth: Option<bool>,
    pub has_credential: bool,
}

/// The view of an optional owned text.
pub open spec fn owned_view(text: Option<String>) -> Option<Seq<char>> {
    match text {
        Some(s) => Some(s@),
        None => None,
    }
}

impl View for ProviderInfo {
    type V = ProviderModel;

    open spec fn view(&self) -> ProviderModel {
        ProviderModel {
            name: self.name@,
            base_url: owned_view(self.base_url),
            wire_api: owned_view(self.wire_api),
            requires_openai_auth: self.requires_openai_auth,
            has_credential: self.has_credential,
        }
    }
}

/// The active provider and all providers.
#[derive(Debug, PartialEq)]
pub struct NodeList {
    pub current_provider: Option<String>,
    pub providers: Vec<ProviderInfo>,
}

/// The views of a run of providers.
pub open spec fn providers_view(providers: Seq<ProviderInfo>) -> Seq<ProviderModel> {
    Seq::new(providers.len(), |i: int| providers[i]@)
}

impl View for NodeList {
    type V = (Option<Seq<char>>, Seq<ProviderModel>);

    open spec fn view(&self) -> (Option<Seq<char>>, Seq<ProviderModel>) {
        (owned_view(self.current_provider), providers_view(self.providers@))
    }
}

/// The records of a credential value: those of an object, none otherwise.
pub open spec fn records_of(creds: JsonTree) -> Records {
    match creds {
        JsonTree::Object(members) => members,
        _ => Seq::empty(),
    }
}

/// What the list shows of the provider that a member of the provider table
/// describes, given the credential value.
pub open spec fn provider_of(member: (Seq<char>, JsonTree), creds: JsonTree) -> ProviderModel {
    ProviderModel {
        name: member.0,
        base_url: member.1.member_text("base_url"@),
        wire_api: member.1.member_text("wire_api"@),
        requires_openai_auth: member.1.member_truth("requires_openai_auth"@),
        has_credential: has_credential(records_of(creds), member.0),
    }
}

/// The list of providers for the settings `cfg` and the credential value
/// `creds`: the active provider's name, and one entry for each member of the
/// provider table, in its order.
pub open spec fn listed_nodes(cfg: JsonTree, creds: JsonTree) -> (
    Option<Seq<char>>,
    Seq<ProviderModel>,
) {
    (
        cfg.member_text("model_provider"@),
        match cfg.member("model_providers"@) {
            Some(JsonTree::Object(members)) => Seq::new(
                members.len(),
                |i: int| provider_of(members[i], creds),
            ),
            _ => Seq::empty(),
        },
    )
}

/// Whether the credential value holds a usable credential for `name`.
fn usable(creds: &JsonValue, name: &str) -> (r: bool)
    ensures
        r == has_credential(records_of(creds@), name@),
{
    proof {
        lemma_position(crate::assoc::keys_of(records_of(creds@)), name@);
    }
    match creds.get(name) {
        Some(record) => match record.get_text("OPENAI_API_KEY") {
            Some(key) => !key.as_str().is_empty(),
            None => false,
        },
        None => false,
    }
}

/// Lists all providers with their state: the settings give the records, the
/// credential store says for each whether a usable credential is there.
pub fn list_nodes(cfg: &JsonValue, creds: &JsonValue) -> (r: NodeList)
    ensures
        r@ == listed_nodes(cfg@, creds@),
{
    let current_provider = cfg.get_text("model_provider");
    let mut providers: Vec<ProviderInfo> = Vec::new();
    match cfg.get("model_providers") {
        Some(JsonValue::Object(members)) => {
            proof {
                lemma_json_object_view(*members);
            }
            let mut i: usize = 0;
            while i < members.len()
                invariant
                    i <= members.len(),
                    providers.len() == i,
                    forall|j: int|
                        0 <= j < i ==> providers@[j]@ == provider_of(
                            json_members(members@)[j],
                            creds@,
                        ),
                decreases members.len() - i,
            {
                let item = &members[i].1;
                let name = members[i].0.clone();
                let requires_openai_auth = match item.get("requires_openai_auth") {
                    Some(v) => v.as_bool(),
                    None => None,
                };
                let has = usable(creds, name.as_str());
                providers.push(
                    ProviderInfo {
                        name,
                        base_url: item.get_text("base_url"),
                        wire_api: item.get_text("wire_api"),
                        requires_openai_auth,
                        has_credential: has,
                    },
                );
                i += 1;
            }
            assert(providers_view(providers@) =~= listed_nodes(cfg@, creds@).1);
        },
        _ => {
            assert(providers_view(providers@) =~= Seq::empty());
        },
    }
    NodeList { current_provider, providers }
}

/// Lists all providers from the text of the settings file and the content
/// of the credential file. Only settings that do not parse make it fail.
pub fn list_nodes_from(settings: &str, credentials: Option<&str>) -> (r: Result<
    NodeList,
    ConfigError,
>)
    ensures
        match r {
            Ok(list) => toml_document(settings@) matches Some(tree) && list@ == listed_nodes(
                json_of_toml(tree),
                credentials_value(text_view(credentials)),
            ),
            Err(e) => toml_document(settings@) is None && e@.0 == ErrorKind::Parse && has_prefix(
                e@.1,
                "parse toml failed: "@,
            ),
        },
{
    match get_full_config(settings) {
        Ok(cfg) => {
            let creds = get_credentials(credentials);
            Ok(list_nodes(&cfg, &creds))
        },
        Err(e) => Err(e),
    }
}

/// The message for a provider without a stored credential.
pub open spec fn not_found_message(name: Seq<char>) -> Seq<char> {
    "credential not found for provider '"@ + name + "'"@
}

/// The secret key to activate for `name`: the one that the store holds, or a
/// not-found failure.
pub fn active_secret(credentials: &Credentials, name: &str) -> (r: Result<String, ConfigError>)
    ensures
        match r {
            Ok(key) => secret_of(credentials@, name@) == Some(key@),
            Err(e) => secret_of(credentials@, name@) is None && e@ == (
                ErrorKind::NotFound,
                not_found_message(name@),
            ),
        },
{
    match credentials.secret(name) {
        Some(key) => Ok(key),
        None => {
            let message = join3("credential not found for provider '", name, "'");
            Err(ConfigError::new(ErrorKind::NotFound, message.as_str()))
        },
    }
}

/// The text of the active-credential file for `key`: one object with the
/// key as its only member.
pub fn auth_content(key: &str) -> (r: Result<String, ConfigError>)
    ensures
        match r {
            Ok(text) => json_pretty(secret_record(key@)) == Some(text@),
            Err(e) => json_pretty(secret_record(key@)) is None && e@.0 == ErrorKind::Parse,
        },
{
    render_json(&record_of(key))
}

/// First half of a switch to provider `name`: from the content of the
/// credential file to the text of the active-credential file. It fails with
/// not-found where no secret key is stored for the provider.
pub fn switch_node(credentials: Option<&str>, name: &str) -> (r: Result<String, ConfigError>)
    ensures
        match secret_of(loaded_records(text_view(credentials)), name@) {
            None => r matches Err(e) && e@ == (ErrorKind::NotFound, not_found_message(name@)),
            Some(key) => match json_pretty(secret_record(key)) {
                Some(text) => r matches Ok(out) && out@ == text,
                None => r matches Err(e) && e@.0 == ErrorKind::Parse,
            },
        },
{
    let store = Credentials::load(credentials);
    match active_secret(&store, name) {
        Ok(key) => auth_content(key.as_str()),
        Err(e) => Err(e),
    }
}

} // verus!
