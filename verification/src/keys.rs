//! Provider API keys: where they are looked up, which providers may hold
//! one, and how a key's source is reported.

use vstd::prelude::*;
use crate::error::ParaError;
use crate::text::{str_eq, to_lowercase, unicode_lowercase, str_views, str_in_list};

verus! {

#[verifier::external_type_specification]
#[verifier::external_body]
pub struct ExKeyringEntry(keyring::Entry);

/// `keyring::Entry::new(service, user)`: an entry of the platform's
/// credential store, or the store's error as text where it refuses the
/// names. What the store accepts is platform-dependent, so nothing is
/// stated of the result.
#[verifier::external_body]
fn keyring_entry(service: &str, user: &str) -> (r: Result<keyring::Entry, String>) {
    keyring::Entry::new(service, user).map_err(|e| e.to_string())
}

/// `keyring::Entry::get_password`: the stored password, `None` when there
/// is none or the store fails. It depends on what the store holds, so
/// nothing is stated of the result.
#[verifier::external_body]
fn keyring_get_password(entry: &keyring::Entry) -> (r: Option<String>) {
    entry.get_password().ok()
}

/// `keyring::Entry::set_password`, with the store's error as text.
#[verifier::external_body]
fn keyring_set_password(entry: &keyring::Entry, password: &str) -> (r: Result<(), String>) {
    entry.set_password(password).map_err(|e| e.to_string())
}

/// `keyring::Entry::delete_credential`, with the store's error as text.
#[verifier::external_body]
fn keyring_delete(entry: &keyring::Entry) -> (r: Result<(), String>) {
    entry.delete_credential().map_err(|e| e.to_string())
}

/// Keys held in the operating system's credential store under one service
/// name; environment variables, read by the caller, take precedence.
pub struct KeyVault {
    service: String,
}

/// Name of a provider's key in the credential store.
pub open spec fn spec_entry_name(provider: Seq<char>) -> Seq<char> {
    "provider:"@ + provider
}

/// Environment variable that overrides a provider's stored key.
pub open spec fn spec_provider_env_var(provider: Seq<char>) -> Option<Seq<char>> {
    if provider == "deepgram"@ {
        Some("AUDIRE_DEEPGRAM_API_KEY"@)
    } else if provider == "assemblyai"@ {
        Some("AUDIRE_ASSEMBLYAI_API_KEY"@)
    } else if provider == "openai"@ {
        Some("AUDIRE_OPENAI_API_KEY"@)
    } else if provider == "anthropic"@ {
        Some("AUDIRE_ANTHROPIC_API_KEY"@)
    } else if provider == "dbkey"@ {
        Some("AUDIRE_DB_KEY"@)
    } else {
        None
    }
}

pub fn provider_env_var(provider: &str) -> (r: Option<&'static str>)
    ensures
        match r {
            Some(v) => spec_provider_env_var(provider@) == Some(v@),
            None => spec_provider_env_var(provider@) is None,
        },
{
    if str_eq(provider, "deepgram") {
        Some("AUDIRE_DEEPGRAM_API_KEY")
    } else if str_eq(provider, "assemblyai") {
        Some("AUDIRE_ASSEMBLYAI_API_KEY")
    } else if str_eq(provider, "openai") {
        Some("AUDIRE_OPENAI_API_KEY")
    } else if str_eq(provider, "anthropic") {
        Some("AUDIRE_ANTHROPIC_API_KEY")
    } else if str_eq(provider, "dbkey") {
        Some("AUDIRE_DB_KEY")
    } else {
        None
    }
}

pub fn entry_name(provider: &str) -> (r: String)
    ensures
        r@ == spec_entry_name(provider@),
{
    let mut name = String::from_str("provider:");
    name.append(provider);
    name
}

/// The environment's value when there is one, else the stored one.
pub fn pick_key(env_value: Option<String>, stored: Option<String>) -> (r: Option<String>)
    ensures
        r == (if env_value is Some { env_value } else { stored }),
{
    match env_value {
        Some(v) => Some(v),
        None => stored,
    }
}

impl KeyVault {
    pub closed spec fn service_name(&self) -> Seq<char> {
        self.service@
    }

    pub fn new(service: &str) -> (kv: KeyVault)
        ensures
            kv.service_name() == service@,
    {
        KeyVault { service: String::from_str(service) }
    }

    /// The secret stored under `name`, if the store has one.
    pub fn get_secret(&self, name: &str) -> (r: Option<String>) {
        match keyring_entry(self.service.as_str(), name) {
            Ok(entry) => keyring_get_password(&entry),
            Err(_) => None,
        }
    }

    /// Stores `value` under `name`.
    pub fn set_secret(&self, name: &str, value: &str) -> (r: Result<(), ParaError>)
        ensures
            r matches Err(e) ==> e is KeyVault,
    {
        match keyring_entry(self.service.as_str(), name) {
            Ok(entry) => match keyring_set_password(&entry, value) {
                Ok(()) => Ok(()),
                Err(e) => Err(ParaError::KeyVault(e)),
            },
            Err(e) => Err(ParaError::KeyVault(e)),
        }
    }

    /// Removes the secret stored under `name`.
    pub fn delete_secret(&self, name: &str) -> (r: Result<(), ParaError>)
        ensures
            r matches Err(e) ==> e is KeyVault,
    {
        match keyring_entry(self.service.as_str(), name) {
            Ok(entry) => match keyring_delete(&entry) {
                Ok(()) => Ok(()),
                Err(e) => Err(ParaError::KeyVault(e)),
            },
            Err(e) => Err(ParaError::KeyVault(e)),
        }
    }

    /// A provider's key: the value of its environment variable (read by the
    /// caller, see `provider_env_var`) when set, else the stored key.
    pub fn get_provider_key(&self, provider: &str, env_value: Option<String>) -> (r: Option<String>)
        ensures
            env_value is Some ==> r == env_value,
    {
        let stored = if env_value.is_some() {
            None
        } else {
            let name = entry_name(provider);
            self.get_secret(name.as_str())
        };
        pick_key(env_value, stored)
    }

    /// Whether a provider has a key; the key itself is not returned.
    pub fn has_provider_key(&self, provider: &str, env_value: Option<String>) -> (r: bool)
        ensures
            env_value is Some ==> r,
    {
        self.get_provider_key(provider, env_value).is_some()
    }

    /// Stores a provider's key.
    pub fn set_provider_key(&self, provider: &str, key: &str) -> (r: Result<(), ParaError>)
        ensures
            r matches Err(e) ==> e is KeyVault,
    {
        let name = entry_name(provider);
        self.set_secret(name.as_str(), key)
    }

    /// Removes a provider's stored key; environment variables are untouched.
    pub fn delete_provider_key(&self, provider: &str) -> (r: Result<(), ParaError>)
        ensures
            r matches Err(e) ==> e is KeyVault,
    {
        let name = entry_name(provider);
        self.delete_secret(name.as_str())
    }
}

/// Providers whose keys the settings screen may save or delete.
pub open spec fn allowed_providers() -> Seq<Seq<char>> {
    seq!["deepgram"@, "assemblyai"@, "openai"@, "anthropic"@, "gemini"@]
}

/// The lower-cased provider name when it may hold a key, else the error
/// naming it.
pub open spec fn spec_check_key_provider(provider: Seq<char>) -> Result<Seq<char>, Seq<char>> {
    let lower = unicode_lowercase(provider);
    if allowed_providers().contains(lower) {
        Ok(lower)
    } else {
        Err("unknown provider: "@ + lower)
    }
}

pub fn check_key_provider(provider: &str) -> (r: Result<String, ParaError>)
    ensures
        match r {
            Ok(p) => spec_check_key_provider(provider@) == Ok::<Seq<char>, Seq<char>>(p@),
            Err(ParaError::KeyVault(m)) => spec_check_key_provider(provider@) == Err::<Seq<char>, Seq<char>>(m@),
            Err(_) => false,
        },
{
    let lower = to_lowercase(provider);
    let l = lower.as_str();
    let allowed: [&str; 5] = ["deepgram", "assemblyai", "openai", "anthropic", "gemini"];
    assert(str_views(allowed@) =~= allowed_providers());
    if str_in_list(l, allowed.as_slice()) {
        return Ok(lower);
    }
    let mut msg = String::from_str("unknown provider: ");
    msg.append(l);
    Err(ParaError::KeyVault(msg))
}

/// Where a provider's key would come from.
pub struct KeyResolutionStatus {
    pub provider: String,
    pub source: String,
    pub org_id: Option<i64>,
    pub has_personal_key: bool,
    pub has_org_key: bool,
}

/// A personal key wins over an organization's shared key; the shared key
/// counts only when an organization is given.
pub open spec fn spec_key_source(has_personal_key: bool, has_org_key: bool) -> Seq<char> {
    if has_personal_key {
        "personal"@
    } else if has_org_key {
        "org_shared"@
    } else {
        "missing"@
    }
}

/// Reports a provider's key source. `org_key_stored` is whether the
/// organization's shared key is stored; it is consulted only when an
/// organization is given.
pub fn resolve_provider_source(
    provider: &str,
    org_id: Option<i64>,
    has_personal_key: bool,
    org_key_stored: bool,
) -> (s: KeyResolutionStatus)
    ensures
        s.provider@ == provider@,
        s.org_id == org_id,
        s.has_personal_key == has_personal_key,
        s.has_org_key == (org_id is Some && org_key_stored),
        s.source@ == spec_key_source(has_personal_key, s.has_org_key),
{
    let has_org_key = org_id.is_some() && org_key_stored;
    let source = if has_personal_key {
        "personal"
    } else if has_org_key {
        "org_shared"
    } else {
        "missing"
    };
    KeyResolutionStatus {
        provider: String::from_str(provider),
        source: String::from_str(source),
        org_id,
        has_personal_key,
        has_org_key,
    }
}

} // verus!
