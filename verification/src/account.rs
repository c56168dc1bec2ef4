//! The optional cloud-sync account and the organisation flows built on
//! it: what sign-up prepares, how the identity and vault keys are
//! unwrapped, and the checks and key wrapping of creating and inviting to
//! an organisation.

use vstd::prelude::*;
use vstd::string::StringSliceAdditionalSpecFns;
use crate::crypto::{
    aead_open, aead_opened, aead_seal, aead_sealed, argon2id_32, derive_kek, hex_encode, mint_recovery_envelope,
    new_identity_keypair, new_vault_key, open_sealed, random_bytes, recovery_envelope_of, seal_for_recipient,
    sealed_opened, sealed_to, x25519_public, x25519_public_of, array32, hex_decode, within_aead_limit, argon2_refusal, CryptoError, IdentityKeypair,
    KekMaterial, VaultKey,
};
use crate::error::ParaError;
use crate::hexcodec::{hex_lower_chars, hex_decode_chars};
use crate::text::{trim, trim_seq, str_eq, to_owned_string, trim_end_char, trim_end_matches_char};

verus! {

/// What the account panel shows; public information only.
pub struct AccountStatus {
    pub mode: String,
    pub server_url: Option<String>,
    pub email: Option<String>,
    pub user_id: Option<String>,
    pub public_key_hex: Option<String>,
    pub last_synced_ms: Option<i64>,
}

/// The stored account, as far as the panel needs it.
pub struct SyncAccountRow {
    pub server_url: String,
    pub email: String,
    pub user_id: String,
    pub public_key: Vec<u8>,
    pub last_synced_ms: Option<i64>,
}

/// The panel's view of the stored account: `local_only` without one,
/// `cloud` with its details and the public key in lower-case hex.
pub fn account_status(row: Option<SyncAccountRow>) -> (s: AccountStatus)
    ensures
        match row {
            None => s.mode@ == "local_only"@ && s.server_url is None && s.email is None && s.user_id is None
                && s.public_key_hex is None && s.last_synced_ms is None,
            Some(r) => s.mode@ == "cloud"@ && s.server_url == Some(r.server_url) && s.email == Some(r.email)
                && s.user_id == Some(r.user_id) && (s.public_key_hex matches Some(h) && h@ == hex_lower_chars(
                r.public_key@,
            )) && s.last_synced_ms == r.last_synced_ms,
        },
{
    match row {
        None => AccountStatus {
            mode: String::from_str("local_only"),
            server_url: None,
            email: None,
            user_id: None,
            public_key_hex: None,
            last_synced_ms: None,
        },
        Some(r) => {
            let hex = hex_encode(r.public_key.as_slice());
            AccountStatus {
                mode: String::from_str("cloud"),
                server_url: Some(r.server_url),
                email: Some(r.email),
                user_id: Some(r.user_id),
                public_key_hex: Some(hex),
                last_synced_ms: r.last_synced_ms,
            }
        },
    }
}

/// A first sign-up request.
pub struct SignUpRequest {
    pub server_url: String,
    pub email: String,
    pub access_token: String,
    pub passphrase: String,
}

/// A second-device sign-in request.
pub struct SignInRequest {
    pub server_url: String,
    pub email: String,
    pub access_token: String,
    pub passphrase: String,
}

/// The recovery key, shown once after sign-up.
pub struct RecoveryReveal {
    pub recovery_hex: String,
}

/// Associated data of the wrapped identity key.
fn identity_aad_bytes() -> (b: &'static [u8])
    ensures
        b@ == "audire-identity v1".spec_bytes(),
{
    "audire-identity v1".as_bytes()
}

/// What sign-up prepares before registering with the server.
pub struct SignUpMaterial {
    pub kek: KekMaterial,
    pub salt: Vec<u8>,
    pub identity: IdentityKeypair,
    pub wrapped_private_key: Vec<u8>,
    pub recovery_hex: String,
    pub wrapped_kek: Vec<u8>,
}

/// Sign-up's keys: a 16-byte random salt and the passphrase's KEK, a fresh
/// identity keypair whose secret is sealed under the KEK, and a recovery
/// envelope of the KEK.
pub fn prepare_sign_up(passphrase: &str) -> (r: Result<SignUpMaterial, ParaError>)
    ensures
        match r {
            Ok(m) => {
                &&& m.salt@.len() == 16
                &&& m.kek.0@ == argon2id_32(passphrase.spec_bytes(), m.salt@)
                &&& m.identity.public@ == x25519_public(m.identity.secret@)
                &&& aead_sealed(m.wrapped_private_key@, m.kek.0@, m.identity.secret@, "audire-identity v1".spec_bytes())
                &&& recovery_envelope_of(m.recovery_hex@, m.wrapped_kek@, m.kek.0@)
            },
            Err(ParaError::Other(m)) => m@ == "system rng fill failed"@ || (m@ == "argon2 derive: password is too long"@
                && passphrase.spec_bytes().len() > 0xFFFF_FFFF),
            Err(_) => false,
        },
{
    let salt = match random_bytes(16) {
        Ok(s) => s,
        Err(e) => return Err(ParaError::Other(String::from_str(e.message()))),
    };
    let kek = match derive_kek(passphrase, salt.as_slice()) {
        Ok(k) => k,
        Err(e) => return Err(ParaError::Other(String::from_str(e.message()))),
    };
    let identity = match new_identity_keypair() {
        Ok(kp) => kp,
        Err(e) => return Err(ParaError::Other(String::from_str(e.message()))),
    };
    let wrapped_private_key = match aead_seal(&kek.0, identity.secret.as_slice(), identity_aad_bytes()) {
        Ok(b) => b,
        Err(e) => return Err(ParaError::Other(String::from_str(e.message()))),
    };
    let (recovery_hex, wrapped_kek) = match mint_recovery_envelope(&kek) {
        Ok(p) => p,
        Err(e) => return Err(ParaError::Other(String::from_str(e.message()))),
    };
    Ok(SignUpMaterial { kek, salt, identity, wrapped_private_key, recovery_hex, wrapped_kek })
}

/// Second-device sign-in is not offered yet.
pub fn sign_in(req: &SignInRequest) -> (r: Result<(), ParaError>)
    ensures
        match r {
            Err(ParaError::InvalidState(m)) => m@ == "multi-device sign-in arrives in the next desktop release"@,
            _ => false,
        },
{
    Err(ParaError::InvalidState(String::from_str("multi-device sign-in arrives in the next desktop release")))
}

fn prefixed(prefix: &str, detail: &str) -> (s: String)
    ensures
        s@ == prefix@ + detail@,
{
    let mut s = String::from_str(prefix);
    s.append(detail);
    s
}

/// The identity keypair from the stored wrapped secret and public key:
/// the secret opens under the KEK, both are 32 bytes, and the public key
/// belongs to the secret (otherwise the passphrase was wrong).
pub fn unwrap_identity_secret(stored: Option<(Vec<u8>, Vec<u8>)>, kek: &KekMaterial) -> (r: Result<IdentityKeypair, ParaError>)
    ensures
        stored is None ==> match r {
            Err(ParaError::InvalidState(m)) => m@ == "not signed in to cloud sync"@,
            _ => false,
        },
        stored matches Some((wrapped, public)) ==> match aead_opened(kek.0@, wrapped@, "audire-identity v1".spec_bytes()) {
            None => match r {
                Err(ParaError::Other(m)) => m@ == "identity unwrap: "@ + (if wrapped@.len() < 40 {
                    "aead blob too short"@
                } else {
                    "aead open failed: aead::Error"@
                }),
                _ => false,
            },
            Some(sk) => if sk.len() != 32 {
                match r {
                    Err(ParaError::Other(m)) => m@ == "identity key has wrong length"@,
                    _ => false,
                }
            } else if public@.len() != 32 {
                match r {
                    Err(ParaError::Other(m)) => m@ == "public_key has wrong length"@,
                    _ => false,
                }
            } else if x25519_public(sk) != public@ {
                match r {
                    Err(ParaError::InvalidState(m)) => m@ == "passphrase did not unwrap the identity key"@,
                    _ => false,
                }
            } else {
                match r {
                    Ok(kp) => kp.secret@ == sk && kp.public@ == public@,
                    Err(_) => false,
                }
            },
        },
{
    let (wrapped, public) = match stored {
        Some(p) => p,
        None => return Err(ParaError::InvalidState(String::from_str("not signed in to cloud sync"))),
    };
    let pt = match aead_open(&kek.0, wrapped.as_slice(), identity_aad_bytes()) {
        Ok(p) => p,
        Err(e) => return Err(ParaError::Other(prefixed("identity unwrap: ", e.message()))),
    };
    if pt.len() != 32 {
        return Err(ParaError::Other(String::from_str("identity key has wrong length")));
    }
    let secret = array32(&pt);
    if public.len() != 32 {
        return Err(ParaError::Other(String::from_str("public_key has wrong length")));
    }
    let pk = array32(&public);
    let derived = x25519_public_of(&secret);
    let mut same = true;
    let mut i: usize = 0;
    while i < 32
        invariant
            i <= 32,
            same <==> forall|j: int| 0 <= j < i ==> derived@[j] == pk@[j],
        decreases 32 - i,
    {
        if derived[i] != pk[i] {
            same = false;
        }
        i += 1;
    }
    if !same {
        assert(derived@ != pk@);
        return Err(ParaError::InvalidState(String::from_str("passphrase did not unwrap the identity key")));
    }
    assert(derived@ =~= pk@);
    Ok(IdentityKeypair { secret, public: pk })
}

/// The stored identity opens under the KEK: the wrapped secret opens, both
/// halves are 32 bytes, and the public key belongs to the secret.
pub open spec fn identity_unwraps(stored: Option<(Vec<u8>, Vec<u8>)>, kek: Seq<u8>) -> bool {
    match stored {
        Some((wrapped, public)) => match aead_opened(kek, wrapped@, "audire-identity v1".spec_bytes()) {
            Some(sk) => sk.len() == 32 && public@.len() == 32 && x25519_public(sk) == public@,
            None => false,
        },
        None => false,
    }
}

/// Unlocking sync on this device: the saved access token is required, the
/// passphrase's KEK is derived with the stored salt, and it must unwrap the
/// stored identity key. Gives the KEK and the access token.
pub fn unlock_account(
    passphrase: &str,
    salt: &[u8],
    access_token: Option<String>,
    stored: Option<(Vec<u8>, Vec<u8>)>,
) -> (r: Result<(KekMaterial, String), ParaError>)
    ensures
        access_token is None ==> match r {
            Err(ParaError::InvalidState(m)) => m@ == "no access token saved"@,
            _ => false,
        },
        access_token matches Some(t) ==> match argon2_refusal(passphrase.spec_bytes().len() as int, salt@.len() as int) {
            Some(e) => match r {
                Err(ParaError::Other(m)) => m@ == e.spec_message(),
                _ => false,
            },
            None => {
                let kek = argon2id_32(passphrase.spec_bytes(), salt@);
                match r {
                    Ok((k, tok)) => identity_unwraps(stored, kek) && k.0@ == kek && tok == t,
                    Err(_) => !identity_unwraps(stored, kek),
                }
            },
        },
{
    let token = match access_token {
        Some(t) => t,
        None => return Err(ParaError::InvalidState(String::from_str("no access token saved"))),
    };
    let kek = match derive_kek(passphrase, salt) {
        Ok(k) => k,
        Err(e) => return Err(ParaError::Other(String::from_str(e.message()))),
    };
    match unwrap_identity_secret(stored, &kek) {
        Ok(_) => Ok((kek, token)),
        Err(e) => Err(e),
    }
}

/// The vault key from its sealed-box wrapping, opened with the identity
/// secret; it must be 32 bytes.
pub fn unwrap_vault_key(wrapped: Option<&[u8]>, vault_id: &str, identity_secret: &[u8; 32]) -> (r: Result<VaultKey, ParaError>)
    ensures
        wrapped is None ==> match r {
            Err(ParaError::InvalidState(m)) => m@ == "vault "@ + vault_id@ + " not present locally"@,
            _ => false,
        },
        wrapped matches Some(w) ==> match sealed_opened(identity_secret@, w@) {
            None => match r {
                Err(ParaError::Other(m)) => m@ == "vault key unwrap: "@ + (if w@.len() < 72 {
                    "sealed blob too short"@
                } else {
                    "aead open failed: aead::Error"@
                }),
                _ => false,
            },
            Some(k) => if k.len() != 32 {
                match r {
                    Err(ParaError::Other(m)) => m@ == "vault key has wrong length"@,
                    _ => false,
                }
            } else {
                match r {
                    Ok(vk) => vk.0@ == k,
                    Err(_) => false,
                }
            },
        },
{
    let w = match wrapped {
        Some(w) => w,
        None => {
            let mut m = String::from_str("vault ");
            m.append(vault_id);
            m.append(" not present locally");
            return Err(ParaError::InvalidState(m));
        },
    };
    let pt = match open_sealed(identity_secret, w) {
        Ok(p) => p,
        Err(e) => return Err(ParaError::Other(prefixed("vault key unwrap: ", e.message()))),
    };
    if pt.len() != 32 {
        return Err(ParaError::Other(String::from_str("vault key has wrong length")));
    }
    Ok(VaultKey(array32(&pt)))
}

/// Creating an organisation.
pub struct CreateOrgArgs {
    pub name: String,
}

/// The identifiers of a created organisation and its default vault.
pub struct CreateOrgOutcome {
    pub org_id: String,
    pub default_vault_id: String,
}

/// Inviting someone to an organisation; roles default to `member` (in
/// the organisation) and `editor` (in its vaults).
pub struct InviteToOrgArgs {
    pub org_id: String,
    pub email: String,
    pub org_role: Option<String>,
    pub vault_role: Option<String>,
}

/// Who was invited.
pub struct InviteToOrgOutcome {
    pub user_id: String,
    pub email: String,
}

/// A vault the device knows.
pub struct LocalVaultRow {
    pub vault_id: String,
    pub name: String,
    pub role: String,
    pub org_id: Option<String>,
    pub last_op_id_applied: i64,
    pub last_op_id_remote: i64,
}

/// An organisation the device knows.
pub struct LocalOrgRow {
    pub org_id: String,
    pub name: String,
    pub role: String,
}

/// The server's answer to a registration.
pub struct RegisterUserResp {
    pub user_id: String,
}

/// Another user as the server's lookup returns them; the public key is hex.
pub struct UserLookupView {
    pub id: String,
    pub email: String,
    pub public_key: String,
}

/// A new organisation's name: trimmed, and not empty.
pub fn org_name_arg(args: &CreateOrgArgs) -> (r: Result<String, ParaError>)
    ensures
        trim_seq(args.name@).len() == 0 ==> match r {
            Err(ParaError::InvalidState(m)) => m@ == "org name cannot be empty"@,
            _ => false,
        },
        trim_seq(args.name@).len() > 0 ==> match r {
            Ok(n) => n@ == trim_seq(args.name@),
            Err(_) => false,
        },
{
    let n = trim(args.name.as_str());
    if n.as_str().is_empty() {
        Err(ParaError::InvalidState(String::from_str("org name cannot be empty")))
    } else {
        Ok(n)
    }
}

/// An organisation's default vault, before it is created on the server.
pub struct DefaultVault {
    pub key: VaultKey,
    pub name_ciphertext: Vec<u8>,
    pub wrapped_self: Vec<u8>,
}

/// A default vault: a fresh key, the organisation's name sealed under it,
/// and the key sealed for the caller's own public key.
pub fn prepare_default_vault(name: &str, my_public: &[u8; 32]) -> (r: Result<DefaultVault, ParaError>)
    ensures
        match r {
            Ok(v) => {
                &&& aead_sealed(v.name_ciphertext@, v.key.0@, name.spec_bytes(), "audire-vault-name v1".spec_bytes())
                &&& forall|s: Seq<u8>|
                    s.len() == 32 && #[trigger] x25519_public(s) == my_public@ ==> sealed_to(v.wrapped_self@, s, v.key.0@)
            },
            Err(ParaError::Other(m)) => m@ == "system rng fill failed"@ || (m@ == "vault name encrypt: "@
                + "system rng fill failed"@) || (m@ == "self-wrap vault key: "@ + "system rng fill failed"@) || (
            !within_aead_limit(name.spec_bytes().len() as int) && m@ == "vault name encrypt: "@
                + "aead seal failed: aead::Error"@),
            Err(_) => false,
        },
{
    let key = match new_vault_key() {
        Ok(k) => k,
        Err(e) => return Err(ParaError::Other(String::from_str(e.message()))),
    };
    let name_ciphertext = match aead_seal(&key.0, name.as_bytes(), "audire-vault-name v1".as_bytes()) {
        Ok(c) => c,
        Err(e) => return Err(ParaError::Other(prefixed("vault name encrypt: ", e.message()))),
    };
    let wrapped_self = match seal_for_recipient(my_public, key.0.as_slice()) {
        Ok(w) => w,
        Err(e) => return Err(ParaError::Other(prefixed("self-wrap vault key: ", e.message()))),
    };
    Ok(DefaultVault { key, name_ciphertext, wrapped_self })
}

/// The invitee's address: trimmed, and not empty.
pub fn invite_email(args: &InviteToOrgArgs) -> (r: Result<String, ParaError>)
    ensures
        trim_seq(args.email@).len() == 0 ==> match r {
            Err(ParaError::InvalidState(m)) => m@ == "email cannot be empty"@,
            _ => false,
        },
        trim_seq(args.email@).len() > 0 ==> match r {
            Ok(n) => n@ == trim_seq(args.email@),
            Err(_) => false,
        },
{
    let e = trim(args.email.as_str());
    if e.as_str().is_empty() {
        Err(ParaError::InvalidState(String::from_str("email cannot be empty")))
    } else {
        Ok(e)
    }
}

/// The organisation and vault roles of an invitation.
pub fn invite_roles(args: &InviteToOrgArgs) -> (r: (String, String))
    ensures
        r.0@ == match args.org_role { Some(x) => x@, None => "member"@ },
        r.1@ == match args.vault_role { Some(x) => x@, None => "editor"@ },
{
    let org = match &args.org_role {
        Some(x) => to_owned_string(x.as_str()),
        None => String::from_str("member"),
    };
    let vault = match &args.vault_role {
        Some(x) => to_owned_string(x.as_str()),
        None => String::from_str("editor"),
    };
    (org, vault)
}

/// The invitee's X25519 public key from the lookup's hex.
pub fn invitee_public_key(hex: &str) -> (r: Result<[u8; 32], ParaError>)
    ensures
        match hex_decode_chars(hex@) {
            None => r matches Err(ParaError::Other(_)),
            Some(b) => if b.len() != 32 {
                match r {
                    Err(ParaError::Other(m)) => m@ == "invitee public_key wrong length"@,
                    _ => false,
                }
            } else {
                match r {
                    Ok(k) => k@ == b,
                    Err(_) => false,
                }
            },
        },
{
    let bytes = match hex_decode(hex) {
        Ok(b) => b,
        Err(e) => return Err(ParaError::Other(prefixed("public_key decode: ", e.as_str()))),
    };
    if bytes.len() != 32 {
        return Err(ParaError::Other(String::from_str("invitee public_key wrong length")));
    }
    Ok(array32(&bytes))
}

/// The vaults of an organisation, in the device's order.
pub open spec fn org_vaults(vaults: Seq<LocalVaultRow>, org_id: Seq<char>) -> Seq<Seq<char>>
    decreases vaults.len(),
{
    if vaults.len() == 0 {
        Seq::empty()
    } else {
        let prev = org_vaults(vaults.drop_last(), org_id);
        match vaults.last().org_id {
            Some(o) => if o@ == org_id { prev.push(vaults.last().vault_id@) } else { prev },
            None => prev,
        }
    }
}

pub fn org_vault_ids(vaults: &[LocalVaultRow], org_id: &str) -> (ids: Vec<String>)
    ensures
        crate::text::views(ids@) == org_vaults(vaults@, org_id@),
{
    let mut ids: Vec<String> = Vec::new();
    let mut i: usize = 0;
    while i < vaults.len()
        invariant
            i <= vaults@.len(),
            crate::text::views(ids@) == org_vaults(vaults@.subrange(0, i as int), org_id@),
        decreases vaults@.len() - i,
    {
        proof {
            assert(vaults@.subrange(0, i + 1).drop_last() =~= vaults@.subrange(0, i as int));
            assert(vaults@.subrange(0, i + 1).last() == vaults@[i as int]);
        }
        let ghost before = ids@;
        match &vaults[i].org_id {
            Some(o) => {
                if str_eq(o.as_str(), org_id) {
                    let id = to_owned_string(vaults[i].vault_id.as_str());
                    ids.push(id);
                    assert(crate::text::views(ids@) =~= crate::text::views(before).push(id@));
                }
            },
            None => {},
        }
        i += 1;
    }
    assert(vaults@.subrange(0, vaults@.len() as int) =~= vaults@);
    ids
}

/// The vault belongs to the organisation.
pub open spec fn in_org(v: LocalVaultRow, org_id: Seq<char>) -> bool {
    match v.org_id {
        Some(o) => o@ == org_id,
        None => false,
    }
}

/// The vault a folder is shared into: the organisation's first vault.
pub fn find_org_vault(vaults: &[LocalVaultRow], org_id: &str) -> (r: Result<usize, ParaError>)
    ensures
        match r {
            Ok(i) => i < vaults@.len() && in_org(vaults@[i as int], org_id@)
                && forall|j: int| 0 <= j < i ==> !in_org(#[trigger] vaults@[j], org_id@),
            Err(ParaError::InvalidState(m)) => m@ == "no vault found for org "@ + org_id@
                && forall|j: int| 0 <= j < vaults@.len() ==> !in_org(#[trigger] vaults@[j], org_id@),
            Err(_) => false,
        },
{
    let mut i: usize = 0;
    while i < vaults.len()
        invariant
            i <= vaults@.len(),
            forall|j: int| 0 <= j < i ==> !in_org(#[trigger] vaults@[j], org_id@),
        decreases vaults@.len() - i,
    {
        match &vaults[i].org_id {
            Some(o) => {
                if str_eq(o.as_str(), org_id) {
                    return Ok(i);
                }
            },
            None => {},
        }
        i += 1;
    }
    Err(ParaError::InvalidState(prefixed("no vault found for org ", org_id)))
}

/// A vault key sealed for an invitee's public key.
pub fn wrap_for_invitee(invitee_public: &[u8; 32], vault_key: &VaultKey) -> (r: Result<Vec<u8>, ParaError>)
    ensures
        match r {
            Ok(w) => forall|s: Seq<u8>|
                s.len() == 32 && #[trigger] x25519_public(s) == invitee_public@ ==> sealed_to(w@, s, vault_key.0@),
            Err(ParaError::Other(m)) => m@ == "seal vault key: "@ + "system rng fill failed"@,
            Err(_) => false,
        },
{
    match seal_for_recipient(invitee_public, vault_key.0.as_slice()) {
        Ok(w) => Ok(w),
        Err(e) => Err(ParaError::Other(prefixed("seal vault key: ", e.message()))),
    }
}

/// A vault as the server lists it; the name and wrapped key are hex.
pub struct VaultView {
    pub id: String,
    pub name_ciphertext: String,
    pub owner_user_id: String,
    pub org_id: Option<String>,
    pub wrapped_vault_key: String,
    pub role: String,
    pub last_op_id: i64,
}

/// What the device caches of a listed vault: its name stays empty until
/// the vault is unlocked here.
pub struct VaultCacheEntry {
    pub vault_id: String,
    pub role: String,
    pub org_id: Option<String>,
    pub wrapped_vault_key: Vec<u8>,
    pub last_op_id_remote: i64,
}

/// The listed vault's cache entry, given its decoded wrapped key.
pub open spec fn cache_entry_of(v: VaultView, wrapped: Seq<u8>, e: VaultCacheEntry) -> bool {
    &&& e.vault_id == v.id
    &&& e.role == v.role
    &&& e.org_id == v.org_id
    &&& e.wrapped_vault_key@ == wrapped
    &&& e.last_op_id_remote == v.last_op_id
}

/// The cache entry of a listed vault whose wrapped key is hex.
pub open spec fn entry_ok(v: VaultView, e: VaultCacheEntry) -> bool {
    match hex_decode_chars(v.wrapped_vault_key@) {
        Some(w) => cache_entry_of(v, w, e),
        None => false,
    }
}

/// Reconciling the server's vault list with the cache: each vault in turn
/// is cached with its wrapped key decoded from hex; the first key that is
/// not hex stops the refresh, and the vaults before it stay cached.
pub fn refresh_entries(remote: Vec<VaultView>) -> (r: (Vec<VaultCacheEntry>, Option<ParaError>))
    ensures
        r.0@.len() <= remote@.len(),
        forall|i: int| 0 <= i < r.0@.len() ==> entry_ok(remote@[i], #[trigger] r.0@[i]),
        r.1 is None <==> r.0@.len() == remote@.len(),
        r.1 is Some ==> hex_decode_chars(remote@[r.0@.len() as int].wrapped_vault_key@) is None,
        r.1 matches Some(e) ==> e is Other,
{
    let ghost all = remote@;
    let mut out: Vec<VaultCacheEntry> = Vec::new();
    for v in it: remote
        invariant
            it.seq() == all,
            all == remote@,
            out@.len() == it.index(),
            forall|i: int| 0 <= i < out@.len() ==> entry_ok(all[i], #[trigger] out@[i]),
    {
        let ghost k = it.index() as int;
        proof {
            assert(all[k] == v);
        }
        match hex_decode(v.wrapped_vault_key.as_str()) {
            Ok(w) => {
                let ghost wv = w@;
                let ghost before = out@;
                out.push(VaultCacheEntry {
                    vault_id: v.id,
                    role: v.role,
                    org_id: v.org_id,
                    wrapped_vault_key: w,
                    last_op_id_remote: v.last_op_id,
                });
                proof {
                    assert(hex_decode_chars(all[k].wrapped_vault_key@) == Some(wv));
                    assert(cache_entry_of(all[k], wv, out@[k]));
                    assert forall|i: int| 0 <= i < out@.len() implies entry_ok(all[i], #[trigger] out@[i]) by {
                        if i < k {
                            assert(out@[i] == before[i]);
                        }
                    }
                }
            },
            Err(e) => {
                return (out, Some(ParaError::Other(prefixed("wrapped_vault_key decode: ", e.as_str()))));
            },
        }
    }
    (out, None)
}

/// The cached vault ids without a running worker, in cache order.
pub open spec fn idle_vaults(vaults: Seq<LocalVaultRow>, running: Seq<Seq<char>>) -> Seq<Seq<char>>
    decreases vaults.len(),
{
    if vaults.len() == 0 {
        Seq::empty()
    } else {
        let prev = idle_vaults(vaults.drop_last(), running);
        if running.contains(vaults.last().vault_id@) {
            prev
        } else {
            prev.push(vaults.last().vault_id@)
        }
    }
}

/// The vaults a worker is started for: every cached vault that has none yet.
pub fn vaults_to_start(vaults: &[LocalVaultRow], running: &[String]) -> (ids: Vec<String>)
    ensures
        crate::text::views(ids@) == idle_vaults(vaults@, crate::text::views(running@)),
{
    let ghost run = crate::text::views(running@);
    let mut ids: Vec<String> = Vec::new();
    let mut i: usize = 0;
    while i < vaults.len()
        invariant
            i <= vaults@.len(),
            run == crate::text::views(running@),
            crate::text::views(ids@) == idle_vaults(vaults@.subrange(0, i as int), run),
        decreases vaults@.len() - i,
    {
        proof {
            assert(vaults@.subrange(0, i + 1).drop_last() =~= vaults@.subrange(0, i as int));
            assert(vaults@.subrange(0, i + 1).last() == vaults@[i as int]);
        }
        let mut found = false;
        let mut j: usize = 0;
        while j < running.len()
            invariant
                i < vaults@.len(),
                j <= running@.len(),
                run == crate::text::views(running@),
                found <==> exists|k: int| 0 <= k < j && run[k] == vaults@[i as int].vault_id@,
            decreases running@.len() - j,
        {
            assert(run[j as int] == running@[j as int]@);
            if str_eq(running[j].as_str(), vaults[i].vault_id.as_str()) {
                found = true;
            }
            j += 1;
        }
        proof {
            if found {
                let k = choose|k: int| 0 <= k < running@.len() && run[k] == vaults@[i as int].vault_id@;
                assert(run.contains(vaults@[i as int].vault_id@));
            } else {
                assert(!run.contains(vaults@[i as int].vault_id@));
            }
        }
        if !found {
            let ghost before = ids@;
            let id = to_owned_string(vaults[i].vault_id.as_str());
            ids.push(id);
            assert(crate::text::views(ids@) =~= crate::text::views(before).push(id@));
        }
        i += 1;
    }
    assert(vaults@.subrange(0, vaults@.len() as int) =~= vaults@);
    ids
}

/// The address of a sync server endpoint: the server URL without trailing
/// slashes, then the endpoint's path (which starts with `/`).
pub fn api_url(server_url: &str, path: &str) -> (r: String)
    ensures
        r@ == trim_end_char(server_url@, '/') + path@,
{
    let mut r = trim_end_matches_char(server_url, '/');
    r.append(path);
    r
}

} // verus!
