use audire::account::{
    account_status, api_url, find_org_vault, invite_email, invite_roles, invitee_public_key, org_name_arg, org_vault_ids,
    prepare_default_vault, prepare_sign_up, refresh_entries, sign_in, unlock_account, vaults_to_start, VaultView, unwrap_identity_secret, unwrap_vault_key, wrap_for_invitee,
    CreateOrgArgs, InviteToOrgArgs, LocalVaultRow, SignInRequest, SyncAccountRow,
};
use audire::crypto::{aead_open, derive_kek, new_identity_keypair, new_vault_key, open_sealed, open_recovery_envelope};
use audire::error::ParaError;

fn vault(id: &str, org: Option<&str>) -> LocalVaultRow {
    LocalVaultRow {
        vault_id: id.to_string(),
        name: "v".to_string(),
        role: "owner".to_string(),
        org_id: org.map(|s| s.to_string()),
        last_op_id_applied: 0,
        last_op_id_remote: 0,
    }
}

#[test]
fn account_panel() {
    let s = account_status(None);
    assert_eq!(s.mode, "local_only");
    assert!(s.public_key_hex.is_none());
    let s = account_status(Some(SyncAccountRow {
        server_url: "https://sync".to_string(),
        email: "a@b.c".to_string(),
        user_id: "u1".to_string(),
        public_key: vec![0x01, 0xfe],
        last_synced_ms: Some(5),
    }));
    assert_eq!(s.mode, "cloud");
    assert_eq!(s.public_key_hex.as_deref(), Some("01fe"));
    assert_eq!(s.last_synced_ms, Some(5));
}

#[test]
fn sign_up_keys_unwrap_again() {
    let m = prepare_sign_up("correct horse").unwrap();
    assert_eq!(m.salt.len(), 16);
    let again = derive_kek("correct horse", &m.salt).unwrap();
    assert_eq!(again.0, m.kek.0);
    let kp = unwrap_identity_secret(Some((m.wrapped_private_key.clone(), m.identity.public.to_vec())), &m.kek).unwrap();
    assert_eq!(kp.secret, m.identity.secret);
    assert_eq!(kp.public, m.identity.public);
    let kek = open_recovery_envelope(&m.recovery_hex, &m.wrapped_kek).unwrap();
    assert_eq!(kek.0, m.kek.0);
    let secret = aead_open(&m.kek.0, &m.wrapped_private_key, b"audire-identity v1").unwrap();
    assert_eq!(secret, m.identity.secret.to_vec());
}

#[test]
fn identity_unwrap_errors() {
    let m = prepare_sign_up("pw").unwrap();
    match unwrap_identity_secret(None, &m.kek) {
        Err(ParaError::InvalidState(s)) => assert_eq!(s, "not signed in to cloud sync"),
        _ => panic!("no account"),
    }
    let wrong = derive_kek("other", &m.salt).unwrap();
    assert!(matches!(
        unwrap_identity_secret(Some((m.wrapped_private_key.clone(), m.identity.public.to_vec())), &wrong),
        Err(ParaError::Other(_))
    ));
    match unwrap_identity_secret(Some((m.wrapped_private_key.clone(), vec![1u8; 31])), &m.kek) {
        Err(ParaError::Other(s)) => assert_eq!(s, "public_key has wrong length"),
        _ => panic!("short public key"),
    }
    let other = new_identity_keypair().unwrap();
    match unwrap_identity_secret(Some((m.wrapped_private_key, other.public.to_vec())), &m.kek) {
        Err(ParaError::InvalidState(s)) => assert_eq!(s, "passphrase did not unwrap the identity key"),
        _ => panic!("foreign public key"),
    }
    match sign_in(&SignInRequest {
        server_url: String::new(),
        email: String::new(),
        access_token: String::new(),
        passphrase: String::new(),
    }) {
        Err(ParaError::InvalidState(s)) => assert_eq!(s, "multi-device sign-in arrives in the next desktop release"),
        _ => panic!("sign-in"),
    }
}

#[test]
fn default_vault_and_invitations() {
    let me = new_identity_keypair().unwrap();
    let v = prepare_default_vault("Acme", &me.public).unwrap();
    let name = aead_open(&v.key.0, &v.name_ciphertext, b"audire-vault-name v1").unwrap();
    assert_eq!(name, b"Acme".to_vec());
    let key = unwrap_vault_key(Some(&v.wrapped_self), "v1", &me.secret).unwrap();
    assert_eq!(key.0, v.key.0);
    match unwrap_vault_key(None, "v9", &me.secret) {
        Err(ParaError::InvalidState(s)) => assert_eq!(s, "vault v9 not present locally"),
        _ => panic!("absent vault"),
    }
    let invitee = new_identity_keypair().unwrap();
    let vk = new_vault_key().unwrap();
    let w = wrap_for_invitee(&invitee.public, &vk).unwrap();
    assert_eq!(open_sealed(&invitee.secret, &w).unwrap(), vk.0.to_vec());
    assert!(open_sealed(&me.secret, &w).is_err());
}

#[test]
fn organisation_arguments() {
    match org_name_arg(&CreateOrgArgs { name: "  ".to_string() }) {
        Err(ParaError::InvalidState(s)) => assert_eq!(s, "org name cannot be empty"),
        _ => panic!("empty org"),
    }
    assert_eq!(org_name_arg(&CreateOrgArgs { name: " Acme\n".to_string() }).ok(), Some("Acme".to_string()));
    let args = InviteToOrgArgs { org_id: "o".to_string(), email: " x@y.z ".to_string(), org_role: None, vault_role: None };
    assert_eq!(invite_email(&args).ok(), Some("x@y.z".to_string()));
    assert_eq!(invite_roles(&args), ("member".to_string(), "editor".to_string()));
    let args2 = InviteToOrgArgs {
        org_id: "o".to_string(),
        email: "".to_string(),
        org_role: Some("admin".to_string()),
        vault_role: Some("reader".to_string()),
    };
    assert_eq!(invite_roles(&args2), ("admin".to_string(), "reader".to_string()));
    match invite_email(&args2) {
        Err(ParaError::InvalidState(s)) => assert_eq!(s, "email cannot be empty"),
        _ => panic!("empty email"),
    }
    let hex = "ab".repeat(32);
    assert_eq!(invitee_public_key(&hex).unwrap(), [0xab; 32]);
    assert_eq!(invitee_public_key(&"AB".repeat(32)).unwrap(), [0xab; 32]);
    match invitee_public_key("abab") {
        Err(ParaError::Other(s)) => assert_eq!(s, "invitee public_key wrong length"),
        _ => panic!("short key"),
    }
    assert!(matches!(invitee_public_key("zz"), Err(ParaError::Other(_))));
}

#[test]
fn organisation_vaults() {
    let vs = vec![vault("a", None), vault("b", Some("o1")), vault("c", Some("o2")), vault("d", Some("o1"))];
    assert_eq!(org_vault_ids(&vs, "o1"), vec!["b".to_string(), "d".to_string()]);
    assert_eq!(find_org_vault(&vs, "o1").ok(), Some(1));
    match find_org_vault(&vs, "o3") {
        Err(ParaError::InvalidState(s)) => assert_eq!(s, "no vault found for org o3"),
        _ => panic!("no vault"),
    }
}

#[test]
fn unlocking_needs_token_and_passphrase() {
    let m = prepare_sign_up("pw").unwrap();
    let stored = Some((m.wrapped_private_key.clone(), m.identity.public.to_vec()));
    let (kek, tok) = unlock_account("pw", &m.salt, Some("tok".to_string()), stored.clone()).unwrap();
    assert_eq!(kek.0, m.kek.0);
    assert_eq!(tok, "tok");
    match unlock_account("pw", &m.salt, None, stored.clone()) {
        Err(ParaError::InvalidState(s)) => assert_eq!(s, "no access token saved"),
        _ => panic!("no token"),
    }
    match unlock_account("pw", &[1u8; 4], Some("tok".to_string()), stored.clone()) {
        Err(ParaError::Other(s)) => assert_eq!(s, "argon2 derive: salt is too short"),
        _ => panic!("short salt"),
    }
    assert!(unlock_account("wrong", &m.salt, Some("tok".to_string()), stored).is_err());
}

fn view(id: &str, wrapped: &str) -> VaultView {
    VaultView {
        id: id.to_string(),
        name_ciphertext: String::new(),
        owner_user_id: "u".to_string(),
        org_id: Some("o".to_string()),
        wrapped_vault_key: wrapped.to_string(),
        role: "editor".to_string(),
        last_op_id: 12,
    }
}

#[test]
fn vault_refresh_stops_at_first_bad_key() {
    let (entries, err) = refresh_entries(vec![view("a", "0aFF"), view("b", "zz"), view("c", "00")]);
    assert_eq!(entries.len(), 1);
    assert_eq!(entries[0].vault_id, "a");
    assert_eq!(entries[0].wrapped_vault_key, vec![0x0a, 0xff]);
    assert_eq!(entries[0].last_op_id_remote, 12);
    match err {
        Some(ParaError::Other(m)) => assert!(m.starts_with("wrapped_vault_key decode: ")),
        _ => panic!("bad key"),
    }
    let (entries, err) = refresh_entries(vec![view("a", ""), view("b", "01")]);
    assert_eq!(entries.len(), 2);
    assert!(err.is_none());
}

#[test]
fn workers_start_for_idle_vaults_only() {
    let vs = vec![vault("a", None), vault("b", Some("o")), vault("c", None)];
    assert_eq!(vaults_to_start(&vs, &["b".to_string()]), vec!["a".to_string(), "c".to_string()]);
    assert_eq!(vaults_to_start(&vs, &[]), vec!["a".to_string(), "b".to_string(), "c".to_string()]);
    assert!(vaults_to_start(&vs, &["a".to_string(), "b".to_string(), "c".to_string()]).is_empty());
}

#[test]
fn server_endpoints() {
    assert_eq!(api_url("https://sync.example.com//", "/v1/vaults"), "https://sync.example.com/v1/vaults");
    assert_eq!(api_url("http://localhost:8080", "/v1/users/me"), "http://localhost:8080/v1/users/me");
}
