use audire::access::ApiError;
use audire::auth::{
    caller_bearer_token, claims_email, identity_from, pre_signup_bearer_token, pre_signup_identity, require_profile,
    AuthHeader, StackAuthClaims,
};
use audire::config::{AppConfig, ConfigEnv};

fn env(db: Option<&str>, project: Option<&str>, jwks: Option<&str>) -> ConfigEnv {
    ConfigEnv {
        bind_addr: None,
        database_url: db.map(|s| s.to_string()),
        stack_auth_project_id: project.map(|s| s.to_string()),
        stack_auth_jwks_url: jwks.map(|s| s.to_string()),
        stack_auth_audience: None,
    }
}

fn unauthorized(r: Result<impl std::fmt::Debug, ApiError>) -> String {
    match r {
        Err(ApiError::Unauthorized(m)) => m,
        other => panic!("expected 401, got {:?}", other),
    }
}

#[test]
fn config_defaults_and_required_values() {
    let c = AppConfig::from_env(env(Some("postgres://db"), Some("proj"), Some("https://jwks"))).unwrap();
    assert_eq!(c.bind_addr, "0.0.0.0:8080");
    assert_eq!(c.stack_auth_audience, "audire-server");
    assert_eq!(c.database_url, "postgres://db");
    let mut e = env(Some("postgres://db"), Some("proj"), Some("https://jwks"));
    e.bind_addr = Some("127.0.0.1:9000".to_string());
    e.stack_auth_audience = Some("aud".to_string());
    let c = AppConfig::from_env(e).unwrap();
    assert_eq!(c.bind_addr, "127.0.0.1:9000");
    assert_eq!(c.stack_auth_audience, "aud");
}

#[test]
fn config_reports_first_missing_variable() {
    assert_eq!(AppConfig::from_env(env(None, None, None)).err(), Some("missing env: DATABASE_URL".to_string()));
    assert_eq!(
        AppConfig::from_env(env(Some("x"), None, Some("y"))).err(),
        Some("missing env: STACK_AUTH_PROJECT_ID".to_string())
    );
    assert_eq!(
        AppConfig::from_env(env(Some("x"), Some("p"), None)).err(),
        Some("missing env: STACK_AUTH_JWKS_URL".to_string())
    );
}

#[test]
fn bearer_tokens() {
    assert_eq!(caller_bearer_token(AuthHeader::Text("Bearer abc.def".to_string())).ok(), Some("abc.def".to_string()));
    assert_eq!(caller_bearer_token(AuthHeader::Text("Bearer ".to_string())).ok(), Some(String::new()));
    assert_eq!(unauthorized(caller_bearer_token(AuthHeader::Missing)), "missing Authorization header");
    assert_eq!(unauthorized(caller_bearer_token(AuthHeader::Unreadable)), "bad Authorization header");
    assert_eq!(unauthorized(pre_signup_bearer_token(AuthHeader::Unreadable)), "bad header");
    assert_eq!(unauthorized(caller_bearer_token(AuthHeader::Text("bearer abc".to_string()))), "expected Bearer token");
    assert_eq!(unauthorized(pre_signup_bearer_token(AuthHeader::Text("Basic xyz".to_string()))), "expected Bearer token");
}

fn claims(sub: &str, email: Option<&str>) -> StackAuthClaims {
    StackAuthClaims { sub: sub.to_string(), iss: "https://issuer".to_string(), email: email.map(|s| s.to_string()), exp: 1 }
}

#[test]
fn claims_and_profiles() {
    assert_eq!(claims_email(&claims("u", Some("a@b.c"))).ok(), Some("a@b.c".to_string()));
    assert_eq!(unauthorized(claims_email(&claims("u", None))), "token missing email claim");
    assert_eq!(require_profile(Some(7)).ok(), Some(7));
    match require_profile::<u8>(None) {
        Err(e @ ApiError::SignupRequired(_)) => {
            let (status, code, message) = e.response_parts();
            assert_eq!(status, 401);
            assert_eq!(code, "signup_required");
            assert_eq!(message, "no audire profile yet — POST /v1/users/me first");
        }
        _ => panic!("no profile"),
    }
}

#[test]
fn pre_signup_identities() {
    let id = pre_signup_identity(claims("550e8400-e29b-41d4-a716-446655440000", Some("a@b.c"))).unwrap();
    assert_eq!(id.stack_user_id[0], 0x55);
    assert_eq!(id.stack_user_id[15], 0x00);
    assert_eq!(id.stack_user_id[1], 0x0e);
    assert_eq!(id.email, "a@b.c");
    assert_eq!(unauthorized(pre_signup_identity(claims("not-a-uuid", Some("a@b.c")))), "sub claim is not a UUID");
    assert_eq!(
        unauthorized(pre_signup_identity(claims("550e8400-e29b-41d4-a716-446655440000", None))),
        "token missing email claim"
    );
    assert_eq!(unauthorized(identity_from(None, None)), "sub claim is not a UUID");
    assert_eq!(identity_from(Some([1u8; 16]), Some("e".to_string())).unwrap().stack_user_id, [1u8; 16]);
}
