//! Configuration of the sync server. Every secret is required at startup
//! so that a misconfigured deploy fails fast.

use vstd::prelude::*;

verus! {

/// The values of the server's environment variables, `None` where a
/// variable is unset or not valid Unicode.
pub struct ConfigEnv {
    pub bind_addr: Option<String>,
    pub database_url: Option<String>,
    pub stack_auth_project_id: Option<String>,
    pub stack_auth_jwks_url: Option<String>,
    pub stack_auth_audience: Option<String>,
}

/// Server configuration.
#[derive(Debug, Clone)]
pub struct AppConfig {
    pub bind_addr: String,
    pub database_url: String,
    pub stack_auth_project_id: String,
    pub stack_auth_jwks_url: String,
    /// Audience claim expected on incoming tokens.
    pub stack_auth_audience: String,
}

/// The value of an optional variable, or its default.
pub open spec fn value_or(v: Option<String>, default: Seq<char>) -> Seq<char> {
    match v {
        Some(s) => s@,
        None => default,
    }
}

/// The first required variable that is missing, in the order they are read.
pub open spec fn first_missing(env: ConfigEnv) -> Option<Seq<char>> {
    if env.database_url is None {
        Some("DATABASE_URL"@)
    } else if env.stack_auth_project_id is None {
        Some("STACK_AUTH_PROJECT_ID"@)
    } else if env.stack_auth_jwks_url is None {
        Some("STACK_AUTH_JWKS_URL"@)
    } else {
        None
    }
}

fn required(v: Option<String>, name: &str) -> (r: Result<String, String>)
    ensures
        match v {
            Some(s) => r == Ok::<String, String>(s),
            None => r matches Err(m) && m@ == "missing env: "@ + name@,
        },
{
    match v {
        Some(s) => Ok(s),
        None => {
            let mut m = String::from_str("missing env: ");
            m.append(name);
            Err(m)
        },
    }
}

fn or_default(v: Option<String>, default: &str) -> (r: String)
    ensures
        r@ == value_or(v, default@),
{
    match v {
        Some(s) => s,
        None => String::from_str(default),
    }
}

impl AppConfig {
    /// Reads the configuration: `BIND_ADDR` defaults to `0.0.0.0:8080` and
    /// `STACK_AUTH_AUDIENCE` to `audire-server`; `DATABASE_URL`,
    /// `STACK_AUTH_PROJECT_ID` and `STACK_AUTH_JWKS_URL` are required, and
    /// the first one missing is reported as `missing env: NAME`.
    pub fn from_env(env: ConfigEnv) -> (r: Result<AppConfig, String>)
        ensures
            match first_missing(env) {
                Some(name) => r matches Err(m) && m@ == "missing env: "@ + name,
                None => r matches Ok(c) && {
                    &&& c.bind_addr@ == value_or(env.bind_addr, "0.0.0.0:8080"@)
                    &&& Some(c.database_url) == env.database_url
                    &&& Some(c.stack_auth_project_id) == env.stack_auth_project_id
                    &&& Some(c.stack_auth_jwks_url) == env.stack_auth_jwks_url
                    &&& c.stack_auth_audience@ == value_or(env.stack_auth_audience, "audire-server"@)
                },
            },
    {
        let ghost e = env;
        let ConfigEnv {
            bind_addr,
            database_url,
            stack_auth_project_id,
            stack_auth_jwks_url,
            stack_auth_audience,
        } = env;
        let bind_addr = or_default(bind_addr, "0.0.0.0:8080");
        let database_url = match required(database_url, "DATABASE_URL") {
            Ok(v) => v,
            Err(m) => {
                return Err(m);
            },
        };
        let stack_auth_project_id = match required(stack_auth_project_id, "STACK_AUTH_PROJECT_ID") {
            Ok(v) => v,
            Err(m) => {
                return Err(m);
            },
        };
        let stack_auth_jwks_url = match required(stack_auth_jwks_url, "STACK_AUTH_JWKS_URL") {
            Ok(v) => v,
            Err(m) => {
                return Err(m);
            },
        };
        let stack_auth_audience = or_default(stack_auth_audience, "audire-server");
        Ok(AppConfig {
            bind_addr,
            database_url,
            stack_auth_project_id,
            stack_auth_jwks_url,
            stack_auth_audience,
        })
    }
}

} // verus!
