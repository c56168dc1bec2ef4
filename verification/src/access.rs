//! Sync server decisions: role encodings, who may do what, how errors
//! become HTTP responses, and how the sync socket treats each frame.

use vstd::prelude::*;
use crate::text::{str_eq, trim, trim_seq};

verus! {

/// Role of a member in a vault.
#[derive(PartialEq, Eq, Structural, Clone, Copy)]
pub enum VaultRole {
    Owner,
    Editor,
    Reader,
}

/// Role of a member in an organisation.
#[derive(PartialEq, Eq, Structural, Clone, Copy)]
pub enum OrgRole {
    Owner,
    Admin,
    Member,
}

pub open spec fn spec_vault_role_str(r: VaultRole) -> Seq<char> {
    match r {
        VaultRole::Owner => "owner"@,
        VaultRole::Editor => "editor"@,
        VaultRole::Reader => "reader"@,
    }
}

pub open spec fn spec_parse_vault_role(s: Seq<char>) -> VaultRole {
    if s == "owner"@ {
        VaultRole::Owner
    } else if s == "editor"@ {
        VaultRole::Editor
    } else {
        VaultRole::Reader
    }
}

pub open spec fn spec_org_role_str(r: OrgRole) -> Seq<char> {
    match r {
        OrgRole::Owner => "owner"@,
        OrgRole::Admin => "admin"@,
        OrgRole::Member => "member"@,
    }
}

pub open spec fn spec_parse_org_role(s: Seq<char>) -> OrgRole {
    if s == "owner"@ {
        OrgRole::Owner
    } else if s == "admin"@ {
        OrgRole::Admin
    } else {
        OrgRole::Member
    }
}

/// Stored text of a vault role.
pub fn vault_role_str(r: VaultRole) -> (s: &'static str)
    ensures
        s@ == spec_vault_role_str(r),
{
    match r {
        VaultRole::Owner => "owner",
        VaultRole::Editor => "editor",
        VaultRole::Reader => "reader",
    }
}

/// Vault role from stored text; anything unknown reads as `Reader`.
pub fn parse_vault_role(s: &str) -> (r: VaultRole)
    ensures
        r == spec_parse_vault_role(s@),
{
    if str_eq(s, "owner") {
        VaultRole::Owner
    } else if str_eq(s, "editor") {
        VaultRole::Editor
    } else {
        VaultRole::Reader
    }
}

/// Stored text of an organisation role.
pub fn org_role_str(r: OrgRole) -> (s: &'static str)
    ensures
        s@ == spec_org_role_str(r),
{
    match r {
        OrgRole::Owner => "owner",
        OrgRole::Admin => "admin",
        OrgRole::Member => "member",
    }
}

/// Organisation role from stored text; anything unknown reads as `Member`.
pub fn parse_org_role(s: &str) -> (r: OrgRole)
    ensures
        r == spec_parse_org_role(s@),
{
    if str_eq(s, "owner") {
        OrgRole::Owner
    } else if str_eq(s, "admin") {
        OrgRole::Admin
    } else {
        OrgRole::Member
    }
}

/// Reading back a stored vault role gives the role.
pub proof fn law_vault_role_round_trip(r: VaultRole)
    ensures
        spec_parse_vault_role(spec_vault_role_str(r)) == r,
{
    reveal_strlit("owner");
    reveal_strlit("editor");
    reveal_strlit("reader");
    assert("editor"@[0] != "owner"@[0]);
    assert("reader"@[0] != "owner"@[0]);
    assert("reader"@[0] != "editor"@[0]);
}

/// Reading back a stored organisation role gives the role.
pub proof fn law_org_role_round_trip(r: OrgRole)
    ensures
        spec_parse_org_role(spec_org_role_str(r)) == r,
{
    reveal_strlit("owner");
    reveal_strlit("admin");
    reveal_strlit("member");
    assert("admin"@[0] != "owner"@[0]);
    assert("member"@[0] != "owner"@[0]);
    assert("member"@[0] != "admin"@[0]);
}

/// Errors of the sync server's HTTP API. Database and other internal
/// failures carry no text: it is never shown to clients.
#[derive(Debug)]
pub enum ApiError {
    Unauthorized(String),
    /// The caller has no profile yet: the first sign-in must come first.
    SignupRequired(String),
    Forbidden(String),
    NotFound(String),
    BadRequest(String),
    Conflict(String),
    Internal,
}

/// The HTTP status, the error code and the message a client receives.
pub open spec fn spec_response(e: ApiError) -> (u16, Seq<char>, Seq<char>) {
    match e {
        ApiError::Unauthorized(m) => (401, "unauthorized"@, m@),
        ApiError::SignupRequired(m) => (401, "signup_required"@, m@),
        ApiError::Forbidden(m) => (403, "forbidden"@, m@),
        ApiError::NotFound(m) => (404, "not_found"@, m@),
        ApiError::BadRequest(m) => (400, "bad_request"@, m@),
        ApiError::Conflict(m) => (409, "conflict"@, m@),
        ApiError::Internal => (500, "internal"@, "internal error"@),
    }
}

impl ApiError {
    /// Status, code and message of the JSON error response.
    pub fn response_parts(&self) -> (r: (u16, &'static str, String))
        ensures
            r.0 == spec_response(*self).0,
            r.1@ == spec_response(*self).1,
            r.2@ == spec_response(*self).2,
    {
        match self {
            ApiError::Unauthorized(m) => (401, "unauthorized", m.clone()),
            ApiError::SignupRequired(m) => (401, "signup_required", m.clone()),
            ApiError::Forbidden(m) => (403, "forbidden", m.clone()),
            ApiError::NotFound(m) => (404, "not_found", m.clone()),
            ApiError::BadRequest(m) => (400, "bad_request", m.clone()),
            ApiError::Conflict(m) => (409, "conflict", m.clone()),
            ApiError::Internal => (500, "internal", String::from_str("internal error")),
        }
    }
}

fn not_found(msg: &str) -> (e: ApiError)
    ensures
        e matches ApiError::NotFound(m) && m@ == msg@,
{
    ApiError::NotFound(String::from_str(msg))
}

fn forbidden(msg: &str) -> (e: ApiError)
    ensures
        e matches ApiError::Forbidden(m) && m@ == msg@,
{
    ApiError::Forbidden(String::from_str(msg))
}

/// Access to an organisation for any member, given the caller's stored
/// role there (`None` when not a member).
pub fn require_org_member(role: Option<&str>) -> (r: Result<(), ApiError>)
    ensures
        role is Some <==> r is Ok,
        r matches Err(e) ==> (e matches ApiError::NotFound(m) && m@ == "org not found or no access"@),
{
    match role {
        Some(_) => Ok(()),
        None => Err(not_found("org not found or no access")),
    }
}

/// Access to an organisation for owners and admins.
pub fn require_org_admin(role: Option<&str>) -> (r: Result<(), ApiError>)
    ensures
        match role {
            Some(s) => if s@ == "owner"@ || s@ == "admin"@ {
                r is Ok
            } else {
                r matches Err(ApiError::Forbidden(m)) && m@ == "admin role required"@
            },
            None => r matches Err(ApiError::NotFound(m)) && m@ == "org not found or no access"@,
        },
{
    match role {
        Some(s) => if str_eq(s, "owner") || str_eq(s, "admin") {
            Ok(())
        } else {
            Err(forbidden("admin role required"))
        },
        None => Err(not_found("org not found or no access")),
    }
}

/// Access to a vault for its owner.
pub fn require_vault_owner(role: Option<&str>) -> (r: Result<(), ApiError>)
    ensures
        match role {
            Some(s) => if s@ == "owner"@ {
                r is Ok
            } else {
                r matches Err(ApiError::Forbidden(m)) && m@ == "owner role required"@
            },
            None => r matches Err(ApiError::NotFound(m)) && m@ == "vault not found or no access"@,
        },
{
    match role {
        Some(s) => if str_eq(s, "owner") {
            Ok(())
        } else {
            Err(forbidden("owner role required"))
        },
        None => Err(not_found("vault not found or no access")),
    }
}

/// Whether a vault member may append ops: owners and editors.
pub fn can_append(role: &str) -> (w: bool)
    ensures
        w == (role@ == "owner"@ || role@ == "editor"@),
{
    str_eq(role, "owner") || str_eq(role, "editor")
}

/// Body of the request that creates an organisation.
#[derive(Debug, Clone)]
pub struct CreateOrgRequest {
    pub name: String,
}

/// The name of a new organisation: the request's name trimmed; an empty
/// name is refused.
pub fn org_name_for_create(req: &CreateOrgRequest) -> (r: Result<String, ApiError>)
    ensures
        match r {
            Ok(n) => n@ == trim_seq(req.name@) && n@.len() > 0,
            Err(e) => trim_seq(req.name@).len() == 0 && (e matches ApiError::BadRequest(m)
                && m@ == "org name cannot be empty"@),
        },
{
    let n = trim(req.name.as_str());
    if n.as_str().is_empty() {
        Err(ApiError::BadRequest(String::from_str("org name cannot be empty")))
    } else {
        Ok(n)
    }
}

/// A key rotation must re-wrap the vault key for the caller too.
pub fn check_rotation_includes_caller(listed: &[u128], caller: u128) -> (r: Result<(), ApiError>)
    ensures
        r is Ok <==> listed@.contains(caller),
        r matches Err(e) ==> (e matches ApiError::BadRequest(m) && m@ == "rotate must include the caller's own wrapped key"@),
{
    let mut i: usize = 0;
    while i < listed.len()
        invariant
            i <= listed@.len(),
            forall|j: int| 0 <= j < i ==> listed@[j] != caller,
        decreases listed@.len() - i,
    {
        if listed[i] == caller {
            return Ok(());
        }
        i += 1;
    }
    Err(ApiError::BadRequest(String::from_str("rotate must include the caller's own wrapped key")))
}

/// Body of the first sign-in request: the caller's X25519 public key and
/// the master key wrapped under the recovery key.
#[derive(Debug, Clone)]
pub struct CreateUserRequest {
    pub public_key: Vec<u8>,
    pub wrapped_kek_for_recovery: Vec<u8>,
}

/// A first sign-in's public key must be a 32-byte X25519 key.
pub fn check_public_key_len(req: &CreateUserRequest) -> (r: Result<(), ApiError>)
    ensures
        req.public_key@.len() == 32 <==> r is Ok,
        r matches Err(e) ==> (e matches ApiError::BadRequest(m) && m@ == "public_key must be 32 bytes (X25519)"@),
{
    if req.public_key.len() != 32 {
        Err(ApiError::BadRequest(String::from_str("public_key must be 32 bytes (X25519)")))
    } else {
        Ok(())
    }
}

/// First sign-in: the public key must be a 32-byte X25519 key, and must
/// match the one on file when the user already exists.
pub fn check_signup_public_key(req: &CreateUserRequest, on_file: &[u8]) -> (r: Result<(), ApiError>)
    ensures
        req.public_key@.len() != 32 ==> (r matches Err(ApiError::BadRequest(m)) && m@ == "public_key must be 32 bytes (X25519)"@),
        req.public_key@.len() == 32 && on_file@ != req.public_key@ ==> (r matches Err(ApiError::Conflict(m))
            && m@ == "public_key mismatch with existing profile; passphrase rotation not yet supported"@),
        req.public_key@.len() == 32 && on_file@ == req.public_key@ ==> r is Ok,
{
    let submitted = req.public_key.as_slice();
    if submitted.len() != 32 {
        return Err(ApiError::BadRequest(String::from_str("public_key must be 32 bytes (X25519)")));
    }
    let mut same = on_file.len() == submitted.len();
    let mut i: usize = 0;
    while same && i < submitted.len()
        invariant
            i <= submitted@.len(),
            same ==> on_file@.len() == submitted@.len(),
            same ==> forall|j: int| 0 <= j < i ==> on_file@[j] == submitted@[j],
            !same ==> on_file@ != submitted@,
        decreases submitted@.len() - i,
    {
        if on_file[i] != submitted[i] {
            same = false;
        }
        i += 1;
    }
    if same {
        assert(on_file@ =~= submitted@);
        Ok(())
    } else {
        Err(ApiError::Conflict(String::from_str("public_key mismatch with existing profile; passphrase rotation not yet supported")))
    }
}

/// What a first sign-in writes.
#[derive(Debug, PartialEq, Eq, Structural, Clone, Copy)]
pub enum SignupWrite {
    /// No profile yet: create it with the submitted key and store the
    /// recovery envelope.
    CreateProfile,
    /// The profile already has this key: a repeat sign-in changes nothing
    /// and answers with the profile on file.
    Unchanged,
}

/// The sign-in handshake is idempotent: with no profile on file it creates
/// one; with the same 32-byte key on file it writes nothing; a key of
/// another length is a bad request, and a different key is a conflict
/// that changes nothing.
pub fn plan_signup(req: &CreateUserRequest, on_file: Option<&[u8]>) -> (r: Result<SignupWrite, ApiError>)
    ensures
        req.public_key@.len() != 32 ==> (r matches Err(ApiError::BadRequest(m)) && m@ == "public_key must be 32 bytes (X25519)"@),
        req.public_key@.len() == 32 ==> match on_file {
            None => r == Ok::<SignupWrite, ApiError>(SignupWrite::CreateProfile),
            Some(k) => if k@ == req.public_key@ {
                r == Ok::<SignupWrite, ApiError>(SignupWrite::Unchanged)
            } else {
                r matches Err(ApiError::Conflict(m))
                    && m@ == "public_key mismatch with existing profile; passphrase rotation not yet supported"@
            },
        },
{
    match on_file {
        None => {
            match check_public_key_len(req) {
                Ok(()) => Ok(SignupWrite::CreateProfile),
                Err(e) => Err(e),
            }
        },
        Some(k) => {
            match check_signup_public_key(req, k) {
                Ok(()) => Ok(SignupWrite::Unchanged),
                Err(e) => Err(e),
            }
        },
    }
}

/// Members after a key rotation: those listed in the rotation stay, in
/// their current order; anyone not listed is removed. Listed users who
/// are not members are not added.
pub open spec fn rotated_members(current: Seq<u128>, listed: Seq<u128>) -> Seq<u128>
    decreases current.len(),
{
    if current.len() == 0 {
        Seq::empty()
    } else {
        let prev = rotated_members(current.drop_last(), listed);
        if listed.contains(current.last()) { prev.push(current.last()) } else { prev }
    }
}

/// After a rotation, a user is a member exactly when they were a member
/// before and the rotation lists them.
pub proof fn law_rotation_keeps_listed_members(current: Seq<u128>, listed: Seq<u128>, u: u128)
    ensures
        rotated_members(current, listed).contains(u) <==> (current.contains(u) && listed.contains(u)),
    decreases current.len(),
{
    if current.len() > 0 {
        let prev = current.drop_last();
        law_rotation_keeps_listed_members(prev, listed, u);
        assert(current =~= prev.push(current.last()));
        if current.contains(u) && u != current.last() {
            let k = choose|k: int| 0 <= k < current.len() && current[k] == u;
            assert(prev[k] == u);
        }
        if prev.contains(u) {
            let k = choose|k: int| 0 <= k < prev.len() && prev[k] == u;
            assert(current[k] == u);
        }
        if listed.contains(current.last()) {
            let p2 = rotated_members(prev, listed);
            assert(p2.push(current.last())[p2.len() as int] == current.last());
            if p2.push(current.last()).contains(u) && u != current.last() {
                let k = choose|k: int| 0 <= k < p2.len() + 1 && p2.push(current.last())[k] == u;
                assert(p2[k] == u);
            }
            if p2.contains(u) {
                let k = choose|k: int| 0 <= k < p2.len() && p2[k] == u;
                assert(p2.push(current.last())[k] == u);
            }
        }
        assert(current[current.len() - 1] == current.last());
    }
}

pub fn rotated_membership(current: &[u128], listed: &[u128]) -> (r: Vec<u128>)
    ensures
        r@ == rotated_members(current@, listed@),
{
    let mut out: Vec<u128> = Vec::new();
    let mut i: usize = 0;
    while i < current.len()
        invariant
            i <= current@.len(),
            out@ == rotated_members(current@.subrange(0, i as int), listed@),
        decreases current@.len() - i,
    {
        proof {
            assert(current@.subrange(0, i + 1).drop_last() =~= current@.subrange(0, i as int));
        }
        let u = current[i];
        let mut found = false;
        let mut j: usize = 0;
        while j < listed.len()
            invariant
                j <= listed@.len(),
                found == exists|k: int| 0 <= k < j && listed@[k] == u,
            decreases listed@.len() - j,
        {
            if listed[j] == u {
                found = true;
            }
            j += 1;
        }
        proof {
            if found {
                let k = choose|k: int| 0 <= k < listed@.len() && listed@[k] == u;
                assert(listed@.contains(u));
            } else {
                assert(!listed@.contains(u));
            }
        }
        if found {
            out.push(u);
        }
        i += 1;
    }
    assert(current@.subrange(0, current@.len() as int) =~= current@);
    out
}

/// A frame received from a client on the sync socket.
pub enum ClientFrame {
    /// Append an op to the vault named in the frame.
    Append { vault_id: u128 },
    Ping,
    Pong,
    /// A server-to-client variant sent by a client; ignored.
    Other,
}

/// The server's answer to a client frame.
pub enum SocketReply {
    /// Send an error frame with this code and message; keep the socket.
    SendError { code: &'static str, message: &'static str },
    /// Store the op, acknowledge it and broadcast it.
    StoreAndAck,
    SendPong,
    Nothing,
}

/// How the sync socket answers a client frame, for a connection to
/// `vault_id` whose member may append when `writable`.
pub fn on_client_frame(frame: &ClientFrame, vault_id: u128, writable: bool) -> (r: SocketReply)
    ensures
        match *frame {
            ClientFrame::Append { vault_id: v } => if v != vault_id {
                r matches SocketReply::SendError { code, message } && code@ == "wrong_vault"@
                    && message@ == "append target mismatch"@
            } else if !writable {
                r matches SocketReply::SendError { code, message } && code@ == "forbidden"@
                    && message@ == "reader role cannot append"@
            } else {
                r is StoreAndAck
            },
            ClientFrame::Ping => r is SendPong,
            ClientFrame::Pong => r is Nothing,
            ClientFrame::Other => r is Nothing,
        },
{
    match frame {
        ClientFrame::Append { vault_id: v } => {
            if *v != vault_id {
                SocketReply::SendError { code: "wrong_vault", message: "append target mismatch" }
            } else if !writable {
                SocketReply::SendError { code: "forbidden", message: "reader role cannot append" }
            } else {
                SocketReply::StoreAndAck
            }
        },
        ClientFrame::Ping => SocketReply::SendPong,
        ClientFrame::Pong => SocketReply::Nothing,
        ClientFrame::Other => SocketReply::Nothing,
    }
}

/// What the live broadcast delivered to a socket's subscription.
pub enum LiveEvent {
    /// An op appended on this vault from the device `device`.
    Op { device: u128 },
    /// The subscription fell behind and lost ops.
    Lagged,
    /// The broadcast channel closed.
    Closed,
}

/// The server's handling of a live broadcast event.
pub enum LiveReply {
    /// Forward the op to the client as a `live` frame.
    Forward,
    /// Skip it: this connection appended it itself.
    Skip,
    /// Tell the client to reconnect (`lagged`), then close the socket.
    SendLaggedAndClose,
    Close,
}

/// How the sync socket relays a live broadcast event. `own_device` is the
/// device this connection appends from (`None` before its first append):
/// an op becomes `live` on every other connected device, the same user's
/// included, and only the appending device does not get it back.
pub fn on_live_event(ev: &LiveEvent, own_device: Option<u128>) -> (r: LiveReply)
    ensures
        match *ev {
            LiveEvent::Op { device } => if own_device == Some(device) { r is Skip } else { r is Forward },
            LiveEvent::Lagged => r is SendLaggedAndClose,
            LiveEvent::Closed => r is Close,
        },
{
    match ev {
        LiveEvent::Op { device } => match own_device {
            Some(d) => if d == *device { LiveReply::Skip } else { LiveReply::Forward },
            None => LiveReply::Forward,
        },
        LiveEvent::Lagged => LiveReply::SendLaggedAndClose,
        LiveEvent::Closed => LiveReply::Close,
    }
}

/// The device a connection appends from, after it appended an op from
/// `device`: the first append fixes it.
pub fn own_device_after(own_device: Option<u128>, device: u128) -> (r: Option<u128>)
    ensures
        r == (match own_device { Some(d) => Some(d), None => Some(device) }),
{
    match own_device {
        Some(d) => Some(d),
        None => Some(device),
    }
}

/// Query of the user lookup: the e-mail address to resolve, matched
/// without regard to case.
#[derive(Debug)]
pub struct LookupQuery {
    pub email: String,
}

/// A registered user as the lookup answers: id, e-mail and X25519 public
/// key, so the caller can wrap a vault key for them.
#[derive(Debug)]
pub struct UserLookup {
    pub id: u128,
    pub email: String,
    pub public_key: Vec<u8>,
}

/// The lookup's answer for the row found (if any): only users who have
/// signed up resolve; anyone else is `NotFound`.
pub fn lookup_response(row: Option<UserLookup>) -> (r: Result<UserLookup, ApiError>)
    ensures
        match row {
            Some(u) => r == Ok::<UserLookup, ApiError>(u),
            None => r matches Err(ApiError::NotFound(m)) && m@ == "no audire user with that email"@,
        },
{
    match row {
        Some(u) => Ok(u),
        None => Err(not_found("no audire user with that email")),
    }
}

/// Query of the sync socket: only ops with an id above `since` are
/// replayed.
#[derive(Debug)]
pub struct SyncQuery {
    pub since: i64,
}

impl Default for SyncQuery {
    /// A missing cursor is 0: the full history is replayed.
    fn default() -> (q: SyncQuery)
        ensures
            q.since == 0,
    {
        SyncQuery { since: 0 }
    }
}

/// Access to a vault's sync socket, given the caller's stored role there:
/// whether the caller may append ops, or `NotFound` for a non-member.
pub fn socket_access(role: Option<&str>) -> (r: Result<bool, ApiError>)
    ensures
        match role {
            Some(s) => r == Ok::<bool, ApiError>(s@ == "owner"@ || s@ == "editor"@),
            None => r matches Err(ApiError::NotFound(m)) && m@ == "vault not found or no access"@,
        },
{
    match role {
        Some(s) => Ok(can_append(s)),
        None => Err(not_found("vault not found or no access")),
    }
}

/// Ops replayed per chunk when a socket catches up.
pub const REPLAY_CHUNK: i64 = 256;

/// The replay cursor after sending a chunk of op ids (ascending); an
/// empty chunk ends the replay and leaves the cursor.
pub fn replay_cursor_after(cursor: i64, chunk_ids: &[i64]) -> (r: i64)
    ensures
        r == if chunk_ids@.len() == 0 { cursor } else { chunk_ids@.last() },
{
    if chunk_ids.len() == 0 {
        cursor
    } else {
        chunk_ids[chunk_ids.len() - 1]
    }
}

/// One step of catching a socket up.
pub enum ReplayStep {
    /// Send the chunk as one `ops` frame and fetch the next chunk, of at
    /// most `REPLAY_CHUNK` ops with ids above `cursor`.
    SendOps { cursor: i64 },
    /// The history is replayed: send `caught_up` and go live.
    SendCaughtUp,
}

/// The replay step for the chunk of op ids (ascending) fetched after the
/// cursor: a non-empty chunk is sent as one frame and moves the cursor to
/// its last id; an empty one ends the replay with one `caught_up` frame.
pub fn replay_step(cursor: i64, chunk_ids: &[i64]) -> (r: ReplayStep)
    ensures
        chunk_ids@.len() == 0 ==> (r is SendCaughtUp),
        chunk_ids@.len() > 0 ==> r == (ReplayStep::SendOps { cursor: chunk_ids@.last() }),
{
    if chunk_ids.len() == 0 {
        ReplayStep::SendCaughtUp
    } else {
        ReplayStep::SendOps { cursor: replay_cursor_after(cursor, chunk_ids) }
    }
}

} // verus!
