//! Decisions of the per-vault sync worker: reconnect backoff, the socket
//! URL, and what to do with each frame the server sends.

use vstd::prelude::*;
use crate::text::{replace_all, replace_seq, trim_end_matches_char, trim_end_char, i64_to_decimal, signed_dec};
use crate::crypto::{hex_encode, hex_decode, aead_opened, VaultKey};
use crate::ops::open_op_payload;
use crate::hexcodec::hex_decode_chars;
use crate::hexcodec::hex_lower_chars;

verus! {

/// Upper bound of the reconnect backoff, in seconds.
pub const MAX_BACKOFF_SECS: u64 = 30;

/// Sync status shown to the UI for one vault.
pub struct SyncStatusEvent {
    pub vault_id: String,
    pub state: String,
    pub message: Option<String>,
    pub last_op_id_applied: i64,
}

/// Backoff before the next reconnect: doubled (saturating), capped at 30 s.
pub fn next_backoff(secs: u64) -> (r: u64)
    ensures
        r == if 2 * secs > 30 { 30 } else { 2 * secs },
{
    if secs > MAX_BACKOFF_SECS / 2 { MAX_BACKOFF_SECS } else { secs * 2 }
}

/// The sync socket URL for a vault: the server URL with `https://` turned
/// into `wss://` and `http://` into `ws://`, trailing slashes dropped,
/// then `/v1/sync/<vault_id>?since=<since>`.
pub open spec fn spec_ws_url(base: Seq<char>, vault_id: Seq<char>, since: i64) -> Seq<char> {
    trim_end_char(replace_seq(replace_seq(base, "https://"@, "wss://"@), "http://"@, "ws://"@), '/')
        + "/v1/sync/"@ + vault_id + "?since="@ + signed_dec(since as int)
}

pub fn ws_url(base: &str, vault_id: &str, since: i64) -> (r: String)
    ensures
        r@ == spec_ws_url(base@, vault_id@, since),
{
    proof {
        reveal_strlit("https://");
        reveal_strlit("http://");
    }
    let a = replace_all(base, "https://", "wss://");
    let b = replace_all(a.as_str(), "http://", "ws://");
    let mut out = trim_end_matches_char(b.as_str(), '/');
    out.append("/v1/sync/");
    out.append(vault_id);
    out.append("?since=");
    let d = i64_to_decimal(since);
    out.append(d.as_str());
    out
}

/// One row of the outbox, waiting to be appended to its vault's log.
#[derive(Debug)]
pub struct PendingOp {
    pub local_id: String,
    pub target_kind: String,
    /// The sealed op payload.
    pub payload: Vec<u8>,
    pub client_ts_ms: i64,
}

/// The op of an `append` frame; the payload is lower-case hex text.
#[derive(Debug)]
pub struct AppendOp {
    pub local_id: String,
    pub device_id: String,
    pub target_kind: String,
    pub payload: String,
    pub client_ts_ms: i64,
}

/// The op this device sends for an outbox row.
pub fn append_op(p: PendingOp, device_id: &str) -> (a: AppendOp)
    ensures
        a.local_id == p.local_id,
        a.device_id@ == device_id@,
        a.target_kind == p.target_kind,
        a.payload@ == hex_lower_chars(p.payload@),
        a.client_ts_ms == p.client_ts_ms,
{
    let payload = hex_encode(p.payload.as_slice());
    AppendOp {
        local_id: p.local_id,
        device_id: String::from_str(device_id),
        target_kind: p.target_kind,
        payload,
        client_ts_ms: p.client_ts_ms,
    }
}

/// One op as the server sends it; the payload is hex text.
pub struct ServerOp {
    pub id: i64,
    pub target_kind: String,
    pub payload: String,
    pub client_ts_ms: i64,
}

/// The server frames the worker understands.
pub enum ServerFrame {
    Ops { ops: Vec<ServerOp> },
    CaughtUp { last_op_id: i64 },
    Live { op: ServerOp },
    Ack { local_id: String, op_id: i64 },
    Error { code: String, message: String },
    Ping,
    Pong,
}

/// What the worker does with a frame.
pub enum FrameAction {
    /// Report `live` and remember the server's high-water mark.
    CaughtUp { high_water: i64 },
    /// Apply each op in order, then report `syncing`.
    ApplyBatch,
    /// Apply the op, then report `live`.
    ApplyLive,
    /// Mark the outbox row as delivered with the server's op id.
    MarkSent { local_id: String, op_id: i64 },
    /// Drop the connection with this reason.
    Disconnect { reason: String },
    /// Nothing to do.
    Ignore,
}

/// The reason reported when the server sends an error frame.
pub open spec fn server_error_reason(code: Seq<char>, message: Seq<char>) -> Seq<char> {
    "server: "@ + code + ": "@ + message
}

/// The worker's decision for one frame.
pub fn frame_action(frame: &ServerFrame) -> (a: FrameAction)
    ensures
        match *frame {
            ServerFrame::Ops { .. } => a is ApplyBatch,
            ServerFrame::CaughtUp { last_op_id } => a == FrameAction::CaughtUp { high_water: last_op_id },
            ServerFrame::Live { .. } => a is ApplyLive,
            ServerFrame::Ack { local_id, op_id } => a matches FrameAction::MarkSent { local_id: l, op_id: o }
                && l@ == local_id@ && o == op_id,
            ServerFrame::Error { code, message } => a matches FrameAction::Disconnect { reason }
                && reason@ == server_error_reason(code@, message@),
            ServerFrame::Ping => a is Ignore,
            ServerFrame::Pong => a is Ignore,
        },
{
    match frame {
        ServerFrame::Ops { .. } => FrameAction::ApplyBatch,
        ServerFrame::CaughtUp { last_op_id } => FrameAction::CaughtUp { high_water: *last_op_id },
        ServerFrame::Live { .. } => FrameAction::ApplyLive,
        ServerFrame::Ack { local_id, op_id } => FrameAction::MarkSent { local_id: local_id.clone(), op_id: *op_id },
        ServerFrame::Error { code, message } => {
            let mut reason = String::from_str("server: ");
            reason.append(code.as_str());
            reason.append(": ");
            reason.append(message.as_str());
            FrameAction::Disconnect { reason }
        },
        ServerFrame::Ping => FrameAction::Ignore,
        ServerFrame::Pong => FrameAction::Ignore,
    }
}

/// What becomes of one op the server sent.
pub enum ServerOpOutcome {
    /// The payload is not hex: the frame fails with this text.
    BadHex { reason: String },
    /// The payload does not open under the vault key: the op is skipped
    /// and the cursor still advances past it.
    Skip { op_id: i64 },
    /// The opened payload, to be decoded and applied.
    Apply { op_id: i64, payload: Vec<u8> },
}

/// Decodes the hex payload of a server op and opens it under the vault
/// key, with the op's target kind as associated data.
pub fn open_server_op(op: &ServerOp, vault_key: &VaultKey) -> (r: ServerOpOutcome)
    ensures
        match hex_decode_chars(op.payload@) {
            None => r is BadHex,
            Some(blob) => match aead_opened(vault_key.0@, blob, vstd::utf8::encode_utf8(op.target_kind@)) {
                None => r == ServerOpOutcome::Skip { op_id: op.id },
                Some(p) => r matches ServerOpOutcome::Apply { op_id, payload } && op_id == op.id && payload@ == p,
            },
        },
{
    let blob = match hex_decode(op.payload.as_str()) {
        Ok(b) => b,
        Err(e) => {
            let mut reason = String::from_str("hex payload: ");
            reason.append(e.as_str());
            return ServerOpOutcome::BadHex { reason };
        },
    };
    match open_op_payload(op.target_kind.as_str(), blob.as_slice(), vault_key) {
        Ok(payload) => ServerOpOutcome::Apply { op_id: op.id, payload },
        Err(_) => ServerOpOutcome::Skip { op_id: op.id },
    }
}

/// The worker's applied cursor after handling op `op_id`, whether it
/// was applied or skipped as undecryptable.
pub fn applied_after(last_applied: i64, op_id: i64) -> (r: i64)
    ensures
        r == if op_id > last_applied { op_id } else { last_applied },
{
    if op_id > last_applied { op_id } else { last_applied }
}

} // verus!
