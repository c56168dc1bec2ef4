//! Sync operations: the op codec's framing and the rules for applying a
//! remote op to the local store.
//!
//! Conflict policy: last-write-wins on the op's client timestamp (in whole
//! seconds) against the local row's `updated_at`. Applying is idempotent
//! per op id: the per-vault cursor records the highest applied op id and
//! ops at or below it are skipped.

use vstd::prelude::*;
use vstd::string::StringSliceAdditionalSpecFns;
use crate::hexcodec::{hex_lower_chars, lemma_hex_lower_len};
use crate::crypto::{aead_seal, aead_open, aead_sealed, aead_opened, within_aead_limit, CryptoError, VaultKey};

verus! {

/// One synced change.
pub enum Op {
    FolderUpsert {
        remote_id: String,
        name: String,
        kind: String,
        color: Option<String>,
        description: Option<String>,
    },
    FolderDelete { remote_id: String },
    StandaloneNoteUpsert {
        remote_id: String,
        folder_remote_id: Option<String>,
        title: String,
        text: String,
    },
    StandaloneNoteDelete { remote_id: String },
}

/// The wire label of an op's kind.
pub open spec fn spec_target_kind(op: Op) -> Seq<char> {
    match op {
        Op::FolderUpsert { .. } => "folder.upsert"@,
        Op::FolderDelete { .. } => "folder.delete"@,
        Op::StandaloneNoteUpsert { .. } => "standalone_note.upsert"@,
        Op::StandaloneNoteDelete { .. } => "standalone_note.delete"@,
    }
}

impl Op {
    pub fn target_kind(&self) -> (r: &'static str)
        ensures
            r@ == spec_target_kind(*self),
    {
        match self {
            Op::FolderUpsert { .. } => "folder.upsert",
            Op::FolderDelete { .. } => "folder.delete",
            Op::StandaloneNoteUpsert { .. } => "standalone_note.upsert",
            Op::StandaloneNoteDelete { .. } => "standalone_note.delete",
        }
    }

    /// The remote id of the folder or note the op is about.
    pub fn remote_id(&self) -> (r: &String)
        ensures
            r == match *self {
                Op::FolderUpsert { remote_id, .. } => remote_id,
                Op::FolderDelete { remote_id } => remote_id,
                Op::StandaloneNoteUpsert { remote_id, .. } => remote_id,
                Op::StandaloneNoteDelete { remote_id } => remote_id,
            },
    {
        match self {
            Op::FolderUpsert { remote_id, .. } => remote_id,
            Op::FolderDelete { remote_id } => remote_id,
            Op::StandaloneNoteUpsert { remote_id, .. } => remote_id,
            Op::StandaloneNoteDelete { remote_id } => remote_id,
        }
    }
}

/// A note of a folder being shared, with the remote id it is shared under.
pub struct SharedNote {
    pub remote_id: String,
    pub title: String,
    pub text: String,
}

/// The ops that share a folder: the folder's upsert first, then one note
/// upsert per child note, in the notes' order, each filed under the
/// folder's remote id, so other members see the folder with its content.
pub fn share_folder_ops(
    remote_id: &str,
    name: String,
    kind: String,
    color: Option<String>,
    description: Option<String>,
    notes: Vec<SharedNote>,
) -> (ops: Vec<Op>)
    ensures
        ops@.len() == notes@.len() + 1,
        ops@[0] matches Op::FolderUpsert { remote_id: r, name: n, kind: k, color: c, description: d } && r@
            == remote_id@ && n == name && k == kind && c == color && d == description,
        forall|i: int|
            0 <= i < notes@.len() ==> (#[trigger] ops@[i + 1] matches Op::StandaloneNoteUpsert {
                remote_id: r,
                folder_remote_id: Some(f),
                title: t,
                text: x,
            } && r == notes@[i].remote_id && f@ == remote_id@ && t == notes@[i].title && x == notes@[i].text),
{
    let ghost src = notes@;
    let mut ops: Vec<Op> = Vec::new();
    ops.push(Op::FolderUpsert {
        remote_id: crate::text::to_owned_string(remote_id),
        name,
        kind,
        color,
        description,
    });
    for note in it: notes
        invariant
            it.seq() == src,
            ops@.len() == it.index() + 1,
            ops@[0] matches Op::FolderUpsert { remote_id: r, name: n, kind: k, color: c, description: d } && r@
                == remote_id@ && n == name && k == kind && c == color && d == description,
            forall|i: int|
                0 <= i < it.index() ==> (#[trigger] ops@[i + 1] matches Op::StandaloneNoteUpsert {
                    remote_id: r,
                    folder_remote_id: Some(f),
                    title: t,
                    text: x,
                } && r == src[i].remote_id && f@ == remote_id@ && t == src[i].title && x == src[i].text),
    {
        let SharedNote { remote_id: r, title, text } = note;
        ops.push(Op::StandaloneNoteUpsert {
            remote_id: r,
            folder_remote_id: Some(crate::text::to_owned_string(remote_id)),
            title,
            text,
        });
    }
    ops
}

/// Encrypts an encoded op payload with the vault key. The associated
/// data pins the target kind, so a payload relabelled with another kind
/// does not open.
pub fn seal_op_payload(target_kind: &str, payload: &[u8], vault_key: &VaultKey) -> (r: Result<Vec<u8>, CryptoError>)
    ensures
        match r {
            Ok(blob) => aead_sealed(blob@, vault_key.0@, payload@, target_kind.spec_bytes()) && within_aead_limit(
                payload@.len() as int,
            ),
            Err(e) => e is Rng || (e is Seal && !within_aead_limit(payload@.len() as int)),
        },
{
    aead_seal(&vault_key.0, payload, target_kind.as_bytes())
}

/// Decrypts an op payload sealed under `target_kind`.
pub fn open_op_payload(target_kind: &str, blob: &[u8], vault_key: &VaultKey) -> (r: Result<Vec<u8>, CryptoError>)
    ensures
        r matches Ok(p) ==> aead_opened(vault_key.0@, blob@, target_kind.spec_bytes()) == Some(p@),
        r matches Ok(p) ==> forall|m: Seq<u8>|
            #[trigger] aead_sealed(blob@, vault_key.0@, m, target_kind.spec_bytes()) && within_aead_limit(
                m.len() as int,
            ) ==> p@ == m,
        r is Err ==> forall|m: Seq<u8>|
            #[trigger] aead_sealed(blob@, vault_key.0@, m, target_kind.spec_bytes()) ==> !within_aead_limit(
                m.len() as int,
            ),
        r is Err ==> aead_opened(vault_key.0@, blob@, target_kind.spec_bytes()) is None,
        forall|m: Seq<u8>|
            #[trigger] aead_sealed(blob@, vault_key.0@, m, target_kind.spec_bytes()) && within_aead_limit(
                m.len() as int,
            ) ==> (r matches Ok(p) && p@ == m),
{
    aead_open(&vault_key.0, blob, target_kind.as_bytes())
}

/// The local row that carries the op's remote id, if any: its local id
/// and its `updated_at` in seconds.
#[derive(Clone, Copy)]
pub struct LocalRow {
    pub id: i64,
    pub updated_at: i64,
}

/// The write an op turns into.
pub enum RowWrite {
    /// The op was applied before (its id is at or below the cursor):
    /// nothing changes, not even the cursor.
    AlreadyApplied,
    /// Insert a new shared row with `updated_at` as given.
    Insert { updated_at: i64 },
    /// Overwrite local row `id` and set its `updated_at`.
    Update { id: i64, updated_at: i64 },
    /// The local row is newer than the op: keep it.
    KeepLocal,
    /// Delete the row with the op's remote id in this vault.
    Delete,
}

/// How to apply one remote op.
pub struct ApplyPlan {
    pub write: RowWrite,
    /// The cursor after the op: the highest op id applied so far.
    pub cursor: i64,
    /// The highest op id known on the server after the op.
    pub remote: i64,
}

/// Integer division rounding toward zero, as Rust's `/` does.
pub open spec fn div_trunc(a: int, b: int) -> int {
    if a >= 0 { a / b } else { -((-a) / b) }
}

/// Seconds of a millisecond timestamp, as `client_ts_ms / 1000` computes it.
pub open spec fn ts_seconds(ms: i64) -> int {
    div_trunc(ms as int, 1000)
}

/// The write for an op that was not applied before. Upserts win over a
/// local row when their timestamp in seconds is not older than the row's;
/// folder inserts are stamped with the local clock `now`, note inserts
/// with the op's own timestamp.
pub open spec fn spec_write(op: Op, existing: Option<LocalRow>, client_ts_ms: i64, now: i64) -> RowWrite {
    match op {
        Op::FolderUpsert { .. } => match existing {
            Some(row) => if ts_seconds(client_ts_ms) >= row.updated_at {
                RowWrite::Update { id: row.id, updated_at: ts_seconds(client_ts_ms) as i64 }
            } else {
                RowWrite::KeepLocal
            },
            None => RowWrite::Insert { updated_at: now },
        },
        Op::StandaloneNoteUpsert { .. } => match existing {
            Some(row) => if ts_seconds(client_ts_ms) >= row.updated_at {
                RowWrite::Update { id: row.id, updated_at: ts_seconds(client_ts_ms) as i64 }
            } else {
                RowWrite::KeepLocal
            },
            None => RowWrite::Insert { updated_at: ts_seconds(client_ts_ms) as i64 },
        },
        Op::FolderDelete { .. } => RowWrite::Delete,
        Op::StandaloneNoteDelete { .. } => RowWrite::Delete,
    }
}

/// The larger of two op ids.
pub open spec fn max_id(a: i64, b: i64) -> i64 {
    if a >= b { a } else { b }
}

/// The plan for op `op_id` against the vault's applied cursor and its
/// remote counter: an op not applied before moves the cursor to its id and
/// raises the remote counter to it, whether or not its write wins.
pub open spec fn spec_plan(
    cursor: i64,
    remote: i64,
    op_id: i64,
    op: Op,
    existing: Option<LocalRow>,
    client_ts_ms: i64,
    now: i64,
) -> ApplyPlan {
    if op_id <= cursor {
        ApplyPlan { write: RowWrite::AlreadyApplied, cursor, remote }
    } else {
        ApplyPlan { write: spec_write(op, existing, client_ts_ms, now), cursor: op_id, remote: max_id(remote, op_id) }
    }
}

/// Plans the application of remote op `op_id` given the vault's cursor
/// (the highest op id applied so far, 0 before any), its remote counter
/// (the highest op id known on the server) and the local row with the op's
/// remote id.
pub fn plan_apply(
    cursor: i64,
    remote: i64,
    op_id: i64,
    op: &Op,
    existing: Option<LocalRow>,
    client_ts_ms: i64,
    now: i64,
) -> (p: ApplyPlan)
    ensures
        p == spec_plan(cursor, remote, op_id, *op, existing, client_ts_ms, now),
{
    if op_id <= cursor {
        return ApplyPlan { write: RowWrite::AlreadyApplied, cursor, remote };
    }
    let secs: i64 = client_ts_ms / 1000;
    assert(secs as int == ts_seconds(client_ts_ms));
    let write = match op {
        Op::FolderUpsert { .. } => match existing {
            Some(row) => if secs >= row.updated_at {
                RowWrite::Update { id: row.id, updated_at: secs }
            } else {
                RowWrite::KeepLocal
            },
            None => RowWrite::Insert { updated_at: now },
        },
        Op::StandaloneNoteUpsert { .. } => match existing {
            Some(row) => if secs >= row.updated_at {
                RowWrite::Update { id: row.id, updated_at: secs }
            } else {
                RowWrite::KeepLocal
            },
            None => RowWrite::Insert { updated_at: secs },
        },
        Op::FolderDelete { .. } => RowWrite::Delete,
        Op::StandaloneNoteDelete { .. } => RowWrite::Delete,
    };
    let remote = if remote >= op_id { remote } else { op_id };
    ApplyPlan { write, cursor: op_id, remote }
}

/// The cursor and remote counter after skipping an op that cannot be
/// decrypted: both still move up to the op so the stream does not get
/// stuck on it.
pub fn advance_cursor(cursor: i64, remote: i64, op_id: i64) -> (c: (i64, i64))
    ensures
        c == (max_id(cursor, op_id), max_id(remote, op_id)),
{
    (if cursor >= op_id { cursor } else { op_id }, if remote >= op_id { remote } else { op_id })
}

// ---- Laws ----

/// Applying is idempotent: replaying an op against the cursor its first
/// application produced writes nothing and leaves the cursor as it is,
/// whatever the local rows look like by then.
pub proof fn law_apply_idempotent(
    cursor: i64,
    remote: i64,
    op_id: i64,
    op: Op,
    existing: Option<LocalRow>,
    ts: i64,
    now: i64,
    later_existing: Option<LocalRow>,
    later_now: i64,
)
    ensures
        ({
            let first = spec_plan(cursor, remote, op_id, op, existing, ts, now);
            let again = spec_plan(first.cursor, first.remote, op_id, op, later_existing, ts, later_now);
            again.write is AlreadyApplied && again.cursor == first.cursor && again.remote == first.remote
        }),
{
}

/// Neither counter moves backwards, and after an op the applied cursor is
/// at least that op's id; an op applied for the first time raises the
/// remote counter to at least its id, whatever its write.
pub proof fn law_cursor_monotone(
    cursor: i64,
    remote: i64,
    op_id: i64,
    op: Op,
    existing: Option<LocalRow>,
    ts: i64,
    now: i64,
)
    ensures
        cursor <= spec_plan(cursor, remote, op_id, op, existing, ts, now).cursor,
        op_id <= spec_plan(cursor, remote, op_id, op, existing, ts, now).cursor,
        remote <= spec_plan(cursor, remote, op_id, op, existing, ts, now).remote,
        op_id > cursor ==> op_id <= spec_plan(cursor, remote, op_id, op, existing, ts, now).remote,
{
}

/// Last write wins: an upsert overwrites an existing row exactly when
/// its timestamp in seconds is not older than the row's.
pub proof fn law_last_write_wins(op: Op, row: LocalRow, ts: i64, now: i64)
    requires
        op is FolderUpsert || op is StandaloneNoteUpsert,
    ensures
        spec_write(op, Some(row), ts, now) is Update <==> ts_seconds(ts) >= row.updated_at,
        spec_write(op, Some(row), ts, now) is KeepLocal <==> ts_seconds(ts) < row.updated_at,
{
}

/// A remote delete that was not applied before deletes the local row,
/// folder or standalone note alike, whatever the local row holds and
/// whenever either side wrote; it moves the cursor to the op and raises
/// the remote counter to it.
pub proof fn law_remote_delete_deletes(
    cursor: i64,
    remote: i64,
    op_id: i64,
    op: Op,
    existing: Option<LocalRow>,
    ts: i64,
    now: i64,
)
    requires
        op is FolderDelete || op is StandaloneNoteDelete,
        op_id > cursor,
    ensures
        spec_plan(cursor, remote, op_id, op, existing, ts, now).write is Delete,
        spec_plan(cursor, remote, op_id, op, existing, ts, now).cursor == op_id,
        spec_plan(cursor, remote, op_id, op, existing, ts, now).remote == if remote >= op_id { remote } else { op_id },
{
}

/// A remote upsert that is at least as new (in whole seconds) as the local
/// row overwrites that row and stamps it with the op's time; an older one
/// leaves the local row as it is. Either way the cursor moves to the op.
pub proof fn law_upsert_overwrites_older_row(
    cursor: i64,
    remote: i64,
    op_id: i64,
    op: Op,
    row: LocalRow,
    ts: i64,
    now: i64,
)
    requires
        op is FolderUpsert || op is StandaloneNoteUpsert,
        op_id > cursor,
    ensures
        ({
            let secs: int = if ts >= 0 { ts / 1000 } else { -((-ts) / 1000) };
            &&& secs >= row.updated_at ==> spec_plan(cursor, remote, op_id, op, Some(row), ts, now).write
                == (RowWrite::Update { id: row.id, updated_at: secs as i64 })
            &&& secs < row.updated_at ==> spec_plan(cursor, remote, op_id, op, Some(row), ts, now).write
                == RowWrite::KeepLocal
        }),
        spec_plan(cursor, remote, op_id, op, Some(row), ts, now).cursor == op_id,
{
}

/// A remote upsert of a row that does not exist here inserts it: a folder
/// stamped with the local time, a note with the op's time in seconds.
pub proof fn law_remote_upsert_inserts_missing(cursor: i64, remote: i64, op_id: i64, op: Op, ts: i64, now: i64)
    requires
        op is FolderUpsert || op is StandaloneNoteUpsert,
        op_id > cursor,
    ensures
        op is FolderUpsert ==> spec_plan(cursor, remote, op_id, op, None, ts, now).write == (RowWrite::Insert {
            updated_at: now,
        }),
        op is StandaloneNoteUpsert ==> spec_plan(cursor, remote, op_id, op, None, ts, now).write == (RowWrite::Insert {
            updated_at: ts_seconds(ts) as i64,
        }),
{
}

// ---- Vault bindings of folders and notes ----

/// A folder's sync binding from its stored `(vault_id, remote_id)`: only a
/// folder with both is synced.
pub fn folder_binding(row: Option<(Option<String>, Option<String>)>) -> (r: Option<(String, String)>)
    ensures
        match row {
            Some((Some(v), Some(id))) => r == Some((v, id)),
            _ => r is None,
        },
{
    match row {
        Some((Some(v), Some(id))) => Some((v, id)),
        _ => None,
    }
}

/// A standalone note's sync binding from its stored
/// `(vault_id, remote_id, folder_id)`: the vault, the note's remote id and
/// the local folder whose remote id the op carries.
pub fn note_binding(row: Option<(Option<String>, Option<String>, Option<i64>)>) -> (r: Option<(String, String, Option<i64>)>)
    ensures
        match row {
            Some((Some(v), Some(id), f)) => r == Some((v, id, f)),
            _ => r is None,
        },
{
    match row {
        Some((Some(v), Some(id), f)) => Some((v, id, f)),
        _ => None,
    }
}

/// The bytes of a version-4 UUID made from 16 random bytes: the version
/// nibble of byte 6 set to 4 and the variant bits of byte 8 set to `10`.
pub open spec fn uuid_v4_bytes(r: Seq<u8>) -> Seq<u8> {
    r.update(6, (r[6] & 0x0fu8) | 0x40u8).update(8, (r[8] & 0x3fu8) | 0x80u8)
}

/// The hyphenated lower-case text of a UUID's 16 bytes: 8-4-4-4-12 hex
/// digits.
pub open spec fn uuid_hyphenated(b: Seq<u8>) -> Seq<char> {
    hex_lower_chars(b.subrange(0, 4)) + seq!['-'] + hex_lower_chars(b.subrange(4, 6)) + seq!['-']
        + hex_lower_chars(b.subrange(6, 8)) + seq!['-'] + hex_lower_chars(b.subrange(8, 10)) + seq!['-']
        + hex_lower_chars(b.subrange(10, 16))
}

/// `uuid::Builder::from_random_bytes(random).into_uuid().to_string()`: the
/// version-4 UUID those random bytes make, in its hyphenated lower-case
/// form.
#[verifier::external_body]
fn uuid_v4_text(random: [u8; 16]) -> (s: String)
    ensures
        s@ == uuid_hyphenated(uuid_v4_bytes(random@)),
{
    uuid::Builder::from_random_bytes(random).into_uuid().to_string()
}

/// The remote id of a folder being shared: the one it already has, else a
/// fresh version-4 UUID from the system's random source; `None` when that
/// source fails.
pub fn share_remote_id(existing: Option<String>) -> (r: Option<String>)
    ensures
        match existing {
            Some(id) => r == Some(id),
            None => r matches Some(t) ==> t@.len() == 36 && exists|b: Seq<u8>|
                b.len() == 16 && t@ == uuid_hyphenated(uuid_v4_bytes(b)),
        },
{
    match existing {
        Some(id) => Some(id),
        None => match crate::crypto::random_array::<16>() {
            Ok(random) => {
                let t = uuid_v4_text(random);
                proof {
                    let b = uuid_v4_bytes(random@);
                    lemma_hex_lower_len(b.subrange(0, 4));
                    lemma_hex_lower_len(b.subrange(4, 6));
                    lemma_hex_lower_len(b.subrange(6, 8));
                    lemma_hex_lower_len(b.subrange(8, 10));
                    lemma_hex_lower_len(b.subrange(10, 16));
                    assert(random@.len() == 16);
                }
                Some(t)
            },
            Err(_) => None,
        },
    }
}

} // verus!
