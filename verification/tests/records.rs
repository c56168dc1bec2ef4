use audire::capture::{session_row_or_default, SessionContext, SessionContextRow};
use audire::error::ParaError;
use audire::folders::{find_folder, FolderRow};
use audire::retrieval::like_text;
use audire::worker::{append_op, open_server_op, PendingOp, ServerOp, ServerOpOutcome};
use audire::crypto::new_vault_key;
use audire::hexcodec::{decode_hex_field, encode_hex_lower, HexFieldError};
use audire::ops::{folder_binding, note_binding, seal_op_payload, share_remote_id};

fn folder(id: i64, name: &str) -> FolderRow {
    FolderRow {
        id,
        name: name.to_string(),
        kind: "project".to_string(),
        color: None,
        ownership_scope: "local_only".to_string(),
        owner_user_id: None,
        owner_org_id: None,
        meeting_count: 0,
        note_count: 0,
        created_at: 1,
        updated_at: 1,
    }
}

#[test]
fn folder_lookup() {
    let fs = vec![folder(1, "a"), folder(2, "b"), folder(2, "c")];
    assert_eq!(find_folder(fs.clone(), 2).unwrap().name, "b");
    match find_folder(fs, -7) {
        Err(ParaError::InvalidState(m)) => assert_eq!(m, "unknown folder_id: -7"),
        other => panic!("unexpected {:?}", other),
    }
    assert!(find_folder(Vec::new(), 0).is_err());
}

#[test]
fn outbox_rows_become_append_ops() {
    let p = PendingOp {
        local_id: "n1".to_string(),
        target_kind: "note".to_string(),
        payload: vec![0x00, 0xab, 0xff],
        client_ts_ms: 42,
    };
    let a = append_op(p, "dev-1");
    assert_eq!(a.payload, "00abff");
    assert_eq!(a.device_id, "dev-1");
    assert_eq!(a.local_id, "n1");
    assert_eq!(a.target_kind, "note");
    assert_eq!(a.client_ts_ms, 42);
}

#[test]
fn session_rows() {
    let d = session_row_or_default(None);
    assert_eq!(d.mode, "local_only");
    assert_eq!(d.updated_at, 0);
    assert!(d.user_id.is_none());
    let row = SessionContextRow {
        mode: "signed_in".to_string(),
        user_id: Some("u".to_string()),
        email: Some("e@x".to_string()),
        active_org_id: None,
        updated_at: 9,
    };
    let kept = session_row_or_default(Some(row.clone()));
    assert_eq!(kept.updated_at, 9);
    let s = SessionContext::from(row);
    assert_eq!(s.mode, "signed_in");
    assert_eq!(s.email.as_deref(), Some("e@x"));
}

#[test]
fn server_ops_open_or_are_skipped() {
    let key = new_vault_key().unwrap();
    let blob = seal_op_payload("note", b"{\"x\":1}", &key).unwrap();
    let op = ServerOp { id: 9, target_kind: "note".to_string(), payload: encode_hex_lower(&blob), client_ts_ms: 1 };
    match open_server_op(&op, &key) {
        ServerOpOutcome::Apply { op_id, payload } => {
            assert_eq!(op_id, 9);
            assert_eq!(payload, b"{\"x\":1}".to_vec());
        }
        _ => panic!("should open"),
    }
    let other = new_vault_key().unwrap();
    assert!(matches!(open_server_op(&op, &other), ServerOpOutcome::Skip { op_id: 9 }));
    let relabelled = ServerOp { target_kind: "folder".to_string(), ..op };
    assert!(matches!(open_server_op(&relabelled, &key), ServerOpOutcome::Skip { op_id: 9 }));
    let bad = ServerOp { id: 3, target_kind: "note".to_string(), payload: "zz".to_string(), client_ts_ms: 1 };
    assert!(matches!(open_server_op(&bad, &key), ServerOpOutcome::BadHex { .. }));
}

#[test]
fn vault_bindings() {
    use_bindings();
}

fn use_bindings() {
    let s = |x: &str| Some(x.to_string());
    assert_eq!(folder_binding(Some((s("v"), s("r")))), Some(("v".to_string(), "r".to_string())));
    assert_eq!(folder_binding(Some((s("v"), None))), None);
    assert_eq!(folder_binding(None), None);
    assert_eq!(note_binding(Some((s("v"), s("n"), Some(4)))), Some(("v".to_string(), "n".to_string(), Some(4))));
    assert_eq!(note_binding(Some((None, s("n"), Some(4)))), None);
    assert_eq!(share_remote_id(s("kept")), s("kept"));
    let fresh = share_remote_id(None).unwrap();
    assert_eq!(&fresh[14..15], "4");
    assert_eq!(fresh.len(), 36);
    assert_eq!(fresh.matches('-').count(), 4);
    assert_ne!(Some(fresh), share_remote_id(None));
}

#[test]
fn substring_fallback_text() {
    assert_eq!(like_text("\"alpha\" OR beta AND gamma "), "alpha beta gamma");
    assert_eq!(like_text("ORANGE AND"), "ORANGE AND");
    assert_eq!(like_text("  \"\"  "), "");
}

#[test]
fn hex_fields_decode_strictly() {
    use_hex_fields();
}

fn use_hex_fields() {
    assert_eq!(decode_hex_field("00abFF").ok(), Some(vec![0x00, 0xab, 0xff]));
    assert!(matches!(decode_hex_field("abc"), Err(HexFieldError::OddLength)));
    assert!(matches!(decode_hex_field("+f"), Err(HexFieldError::InvalidDigit)));
    assert!(matches!(decode_hex_field("aéb"), Err(HexFieldError::InvalidDigit)));
    assert!(matches!(decode_hex_field("é"), Err(HexFieldError::InvalidDigit)));
    let bytes = vec![1u8, 2, 254];
    assert_eq!(decode_hex_field(&encode_hex_lower(&bytes)).ok(), Some(bytes));
}
