use audire::crypto::{random_array, VaultKey};
use audire::ops::{advance_cursor, open_op_payload, plan_apply, seal_op_payload, LocalRow, Op, RowWrite};

fn note_upsert_json(remote_id: &str, title: &str, text: &str) -> Vec<u8> {
    let mut m = serde_json::Map::new();
    m.insert("op".to_string(), serde_json::Value::String("standalone_note_upsert".to_string()));
    m.insert("remote_id".to_string(), serde_json::Value::String(remote_id.to_string()));
    m.insert("folder_remote_id".to_string(), serde_json::Value::Null);
    m.insert("title".to_string(), serde_json::Value::String(title.to_string()));
    m.insert("text".to_string(), serde_json::Value::String(text.to_string()));
    serde_json::to_vec(&serde_json::Value::Object(m)).unwrap()
}

#[test]
fn op_seal_round_trip() {
    let key = VaultKey(random_array::<32>().unwrap());
    let op = Op::StandaloneNoteUpsert {
        remote_id: "abc".into(),
        folder_remote_id: None,
        title: "hello".into(),
        text: "world".into(),
    };
    let json = note_upsert_json("abc", "hello", "world");
    let blob = seal_op_payload(op.target_kind(), &json, &key).unwrap();
    let decoded = open_op_payload(op.target_kind(), &blob, &key).unwrap();
    let value: serde_json::Value = serde_json::from_slice(&decoded).unwrap();
    match value.get("op").and_then(|v| v.as_str()) {
        Some("standalone_note_upsert") => {
            assert_eq!(value.get("title").and_then(|v| v.as_str()), Some("hello"));
            assert_eq!(value.get("text").and_then(|v| v.as_str()), Some("world"));
        }
        _ => panic!("wrong variant"),
    }
}

#[test]
fn relabelled_payload_does_not_open() {
    let key = VaultKey(random_array::<32>().unwrap());
    let blob = seal_op_payload("folder.upsert", b"{}", &key).unwrap();
    assert!(open_op_payload("standalone_note.upsert", &blob, &key).is_err());
}

#[test]
fn target_kinds() {
    let del = Op::FolderDelete { remote_id: "f".into() };
    assert_eq!(del.target_kind(), "folder.delete");
    assert_eq!(del.remote_id(), "f");
    let nd = Op::StandaloneNoteDelete { remote_id: "n".into() };
    assert_eq!(nd.target_kind(), "standalone_note.delete");
}

#[test]
fn replayed_op_is_already_applied() {
    let op = Op::FolderDelete { remote_id: "f".into() };
    let first = plan_apply(5, 6, 7, &op, None, 0, 0);
    assert!(matches!(first.write, RowWrite::Delete));
    assert_eq!(first.cursor, 7);
    assert_eq!(first.remote, 7);
    let again = plan_apply(first.cursor, first.remote, 7, &op, None, 0, 0);
    assert!(matches!(again.write, RowWrite::AlreadyApplied));
    assert_eq!(again.cursor, 7);
    assert_eq!(again.remote, 7);
}

#[test]
fn newer_upsert_wins_and_older_keeps_local() {
    let op = Op::StandaloneNoteUpsert { remote_id: "n".into(), folder_remote_id: None, title: "t".into(), text: "x".into() };
    let row = LocalRow { id: 3, updated_at: 100 };
    let newer = plan_apply(0, 0, 1, &op, Some(row), 100_999, 0);
    assert!(matches!(newer.write, RowWrite::Update { id: 3, updated_at: 100 }));
    let older = plan_apply(0, 12, 1, &op, Some(row), 99_999, 0);
    assert!(matches!(older.write, RowWrite::KeepLocal));
    assert_eq!((older.cursor, older.remote), (1, 12));
    let lost = plan_apply(0, 0, 5, &op, Some(row), 99_999, 0);
    assert!(matches!(lost.write, RowWrite::KeepLocal));
    assert_eq!((lost.cursor, lost.remote), (5, 5));
}

#[test]
fn inserts_take_the_right_timestamp() {
    let folder = Op::FolderUpsert { remote_id: "f".into(), name: "n".into(), kind: "k".into(), color: None, description: None };
    let p = plan_apply(0, 0, 2, &folder, None, 5_000, 42);
    assert!(matches!(p.write, RowWrite::Insert { updated_at: 42 }));
    let note = Op::StandaloneNoteUpsert { remote_id: "n".into(), folder_remote_id: None, title: "t".into(), text: "x".into() };
    let q = plan_apply(0, 0, 2, &note, None, -1_500, 42);
    assert!(matches!(q.write, RowWrite::Insert { updated_at: -1 }));
}

#[test]
fn undecryptable_op_still_moves_the_cursor() {
    assert_eq!(advance_cursor(4, 4, 9), (9, 9));
    assert_eq!(advance_cursor(9, 12, 4), (9, 12));
}
