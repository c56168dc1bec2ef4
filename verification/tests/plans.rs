use audire::access::{plan_signup, rotated_membership, ApiError, CreateUserRequest, SignupWrite};
use audire::capture::pick_monitor_device;
use audire::error::ParaError;
use audire::llm::{next_llm_step, LlmStep};
use audire::notes::generation_template;
use audire::ops::{share_folder_ops, Op, SharedNote};
use audire::text::replace_all;

fn req(pk: Vec<u8>) -> CreateUserRequest {
    CreateUserRequest { public_key: pk, wrapped_kek_for_recovery: vec![9u8; 72] }
}

#[test]
fn signup_is_idempotent() {
    let pk = vec![7u8; 32];
    assert_eq!(plan_signup(&req(pk.clone()), None).unwrap(), SignupWrite::CreateProfile);
    assert_eq!(plan_signup(&req(pk.clone()), Some(&pk)).unwrap(), SignupWrite::Unchanged);
    match plan_signup(&req(vec![8u8; 32]), Some(&pk)) {
        Err(ApiError::Conflict(m)) => assert_eq!(
            m,
            "public_key mismatch with existing profile; passphrase rotation not yet supported"
        ),
        other => panic!("unexpected: {:?}", other),
    }
    match plan_signup(&req(vec![7u8; 31]), None) {
        Err(ApiError::BadRequest(m)) => assert_eq!(m, "public_key must be 32 bytes (X25519)"),
        other => panic!("unexpected: {:?}", other),
    }
}

#[test]
fn rotation_keeps_listed_members_only() {
    assert_eq!(rotated_membership(&[1, 2, 3, 4], &[4, 2, 9]), vec![2, 4]);
    assert_eq!(rotated_membership(&[1, 2], &[]), Vec::<u128>::new());
    assert_eq!(rotated_membership(&[], &[1]), Vec::<u128>::new());
}

#[test]
fn generation_uses_request_then_meeting_template() {
    assert_eq!(generation_template(Some(" Standup "), "interview"), "standup");
    assert_eq!(generation_template(None, "interview"), "interview");
    assert_eq!(generation_template(None, "retro"), "generic");
    assert_eq!(generation_template(Some("unknown"), "interview"), "generic");
}

#[test]
fn monitor_device_is_first_monitor_or_loopback() {
    let names = vec![
        Some("Built-in Microphone".to_string()),
        None,
        Some("Loopback Audio".to_string()),
        Some("alsa_output.pci.Monitor".to_string()),
    ];
    assert_eq!(pick_monitor_device(&names).unwrap(), 2);
    match pick_monitor_device(&[Some("USB Mic".to_string()), None]) {
        Err(ParaError::Audio(m)) => {
            assert!(m.starts_with("no PulseAudio/PipeWire monitor source found. To capture system audio on Linux:\n1. "));
            assert!(m.ends_with("you may need to configure a loopback device."));
        }
        other => panic!("unexpected: {:?}", other),
    }
}

#[test]
fn sharing_a_folder_sends_folder_then_notes() {
    let notes = vec![
        SharedNote { remote_id: "n1".to_string(), title: "a".to_string(), text: "x".to_string() },
        SharedNote { remote_id: "n2".to_string(), title: "b".to_string(), text: "y".to_string() },
    ];
    let ops = share_folder_ops("f1", "Team".to_string(), "project".to_string(), None, Some("d".to_string()), notes);
    assert_eq!(ops.len(), 3);
    match &ops[0] {
        Op::FolderUpsert { remote_id, name, kind, color, description } => {
            assert_eq!(remote_id, "f1");
            assert_eq!(name, "Team");
            assert_eq!(kind, "project");
            assert!(color.is_none());
            assert_eq!(description.as_deref(), Some("d"));
        }
        _ => panic!("folder op first"),
    }
    for (k, (id, title, text)) in [("n1", "a", "x"), ("n2", "b", "y")].iter().enumerate() {
        match &ops[k + 1] {
            Op::StandaloneNoteUpsert { remote_id, folder_remote_id, title: t, text: x } => {
                assert_eq!(remote_id, id);
                assert_eq!(folder_remote_id.as_deref(), Some("f1"));
                assert_eq!(t, title);
                assert_eq!(x, text);
            }
            _ => panic!("note op"),
        }
    }
}

#[test]
fn llm_request_takes_first_success() {
    let order = [2usize, 0, 3];
    assert!(matches!(next_llm_step(&order, 0, None), LlmStep::Call(2)));
    assert!(matches!(next_llm_step(&order, 1, Some(Err("down".to_string()))), LlmStep::Call(0)));
    match next_llm_step(&order, 2, Some(Ok("answer".to_string()))) {
        LlmStep::Finish(Ok(t)) => assert_eq!(t, "answer"),
        other => panic!("unexpected: {:?}", other),
    }
    match next_llm_step(&order, 3, Some(Err("down".to_string()))) {
        LlmStep::Finish(Err(m)) => assert_eq!(m, "No LLM API key configured. Add an API key in Settings."),
        other => panic!("unexpected: {:?}", other),
    }
    match next_llm_step(&[], 0, None) {
        LlmStep::Finish(Err(m)) => assert_eq!(m, "No LLM API key configured. Add an API key in Settings."),
        other => panic!("unexpected: {:?}", other),
    }
}

#[test]
fn replace_with_empty_pattern_matches_std() {
    assert_eq!(replace_all("abc", "", "x"), "abc".replace("", "x"));
    assert_eq!(replace_all("", "", "x"), "x");
    assert_eq!(replace_all("a OR b", " OR ", " "), "a b");
}
