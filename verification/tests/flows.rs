use audire::access::{
    check_public_key_len, check_rotation_includes_caller, check_signup_public_key, socket_access, CreateOrgRequest,
    CreateUserRequest, SyncQuery, on_client_frame, on_live_event, own_device_after, replay_step, ReplayStep, org_name_for_create,
    parse_org_role, parse_vault_role, replay_cursor_after, require_org_admin, require_org_member, require_vault_owner,
    vault_role_str, ApiError, ClientFrame, LiveEvent, LiveReply, OrgRole, SocketReply, VaultRole,
};
use audire::asr_session::{asr_connection, close_messages, mock_events};
use audire::capture::{check_stop_capture, detection_response, export_file_name, plan_start_capture, PromptResponse};
use audire::error::ParaError;
use audire::keys::{check_key_provider, entry_name, pick_key, provider_env_var, resolve_provider_source};
use audire::llm::{any_llm_key, has_any_llm_key, LlmRegistry};
use audire::keys::KeyVault;
use audire::recipe::{build_transcript_context, check_recipe, meeting_context, prompt_for_recipe, rule_based_summary, RecipeScope};
use audire::structured::SegmentRow;
use audire::worker::{applied_after, frame_action, next_backoff, ws_url, FrameAction, ServerFrame};

fn seg(id: i64, ts_ms: i64, text: &str) -> SegmentRow {
    SegmentRow { id, source: "SYS".to_string(), ts_ms, text: text.to_string(), confidence_bits: None }
}

#[test]
fn start_capture_rules() {
    match plan_start_capture(true, "mock".to_string(), None, None, None, None) {
        Err(ParaError::InvalidState(m)) => assert_eq!(m, "capture already running"),
        _ => panic!("a second capture is refused"),
    }
    match plan_start_capture(false, "deepgram".to_string(), None, None, None, None) {
        Err(ParaError::MissingKey(p)) => assert_eq!(p, "deepgram"),
        _ => panic!("a key is needed"),
    }
    let mock = plan_start_capture(false, "mock".to_string(), None, None, None, Some(7)).ok().unwrap();
    assert_eq!(mock.asr_key, "");
    assert!(mock.config.include_mic);
    assert_eq!(mock.config.mode, "system");
    assert_eq!(mock.config.target_process, Some(7));
    let dg = plan_start_capture(false, "deepgram".to_string(), Some("k".to_string()), Some("process".to_string()), Some(false), None)
        .ok()
        .unwrap();
    assert_eq!(dg.asr_key, "k");
    assert_eq!(dg.config.mode, "process");
    assert!(!dg.config.include_mic);
    assert_eq!(ParaError::MissingKey("x".to_string()).message(), "missing BYOK key for provider: x");
}

#[test]
fn stop_capture_rules() {
    let mut running = Some("m1".to_string());
    match check_stop_capture(&mut running, "m2") {
        Err(ParaError::InvalidState(m)) => assert_eq!(m, "meeting_id mismatch"),
        _ => panic!("mismatch"),
    }
    assert_eq!(running.as_deref(), Some("m1"));
    assert!(check_stop_capture(&mut running, "m1").is_ok());
    assert!(running.is_none());
    match check_stop_capture(&mut running, "m1") {
        Err(ParaError::InvalidState(m)) => assert_eq!(m, "no capture running"),
        _ => panic!("none running"),
    }
}

#[test]
fn detection_prompt_answers() {
    match detection_response("accept", false, None, Some("dg".to_string())) {
        Ok(PromptResponse::Accept { start }) => {
            assert_eq!(start.config.provider, "deepgram");
            assert_eq!(start.asr_key, "dg");
        }
        _ => panic!("accept with a deepgram key"),
    }
    match detection_response("accept", false, Some("aai".to_string()), Some("dg".to_string())) {
        Ok(PromptResponse::Accept { start }) => assert_eq!(start.config.provider, "assemblyai"),
        _ => panic!("assemblyai preferred"),
    }
    match detection_response("accept", false, None, None) {
        Err(ParaError::MissingKey(m)) => assert_eq!(m, "No ASR key configured"),
        _ => panic!("no key"),
    }
    match detection_response("accept", true, Some("aai".to_string()), None) {
        Err(ParaError::InvalidState(m)) => assert_eq!(m, "capture already running"),
        _ => panic!("one capture at a time"),
    }
    match detection_response("expired", true, None, None) {
        Ok(PromptResponse::Record { action }) => assert_eq!(action, "expired"),
        _ => panic!("recorded"),
    }
    match detection_response("snooze", false, None, None) {
        Err(ParaError::Other(m)) => assert_eq!(m, "Invalid action: snooze"),
        _ => panic!("invalid"),
    }
    assert_eq!(export_file_name("abc"), "meeting-abc.md");
}

#[test]
fn provider_keys() {
    assert_eq!(provider_env_var("openai"), Some("AUDIRE_OPENAI_API_KEY"));
    assert_eq!(provider_env_var("gemini"), None);
    assert_eq!(entry_name("deepgram"), "provider:deepgram");
    assert_eq!(pick_key(Some("env".to_string()), Some("stored".to_string())), Some("env".to_string()));
    assert_eq!(pick_key(None, Some("stored".to_string())), Some("stored".to_string()));
    assert_eq!(check_key_provider("OpenAI").ok(), Some("openai".to_string()));
    match check_key_provider("Foo") {
        Err(ParaError::KeyVault(m)) => assert_eq!(m, "unknown provider: foo"),
        _ => panic!("unknown provider"),
    }
    let kv = KeyVault::new("audire-test");
    assert_eq!(kv.get_provider_key("deepgram", Some("from-env".to_string())), Some("from-env".to_string()));
    assert!(kv.has_provider_key("deepgram", Some("from-env".to_string())));
    let s = resolve_provider_source("openai", None, false, true);
    assert_eq!(s.source, "missing");
    assert!(!s.has_org_key);
    let s = resolve_provider_source("openai", Some(4), false, true);
    assert_eq!(s.source, "org_shared");
    let s = resolve_provider_source("openai", Some(4), true, true);
    assert_eq!(s.source, "personal");
}

#[test]
fn llm_attempt_order() {
    let reg = LlmRegistry::new(vec![
        ("anthropic".to_string(), "Anthropic".to_string()),
        ("openai".to_string(), "OpenAI GPT".to_string()),
        ("gemini".to_string(), "Google Gemini".to_string()),
        ("ollama".to_string(), "Ollama (Local)".to_string()),
    ]);
    assert_eq!(reg.attempt_order("gemini", &[true, false, true, true]), vec![2, 0, 3]);
    assert_eq!(reg.attempt_order("openai", &[true, false, true, true]), vec![0, 2, 3]);
    assert_eq!(reg.attempt_order("none", &[false, false, false, true]), vec![3]);
    let list = reg.list(&[true, false]);
    assert_eq!(list.len(), 4);
    assert_eq!(list[3].name, "Ollama (Local)");
    assert!(list[0].available);
    assert!(!list[3].available);
    assert_eq!(reg.test_target("gemini", &[true, true, true, true]), Ok(2));
    assert_eq!(reg.test_target("x", &[]), Err("Unknown provider: x".to_string()));
    assert_eq!(
        reg.test_target("openai", &[true, false]),
        Err("Provider 'openai' is not configured (missing API key or endpoint).".to_string())
    );
    assert!(has_any_llm_key(&KeyVault::new("audire-test"), None, Some("k".to_string()), None));
    assert!(!any_llm_key(false, false, false));
    assert!(any_llm_key(false, false, true));
}

#[test]
fn recipes() {
    assert!(matches!(check_recipe("weekly_recap"), Ok(RecipeScope::RecentMeetings)));
    assert!(matches!(check_recipe("summary"), Ok(RecipeScope::Meeting)));
    match check_recipe("poem") {
        Err(ParaError::InvalidState(m)) => assert_eq!(m, "unknown recipe_id: poem"),
        _ => panic!("unknown recipe"),
    }
    let (system, user) = prompt_for_recipe("other", "ctx");
    assert_eq!(system, "You are a helpful assistant.");
    assert_eq!(user, "Here is the meeting context:\n\nctx\n\nPlease generate the requested output.");
    assert_eq!(
        meeting_context("", &[]),
        "## Transcript\n(no transcript available)\n\n## User Notes\n(no user notes)"
    );
    assert_eq!(meeting_context("t", &["a".to_string(), "b".to_string()]), "## Transcript\nt\n\n## User Notes\na\nb");
    assert!(rule_based_summary("md").starts_with("md\n\n---\n*Rule-based summary."));
}

#[test]
fn transcript_context_samples_and_fits_the_budget() {
    assert_eq!(build_transcript_context(&[], 100), "");
    let segs: Vec<SegmentRow> = (0..9).map(|i| seg(i, i * 1000, &format!("s{}", i))).collect();
    // begin 0..3, middle 3 (one), end 8, 7, 6
    let all = build_transcript_context(&segs, 10_000);
    assert_eq!(
        all,
        "[00:00] s0\n[00:01] s1\n[00:02] s2\n[00:03] s3\n[00:08] s8\n[00:07] s7\n[00:06] s6\n"
    );
    let cut = build_transcript_context(&segs, 25);
    assert_eq!(cut, "[00:00] s0\n[00:01] s1\n");
    let two = vec![seg(5, 0, "a"), seg(5, 1000, "b")];
    assert_eq!(build_transcript_context(&two, 100), "[00:00] a\n");
}

#[test]
fn access_rules() {
    assert!(require_org_member(Some("member")).is_ok());
    assert!(require_org_member(None).is_err());
    assert!(require_org_admin(Some("admin")).is_ok());
    assert!(require_org_admin(Some("member")).is_err());
    assert!(require_vault_owner(Some("owner")).is_ok());
    assert!(require_vault_owner(Some("editor")).is_err());
    assert!(matches!(parse_vault_role("reader"), VaultRole::Reader));
    assert_eq!(vault_role_str(VaultRole::Editor), "editor");
    assert!(matches!(parse_org_role("owner"), OrgRole::Owner));
    let org = |n: &str| CreateOrgRequest { name: n.to_string() };
    match org_name_for_create(&org("   ")) {
        Err(ApiError::BadRequest(m)) => assert_eq!(m, "org name cannot be empty"),
        _ => panic!("empty name"),
    }
    assert_eq!(org_name_for_create(&org(" Acme ")).ok(), Some("Acme".to_string()));
    assert!(check_rotation_includes_caller(&[1, 2, 3], 2).is_ok());
    assert!(check_rotation_includes_caller(&[1, 3], 2).is_err());
    let user = |k: &[u8]| CreateUserRequest { public_key: k.to_vec(), wrapped_kek_for_recovery: vec![9u8; 72] };
    assert!(check_signup_public_key(&user(&[1u8; 32]), &[1u8; 32]).is_ok());
    assert!(matches!(check_signup_public_key(&user(&[1u8; 31]), &[]), Err(ApiError::BadRequest(_))));
    assert!(matches!(check_signup_public_key(&user(&[1u8; 32]), &[2u8; 32]), Err(ApiError::Conflict(_))));
    assert!(check_public_key_len(&user(&[1u8; 32])).is_ok());
    match check_public_key_len(&user(&[1u8; 33])) {
        Err(ApiError::BadRequest(m)) => assert_eq!(m, "public_key must be 32 bytes (X25519)"),
        _ => panic!("long key"),
    }
    assert_eq!(SyncQuery::default().since, 0);
    assert_eq!(socket_access(Some("editor")).ok(), Some(true));
    assert_eq!(socket_access(Some("reader")).ok(), Some(false));
    match socket_access(None) {
        Err(ApiError::NotFound(m)) => assert_eq!(m, "vault not found or no access"),
        _ => panic!("non-member"),
    }
    assert_eq!(ApiError::Internal.response_parts().2, "internal error");
    assert!(matches!(on_client_frame(&ClientFrame::Append { vault_id: 1 }, 2, true), SocketReply::SendError { code: "wrong_vault", .. }));
    assert!(matches!(on_client_frame(&ClientFrame::Append { vault_id: 1 }, 1, false), SocketReply::SendError { code: "forbidden", .. }));
    assert!(matches!(on_client_frame(&ClientFrame::Append { vault_id: 1 }, 1, true), SocketReply::StoreAndAck));
    assert!(matches!(on_live_event(&LiveEvent::Op { device: 5 }, Some(5)), LiveReply::Skip));
    assert!(matches!(on_live_event(&LiveEvent::Op { device: 5 }, Some(6)), LiveReply::Forward));
    assert!(matches!(on_live_event(&LiveEvent::Op { device: 5 }, None), LiveReply::Forward));
    assert_eq!(own_device_after(None, 7), Some(7));
    assert_eq!(own_device_after(Some(3), 7), Some(3));
    assert!(matches!(replay_step(4, &[]), ReplayStep::SendCaughtUp));
    assert!(matches!(replay_step(4, &[5, 6, 9]), ReplayStep::SendOps { cursor: 9 }));
    assert_eq!(replay_cursor_after(3, &[4, 9]), 9);
    assert_eq!(replay_cursor_after(3, &[]), 3);
}

#[test]
fn worker_rules() {
    assert_eq!(next_backoff(1), 2);
    assert_eq!(next_backoff(16), 30);
    assert_eq!(ws_url("https://sync.example.com/", "v1", 42), "wss://sync.example.com/v1/sync/v1?since=42");
    assert_eq!(ws_url("http://localhost:8080", "v", 0), "ws://localhost:8080/v1/sync/v?since=0");
    match frame_action(&ServerFrame::Error { code: "c".to_string(), message: "m".to_string() }) {
        FrameAction::Disconnect { reason } => assert_eq!(reason, "server: c: m"),
        _ => panic!("errors disconnect"),
    }
    assert!(matches!(frame_action(&ServerFrame::CaughtUp { last_op_id: 8 }), FrameAction::CaughtUp { high_water: 8 }));
    assert_eq!(applied_after(3, 2), 3);
}

#[test]
fn recognizer_sessions() {
    let dg = asr_connection("deepgram", "k").unwrap();
    assert_eq!(dg.authorization, "Token k");
    assert!(dg.url.starts_with("wss://api.deepgram.com/v2/listen?"));
    let aai = asr_connection("assemblyai", "k").unwrap();
    assert_eq!(aai.authorization, "k");
    assert!(asr_connection("mock", "k").is_none());
    assert_eq!(close_messages("assemblyai"), vec!["{\"type\":\"ForceEndpoint\"}", "{\"type\":\"Terminate\"}"]);
    assert_eq!(close_messages("mock").len(), 0);
    let events = mock_events();
    assert_eq!(events[0].text, "Welcome");
    assert_eq!(events[1].text, "Welcome everyone");
    assert!(!events[1].is_final);
    assert_eq!(events[5].text, "Welcome everyone to the meeting.");
    assert!(events[5].is_final);
    assert_eq!(events[6].turn_index, 1);
    assert_eq!(events.len(), 5 + 6 + 9 + 8 + 7 + 5);
}
