use audire::access::{lookup_response, ApiError, UserLookup};
use audire::asr_session::{asr_route, check_audio_sources, pipeline_result, AsrRoute, PipelineEnd};
use audire::audio::{idle_keepalive, FrameQueue, KEEPALIVE_MS, SEND_QUEUE_FRAMES};
use audire::error::ParaError;
use audire::notes::normalize_template_kind;

#[test]
fn capture_needs_one_audio_source() {
    assert!(check_audio_sources(true, false).is_ok());
    assert!(check_audio_sources(false, true).is_ok());
    assert!(check_audio_sources(true, true).is_ok());
    match check_audio_sources(false, false) {
        Err(ParaError::Audio(m)) => {
            assert_eq!(m, "no audio source available: both mic and system audio failed")
        }
        other => panic!("unexpected: {:?}", other),
    }
}

#[test]
fn provider_names_select_a_recognizer() {
    assert_eq!(asr_route("deepgram").unwrap(), AsrRoute::Deepgram);
    assert_eq!(asr_route("assemblyai").unwrap(), AsrRoute::AssemblyAi);
    assert_eq!(asr_route("mock").unwrap(), AsrRoute::Mock);
    match asr_route("whisper") {
        Err(ParaError::Asr(m)) => assert_eq!(m, "unknown provider: whisper"),
        other => panic!("unexpected: {:?}", other),
    }
}

#[test]
fn capture_ends_by_what_stopped_first() {
    assert!(pipeline_result(PipelineEnd::Stopped).is_ok());
    match pipeline_result(PipelineEnd::TranscriptEnded) {
        Err(ParaError::Asr(m)) => assert_eq!(m, "transcription stream ended before capture was stopped"),
        other => panic!("unexpected: {:?}", other),
    }
    match pipeline_result(PipelineEnd::AudioEnded) {
        Err(ParaError::Audio(m)) => assert_eq!(m, "audio capture stream stopped unexpectedly"),
        other => panic!("unexpected: {:?}", other),
    }
}

#[test]
fn idle_sender_keeps_session_alive_with_silence() {
    assert_eq!(KEEPALIVE_MS, 200);
    assert!(idle_keepalive(0).is_none());
    assert!(idle_keepalive(199).is_none());
    let f = idle_keepalive(200).unwrap();
    assert_eq!(f.len(), 3200);
    assert!(f.iter().all(|b| *b == 0));
    assert_eq!(idle_keepalive(5000).unwrap().len(), 3200);
}

#[test]
fn lookup_resolves_only_registered_users() {
    let u = UserLookup { id: 7, email: "a@b.c".to_string(), public_key: vec![1u8; 32] };
    let r = lookup_response(Some(u)).unwrap();
    assert_eq!(r.id, 7);
    assert_eq!(r.email, "a@b.c");
    assert_eq!(r.public_key, vec![1u8; 32]);
    match lookup_response(None) {
        Err(ApiError::NotFound(m)) => assert_eq!(m, "no audire user with that email"),
        other => panic!("unexpected: {:?}", other),
    }
}

#[test]
fn normalized_template_kind_is_stable() {
    for raw in ["  Sales_Call ", "STANDUP", "retro", "", "One_On_One", "client_review"] {
        let once = normalize_template_kind(Some(raw));
        assert_eq!(normalize_template_kind(Some(once.as_str())), once);
    }
    assert_eq!(normalize_template_kind(Some("STANDUP")), "standup");
    assert_eq!(normalize_template_kind(Some("retro")), "generic");
}

#[test]
fn full_send_queue_drops_oldest_frame() {
    let mut q = FrameQueue::new(SEND_QUEUE_FRAMES);
    assert_eq!(SEND_QUEUE_FRAMES, 32);
    for i in 0..32u8 {
        assert!(q.push(vec![i]).is_none());
    }
    assert_eq!(q.len(), 32);
    assert_eq!(q.push(vec![32]), Some(vec![0]));
    assert_eq!(q.push(vec![33]), Some(vec![1]));
    assert_eq!(q.len(), 32);
    assert_eq!(q.pop(), Some(vec![2]));
    assert_eq!(q.len(), 31);
    let mut last = None;
    while let Some(f) = q.pop() {
        last = Some(f);
    }
    assert_eq!(last, Some(vec![33]));
    assert_eq!(q.pop(), None);
}
