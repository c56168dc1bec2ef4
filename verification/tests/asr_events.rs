use audire::asr::{event_for_provider, receive_action, AsrEvent, AsrMessage, ReceiverAction};

fn message(
    msg_type: Option<&str>,
    event: Option<&str>,
    transcript: Option<&str>,
    text: Option<&str>,
    turn_is_formatted: Option<bool>,
    is_final: Option<bool>,
) -> AsrMessage {
    AsrMessage {
        msg_type: msg_type.map(|s| s.to_string()),
        event: event.map(|s| s.to_string()),
        transcript: transcript.map(|s| s.to_string()),
        text: text.map(|s| s.to_string()),
        turn_is_formatted,
        is_final,
    }
}

#[test]
fn test_deepgram_flux_start_of_turn() {
    let ev = AsrEvent::DeepgramFlux(message(Some("TurnInfo"), Some("StartOfTurn"), Some("Hello"), None, None, None));
    assert_eq!(ev.partial_text(), Some("Hello".to_string()));
    assert_eq!(ev.final_text(), None);
    assert!(!ev.is_termination());
}

#[test]
fn test_deepgram_flux_update() {
    let ev = AsrEvent::DeepgramFlux(message(Some("TurnInfo"), Some("Update"), Some("Hello world"), None, None, None));
    assert_eq!(ev.partial_text(), Some("Hello world".to_string()));
    assert_eq!(ev.final_text(), None);
}

#[test]
fn test_deepgram_flux_eager_eot() {
    let ev = AsrEvent::DeepgramFlux(message(
        Some("TurnInfo"),
        Some("EagerEndOfTurn"),
        Some("Hello world how are you"),
        None,
        None,
        None,
    ));
    assert_eq!(ev.partial_text(), Some("Hello world how are you".to_string()));
    assert_eq!(ev.final_text(), None);
}

#[test]
fn test_deepgram_flux_turn_resumed() {
    let ev = AsrEvent::DeepgramFlux(message(
        Some("TurnInfo"),
        Some("TurnResumed"),
        Some("Hello world how are you doing"),
        None,
        None,
        None,
    ));
    assert!(ev.partial_text().is_some());
    assert_eq!(ev.final_text(), None);
}

#[test]
fn test_deepgram_flux_end_of_turn() {
    let ev = AsrEvent::DeepgramFlux(message(
        Some("TurnInfo"),
        Some("EndOfTurn"),
        Some("Hello world how are you doing today"),
        None,
        None,
        None,
    ));
    assert_eq!(ev.partial_text(), None);
    assert_eq!(ev.final_text(), Some("Hello world how are you doing today".to_string()));
}

#[test]
fn test_deepgram_connected_ignored() {
    let ev = AsrEvent::DeepgramFlux(message(Some("Connected"), None, None, None, None, None));
    assert_eq!(ev.partial_text(), None);
    assert_eq!(ev.final_text(), None);
}

#[test]
fn test_deepgram_error_is_termination() {
    let ev = AsrEvent::DeepgramFlux(message(Some("Error"), None, None, None, None, None));
    assert!(ev.is_termination());
}

#[test]
fn test_aai_begin_ignored() {
    let ev = AsrEvent::AssemblyAi(message(Some("Begin"), None, None, None, None, None));
    assert_eq!(ev.partial_text(), None);
    assert_eq!(ev.final_text(), None);
    assert!(!ev.is_termination());
}

#[test]
fn test_aai_turn_partial() {
    let ev = AsrEvent::AssemblyAi(message(Some("Turn"), None, Some("Hello how are"), None, Some(false), None));
    assert_eq!(ev.partial_text(), Some("Hello how are".to_string()));
    assert_eq!(ev.final_text(), None);
}

#[test]
fn test_aai_turn_unformatted_eot_is_partial() {
    let ev = AsrEvent::AssemblyAi(message(Some("Turn"), None, Some("hello how are you today"), None, Some(false), None));
    assert_eq!(ev.partial_text(), Some("hello how are you today".to_string()));
    assert_eq!(ev.final_text(), None);
}

#[test]
fn test_aai_turn_final() {
    let ev = AsrEvent::AssemblyAi(message(Some("Turn"), None, Some("Hello, how are you today?"), None, Some(true), None));
    assert_eq!(ev.partial_text(), None);
    assert_eq!(ev.final_text(), Some("Hello, how are you today?".to_string()));
}

#[test]
fn test_aai_termination() {
    let ev = AsrEvent::AssemblyAi(message(Some("Termination"), None, None, None, None, None));
    assert!(ev.is_termination());
    assert_eq!(ev.partial_text(), None);
    assert_eq!(ev.final_text(), None);
}

#[test]
fn test_mock_partial() {
    let ev = AsrEvent::Mock(message(None, None, None, Some("testing"), None, Some(false)));
    assert_eq!(ev.partial_text(), Some("testing".to_string()));
    assert_eq!(ev.final_text(), None);
}

#[test]
fn test_mock_final() {
    let ev = AsrEvent::Mock(message(None, None, None, Some("testing complete"), None, Some(true)));
    assert_eq!(ev.partial_text(), None);
    assert_eq!(ev.final_text(), Some("testing complete".to_string()));
}

#[test]
fn empty_transcripts_are_not_shown() {
    let ev = AsrEvent::DeepgramFlux(message(Some("TurnInfo"), Some("EndOfTurn"), Some(""), None, None, None));
    assert_eq!(ev.final_text(), None);
    assert_eq!(ev.partial_text(), None);
}

#[test]
fn provider_names_pick_the_interpretation() {
    let m = message(Some("Turn"), None, Some("hi"), None, Some(true), None);
    let ev = event_for_provider("assemblyai", m);
    assert_eq!(ev.event_type(), "AssemblyAi");
    assert!(ev.is_formatted());
    let ev2 = event_for_provider("deepgram", message(Some("TurnInfo"), Some("Update"), Some("x"), None, None, None));
    assert_eq!(ev2.event_type(), "DeepgramFlux");
    let ev3 = event_for_provider("mock", message(None, None, None, Some("y"), None, Some(false)));
    assert_eq!(ev3.event_type(), "Mock");
}

#[test]
fn termination_stops_the_receiver() {
    let ev = AsrEvent::AssemblyAi(message(Some("Termination"), None, None, None, None, None));
    assert!(matches!(receive_action(&ev), ReceiverAction::Stop));
    let ev = AsrEvent::Mock(message(None, None, None, Some("done"), None, Some(true)));
    match receive_action(&ev) {
        ReceiverAction::Deliver { partial, final_text } => {
            assert_eq!(partial, None);
            assert_eq!(final_text, Some(("done".to_string(), true)));
        }
        ReceiverAction::Stop => panic!("a final is delivered"),
    }
}
