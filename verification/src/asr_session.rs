//! Streaming recognizer sessions: where each provider is reached, how it
//! is authorized, how a session is ended, and the scripted transcript of
//! the offline mock recognizer.

use vstd::prelude::*;
use crate::text::{str_eq, split_whitespace, words, seq_join, views, join_strings};
use crate::error::ParaError;

verus! {

/// How a recognizer's WebSocket is opened: address, host and the value of
/// the `Authorization` header.
pub struct AsrConnection {
    pub url: String,
    pub host: String,
    pub authorization: String,
}

pub open spec fn deepgram_url() -> Seq<char> {
    "wss://api.deepgram.com/v2/listen?model=flux-general-en&encoding=linear16&sample_rate=16000&eot_threshold=0.7&eot_timeout_ms=5000"@
}

pub open spec fn assemblyai_url() -> Seq<char> {
    "wss://streaming.assemblyai.com/v3/ws?speech_model=u3-rt-pro&sample_rate=16000&encoding=pcm_s16le&format_turns=true&end_of_turn_confidence_threshold=0.4&min_end_of_turn_silence_when_confident=100&max_turn_silence=1000&vad_threshold=0.4"@
}

/// The connection of a networked recognizer: Deepgram takes `Token <key>`,
/// AssemblyAI the bare key; other providers have none.
pub fn asr_connection(provider: &str, api_key: &str) -> (c: Option<AsrConnection>)
    ensures
        provider@ == "deepgram"@ ==> match c {
            Some(c) => c.url@ == deepgram_url() && c.host@ == "api.deepgram.com"@ && c.authorization@ == "Token "@ + api_key@,
            None => false,
        },
        provider@ == "assemblyai"@ ==> match c {
            Some(c) => c.url@ == assemblyai_url() && c.host@ == "streaming.assemblyai.com"@ && c.authorization@ == api_key@,
            None => false,
        },
        provider@ != "deepgram"@ && provider@ != "assemblyai"@ ==> c is None,
{
    proof {
        reveal_strlit("deepgram");
        reveal_strlit("assemblyai");
        assert("deepgram"@.len() == 8);
        assert("assemblyai"@.len() == 10);
        assert("deepgram"@ != "assemblyai"@);
    }
    if str_eq(provider, "deepgram") {
        let mut auth = String::from_str("Token ");
        auth.append(api_key);
        Some(AsrConnection {
            url: String::from_str("wss://api.deepgram.com/v2/listen?model=flux-general-en&encoding=linear16&sample_rate=16000&eot_threshold=0.7&eot_timeout_ms=5000"),
            host: String::from_str("api.deepgram.com"),
            authorization: auth,
        })
    } else if str_eq(provider, "assemblyai") {
        Some(AsrConnection {
            url: String::from_str("wss://streaming.assemblyai.com/v3/ws?speech_model=u3-rt-pro&sample_rate=16000&encoding=pcm_s16le&format_turns=true&end_of_turn_confidence_threshold=0.4&min_end_of_turn_silence_when_confident=100&max_turn_silence=1000&vad_threshold=0.4"),
            host: String::from_str("streaming.assemblyai.com"),
            authorization: String::from_str(api_key),
        })
    } else {
        None
    }
}

/// A capture needs at least one audio source: the microphone (when asked
/// for) or system audio. With neither started it is refused.
pub fn check_audio_sources(mic_started: bool, system_started: bool) -> (r: Result<(), ParaError>)
    ensures
        r is Ok <==> (mic_started || system_started),
        r is Err ==> (r matches Err(ParaError::Audio(m))
            && m@ == "no audio source available: both mic and system audio failed"@),
{
    if !mic_started && !system_started {
        Err(ParaError::Audio(String::from_str("no audio source available: both mic and system audio failed")))
    } else {
        Ok(())
    }
}

/// The recognizers a capture can stream to.
#[derive(PartialEq, Eq, Structural, Debug, Clone, Copy)]
pub enum AsrRoute {
    Deepgram,
    AssemblyAi,
    Mock,
}

/// The recognizer a configured provider name selects; any other name is
/// refused as an unknown provider.
pub fn asr_route(provider: &str) -> (r: Result<AsrRoute, ParaError>)
    ensures
        provider@ == "deepgram"@ ==> r == Ok::<AsrRoute, ParaError>(AsrRoute::Deepgram),
        provider@ == "assemblyai"@ ==> r == Ok::<AsrRoute, ParaError>(AsrRoute::AssemblyAi),
        provider@ == "mock"@ ==> r == Ok::<AsrRoute, ParaError>(AsrRoute::Mock),
        (provider@ != "deepgram"@ && provider@ != "assemblyai"@ && provider@ != "mock"@) ==> (r matches Err(
            ParaError::Asr(m),
        ) && m@ == "unknown provider: "@ + provider@),
{
    proof {
        reveal_strlit("deepgram");
        reveal_strlit("assemblyai");
        reveal_strlit("mock");
        assert("deepgram"@.len() == 8 && "assemblyai"@.len() == 10 && "mock"@.len() == 4);
    }
    if str_eq(provider, "deepgram") {
        Ok(AsrRoute::Deepgram)
    } else if str_eq(provider, "assemblyai") {
        Ok(AsrRoute::AssemblyAi)
    } else if str_eq(provider, "mock") {
        Ok(AsrRoute::Mock)
    } else {
        let mut m = String::from_str("unknown provider: ");
        m.append(provider);
        Err(ParaError::Asr(m))
    }
}

/// What ended a running capture first.
#[derive(PartialEq, Eq, Structural, Debug, Clone, Copy)]
pub enum PipelineEnd {
    /// The user asked to stop.
    Stopped,
    /// The recognizer's stream ended on its own.
    TranscriptEnded,
    /// The audio sender stopped on its own.
    AudioEnded,
}

/// The capture's result for what ended it: a requested stop succeeds; the
/// recognizer or the audio ending first is an error (and the caller
/// releases the capture slot).
pub fn pipeline_result(end: PipelineEnd) -> (r: Result<(), ParaError>)
    ensures
        end == PipelineEnd::Stopped <==> r is Ok,
        end == PipelineEnd::TranscriptEnded ==> (r matches Err(ParaError::Asr(m))
            && m@ == "transcription stream ended before capture was stopped"@),
        end == PipelineEnd::AudioEnded ==> (r matches Err(ParaError::Audio(m))
            && m@ == "audio capture stream stopped unexpectedly"@),
{
    match end {
        PipelineEnd::Stopped => Ok(()),
        PipelineEnd::TranscriptEnded => Err(ParaError::Asr(String::from_str("transcription stream ended before capture was stopped"))),
        PipelineEnd::AudioEnded => Err(ParaError::Audio(String::from_str("audio capture stream stopped unexpectedly"))),
    }
}

/// Control messages that end a session, in order: Deepgram closes the
/// stream; AssemblyAI first forces the open turn to end, then terminates.
pub open spec fn spec_close_messages(provider: Seq<char>) -> Seq<Seq<char>> {
    if provider == "deepgram"@ {
        seq!["{\"type\":\"CloseStream\"}"@]
    } else if provider == "assemblyai"@ {
        seq!["{\"type\":\"ForceEndpoint\"}"@, "{\"type\":\"Terminate\"}"@]
    } else {
        Seq::empty()
    }
}

pub fn close_messages(provider: &str) -> (v: Vec<&'static str>)
    ensures
        crate::text::str_views(v@) == spec_close_messages(provider@),
{
    let mut v: Vec<&'static str> = Vec::new();
    if str_eq(provider, "deepgram") {
        v.push("{\"type\":\"CloseStream\"}");
    } else if str_eq(provider, "assemblyai") {
        v.push("{\"type\":\"ForceEndpoint\"}");
        v.push("{\"type\":\"Terminate\"}");
    }
    assert(crate::text::str_views(v@) =~= spec_close_messages(provider@));
    v
}

/// The mock recognizer's turns.
pub open spec fn mock_turns() -> Seq<Seq<char>> {
    seq![
        "Welcome everyone to the meeting."@,
        "Let's start with the project update."@,
        "The new feature is on track for next week."@,
        "We need to review the security audit findings."@,
        "Action item: schedule follow-up with the team."@,
    ]
}

/// A transcript event of the mock: text, whether it is final, turn index.
pub struct MockEvent {
    pub text: String,
    pub is_final: bool,
    pub turn_index: usize,
}

pub open spec fn mock_event_view(e: MockEvent) -> (Seq<char>, bool, int) {
    (e.text@, e.is_final, e.turn_index as int)
}

/// The events of one turn: the growing word-by-word partials, then the
/// turn as a final.
pub open spec fn turn_events(turn: Seq<char>, index: int) -> Seq<(Seq<char>, bool, int)> {
    Seq::new(words(turn).len(), |j: int| (seq_join(words(turn).subrange(0, j + 1), " "@), false, index)) + seq![
        (turn, true, index),
    ]
}

/// The events of the first `k` turns.
pub open spec fn mock_script(turns: Seq<Seq<char>>, k: nat) -> Seq<(Seq<char>, bool, int)>
    decreases k,
{
    if k == 0 {
        Seq::empty()
    } else {
        mock_script(turns, (k - 1) as nat) + turn_events(turns[k - 1], k - 1)
    }
}

fn turn_events_of(turn: &str, index: usize, out: &mut Vec<MockEvent>)
    ensures
        Seq::new(final(out)@.len(), |i: int| mock_event_view(final(out)@[i])) == Seq::new(
            old(out)@.len(),
            |i: int| mock_event_view(old(out)@[i]),
        ) + turn_events(turn@, index as int),
{
    let ghost start = Seq::new(out@.len(), |i: int| mock_event_view(out@[i]));
    let ws = split_whitespace(turn);
    let mut partial: Vec<String> = Vec::new();
    let mut j: usize = 0;
    while j < ws.len()
        invariant
            views(ws@) == words(turn@),
            j <= ws@.len(),
            views(partial@) == words(turn@).subrange(0, j as int),
            Seq::new(out@.len(), |i: int| mock_event_view(out@[i])) == start + Seq::new(
                j as nat,
                |q: int| (seq_join(words(turn@).subrange(0, q + 1), " "@), false, index as int),
            ),
        decreases ws@.len() - j,
    {
        let ghost before = out@;
        let ghost pbefore = partial@;
        partial.push(crate::text::to_owned_string(ws[j].as_str()));
        assert(views(partial@) =~= views(pbefore).push(ws@[j as int]@));
        assert(views(partial@) =~= words(turn@).subrange(0, j + 1));
        let text = join_strings(partial.as_slice(), " ");
        out.push(MockEvent { text, is_final: false, turn_index: index });
        proof {
            assert(Seq::new(out@.len(), |i: int| mock_event_view(out@[i])) =~= Seq::new(
                before.len(),
                |i: int| mock_event_view(before[i]),
            ).push((seq_join(words(turn@).subrange(0, j + 1), " "@), false, index as int)));
            assert(Seq::new(out@.len(), |i: int| mock_event_view(out@[i])) =~= start + Seq::new(
                (j + 1) as nat,
                |q: int| (seq_join(words(turn@).subrange(0, q + 1), " "@), false, index as int),
            ));
        }
        j += 1;
    }
    let ghost before = out@;
    out.push(MockEvent { text: String::from_str(turn), is_final: true, turn_index: index });
    proof {
        assert(Seq::new(out@.len(), |i: int| mock_event_view(out@[i])) =~= Seq::new(
            before.len(),
            |i: int| mock_event_view(before[i]),
        ).push((turn@, true, index as int)));
        assert(Seq::new(out@.len(), |i: int| mock_event_view(out@[i])) =~= start + turn_events(turn@, index as int));
    }
}

/// The mock recognizer's transcript events, in the order they are sent:
/// for each turn, its growing word-by-word partials, then the final.
pub fn mock_events() -> (v: Vec<MockEvent>)
    ensures
        Seq::new(v@.len(), |i: int| mock_event_view(v@[i])) == mock_script(mock_turns(), 5),
{
    let turns: [&str; 5] = [
        "Welcome everyone to the meeting.",
        "Let's start with the project update.",
        "The new feature is on track for next week.",
        "We need to review the security audit findings.",
        "Action item: schedule follow-up with the team.",
    ];
    assert(crate::text::str_views(turns@) =~= mock_turns());
    let mut v: Vec<MockEvent> = Vec::new();
    let mut i: usize = 0;
    while i < 5
        invariant
            i <= 5,
            turns@.len() == 5,
            crate::text::str_views(turns@) == mock_turns(),
            Seq::new(v@.len(), |q: int| mock_event_view(v@[q])) == mock_script(mock_turns(), i as nat),
        decreases 5 - i,
    {
        assert(turns@[i as int]@ == mock_turns()[i as int]);
        turn_events_of(turns[i], i, &mut v);
        i += 1;
    }
    v
}

} // verus!
