//! Interpretation of streaming speech-recognition messages from the
//! Deepgram Flux, AssemblyAI and mock providers.
//!
//! A provider message is held as the handful of fields that decide how
//! it is handled. A field is `Some` exactly when the message carries it
//! with a value of the right JSON type (a string, or for flags a boolean).

use vstd::prelude::*;
use crate::text::str_eq;

verus! {

/// The fields of a provider message that decide how it is handled.
pub struct AsrMessage {
    /// `type`
    pub msg_type: Option<String>,
    /// `event` (Deepgram Flux)
    pub event: Option<String>,
    /// `transcript` (Deepgram Flux, AssemblyAI)
    pub transcript: Option<String>,
    /// `text` (mock provider)
    pub text: Option<String>,
    /// `turn_is_formatted` (AssemblyAI)
    pub turn_is_formatted: Option<bool>,
    /// `is_final` (mock provider)
    pub is_final: Option<bool>,
}

/// A message tagged with the provider it came from.
pub enum AsrEvent {
    /// Deepgram Flux v2 TurnInfo message.
    DeepgramFlux(AsrMessage),
    /// AssemblyAI Universal-3 Pro Turn/Begin/Termination message.
    AssemblyAi(AsrMessage),
    /// Mock provider event for offline testing.
    Mock(AsrMessage),
}

/// The string content of an optional string field.
pub open spec fn sv(o: Option<String>) -> Option<Seq<char>> {
    match o {
        Some(s) => Some(s@),
        None => None,
    }
}

/// A present, non-empty string field.
pub open spec fn non_empty(o: Option<String>) -> Option<Seq<char>> {
    match o {
        Some(s) => if s@.len() > 0 { Some(s@) } else { None },
        None => None,
    }
}

pub open spec fn flag(o: Option<bool>) -> bool {
    match o {
        Some(b) => b,
        None => false,
    }
}

pub open spec fn msg(ev: AsrEvent) -> AsrMessage {
    match ev {
        AsrEvent::DeepgramFlux(m) => m,
        AsrEvent::AssemblyAi(m) => m,
        AsrEvent::Mock(m) => m,
    }
}

/// Whether the provider considers the text formatted: AssemblyAI's
/// `turn_is_formatted`, Deepgram's `EndOfTurn` event, the mock's `is_final`.
pub open spec fn spec_is_formatted(ev: AsrEvent) -> bool {
    match ev {
        AsrEvent::AssemblyAi(m) => flag(m.turn_is_formatted),
        AsrEvent::DeepgramFlux(m) => sv(m.event) == Some("EndOfTurn"@),
        AsrEvent::Mock(m) => flag(m.is_final),
    }
}

/// Interim transcript text: Deepgram `TurnInfo` messages other than
/// `EndOfTurn`, AssemblyAI `Turn` messages not yet formatted, mock
/// messages not final. Empty transcripts count as none; the mock's text
/// is returned as is.
pub open spec fn spec_partial_text(ev: AsrEvent) -> Option<Seq<char>> {
    match ev {
        AsrEvent::DeepgramFlux(m) => {
            if sv(m.msg_type) == Some("TurnInfo"@) && m.event is Some && sv(m.event) != Some(
                "EndOfTurn"@,
            ) {
                non_empty(m.transcript)
            } else {
                None
            }
        },
        AsrEvent::AssemblyAi(m) => {
            if sv(m.msg_type) == Some("Turn"@) && !flag(m.turn_is_formatted) {
                non_empty(m.transcript)
            } else {
                None
            }
        },
        AsrEvent::Mock(m) => if !flag(m.is_final) { sv(m.text) } else { None },
    }
}

/// Committed transcript text: Deepgram `TurnInfo`/`EndOfTurn`, AssemblyAI
/// formatted `Turn`, final mock messages. Empty transcripts count as none.
pub open spec fn spec_final_text(ev: AsrEvent) -> Option<Seq<char>> {
    match ev {
        AsrEvent::DeepgramFlux(m) => {
            if sv(m.msg_type) == Some("TurnInfo"@) && sv(m.event) == Some("EndOfTurn"@) {
                non_empty(m.transcript)
            } else {
                None
            }
        },
        AsrEvent::AssemblyAi(m) => {
            if sv(m.msg_type) == Some("Turn"@) && flag(m.turn_is_formatted) {
                non_empty(m.transcript)
            } else {
                None
            }
        },
        AsrEvent::Mock(m) => if flag(m.is_final) { sv(m.text) } else { None },
    }
}

/// The server's end-of-session signal: Deepgram `Error`, AssemblyAI
/// `Termination`, mock `termination`.
pub open spec fn spec_is_termination(ev: AsrEvent) -> bool {
    match ev {
        AsrEvent::DeepgramFlux(m) => sv(m.msg_type) == Some("Error"@),
        AsrEvent::AssemblyAi(m) => sv(m.msg_type) == Some("Termination"@),
        AsrEvent::Mock(m) => sv(m.msg_type) == Some("termination"@),
    }
}

fn field_is(o: &Option<String>, lit: &str) -> (r: bool)
    ensures
        r == (sv(*o) == Some(lit@)),
{
    match o {
        Some(s) => str_eq(s.as_str(), lit),
        None => false,
    }
}

fn flag_of(o: &Option<bool>) -> (r: bool)
    ensures
        r == flag(*o),
{
    match o {
        Some(b) => *b,
        None => false,
    }
}

fn non_empty_of(o: &Option<String>) -> (r: Option<String>)
    ensures
        match r {
            Some(s) => non_empty(*o) == Some(s@),
            None => non_empty(*o) is None,
        },
{
    match o {
        Some(s) => if s.as_str().is_empty() { None } else { Some(s.clone()) },
        None => None,
    }
}

fn copy_of(o: &Option<String>) -> (r: Option<String>)
    ensures
        match r {
            Some(s) => sv(*o) == Some(s@),
            None => sv(*o) is None,
        },
{
    match o {
        Some(s) => Some(s.clone()),
        None => None,
    }
}

impl AsrEvent {
    pub open spec fn message(&self) -> AsrMessage {
        msg(*self)
    }

    /// A short name of the provider, for diagnostic logging.
    pub fn event_type(&self) -> (r: &'static str)
        ensures
            r@ == match *self {
                AsrEvent::DeepgramFlux(_) => "DeepgramFlux"@,
                AsrEvent::AssemblyAi(_) => "AssemblyAi"@,
                AsrEvent::Mock(_) => "Mock"@,
            },
    {
        match self {
            AsrEvent::DeepgramFlux(_) => "DeepgramFlux",
            AsrEvent::AssemblyAi(_) => "AssemblyAi",
            AsrEvent::Mock(_) => "Mock",
        }
    }

    /// Whether the provider considers this transcript text formatted.
    pub fn is_formatted(&self) -> (r: bool)
        ensures
            r == spec_is_formatted(*self),
    {
        match self {
            AsrEvent::AssemblyAi(m) => flag_of(&m.turn_is_formatted),
            AsrEvent::DeepgramFlux(m) => field_is(&m.event, "EndOfTurn"),
            AsrEvent::Mock(m) => flag_of(&m.is_final),
        }
    }

    /// Extract partial (non-final) transcript text.
    pub fn partial_text(&self) -> (r: Option<String>)
        ensures
            match r {
                Some(s) => spec_partial_text(*self) == Some(s@),
                None => spec_partial_text(*self) is None,
            },
    {
        match self {
            AsrEvent::DeepgramFlux(m) => {
                if !field_is(&m.msg_type, "TurnInfo") {
                    return None;
                }
                if m.event.is_none() || field_is(&m.event, "EndOfTurn") {
                    return None;
                }
                non_empty_of(&m.transcript)
            },
            AsrEvent::AssemblyAi(m) => {
                if !field_is(&m.msg_type, "Turn") {
                    return None;
                }
                if flag_of(&m.turn_is_formatted) {
                    return None;
                }
                non_empty_of(&m.transcript)
            },
            AsrEvent::Mock(m) => {
                if flag_of(&m.is_final) {
                    return None;
                }
                copy_of(&m.text)
            },
        }
    }

    /// Extract final (committed) transcript text.
    pub fn final_text(&self) -> (r: Option<String>)
        ensures
            match r {
                Some(s) => spec_final_text(*self) == Some(s@),
                None => spec_final_text(*self) is None,
            },
    {
        match self {
            AsrEvent::DeepgramFlux(m) => {
                if !field_is(&m.msg_type, "TurnInfo") {
                    return None;
                }
                if !field_is(&m.event, "EndOfTurn") {
                    return None;
                }
                non_empty_of(&m.transcript)
            },
            AsrEvent::AssemblyAi(m) => {
                if !field_is(&m.msg_type, "Turn") {
                    return None;
                }
                if !flag_of(&m.turn_is_formatted) {
                    return None;
                }
                non_empty_of(&m.transcript)
            },
            AsrEvent::Mock(m) => {
                if !flag_of(&m.is_final) {
                    return None;
                }
                copy_of(&m.text)
            },
        }
    }

    /// Check if this is a termination/close confirmation from the server.
    pub fn is_termination(&self) -> (r: bool)
        ensures
            r == spec_is_termination(*self),
    {
        match self {
            AsrEvent::DeepgramFlux(m) => field_is(&m.msg_type, "Error"),
            AsrEvent::AssemblyAi(m) => field_is(&m.msg_type, "Termination"),
            AsrEvent::Mock(m) => field_is(&m.msg_type, "termination"),
        }
    }
}

/// Tags a decoded message with its provider by name: `deepgram`,
/// `assemblyai` and `mock` select their variant; any other name is read
/// as Deepgram Flux.
pub fn event_for_provider(provider: &str, m: AsrMessage) -> (ev: AsrEvent)
    ensures
        ev == (if provider@ == "assemblyai"@ {
            AsrEvent::AssemblyAi(m)
        } else if provider@ == "mock"@ {
            AsrEvent::Mock(m)
        } else {
            AsrEvent::DeepgramFlux(m)
        }),
{
    if str_eq(provider, "assemblyai") {
        AsrEvent::AssemblyAi(m)
    } else if str_eq(provider, "mock") {
        AsrEvent::Mock(m)
    } else {
        AsrEvent::DeepgramFlux(m)
    }
}

/// What the transcript receiver does with one provider message.
pub enum ReceiverAction {
    /// The provider ended the session: leave the receive loop.
    Stop,
    /// Show and store what the message carries. `partial` is shown as
    /// interim text; `final_text` is shown and stored as a segment. Each
    /// comes with the message's formatted flag. When both are `None` the
    /// message is logged as unhandled.
    Deliver {
        partial: Option<(String, bool)>,
        final_text: Option<(String, bool)>,
    },
}

/// The receiver's decision for one message.
pub fn receive_action(ev: &AsrEvent) -> (a: ReceiverAction)
    ensures
        spec_is_termination(*ev) <==> a is Stop,
        a matches ReceiverAction::Deliver { partial, final_text } ==> {
            &&& match partial {
                Some((t, f)) => spec_partial_text(*ev) == Some(t@) && f == spec_is_formatted(*ev),
                None => spec_partial_text(*ev) is None,
            }
            &&& match final_text {
                Some((t, f)) => spec_final_text(*ev) == Some(t@) && f == spec_is_formatted(*ev),
                None => spec_final_text(*ev) is None,
            }
        },
{
    if ev.is_termination() {
        return ReceiverAction::Stop;
    }
    let formatted = ev.is_formatted();
    let partial = match ev.partial_text() {
        Some(t) => Some((t, formatted)),
        None => None,
    };
    let final_text = match ev.final_text() {
        Some(t) => Some((t, formatted)),
        None => None,
    };
    ReceiverAction::Deliver { partial, final_text }
}

} // verus!
