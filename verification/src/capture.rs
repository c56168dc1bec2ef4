//! Decisions of the capture commands: starting and stopping a capture,
//! answering a detected-meeting prompt, and the command replies.

use vstd::prelude::*;
use crate::error::ParaError;
use crate::text::{str_eq, to_lowercase, unicode_lowercase, str_contains, contains_seq};

verus! {

/// How the capture pipeline is set up.
pub struct CaptureConfig {
    pub provider: String,
    pub include_mic: bool,
    /// `system` (whole-system loopback) or `process` (one application).
    pub mode: String,
    pub target_process: Option<u32>,
}

/// Reply of the start command.
pub struct StartCaptureResp {
    pub meeting_id: String,
}

/// Reply of the recipe command.
pub struct RunRecipeResp {
    pub text: String,
}

/// Reply of the export command: where the file was written.
pub struct ExportResp {
    pub path: String,
}

/// Who is using the app, and in which organization.
pub struct SessionContext {
    pub mode: String,
    pub user_id: Option<String>,
    pub email: Option<String>,
    pub active_org_id: Option<String>,
}

/// The cached session as the local store holds it.
#[derive(Debug, Clone)]
pub struct SessionContextRow {
    pub mode: String,
    pub user_id: Option<String>,
    pub email: Option<String>,
    pub active_org_id: Option<String>,
    pub updated_at: i64,
}

/// The cached session, or the local-only session when none was stored.
pub fn session_row_or_default(row: Option<SessionContextRow>) -> (r: SessionContextRow)
    ensures
        match row {
            Some(x) => r == x,
            None => r.mode@ == "local_only"@ && r.user_id is None && r.email is None
                && r.active_org_id is None && r.updated_at == 0,
        },
{
    match row {
        Some(x) => x,
        None => SessionContextRow {
            mode: String::from_str("local_only"),
            user_id: None,
            email: None,
            active_org_id: None,
            updated_at: 0,
        },
    }
}

impl From<SessionContextRow> for SessionContext {
    fn from(value: SessionContextRow) -> (r: SessionContext) {
        SessionContext {
            mode: value.mode,
            user_id: value.user_id,
            email: value.email,
            active_org_id: value.active_org_id,
        }
    }
}

impl vstd::std_specs::convert::FromSpecImpl<SessionContextRow> for SessionContext {
    open spec fn obeys_from_spec() -> bool {
        true
    }

    /// The session keeps every field of the row but its time stamp.
    open spec fn from_spec(value: SessionContextRow) -> SessionContext {
        SessionContext {
            mode: value.mode,
            user_id: value.user_id,
            email: value.email,
            active_org_id: value.active_org_id,
        }
    }
}

/// Reply of the session query.
pub struct SessionContextResp {
    pub session: SessionContext,
}

/// A capture about to start: its configuration and the recognizer's key.
pub struct CaptureStart {
    pub config: CaptureConfig,
    pub asr_key: String,
}

/// The provider name a capture uses: the requested one, lower-cased.
pub fn capture_provider(provider: &str) -> (r: String)
    ensures
        r@ == unicode_lowercase(provider@),
{
    to_lowercase(provider)
}

/// Only the mock recognizer runs without a key.
pub fn needs_asr_key(provider: &str) -> (r: bool)
    ensures
        r == (provider@ != "mock"@),
{
    !str_eq(provider, "mock")
}

/// Starting a capture. `running` is whether one is running already;
/// `provider` is the lower-cased provider and `key` its looked-up key.
/// Refused while a capture runs, and for a provider other than `mock`
/// without a key; otherwise the microphone is included and the mode is
/// `system` unless the request says otherwise.
pub fn plan_start_capture(
    running: bool,
    provider: String,
    key: Option<String>,
    mode: Option<String>,
    include_mic: Option<bool>,
    target_process: Option<u32>,
) -> (r: Result<CaptureStart, ParaError>)
    ensures
        running ==> match r {
            Err(ParaError::InvalidState(m)) => m@ == "capture already running"@,
            _ => false,
        },
        !running && provider@ != "mock"@ && key is None ==> r == Err::<CaptureStart, ParaError>(
            ParaError::MissingKey(provider),
        ),
        (!running && (provider@ == "mock"@ || key is Some)) <==> r is Ok,
        r matches Ok(s) ==> {
            &&& s.config.provider == provider
            &&& s.config.include_mic == match include_mic { Some(b) => b, None => true }
            &&& s.config.mode@ == match mode { Some(m) => m@, None => "system"@ }
            &&& s.config.target_process == target_process
            &&& s.asr_key@ == if provider@ == "mock"@ { Seq::<char>::empty() } else { key->0@ }
        },
{
    if running {
        return Err(ParaError::InvalidState(String::from_str("capture already running")));
    }
    let asr_key = if !needs_asr_key(provider.as_str()) {
        proof {
            reveal_strlit("");
        }
        String::from_str("")
    } else {
        match key {
            Some(k) => k,
            None => return Err(ParaError::MissingKey(provider)),
        }
    };
    let mode = match mode {
        Some(m) => m,
        None => String::from_str("system"),
    };
    let include_mic = match include_mic {
        Some(b) => b,
        None => true,
    };
    Ok(CaptureStart {
        config: CaptureConfig { provider, include_mic, mode, target_process },
        asr_key,
    })
}

/// Stopping a capture. `capture` is the meeting of the running capture:
/// stopping another meeting is refused and leaves the running capture as it
/// is; stopping the running one releases it.
pub fn check_stop_capture(capture: &mut Option<String>, meeting_id: &str) -> (r: Result<(), ParaError>)
    ensures
        match *old(capture) {
            None => *final(capture) == *old(capture) && match r {
                Err(ParaError::InvalidState(m)) => m@ == "no capture running"@,
                _ => false,
            },
            Some(id) => if id@ == meeting_id@ {
                r is Ok && *final(capture) is None
            } else {
                *final(capture) == *old(capture) && match r {
                    Err(ParaError::InvalidState(m)) => m@ == "meeting_id mismatch"@,
                    _ => false,
                }
            },
        },
{
    let same = match &*capture {
        None => {
            return Err(ParaError::InvalidState(String::from_str("no capture running")));
        },
        Some(id) => str_eq(id.as_str(), meeting_id),
    };
    if same {
        *capture = None;
        Ok(())
    } else {
        Err(ParaError::InvalidState(String::from_str("meeting_id mismatch")))
    }
}

/// What answering a detected-meeting prompt does.
pub enum PromptResponse {
    /// Record the meeting and start capturing it.
    Accept { start: CaptureStart },
    /// Only record the answer (`dismiss` or `expired`).
    Record { action: String },
}

/// Answering a detected-meeting prompt. Accepting captures with
/// AssemblyAI when it has a key, else with Deepgram; it needs one of the
/// two keys, and is refused while a capture runs: one capture at a time.
pub fn detection_response(
    action: &str,
    capture_running: bool,
    assemblyai_key: Option<String>,
    deepgram_key: Option<String>,
) -> (r: Result<PromptResponse, ParaError>)
    ensures
        action@ == "accept"@ && capture_running ==> match r {
            Err(ParaError::InvalidState(m)) => m@ == "capture already running"@,
            _ => false,
        },
        action@ == "accept"@ && !capture_running ==> match r {
            Ok(PromptResponse::Accept { start }) => {
                &&& (assemblyai_key is Some ==> start.config.provider@ == "assemblyai"@ && start.asr_key == assemblyai_key->0)
                &&& (assemblyai_key is None ==> start.config.provider@ == "deepgram"@ && deepgram_key == Some(start.asr_key))
                &&& start.config.include_mic
                &&& start.config.mode@ == "system"@
                &&& start.config.target_process is None
            },
            Err(ParaError::MissingKey(m)) => m@ == "No ASR key configured"@ && assemblyai_key is None && deepgram_key is None,
            _ => false,
        },
        (action@ == "dismiss"@ || action@ == "expired"@) ==> match r {
            Ok(PromptResponse::Record { action: a }) => a@ == action@,
            _ => false,
        },
        (action@ != "accept"@ && action@ != "dismiss"@ && action@ != "expired"@) ==> match r {
            Err(ParaError::Other(m)) => m@ == "Invalid action: "@ + action@,
            _ => false,
        },
{
    proof {
        reveal_strlit("accept");
        reveal_strlit("dismiss");
        reveal_strlit("expired");
        assert("accept"@.len() == 6);
        assert("accept"@ != "dismiss"@);
        assert("accept"@ != "expired"@);
    }
    if str_eq(action, "accept") {
        if capture_running {
            return Err(ParaError::InvalidState(String::from_str("capture already running")));
        }
        let (provider, key) = match assemblyai_key {
            Some(k) => ("assemblyai", k),
            None => match deepgram_key {
                Some(k) => ("deepgram", k),
                None => return Err(ParaError::MissingKey(String::from_str("No ASR key configured"))),
            },
        };
        let config = CaptureConfig {
            provider: String::from_str(provider),
            include_mic: true,
            mode: String::from_str("system"),
            target_process: None,
        };
        Ok(PromptResponse::Accept { start: CaptureStart { config, asr_key: key } })
    } else if str_eq(action, "dismiss") || str_eq(action, "expired") {
        Ok(PromptResponse::Record { action: String::from_str(action) })
    } else {
        let mut msg = String::from_str("Invalid action: ");
        msg.append(action);
        Err(ParaError::Other(msg))
    }
}

/// File name of a meeting's Markdown export.
pub open spec fn spec_export_file_name(meeting_id: Seq<char>) -> Seq<char> {
    "meeting-"@ + meeting_id + ".md"@
}

pub fn export_file_name(meeting_id: &str) -> (r: String)
    ensures
        r@ == spec_export_file_name(meeting_id@),
{
    let mut name = String::from_str("meeting-");
    name.append(meeting_id);
    name.append(".md");
    name
}

/// A capture device whose name marks it as a monitor or loopback source
/// (the PulseAudio / PipeWire convention), compared in lower case.
pub open spec fn is_monitor_name(name: Option<String>) -> bool {
    match name {
        Some(n) => contains_seq(unicode_lowercase(n@), "monitor"@) || contains_seq(unicode_lowercase(n@), "loopback"@),
        None => false,
    }
}

/// The text of the refusal when no monitor source exists.
pub open spec fn no_monitor_message() -> Seq<char> {
    "no PulseAudio/PipeWire monitor source found. To capture system audio on Linux:\n1. Ensure PulseAudio or PipeWire-pulse is running.\n2. The default sink should have a .monitor source.\n3. Run 'pactl list short sources' to verify.\n4. If using PipeWire without PulseAudio compat, you may need to configure a loopback device."@
}

/// The system-audio source on Linux: the first input device, in the
/// host's order, whose name (where it can be read) marks a monitor or
/// loopback source; with none, an audio error that says how to get one.
pub fn pick_monitor_device(names: &[Option<String>]) -> (r: Result<usize, ParaError>)
    ensures
        match r {
            Ok(i) => i < names@.len() && is_monitor_name(names@[i as int]) && forall|j: int|
                0 <= j < i ==> !is_monitor_name(#[trigger] names@[j]),
            Err(ParaError::Audio(m)) => m@ == no_monitor_message() && forall|j: int|
                0 <= j < names@.len() ==> !is_monitor_name(#[trigger] names@[j]),
            Err(_) => false,
        },
{
    let mut i: usize = 0;
    while i < names.len()
        invariant
            i <= names@.len(),
            forall|j: int| 0 <= j < i ==> !is_monitor_name(#[trigger] names@[j]),
        decreases names@.len() - i,
    {
        match &names[i] {
            Some(n) => {
                let lower = to_lowercase(n.as_str());
                if str_contains(lower.as_str(), "monitor") || str_contains(lower.as_str(), "loopback") {
                    return Ok(i);
                }
            },
            None => {},
        }
        i += 1;
    }
    Err(ParaError::Audio(String::from_str("no PulseAudio/PipeWire monitor source found. To capture system audio on Linux:\n1. Ensure PulseAudio or PipeWire-pulse is running.\n2. The default sink should have a .monitor source.\n3. Run 'pactl list short sources' to verify.\n4. If using PipeWire without PulseAudio compat, you may need to configure a loopback device.")))
}

} // verus!
