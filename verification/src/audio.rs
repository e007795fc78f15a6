//! Recording decisions: who receives the detector's per-frame reports, the
//! mute-while-recording round trip, the microphone idle timeout, which
//! microphone the settings ask for, which session a recording belongs to, and reading the system mute state from
//! the output of the platform tools.

use vstd::prelude::*;
use crate::text::{chars_of, chars_equal, str_eq, trim_seq, trim_str, has_infix, contains_chars, std_str_lowercase, str_lowercase};

verus! {

/// Report bit of the live VAD test.
pub const VAD_REPORT_TEST: u8 = 1;

/// Report bit of the Live FFT page's voice-detection view.
pub const VAD_REPORT_LIVE_FFT: u8 = 2;

/// Turns one consumer's interest in per-frame detector reports on or off:
/// its bits are set or cleared, every other bit is kept.
pub fn set_vad_reporting(flags: &mut u8, flag: u8, on: bool)
    ensures
        *final(flags) == if on { *old(flags) | flag } else { *old(flags) & !flag },
{
    if on {
        *flags = *flags | flag;
    } else {
        *flags = *flags & !flag;
    }
}

/// Switching one consumer's reports leaves the other consumer's bit as it
/// was.
pub proof fn lemma_reporting_is_per_consumer(flags: u8, on: bool)
    ensures
        ((if on { flags | VAD_REPORT_TEST } else { flags & !VAD_REPORT_TEST }) & VAD_REPORT_LIVE_FFT)
            == flags & VAD_REPORT_LIVE_FFT,
        ((if on { flags | VAD_REPORT_TEST } else { flags & !VAD_REPORT_TEST }) & VAD_REPORT_TEST != 0) == on,
{
    assert((flags | 1u8) & 2u8 == flags & 2u8) by (bit_vector);
    assert((flags & !1u8) & 2u8 == flags & 2u8) by (bit_vector);
    assert((flags | 1u8) & 1u8 != 0) by (bit_vector);
    assert((flags & !1u8) & 1u8 == 0) by (bit_vector);
}

/// The state of a recording.
#[derive(Clone, Debug)]
pub enum RecordingState {
    Idle,
    Recording { binding_id: String },
    Stopping,
}

/// Whether the microphone stays open between recordings.
#[derive(Clone, Copy, Debug, PartialEq, Eq, Structural)]
pub enum MicrophoneMode {
    AlwaysOn,
    OnDemand,
}

/// Whether the active recording belongs to `binding_id`.
pub open spec fn belongs_to(state: RecordingState, binding_id: Seq<char>) -> bool {
    state matches RecordingState::Recording { binding_id: active } && active@ == binding_id
}

/// Whether the active recording belongs to `binding_id`; a page ending its
/// own session cancels only a recording of its own.
pub fn recording_belongs_to(state: &RecordingState, binding_id: &str) -> (b: bool)
    ensures
        b == belongs_to(*state, binding_id@),
{
    match state {
        RecordingState::Recording { binding_id: active } => str_eq(active.as_str(), binding_id),
        _ => false,
    }
}

/// Per-session capture options beyond the voice-detection policy.
#[derive(Clone, Copy, Debug)]
pub struct RecordingStartOptions {
    /// Forces the native-rate raw tap on or off instead of following the
    /// `save_raw_audio` setting.
    pub capture_raw_override: Option<bool>,
    /// Keeps no audio: frames still reach every live consumer.
    pub discard_audio: bool,
}

impl Default for RecordingStartOptions {
    fn default() -> (o: Self)
        ensures
            o.capture_raw_override is None,
            !o.discard_audio,
    {
        RecordingStartOptions { capture_raw_override: None, discard_audio: false }
    }
}

impl RecordingStartOptions {
    /// Whether the session captures raw audio: the override when there is
    /// one, else the setting.
    pub fn capture_raw(&self, save_raw_audio: bool) -> (b: bool)
        ensures
            b == match self.capture_raw_override {
                Some(v) => v,
                None => save_raw_audio,
            },
    {
        match self.capture_raw_override {
            Some(v) => v,
            None => save_raw_audio,
        }
    }
}

/// Unit of the microphone idle timeout.
#[derive(Clone, Copy, Debug, PartialEq, Eq, Structural)]
pub enum MicIdleTimeoutUnit {
    Seconds,
    Minutes,
}

/// How long an idle microphone stays open, in seconds: forever (the largest
/// duration) when set so, else the value (at least 1) in its unit.
pub fn idle_timeout_secs(infinite: bool, value: u32, unit: MicIdleTimeoutUnit) -> (s: u64)
    ensures
        s == if infinite {
            u64::MAX as int
        } else {
            let base = if value < 1 { 1 } else { value as int };
            match unit {
                MicIdleTimeoutUnit::Seconds => base,
                MicIdleTimeoutUnit::Minutes => base * 60,
            }
        },
{
    if infinite {
        return u64::MAX;
    }
    let base: u64 = if value < 1 { 1 } else { value as u64 };
    match unit {
        MicIdleTimeoutUnit::Seconds => base,
        MicIdleTimeoutUnit::Minutes => base * 60,
    }
}

// ---------------------------------------------------------------------------
// Which microphone
// ---------------------------------------------------------------------------

/// The microphone the persisted settings ask for.
#[derive(Clone, Debug, PartialEq, Eq)]
pub enum DesiredMicrophone {
    /// The system's default input endpoint.
    Default,
    /// The microphone the user selected.
    Selected(String),
    /// The microphone configured for use while the laptop lid is closed.
    Clamshell(String),
}

/// The microphone in effect: the clamshell microphone when one is configured
/// and the lid is closed (`lid_closed` is the probe's answer, false when it
/// could not tell; it is only asked when a clamshell microphone is set),
/// otherwise the selected microphone, otherwise the system default.
pub fn desired_microphone(
    clamshell_microphone: &Option<String>,
    selected_microphone: &Option<String>,
    lid_closed: bool,
) -> (d: DesiredMicrophone)
    ensures
        d == if clamshell_microphone is Some && lid_closed {
            DesiredMicrophone::Clamshell(clamshell_microphone->0)
        } else {
            match selected_microphone {
                Some(name) => DesiredMicrophone::Selected(*name),
                None => DesiredMicrophone::Default,
            }
        },
{
    if let Some(clamshell) = clamshell_microphone {
        if lid_closed {
            return DesiredMicrophone::Clamshell(clamshell.clone());
        }
    }
    match selected_microphone {
        Some(name) => DesiredMicrophone::Selected(name.clone()),
        None => DesiredMicrophone::Default,
    }
}

/// How a preference is looked up among the input devices: `None` for the
/// system default (resolved to its concrete endpoint, never cached); else the
/// device name to find and, for a selected microphone (not a clamshell one),
/// the name to report should the device be missing.
pub fn microphone_lookup(desired: DesiredMicrophone) -> (r: Option<(String, Option<String>)>)
    ensures
        r == match desired {
            DesiredMicrophone::Default => None,
            DesiredMicrophone::Selected(name) => Some((name, Some(name))),
            DesiredMicrophone::Clamshell(name) => Some((name, None::<String>)),
        },
{
    match desired {
        DesiredMicrophone::Default => None,
        DesiredMicrophone::Selected(name) => {
            let reported = name.clone();
            Some((name, Some(reported)))
        },
        DesiredMicrophone::Clamshell(name) => Some((name, None)),
    }
}

/// The selected microphone reported as unavailable after a lookup: only when
/// the enumeration itself succeeded and found no device of that name (a
/// failed enumeration may be transient and must not erase the preference).
pub fn unavailable_selected_microphone(
    enumeration_succeeded: bool,
    found: bool,
    selected: Option<String>,
) -> (r: Option<String>)
    ensures
        r == if enumeration_succeeded && !found {
            selected
        } else {
            None
        },
{
    if enumeration_succeeded && !found {
        selected
    } else {
        None
    }
}

/// Whether opening the default after a missing microphone clears the
/// persisted selection: only while the settings still name the microphone
/// that was missing (the user may have chosen another meanwhile).
pub fn clears_selection_after_fallback(selected_microphone: &Option<String>, unavailable: &str) -> (b: bool)
    ensures
        b == (selected_microphone matches Some(name) && name@ == unavailable@),
{
    match selected_microphone {
        Some(name) => str_eq(name.as_str(), unavailable),
        None => false,
    }
}

// ---------------------------------------------------------------------------
// Mute while recording
// ---------------------------------------------------------------------------

/// Our forced mute: whether it is active, and the system's mute state just
/// before it, which decides what stopping restores.
#[derive(Clone, Copy, Debug)]
pub struct MuteState {
    pub did_mute: bool,
    pub prev_muted: Option<bool>,
}

impl Default for MuteState {
    fn default() -> (m: Self)
        ensures
            !m.did_mute,
            m.prev_muted is None,
    {
        MuteState { did_mute: false, prev_muted: None }
    }
}

/// Whether restoring after our mute unmutes: unless the system was already
/// muted before, so an unknown state is never left muted by us.
pub open spec fn unmutes_on_restore(prev_muted: Option<bool>) -> bool {
    prev_muted != Some(true)
}

/// Whether restoring after our mute unmutes (see [`unmutes_on_restore`]).
pub fn restore_mute(prev_muted: Option<bool>) -> (b: bool)
    ensures
        b == unmutes_on_restore(prev_muted),
{
    match prev_muted {
        Some(true) => false,
        _ => true,
    }
}

impl MuteState {
    /// Whether starting a recording should snapshot the system state and
    /// mute: the setting is on, the stream is open and we have not muted in
    /// this session already (a second snapshot would record our own mute).
    pub fn wants_mute(&self, enabled: bool, is_open: bool) -> (b: bool)
        ensures
            b == (enabled && is_open && !self.did_mute),
    {
        enabled && is_open && !self.did_mute
    }

    /// Records our mute and the state the system had before it.
    pub fn record_mute(&mut self, prev_muted: Option<bool>)
        ensures
            final(self).did_mute,
            final(self).prev_muted == prev_muted,
    {
        self.prev_muted = prev_muted;
        self.did_mute = true;
    }

    /// Ends our mute: returns whether the system must be unmuted now.
    pub fn remove_mute(&mut self) -> (unmute: bool)
        ensures
            !final(self).did_mute,
            final(self).prev_muted == old(self).prev_muted,
            unmute == (old(self).did_mute && unmutes_on_restore(old(self).prev_muted)),
    {
        if self.did_mute {
            self.did_mute = false;
            restore_mute(self.prev_muted)
        } else {
            false
        }
    }
}

/// The system mute state after muting for a recording and restoring at its
/// end, given the state before (`None` when it could not be read).
pub open spec fn mute_after_round_trip(before: Option<bool>) -> bool {
    if unmutes_on_restore(before) { false } else { true }
}

/// Muting for a recording and restoring afterwards leaves a known mute state
/// as it was, and an unknown one unmuted.
pub proof fn lemma_mute_round_trip(before: Option<bool>)
    ensures
        before matches Some(b) ==> mute_after_round_trip(before) == b,
        before is None ==> !mute_after_round_trip(before),
{
}

// ---------------------------------------------------------------------------
// Reading the system mute state from the platform tools' output
// ---------------------------------------------------------------------------

/// PipeWire's `wpctl get-volume` marks a muted sink with `[MUTED]`.
pub fn wpctl_muted(output: &str) -> (b: bool)
    ensures
        b == has_infix(output@, "[MUTED]"@),
{
    let v = chars_of(output);
    let n = chars_of("[MUTED]");
    contains_chars(&v, &n)
}

/// PulseAudio's `pactl get-sink-mute` prints `Mute: yes` or `Mute: no`;
/// read in lowercase, `yes` wins, then `no`, else the state is unknown.
pub fn pactl_muted(output: &str) -> (r: Option<bool>)
    ensures
        r == if has_infix(std_str_lowercase(output@), "yes"@) {
            Some(true)
        } else if has_infix(std_str_lowercase(output@), "no"@) {
            Some(false)
        } else {
            None
        },
{
    let lower = str_lowercase(output);
    let v = chars_of(lower.as_str());
    let yes = chars_of("yes");
    if contains_chars(&v, &yes) {
        return Some(true);
    }
    let no = chars_of("no");
    if contains_chars(&v, &no) {
        return Some(false);
    }
    None
}

/// ALSA's `amixer get Master` prints `[off]` for a muted channel and `[on]`
/// otherwise; `[off]` wins.
pub fn amixer_muted(output: &str) -> (r: Option<bool>)
    ensures
        r == if has_infix(output@, "[off]"@) {
            Some(true)
        } else if has_infix(output@, "[on]"@) {
            Some(false)
        } else {
            None
        },
{
    let v = chars_of(output);
    let off = chars_of("[off]");
    if contains_chars(&v, &off) {
        return Some(true);
    }
    let on = chars_of("[on]");
    if contains_chars(&v, &on) {
        return Some(false);
    }
    None
}

/// macOS `osascript` prints `true` or `false`, trimmed; anything else is
/// unknown.
pub fn osascript_muted(output: &str) -> (r: Option<bool>)
    ensures
        r == if trim_seq(output@) == "true"@ {
            Some(true)
        } else if trim_seq(output@) == "false"@ {
            Some(false)
        } else {
            None
        },
{
    let t = trim_str(output);
    if str_eq(t.as_str(), "true") {
        Some(true)
    } else if str_eq(t.as_str(), "false") {
        Some(false)
    } else {
        None
    }
}


#[verifier::external_type_specification]
#[verifier::external_body]
#[verifier::reject_recursive_types(T)]
pub struct ExReceiver<T>(std::sync::mpsc::Receiver<T>);

/// One recording session's first-sample notification, tagged with the
/// capture generation it belongs to.
pub struct RecordingReadiness {
    receiver: std::sync::mpsc::Receiver<()>,
    generation: u64,
}

impl RecordingReadiness {
    /// The generation this notification belongs to.
    pub closed spec fn generation_spec(&self) -> u64 {
        self.generation
    }

    /// A notification for capture generation `generation`, signalled through
    /// `receiver`.
    pub fn new(receiver: std::sync::mpsc::Receiver<()>, generation: u64) -> (r: Self)
        ensures
            r.generation_spec() == generation,
    {
        RecordingReadiness { receiver, generation }
    }

    /// Blocks until the first sample arrives; false when the recorder went
    /// away first.
    ///
    /// Trusted: calls `std::sync::mpsc::Receiver::recv`, whose outcome depends
    /// on the recording thread, so nothing is claimed of the result.
    #[verifier::external_body]
    pub fn wait(self) -> bool {
        self.receiver.recv().is_ok()
    }

    /// The capture generation this notification belongs to.
    pub fn generation(&self) -> (g: u64)
        ensures
            g == self.generation_spec(),
    {
        self.generation
    }
}

} // verus!
