//! The decisions of one continuous-voice turn (speech to text, to the
//! assistant, to speech): what is asked and with which audio, whether
//! playback is waited for, and when listening resumes.

use vstd::prelude::*;
use vstd::string::StringExecFns;
use crate::text::{trim_seq, trim_str, is_blank, is_blank_chars, chars_of};

verus! {

/// What a turn does with its transcription.
#[derive(Clone, Debug, PartialEq, Eq)]
pub enum SttOutcome {
    /// Ask the assistant with this (trimmed) text.
    Ask(String),
    /// Nothing was said: resume listening without asking.
    Skip,
    /// Transcription failed: resume listening and report this message.
    Fail(String),
}

/// What a turn does with the transcription result: a failure is reported,
/// a blank text is skipped, anything else is asked trimmed.
pub fn stt_outcome(result: Result<String, String>) -> (o: SttOutcome)
    ensures
        match result {
            Err(e) => o matches SttOutcome::Fail(m) && m@ == "Transcription failed: "@ + e@,
            Ok(t) => if trim_seq(t@).len() == 0 {
                o is Skip
            } else {
                o matches SttOutcome::Ask(a) && a@ == trim_seq(t@)
            },
        },
{
    match result {
        Err(e) => {
            let mut m = String::from_str("Transcription failed: ");
            m.append(e.as_str());
            SttOutcome::Fail(m)
        },
        Ok(t) => {
            let trimmed = trim_str(t.as_str());
            if trimmed.as_str().is_empty() {
                SttOutcome::Skip
            } else {
                SttOutcome::Ask(trimmed)
            }
        },
    }
}

/// What the assistant is asked: in brain-only mode the fixed transcription
/// prompt with the audio (speech-to-text is bypassed), else the
/// transcription, with the audio when multimodal input is on.
pub fn brain_request(transcription: &str, brain_only: bool, multimodal_audio: bool, brain_only_prompt: &str) -> (r: (String, bool))
    ensures
        r.0@ == if brain_only { brain_only_prompt@ } else { transcription@ },
        r.1 == (brain_only || multimodal_audio),
{
    let text = if brain_only { String::from_str(brain_only_prompt) } else { String::from_str(transcription) };
    (text, brain_only || multimodal_audio)
}

/// The standard base64 text (RFC 4648 alphabet, `=` padding) of `bytes`.
pub uninterp spec fn base64_standard(bytes: Seq<u8>) -> Seq<char>;

/// Standard base64 of `bytes`.
///
/// Trusted: calls `base64::Engine::encode` on
/// `base64::engine::general_purpose::STANDARD`. Claims the text is the named
/// [`base64_standard`] of the bytes, and the length the crate's
/// `encoded_len` gives with padding: four characters per started group of
/// three bytes. The crate panics when that length does not fit in `usize`,
/// which the `requires` rules out.
#[verifier::external_body]
fn base64_encode(bytes: &Vec<u8>) -> (s: String)
    requires
        4 * ((bytes@.len() + 2) / 3) <= usize::MAX,
    ensures
        s@ == base64_standard(bytes@),
        s@.len() == 4 * ((bytes@.len() + 2) / 3),
{
    base64::Engine::encode(&base64::engine::general_purpose::STANDARD, bytes)
}

/// How a turn asks the assistant.
#[derive(Clone, Debug, PartialEq, Eq)]
pub enum BrainAsk {
    /// The prompt with the turn's audio, its WAV bytes in standard base64.
    Multimodal { prompt: String, audio_base64: String },
    /// The prompt alone.
    Text { prompt: String },
}

/// The ask a turn makes: with multimodal input on and the turn's WAV
/// encoding at hand (`wav`, `None` when no audio was kept for the
/// assistant), the prompt with that audio in base64; the prompt alone when
/// multimodal input is off, no audio was kept, or encoding it failed.
pub fn brain_ask(prompt: String, multimodal: bool, wav: Option<Result<Vec<u8>, String>>) -> (a: BrainAsk)
    requires
        multimodal ==> (wav matches Some(Ok(b)) ==> 4 * ((b@.len() + 2) / 3) <= usize::MAX),
    ensures
        multimodal ==> (wav matches Some(Ok(b)) ==> (a matches BrainAsk::Multimodal { prompt: p, audio_base64: t }
            && p == prompt && t@ == base64_standard(b@))),
        !multimodal ==> a == (BrainAsk::Text { prompt }),
        !(wav matches Some(Ok(_))) ==> a == (BrainAsk::Text { prompt }),
{
    if multimodal {
        match wav {
            Some(Ok(bytes)) => {
                let audio_base64 = base64_encode(&bytes);
                BrainAsk::Multimodal { prompt, audio_base64 }
            },
            _ => BrainAsk::Text { prompt },
        }
    } else {
        BrainAsk::Text { prompt }
    }
}

/// Whether the turn waits for the spoken reply: it reads replies aloud, the
/// assistant said something, and the turn is still the newest when it
/// commits.
pub fn waits_for_playback(read_aloud: bool, tts_enabled: bool, reply: &Option<String>, still_latest: bool) -> (b: bool)
    ensures
        b == (read_aloud && tts_enabled && (reply matches Some(t) && trim_seq(t@).len() > 0) && still_latest),
{
    let has_reply = match reply {
        Some(t) => {
            let v = chars_of(t.as_str());
            proof {
                crate::text::lemma_trim_facts(t@);
            }
            !is_blank_chars(&v)
        },
        None => false,
    };
    read_aloud && tts_enabled && has_reply && still_latest
}

/// Grace before listening resumes without auto-listen, so the room's reverb
/// of the reply is not captured.
pub const RESUME_GRACE_MS: u64 = 250;

/// How long after the turn listening resumes: at once with auto-listen, else
/// after the grace.
pub fn resume_delay_ms(auto_listen: bool) -> (ms: u64)
    ensures
        ms == if auto_listen { 0 } else { RESUME_GRACE_MS },
{
    if auto_listen { 0 } else { RESUME_GRACE_MS }
}

} // verus!
