//! The Moonshine streaming policy: a model that may revise text it already
//! committed must not hand committed text to a consumer that cannot take it
//! back.

use vstd::prelude::*;
use crate::text::{chars_of, str_eq, has_infix, ascii_lower_seq, ascii_lowercase_chars, contains_chars};

verus! {

/// The architecture name of Moonshine's streaming models.
pub const MOONSHINE_STREAMING_ARCHITECTURE: &'static str = "moonshine_streaming";

/// Whether a model id or file name looks like a Moonshine streaming model:
/// it mentions both `moonshine` and `streaming`, ignoring ASCII case.
pub fn is_moonshine_streaming_hint(value: &str) -> (b: bool)
    ensures
        b == (has_infix(ascii_lower_seq(value@), "moonshine"@) && has_infix(ascii_lower_seq(value@), "streaming"@)),
{
    let v = chars_of(value);
    let lower = ascii_lowercase_chars(&v);
    let a = chars_of("moonshine");
    let b = chars_of("streaming");
    contains_chars(&lower, &a) && contains_chars(&lower, &b)
}

/// Whether a consumer of streamed text can replace an earlier hypothesis, or
/// has already made the text irreversible outside the app.
#[derive(Clone, Copy, Debug, PartialEq, Eq, Structural)]
pub enum CommittedTextSink {
    ReplaceablePreview,
    IrreversibleAppendOnly,
}

/// When a stream publishes text as committed.
#[derive(Clone, Copy, Debug, PartialEq, Eq, Structural)]
pub enum CommitPolicy {
    /// The engine's own choice for the model.
    Auto,
    /// Once several successive hypotheses agree on a prefix.
    StablePrefix,
    /// Only at the final decode.
    OnFinalize,
}

/// The commit options of a stream.
#[derive(Clone, Copy, Debug, PartialEq, Eq, Structural)]
pub struct StreamOptions {
    pub commit_policy: CommitPolicy,
    /// How many successive hypotheses must agree under `StablePrefix`.
    pub stable_prefix_agreement_n: u32,
}

impl Default for StreamOptions {
    fn default() -> (o: Self)
        ensures
            o.commit_policy == CommitPolicy::Auto,
            o.stable_prefix_agreement_n == 0,
    {
        StreamOptions { commit_policy: CommitPolicy::Auto, stable_prefix_agreement_n: 0 }
    }
}

/// Applies Moonshine's stream policy: for a Moonshine streaming model
/// feeding an append-only consumer, nothing is committed before the final
/// decode; every other combination keeps its options.
pub fn configure_stream_options(architecture: &str, sink: CommittedTextSink, options: StreamOptions) -> (o: StreamOptions)
    ensures
        o == if architecture@ == "moonshine_streaming"@ && sink == CommittedTextSink::IrreversibleAppendOnly {
            StreamOptions { commit_policy: CommitPolicy::OnFinalize, ..options }
        } else {
            options
        },
{
    let mut options = options;
    if str_eq(architecture, MOONSHINE_STREAMING_ARCHITECTURE) && sink == CommittedTextSink::IrreversibleAppendOnly {
        options.commit_policy = CommitPolicy::OnFinalize;
    }
    options
}

} // verus!
