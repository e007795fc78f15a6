//! Verified core of the dictation app: the decision logic of streaming,
//! statistics, model selection and the multi-model merge session.

pub mod llm_operation;
pub mod text;
pub mod multi_stt;
pub mod crop;
pub mod statistics;
pub mod streaming_latency;
pub mod search;
pub mod settings;
pub mod transcription;
pub mod hashing;
pub mod model_hub;
pub mod audio;
pub mod moonshine;
pub mod arch_plugins;
pub mod history;
pub mod multi_streaming;
pub mod llama_server;
pub mod continuous_voice;
