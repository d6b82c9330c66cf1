//! Verified core of a web research engine.

pub mod agent;
pub mod conversations;
pub mod dialogue_laws;
pub mod json;
pub mod keys;
pub mod matching_laws;
pub mod model_laws;
pub mod neural;
pub mod nim;
pub mod order;
pub mod probes;
pub mod prompts;
pub mod ranking;
pub mod ranking_laws;
pub mod requests;
pub mod research;
pub mod service_laws;
pub mod similarity;
pub mod spelling;
pub mod text;
pub mod text_laws;
