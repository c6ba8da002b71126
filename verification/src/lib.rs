//! tonemate's translation logic: the direction and prompt rules, the parsers
//! that turn a streamed answer into labelled rows, the provider choice, the
//! stored settings, and the bookkeeping of the local model.
pub mod text;
pub mod tones;
pub mod json;
pub mod sse;
pub mod prompts;
pub mod scenes;
pub mod words;
pub mod settings;
pub mod provider;
pub mod retry;
pub mod decimal;
pub mod local;
pub mod transport;
