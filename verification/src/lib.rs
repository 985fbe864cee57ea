//! Core logic of a music auto-tagger: candidate matching and scoring,
//! catalog-listing parsing, tagging orchestration, the per-connection
//! command protocol, and cancellable waveform production.
pub mod text;
pub mod track;
pub mod matching;
pub mod juno;
pub mod tagger;
pub mod tageditor;
pub mod player;
pub mod waveform;
pub mod session;
