//! RustyMixer: the verified core of a two-deck DJ mixer.
//!
//! The modules here hold the decisions and bookkeeping of the mixer: validated
//! audio parameters, the control-id registry, deck transport state, the choice
//! of the track a decoder plays, the chunk cache that feeds the audio
//! callback, musical-key notation, analysis configuration and the text/SQL
//! logic of the music library.

pub mod analysis;
pub mod audio;
pub mod cache;
pub mod channel;
pub mod decode;
pub mod control;
pub mod display;
pub mod effects;
pub mod import;
pub mod key_detection;
pub mod library;
pub mod scanner;
pub mod text;
pub mod transport;
