//! Speech-input client and ASR server logic: audio buffering, transcript
//! bookkeeping, session state machines and protocol decisions.

pub mod agreement;
pub mod check;
pub mod client;
pub mod cli;
pub mod asr_session;
pub mod config;
pub mod connection;
pub mod controller;
pub mod display;
pub mod gate;
pub mod level;
pub mod number;
pub mod pcm;
pub mod preroll;
pub mod route;
pub mod session;
pub mod settings;
pub mod settings_view;
pub mod text;
pub mod transcript;
pub mod wav;
