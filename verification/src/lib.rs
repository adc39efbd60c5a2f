//! Verified core of a dictation assistant: recognizing remote-desktop
//! clients, planning keystrokes and paste chords, reverse keyboard maps,
//! detecting the user's corrections of pasted text, the bootstrap of a
//! shared local transcription server, and the line protocol of the
//! stand-alone inference process.
pub mod apple_intelligence;
pub mod correction;
pub mod infer;
pub mod keymap;
pub mod paste;
pub mod remote_desktop;
pub mod shared_whisper;
pub mod text;
pub mod typing;
