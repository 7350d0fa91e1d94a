//! The decisions of the Lumina voice overlay: what its soundboard, voice
//! controls, user rows, keybind recorder and settings window show and do.
pub mod bridge;
pub mod keybind;
pub mod overlay;
pub mod settings;
pub mod soundboard;
pub mod text;
pub mod voice;
