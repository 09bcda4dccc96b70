//! The decision logic of the NOVA Android emulator launcher.

pub mod text;
pub mod diagnostics;
pub mod status;
pub mod adb;
pub mod layout;
pub mod launch;
pub mod attempt;
pub mod sequence;
pub mod laws;
