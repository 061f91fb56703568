//! Camille: the decision logic of a webcam- and voice-driven avatar.

pub mod controls;
pub mod expressions;
pub mod jointtest;
pub mod mic;
pub mod scene;
pub mod text;
pub mod tts;
pub mod voice;
