//! Keystroke alignment, scrolling and scoring engine for a terminal typing test,
//! together with the pure helpers around it (visual character equivalence,
//! stream punctuation, word-stream generation rules and small formatting helpers).
pub mod text;
pub mod random;
pub mod word_map;
pub mod models;
pub mod align;
pub mod scoring;
pub mod layout;
pub mod config;
pub mod session;
pub mod generator;
pub mod labels;
pub mod strings;
