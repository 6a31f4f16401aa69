//! Decoding of keyboard events into short display strings for an on-screen
//! key-press indicator, and the auto-hide scheduling of those strings.
pub mod classifier;
pub mod fade;
pub mod keysym;
pub mod modifiers;
