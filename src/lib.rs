//! Earth's approximate orbital angle, a table of art keyed by angle, and a
//! twinkle effect over frames of text.
pub mod angle;
pub mod catalog;
pub mod frame;
pub mod race;
