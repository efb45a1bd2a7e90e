//! The authorization form and the rules that its fields obey.
pub mod calendar;
pub mod form;
pub mod format;
pub mod phone;
pub mod text;
