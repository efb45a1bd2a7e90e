//! Parental exit authorizations: the form, its validation rules and the
//! documents rendered from it.
pub mod domain;
pub mod infra;
pub mod render;
