//! Derives the focus chain of `iced_focus` for structs and enums.
//!
//! The library reads a plain model of the item that the derive is applied to
//! ([`model::DeriveInput`]) and generates the source text of its
//! `iced_focus::Focus` implementation ([`codegen::focus_derive`]). A field takes part
//! in the focus chain when it is annotated with `#[focus(enable)]`, or with
//! `#[focus(enable = "PATH")]`, where `PATH()` tells whether it currently does: the
//! generated guard calls the tokens that `PATH` reads as.

pub mod decimal;
pub mod model;
pub mod tokens;
pub mod attribute;
pub mod field;
pub mod codegen;
pub mod laws;

pub use codegen::focus_derive;
pub mod shape;
