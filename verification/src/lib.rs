//! Checks whether the packages that a project declares are installed.
use vstd::prelude::*;

pub mod text;
pub mod types;
pub mod json;
pub mod toml_doc;
pub mod ecosystems;
pub mod scanner;
pub mod detect;
pub mod display;
pub mod laws;

verus! {
}
