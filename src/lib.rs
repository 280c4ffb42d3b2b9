//! Re-cases identifiers to match the style of a reference identifier.
//!
//! A style is a case convention together with a word separator and an
//! optional leading separator. [`identify`] infers the style of a reference
//! string; [`construct`] renders a target string in a given style.

use vstd::prelude::*;

pub mod classify;
pub mod letters;
pub mod render;
pub mod style;

pub use classify::{identify, Possibs};
pub use render::{construct, recase, recase_naive};
pub use style::{Case, Sep, Style};

verus! {

} // verus!
