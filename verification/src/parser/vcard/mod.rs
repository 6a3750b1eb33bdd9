//! Contact cards.
pub mod component;

pub use crate::parser::vcard::component::{ContactView, VcardContact};
