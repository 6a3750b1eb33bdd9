//! Reading, checking and writing of calendar and contact-card text.
//!
//! Bytes are unfolded into logical lines ([`line`]), each line is split into a
//! name, its parameters and a value ([`property`]), the records are gathered into
//! nested components that are checked when their closing line is read
//! ([`parser`]), and every component can be written back as folded text
//! ([`generator`]). Date and time values live in [`types`].
pub mod builder;
pub mod generator;
pub mod line;
pub mod parser;
pub mod property;
pub mod text;
pub mod types;

use vstd::prelude::*;

pub use crate::line::{Line, LineReader};
pub use crate::property::{Property, PropertyError, PropertyParser};

verus! {

/// Separates a property name or a parameter from the next parameter.
pub const PARAM_DELIMITER: char = ';';

/// Separates a parameter name from its values.
pub const PARAM_NAME_DELIMITER: char = '=';

/// Separates the values of one parameter.
pub const PARAM_VALUE_DELIMITER: char = ',';

/// Encloses a parameter value that may hold delimiters.
pub const PARAM_QUOTE: char = '"';

/// Separates the name and parameters of a property from its value.
pub const VALUE_DELIMITER: char = ':';

} // verus!
