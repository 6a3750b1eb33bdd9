//! Calendars and the components in them.
pub mod component;
