//! Application-wide settings state.
pub mod navbar;
