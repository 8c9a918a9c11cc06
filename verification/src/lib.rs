//! A stable 32-bit host identifier, rendered as lowercase hexadecimal text.
pub mod address;
pub mod error;
pub mod hex;
pub mod hosts;
pub mod interfaces;
pub mod resolver;
pub mod steps;
pub mod text;
