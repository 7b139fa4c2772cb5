//! Random password generation from selectable character classes.
//!
//! A [`manager::PasswordManager`] holds what is asked for: which of the four character
//! classes of [`alphabet`] to draw from, a half-open range of lengths, and a count. Its
//! `generate` draws that many passwords and hands them back as a
//! [`manager::PasswordResult`], which renders as numbered lines; [`error::Error`] says
//! why a request was turned down.
//!
//! Randomness comes from the `rand` crate. What is proved holds of every outcome of its
//! draws.

pub mod alphabet;
pub mod decimal;
pub mod error;
pub mod manager;
mod random;
