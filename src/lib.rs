//! Hotkey-driven text capture and injection: key-code tables for three
//! platform encodings, a key-combination reader and writer, a synthetic
//! keyboard, the global-hotkey registry, and the decisions of the run loop
//! that copies a selection, streams an answer and types or shows it.

use vstd::prelude::*;

pub mod keycode;
pub mod keys;
pub mod keyboard;
pub mod hotkey;
pub mod pipeline;

verus! {

/// Opaque error of the synthetic-input layer when its handle cannot be made.
#[verifier::external_type_specification]
#[verifier::external_body]
pub struct ExNewConError(enigo::NewConError);

/// Opaque error of the synthetic-input layer when an event cannot be sent.
#[verifier::external_type_specification]
#[verifier::external_body]
pub struct ExInputError(enigo::InputError);

/// Errors of the library.
#[derive(Debug)]
pub enum Failure {
    /// A key or key name that the platform's table does not cover.
    UnsupportedKey(String),
    /// The synthetic-input handle could not be created.
    NewCon(enigo::NewConError),
    /// A synthetic key or text event could not be sent.
    Input(enigo::InputError),
    /// The global-hotkey facility refused the handle or a registration.
    Hotkey(global_hotkey::Error),
}

} // verus!
