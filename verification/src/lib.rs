//! A small library for (semi)anonymous SMS verification.
//!
//! A caller obtains a disposable phone number from an SMS-verification
//! provider and reads the messages received on it. The heart of the
//! library is the [`provider::ProviderClient`] trait: a provider supplies
//! two primitive operations (list numbers, list messages), and the trait
//! derives four selection operations from them with a single shared
//! algorithm each, so that every provider gets the same, verified
//! selection semantics for free.

use vstd::prelude::*;

pub mod provider;

verus! {

/// The library's error taxonomy.
///
/// `NotFound` is the only domain error: a derived selection operation
/// raises it when, after filtering, no qualifying entity remains.
/// `Transport` carries a provider-side failure (a failed request, an
/// undecodable response) unmodified through the derived operations;
/// it is never reinterpreted as `NotFound`.
#[derive(Debug)]
pub enum Error {
    /// The requested resource could not be found.
    NotFound,
    /// A provider-side transport or decoding failure, with its description.
    Transport(String),
}

impl Error {
    /// A short human-readable description of the error.
    pub fn describe(&self) -> (r: String)
        ensures
            self is NotFound ==> r@ == "Resource could not be found"@,
            self matches Error::Transport(m) ==> r@ == m@,
    {
        match self {
            Error::NotFound => "Resource could not be found".to_owned(),
            Error::Transport(m) => m.clone(),
        }
    }
}

} // verus!
