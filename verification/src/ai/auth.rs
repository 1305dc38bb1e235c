//! Authentication for AI services.
//!
//! Reading a key from the environment happens outside this library; an
//! [`Auth`] is made from the key that was read.

use vstd::prelude::*;

verus! {

/// Manages authentication keys for AI service APIs.
pub struct Auth {
    api_key: String,
}

impl Auth {
    /// The key held.
    pub closed spec fn key(&self) -> Seq<char> {
        self.api_key@
    }

    /// Creates a new `Auth` structure using the given API key.
    pub fn new(api_key: &str) -> (a: Self)
        ensures
            a.key() == api_key@,
    {
        Auth { api_key: String::from_str(api_key) }
    }

    /// The actual API key.
    pub fn api_key(&self) -> (k: &str)
        ensures
            k@ == self.key(),
    {
        self.api_key.as_str()
    }
}

} // verus!
