//! Request and configuration values shared by the workflows.
use vstd::prelude::*;

verus! {

/// Configuration the workflows read: the prefix that turns an identifier into
/// a full short URL.
#[derive(Clone, Debug)]
pub struct AppState {
    pub base_url: String,
}

/// A shorten request or answer: the long URL and, once known, the short URL.
#[derive(Clone, Default)]
pub struct Url {
    pub long_url: String,
    pub short_url: String,
}

impl AppState {
    /// The full short URL of identifier `id`: the base URL followed by `id`.
    pub fn short_url(&self, id: &str) -> (r: String)
        ensures
            r@ == self.base_url@ + id@,
    {
        let mut s = self.base_url.clone();
        s.append(id);
        s
    }
}

} // verus!
