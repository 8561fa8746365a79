//! The link entity and the request/outcome records that travel across the
//! service boundary.

use vstd::prelude::*;

verus! {

/// A persisted record pairing an original URL with its generated short
/// alias. `id` is assigned once by the store at creation and never changes.
#[derive(Debug)]
pub struct Link {
    pub id: i32,
    pub url: String,
    pub short_url: String,
}

impl Clone for Link {
    fn clone(&self) -> (r: Self)
        ensures
            r == *self,
    {
        Link { id: self.id, url: self.url.clone(), short_url: self.short_url.clone() }
    }
}

/// A fully formed insertion request: the target URL together with the alias
/// generated for it.
pub struct LinkRequest {
    pub url: String,
    pub short_url: String,
}

/// A submitted target URL, as it arrives before validation.
pub struct UrlRequest {
    pub url: String,
}

/// The result of a deletion: how many records the store removed (0 or 1).
pub struct DeleteOutcome {
    pub rows_affected: u64,
}

} // verus!
