use vstd::prelude::*;

use crate::error::Error;
use crate::model::Language;

verus! {

/// The language-catalog cache's lifecycle, shared by every caller of the
/// catalog over a process's life: it starts empty, one fetch attempt runs at
/// a time, a successful fetch populates it for good, and a failed one leaves
/// it empty so the next caller retries from scratch.
pub enum CatalogCache {
    /// No successful fetch has happened yet; no stale partial data is held.
    Empty,
    /// The catalog, populated once and immutable thereafter.
    Ready(Vec<Language>),
}

impl CatalogCache {
    pub fn new() -> (r: CatalogCache)
        ensures
            r is Empty,
    {
        CatalogCache::Empty
    }

    /// Whether serving a caller requires a fetch first.
    pub fn needs_fetch(&self) -> (r: bool)
        ensures
            r == (self is Empty),
    {
        match self {
            CatalogCache::Empty => true,
            CatalogCache::Ready(_) => false,
        }
    }

    /// Applies the outcome of one fetch attempt to an empty cache: success
    /// populates it with exactly the fetched catalog, failure hands the error
    /// on and leaves it empty. A populated cache never fetches again, which
    /// `requires` pins down: there is no transition out of `Ready`.
    pub fn apply_fetch(&mut self, outcome: Result<Vec<Language>, Error>) -> (r: Result<(), Error>)
        requires
            *old(self) is Empty,
        ensures
            outcome matches Ok(langs) ==> *final(self) == CatalogCache::Ready(langs) && r is Ok,
            outcome matches Err(e) ==> *final(self) is Empty && r == Err::<(), Error>(e),
    {
        match outcome {
            Ok(langs) => {
                *self = CatalogCache::Ready(langs);
                Ok(())
            },
            Err(e) => Err(e),
        }
    }

    /// The catalog, when populated.
    pub fn get(&self) -> (r: Option<&Vec<Language>>)
        ensures
            match r {
                Some(langs) => *self == CatalogCache::Ready(*langs),
                None => self is Empty,
            },
    {
        match self {
            CatalogCache::Empty => None,
            CatalogCache::Ready(langs) => Some(langs),
        }
    }
}

} // verus!
