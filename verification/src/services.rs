//! The one operation that the layers above depend on: give the complete
//! harvest, or fail.

use crate::models::DevilDetail;
use vstd::prelude::*;

verus! {

/// Why a harvest gave nothing.
#[derive(Debug, Clone, PartialEq, Eq)]
pub enum ScrapeError {
    /// A page could not be fetched.
    Transport(String),
    /// A page lacks what was expected in it.
    Structure(String),
}

/// A source of devil records.
pub trait DevilDataSource {
    /// Whether `outcome` is a harvest that this source may give. Each
    /// source says so for itself; one that says nothing may give any.
    open spec fn gives(&self, outcome: Result<Vec<DevilDetail>, ScrapeError>) -> bool {
        true
    }

    /// The complete harvest, or the reason why there is none.
    fn scrape(&self) -> (outcome: Result<Vec<DevilDetail>, ScrapeError>)
        ensures
            self.gives(outcome),
    ;
}

/// The service, over whatever source it is given.
pub struct DevilService<S: DevilDataSource> {
    pub scraper: S,
}

impl<S: DevilDataSource> DevilService<S> {
    pub fn new(scraper: S) -> (service: Self)
        ensures
            service.scraper == scraper,
    {
        DevilService { scraper }
    }

    /// What the source gives, as it gives it.
    pub fn scrape(&self) -> (outcome: Result<Vec<DevilDetail>, ScrapeError>)
        ensures
            self.scraper.gives(outcome),
    {
        self.scraper.scrape()
    }
}

} // verus!
