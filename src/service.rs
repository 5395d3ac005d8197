use vstd::prelude::*;
use crate::codec::{ExchangeRate, RateView, deserialize, encoded, is_valid_time, reads_as, serialize, valid_time};
use crate::store::StoreError;

verus! {

/// The single key under which the current rate is cached.
pub const CACHE_KEY: &'static str = "bitcoin_exchange_price";

/// Lifetime of a cache entry, reset at every write.
pub const CACHE_TTL_SECONDS: u64 = 7200;

/// Why a cache entry could not be written or read.
#[derive(Debug)]
pub enum CodecError {
    /// The stored text is not an entry.
    MalformedEntry,
    /// The time stamp holds a quote or a backslash.
    TimeNotFramable,
}

/// The failures that reach a caller of the price service.
#[derive(Debug)]
pub enum ApiError {
    Cache(StoreError),
    Request(String),
    Serialize(CodecError),
    Generic(String),
}

/// What the cache held.
#[derive(Debug)]
pub enum CacheLookup {
    Hit(ExchangeRate),
    Miss,
}

/// The entry text for `rate`, written over whatever is cached.
pub fn cache_entry(rate: &ExchangeRate) -> (r: Result<String, ApiError>)
    ensures
        is_valid_time(rate.time@) ==> (r matches Ok(s) && s@ == encoded(rate@)),
        !is_valid_time(rate.time@) ==> r == Err::<String, ApiError>(
            ApiError::Serialize(CodecError::TimeNotFramable),
        ),
{
    if valid_time(rate.time.as_str()) {
        Ok(serialize(rate))
    } else {
        Err(ApiError::Serialize(CodecError::TimeNotFramable))
    }
}

/// First step of a price lookup: what the cache read gives. A stored entry is
/// served or, where it cannot be read, an error: never a miss, so that a
/// corrupt entry never leads to a live fetch.
pub fn after_cache_read(read: Result<Option<String>, StoreError>) -> (r: Result<CacheLookup, ApiError>)
    ensures
        match read {
            Ok(Some(s)) => {
                &&& match r {
                    Ok(CacheLookup::Hit(x)) => reads_as(s@, x@),
                    Ok(CacheLookup::Miss) => false,
                    Err(e) => e == ApiError::Serialize(CodecError::MalformedEntry) && forall|
                        y: RateView,
                    | is_valid_time(y.time) ==> #[trigger] encoded(y) != s@,
                }
                &&& forall|y: RateView|
                    is_valid_time(y.time) && #[trigger] encoded(y) == s@ ==> (r matches Ok(
                        CacheLookup::Hit(x),
                    ) && x@ == y)
            },
            Ok(None) => r matches Ok(CacheLookup::Miss),
            Err(e) => r == Err::<CacheLookup, ApiError>(ApiError::Cache(e)),
        },
{
    match read {
        Ok(Some(s)) => match deserialize(s.as_str()) {
            Some(x) => Ok(CacheLookup::Hit(x)),
            None => Err(ApiError::Serialize(CodecError::MalformedEntry)),
        },
        Ok(None) => Ok(CacheLookup::Miss),
        Err(e) => Err(ApiError::Cache(e)),
    }
}

/// Second step, after a miss: the fetched rate and the entry to write for it.
/// A failed fetch is passed on, and nothing is written.
pub fn after_fetch(fetched: Result<ExchangeRate, ApiError>) -> (r: Result<
    (ExchangeRate, String),
    ApiError,
>)
    ensures
        match fetched {
            Ok(x) => if is_valid_time(x.time@) {
                r matches Ok((y, s)) && y@ == x@ && s@ == encoded(x@)
            } else {
                r == Err::<(ExchangeRate, String), ApiError>(
                    ApiError::Serialize(CodecError::TimeNotFramable),
                )
            },
            Err(e) => r == Err::<(ExchangeRate, String), ApiError>(e),
        },
{
    match fetched {
        Ok(x) => match cache_entry(&x) {
            Ok(s) => Ok((x, s)),
            Err(e) => Err(e),
        },
        Err(e) => Err(e),
    }
}

/// Last step, after the write: the fetched rate, or the store's error.
pub fn after_write(written: Result<(), StoreError>, rate: ExchangeRate) -> (r: Result<
    ExchangeRate,
    ApiError,
>)
    ensures
        match written {
            Ok(_) => r == Ok::<ExchangeRate, ApiError>(rate),
            Err(e) => r == Err::<ExchangeRate, ApiError>(ApiError::Cache(e)),
        },
{
    match written {
        Ok(_) => Ok(rate),
        Err(e) => Err(ApiError::Cache(e)),
    }
}


/// Where a price lookup stands.
#[derive(Debug)]
pub enum LookupStage {
    Start,
    Reading,
    Fetching,
    Writing,
    Finished,
}

/// What a price lookup asks its caller to do next.
#[derive(Debug)]
pub enum LookupAction {
    /// Read the entry under `CACHE_KEY`.
    ReadCache,
    /// Fetch the live rate.
    Fetch,
    /// Write this entry under `CACHE_KEY`, for `CACHE_TTL_SECONDS`.
    Write(String),
    /// The lookup is over, with this answer.
    Done(Result<ExchangeRate, ApiError>),
}

/// One cache-aside lookup of the price, as a machine that is told what each
/// action gave and answers with the next action. It counts the fetches and
/// writes that it asked for.
#[derive(Debug)]
pub struct PriceLookup {
    pub stage: LookupStage,
    pub fetches: u32,
    pub writes: u32,
    /// The fetched rate, while its entry is being written.
    pub pending: Option<ExchangeRate>,
}

impl PriceLookup {
    pub open spec fn wf(&self) -> bool {
        &&& self.writes <= self.fetches <= 1
        &&& (self.stage is Start || self.stage is Reading) ==> self.fetches == 0
        &&& self.stage is Fetching ==> self.fetches == 1 && self.writes == 0
        &&& self.stage is Writing ==> self.fetches == 1 && self.writes == 1 && self.pending is Some
    }

    pub fn new() -> (l: PriceLookup)
        ensures
            l.wf(),
            l.stage is Start,
            l.fetches == 0,
            l.writes == 0,
    {
        PriceLookup { stage: LookupStage::Start, fetches: 0, writes: 0, pending: None }
    }

    /// A lookup begins with a cache read.
    pub fn start(&mut self) -> (a: LookupAction)
        requires
            old(self).wf(),
            old(self).stage is Start,
        ensures
            final(self).wf(),
            final(self).stage is Reading,
            a is ReadCache,
            final(self).fetches == 0,
            final(self).writes == 0,
    {
        self.stage = LookupStage::Reading;
        LookupAction::ReadCache
    }

    /// After the cache read: a stored entry ends the lookup with no fetch,
    /// served when it reads as a rate and an error when it does not; an
    /// absent key asks for the one fetch.
    pub fn on_cache_read(&mut self, read: Result<Option<String>, StoreError>) -> (a: LookupAction)
        requires
            old(self).wf(),
            old(self).stage is Reading,
        ensures
            final(self).wf(),
            final(self).writes == 0,
            match read {
                Ok(Some(s)) => {
                    &&& final(self).stage is Finished
                    &&& final(self).fetches == 0
                    &&& match a {
                        LookupAction::Done(Ok(x)) => reads_as(s@, x@),
                        LookupAction::Done(Err(e)) => e == ApiError::Serialize(
                            CodecError::MalformedEntry,
                        ) && forall|y: RateView| is_valid_time(y.time) ==> #[trigger] encoded(y)
                            != s@,
                        _ => false,
                    }
                    &&& forall|y: RateView|
                        is_valid_time(y.time) && #[trigger] encoded(y) == s@ ==> (a matches LookupAction::Done(
                            Ok(x),
                        ) && x@ == y)
                },
                Ok(None) => a is Fetch && final(self).stage is Fetching && final(self).fetches == 1,
                Err(e) => a == LookupAction::Done(Err(ApiError::Cache(e)))
                    && final(self).stage is Finished && final(self).fetches == 0,
            },
    {
        match after_cache_read(read) {
            Ok(CacheLookup::Hit(x)) => {
                self.stage = LookupStage::Finished;
                LookupAction::Done(Ok(x))
            },
            Ok(CacheLookup::Miss) => {
                self.stage = LookupStage::Fetching;
                self.fetches = 1;
                LookupAction::Fetch
            },
            Err(e) => {
                self.stage = LookupStage::Finished;
                LookupAction::Done(Err(e))
            },
        }
    }

    /// After the fetch: the one write of the fetched rate's entry, or the
    /// end of the lookup with nothing written.
    pub fn on_fetched(&mut self, fetched: Result<ExchangeRate, ApiError>) -> (a: LookupAction)
        requires
            old(self).wf(),
            old(self).stage is Fetching,
        ensures
            final(self).wf(),
            final(self).fetches == 1,
            match fetched {
                Ok(x) => if is_valid_time(x.time@) {
                    &&& a matches LookupAction::Write(s) && s@ == encoded(x@)
                    &&& final(self).stage is Writing
                    &&& final(self).writes == 1
                    &&& final(self).pending matches Some(p) && p@ == x@
                } else {
                    &&& a == LookupAction::Done(Err(ApiError::Serialize(CodecError::TimeNotFramable)))
                    &&& final(self).stage is Finished
                    &&& final(self).writes == 0
                },
                Err(e) => a == LookupAction::Done(Err(e)) && final(self).stage is Finished
                    && final(self).writes == 0,
            },
    {
        match after_fetch(fetched) {
            Ok((x, s)) => {
                self.stage = LookupStage::Writing;
                self.writes = 1;
                self.pending = Some(x);
                LookupAction::Write(s)
            },
            Err(e) => {
                self.stage = LookupStage::Finished;
                LookupAction::Done(Err(e))
            },
        }
    }

    /// After the write: the fetched rate, or the store's error.
    pub fn on_written(&mut self, written: Result<(), StoreError>) -> (a: LookupAction)
        requires
            old(self).wf(),
            old(self).stage is Writing,
        ensures
            final(self).wf(),
            final(self).stage is Finished,
            final(self).fetches == 1,
            final(self).writes == 1,
            match written {
                Ok(_) => a matches LookupAction::Done(Ok(x)) && old(self).pending matches Some(p)
                    && x@ == p@,
                Err(e) => a == LookupAction::Done(Err(ApiError::Cache(e))),
            },
    {
        self.stage = LookupStage::Finished;
        let rate = self.pending.take().unwrap();
        LookupAction::Done(after_write(written, rate))
    }
}

} // verus!
