use price_cache::codec::{serialize, ExchangeRate};
use price_cache::service::{
    after_cache_read, after_fetch, cache_entry, ApiError, CacheLookup, CodecError, LookupAction,
    LookupStage, PriceLookup, CACHE_KEY, CACHE_TTL_SECONDS,
};
use price_cache::store::{classify_read, StoreError, StoreErrorKind};

/// A store holding at most one entry, and a fetcher, both counting calls.
struct World {
    entry: Option<String>,
    store_fails: bool,
    fetch_result: Option<(String, u64)>,
    fetches: usize,
    writes: Vec<(String, String, u64)>,
}

impl World {
    fn new(entry: Option<String>, fetch_result: Option<(String, u64)>) -> World {
        World { entry, store_fails: false, fetch_result, fetches: 0, writes: Vec::new() }
    }

    fn get(&self) -> Result<String, StoreError> {
        if self.store_fails {
            return Err(StoreError { kind: StoreErrorKind::Other, detail: "down".to_string() });
        }
        match &self.entry {
            Some(v) => Ok(v.clone()),
            None => Err(StoreError { kind: StoreErrorKind::TypeMismatch, detail: "nil".to_string() }),
        }
    }

    fn fetch(&mut self) -> Result<ExchangeRate, ApiError> {
        self.fetches += 1;
        match &self.fetch_result {
            Some((t, r)) => Ok(ExchangeRate { time: t.clone(), rate: *r }),
            None => Err(ApiError::Request("503".to_string())),
        }
    }

    fn set(&mut self, key: &str, value: &str, ttl: u64) -> Result<(), StoreError> {
        self.writes.push((key.to_string(), value.to_string(), ttl));
        self.entry = Some(value.to_string());
        Ok(())
    }

    /// Runs one lookup to its end; returns the answer and the machine.
    fn run_lookup(&mut self) -> (Result<ExchangeRate, ApiError>, PriceLookup) {
        let mut lookup = PriceLookup::new();
        let mut action = lookup.start();
        loop {
            action = match action {
                LookupAction::ReadCache => lookup.on_cache_read(classify_read(self.get())),
                LookupAction::Fetch => {
                    let fetched = self.fetch();
                    lookup.on_fetched(fetched)
                }
                LookupAction::Write(text) => {
                    let written = self.set(CACHE_KEY, &text, CACHE_TTL_SECONDS);
                    lookup.on_written(written)
                }
                LookupAction::Done(r) => return (r, lookup),
            }
        }
    }

    fn get_price(&mut self) -> Result<ExchangeRate, ApiError> {
        self.run_lookup().0
    }
}

#[test]
fn cold_cache_fetches_once_and_writes_once() {
    let mut w = World::new(None, Some(("t1".to_string(), 5_000_000_000_000)));
    let r = w.get_price().ok().expect("price");
    assert_eq!((r.time.as_str(), r.rate), ("t1", 5_000_000_000_000));
    assert_eq!(w.fetches, 1);
    assert_eq!(w.writes.len(), 1);
    assert_eq!(w.writes[0].0, "bitcoin_exchange_price");
    assert_eq!(w.writes[0].1, "{\"time\":\"t1\",\"rate\":5000000000000}");
    assert_eq!(w.writes[0].2, 7200);
}

#[test]
fn warm_cache_fetches_nothing() {
    let stored = serialize(&ExchangeRate { time: "t0".to_string(), rate: 4_200_000_000_000 });
    let mut w = World::new(Some(stored), Some(("t1".to_string(), 1)));
    let r = w.get_price().ok().expect("price");
    assert_eq!((r.time.as_str(), r.rate), ("t0", 4_200_000_000_000));
    assert_eq!(w.fetches, 0);
    assert!(w.writes.is_empty());
}

#[test]
fn corrupt_entry_is_a_serialization_error() {
    let mut w = World::new(Some("{garbage".to_string()), Some(("t1".to_string(), 1)));
    assert!(matches!(w.get_price(), Err(ApiError::Serialize(CodecError::MalformedEntry))));
    assert_eq!(w.fetches, 0);
    assert!(w.writes.is_empty());
}

#[test]
fn failed_fetch_writes_nothing() {
    let mut w = World::new(None, None);
    assert!(matches!(w.get_price(), Err(ApiError::Request(_))));
    assert_eq!(w.fetches, 1);
    assert!(w.writes.is_empty());
}

#[test]
fn store_failure_is_a_cache_error() {
    let mut w = World::new(None, Some(("t1".to_string(), 1)));
    w.store_fails = true;
    assert!(matches!(w.get_price(), Err(ApiError::Cache(_))));
    assert_eq!(w.fetches, 0);
}

#[test]
fn second_lookup_after_cold_one_is_served_from_cache() {
    let mut w = World::new(None, Some(("t1".to_string(), 123)));
    w.get_price().ok().unwrap();
    let r = w.get_price().ok().unwrap();
    assert_eq!(r.rate, 123);
    assert_eq!(w.fetches, 1);
    assert_eq!(w.writes.len(), 1);
}

#[test]
fn two_cold_lookups_both_fetch_and_last_write_wins() {
    // both callers miss before either writes
    let mut w = World::new(None, Some(("a".to_string(), 1)));
    let first = after_cache_read(classify_read(w.get())).ok().unwrap();
    let second = after_cache_read(classify_read(w.get())).ok().unwrap();
    assert!(matches!(first, CacheLookup::Miss) && matches!(second, CacheLookup::Miss));
    let (ra, ta) = after_fetch(w.fetch()).ok().unwrap();
    w.fetch_result = Some(("b".to_string(), 2));
    let (rb, tb) = after_fetch(w.fetch()).ok().unwrap();
    w.set(CACHE_KEY, &ta, CACHE_TTL_SECONDS).unwrap();
    w.set(CACHE_KEY, &tb, CACHE_TTL_SECONDS).unwrap();
    assert_eq!((ra.rate, rb.rate), (1, 2));
    assert_eq!(w.fetches, 2);
    assert_eq!(w.entry.as_deref(), Some("{\"time\":\"b\",\"rate\":2}"));
}

#[test]
fn cache_entry_refuses_unframable_time() {
    let r = ExchangeRate { time: "a\"b".to_string(), rate: 1 };
    assert!(matches!(cache_entry(&r), Err(ApiError::Serialize(CodecError::TimeNotFramable))));
    let ok = ExchangeRate { time: "ab".to_string(), rate: 10 };
    assert_eq!(cache_entry(&ok).ok().unwrap(), "{\"time\":\"ab\",\"rate\":10}");
}

#[test]
fn lookup_counts_on_cold_and_warm_cache() {
    let mut w = World::new(None, Some(("t1".to_string(), 9)));
    let (r, l) = w.run_lookup();
    assert_eq!(r.ok().unwrap().rate, 9);
    assert_eq!((l.fetches, l.writes), (1, 1));
    assert!(matches!(l.stage, LookupStage::Finished));
    let (r, l) = w.run_lookup();
    assert_eq!(r.ok().unwrap().rate, 9);
    assert_eq!((l.fetches, l.writes), (0, 0));
}

#[test]
fn lookup_with_corrupt_entry_asks_for_no_fetch() {
    let mut w = World::new(Some("{\"time\":\"t\",\"rate\":x}".to_string()), Some(("t1".to_string(), 9)));
    let (r, l) = w.run_lookup();
    assert!(matches!(r, Err(ApiError::Serialize(CodecError::MalformedEntry))));
    assert_eq!((l.fetches, l.writes), (0, 0));
    assert_eq!(w.fetches, 0);
}

#[test]
fn lookup_write_failure_is_reported() {
    let mut l = PriceLookup::new();
    assert!(matches!(l.start(), LookupAction::ReadCache));
    assert!(matches!(l.on_cache_read(Ok(None)), LookupAction::Fetch));
    let a = l.on_fetched(Ok(ExchangeRate { time: "t".to_string(), rate: 5 }));
    match a {
        LookupAction::Write(text) => assert_eq!(text, "{\"time\":\"t\",\"rate\":5}"),
        other => panic!("expected a write, got {other:?}"),
    }
    let done = l.on_written(Err(StoreError { kind: StoreErrorKind::Other, detail: "x".to_string() }));
    assert!(matches!(done, LookupAction::Done(Err(ApiError::Cache(_)))));
    assert_eq!((l.fetches, l.writes), (1, 1));
}
