use vstd::prelude::*;

verus! {

/// Number of attempts made to reach the cache store before giving up.
pub const CONNECT_ATTEMPTS: u32 = 3;

/// What a failed store operation reported.
#[derive(Debug)]
pub enum StoreErrorKind {
    /// The key holds no value of the asked type: the entry is absent.
    TypeMismatch,
    /// Any other failure: transport, protocol, server.
    Other,
}

/// A failed store operation, with the store's own words for it.
#[derive(Debug)]
pub struct StoreError {
    pub kind: StoreErrorKind,
    pub detail: String,
}

/// Maps the outcome of a raw store read to the value found, `None` where the
/// key is absent, or the error where the store failed.
pub fn classify_read(read: Result<String, StoreError>) -> (r: Result<Option<String>, StoreError>)
    ensures
        match read {
            Ok(v) => r == Ok::<Option<String>, StoreError>(Some(v)),
            Err(e) => match e.kind {
                StoreErrorKind::TypeMismatch => r == Ok::<Option<String>, StoreError>(None),
                StoreErrorKind::Other => r == Err::<Option<String>, StoreError>(e),
            },
        },
{
    match read {
        Ok(v) => Ok(Some(v)),
        Err(e) => match e.kind {
            StoreErrorKind::TypeMismatch => Ok(None),
            StoreErrorKind::Other => Err(e),
        },
    }
}

/// What the connection loop does next.
#[derive(Debug)]
pub enum ConnectStep {
    Attempt,
    GiveUp,
}

/// The cache store client's own state: what is left of its budget of
/// connection attempts.
#[derive(Debug)]
pub struct RedisClient {
    pub remaining: u32,
}

impl RedisClient {
    pub fn new() -> (c: RedisClient)
        ensures
            c.remaining == CONNECT_ATTEMPTS,
    {
        RedisClient { remaining: CONNECT_ATTEMPTS }
    }

    /// Another attempt while the budget lasts; giving up once it is spent.
    pub fn next_step(&self) -> (s: ConnectStep)
        ensures
            s is GiveUp <==> self.remaining == 0,
    {
        if self.remaining == 0 {
            ConnectStep::GiveUp
        } else {
            ConnectStep::Attempt
        }
    }

    /// Records a failed attempt.
    pub fn record_failure(&mut self)
        requires
            old(self).remaining > 0,
        ensures
            final(self).remaining == old(self).remaining - 1,
    {
        self.remaining = self.remaining - 1;
    }
}

} // verus!
