//! Process configuration: where the message store lives and how the two
//! timing parameters (message lifetime and sweep period) are chosen.

use vstd::prelude::*;

verus! {

/// A wrapper that keeps a sensitive value (such as an API token) from being
/// read accidentally: the value is reachable only through [`Secret::get`] and
/// [`Secret::into_inner`].
pub struct Secret<T>(T);

impl<T> Secret<T> {
    /// The wrapped value, for use in contracts.
    pub closed spec fn value(self) -> T {
        self.0
    }

    pub fn new(value: T) -> (s: Secret<T>)
        ensures
            s.value() == value,
    {
        Secret(value)
    }

    pub fn get(&self) -> (r: &T)
        ensures
            *r == self.value(),
    {
        &self.0
    }

    pub fn into_inner(self) -> (r: T)
        ensures
            r == self.value(),
    {
        self.0
    }
}

/// Runtime configuration of the process.
///
/// `message_lifetime` and `deletion_period` are in seconds and must both be
/// positive; see [`Config::valid`].
pub struct Config {
    pub telegram_bot_token: Secret<String>,
    pub storage_path: String,
    /// Seconds after which a stored message becomes eligible for a sweep.
    pub message_lifetime: u64,
    /// Seconds between two sweeps.
    pub deletion_period: u64,
    /// Hashtags (without the leading `#`) whose presence keeps a message from
    /// ever being tracked for deletion.
    pub nodelete_hashtags: Vec<String>,
}

impl Config {
    /// Both timing parameters must be positive for the configuration to make
    /// sense: a zero lifetime would expire every message at once, and a zero
    /// period would busy-loop the sweeper.
    pub open spec fn valid(&self) -> bool {
        self.message_lifetime > 0 && self.deletion_period > 0
    }

    pub fn is_valid(&self) -> (r: bool)
        ensures
            r == self.valid(),
    {
        self.message_lifetime > 0 && self.deletion_period > 0
    }
}

/// Default lifetime of a tracked message: 42 hours, in seconds.
pub fn default_message_lifetime() -> (r: u64)
    ensures
        r == 42 * 60 * 60,
{
    42 * 60 * 60
}

/// Default period between two sweeps: 5 minutes, in seconds.
pub fn default_deletion_period() -> (r: u64)
    ensures
        r == 5 * 60,
{
    5 * 60
}

} // verus!
