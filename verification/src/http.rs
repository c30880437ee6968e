//! What an answer to a request holds, and how often a request is tried.

use vstd::prelude::*;

verus! {

/// The answer to a request.
#[derive(Debug)]
pub struct HttpResponse {
    pub status: u16,
    pub headers: Vec<(String, String)>,
    pub body: String,
    pub url: String,
    pub content_type: Option<String>,
    /// When the answer came, in seconds since 1970.
    pub timestamp: u64,
}

impl HttpResponse {
    /// Whether the status says that the request succeeded.
    pub fn is_success(&self) -> (r: bool)
        ensures
            r == (200 <= self.status < 300),
    {
        200 <= self.status && self.status < 300
    }
}

/// How a request is tried.
#[derive(Clone, Copy, Debug, PartialEq, Eq, Structural)]
pub struct RequestConfig {
    /// How often a failed request is tried again.
    pub max_retries: u32,
    /// The delay before the first new try, in milliseconds.
    pub retry_delay: u64,
    /// How long an answer is waited for, in milliseconds.
    pub timeout: u64,
}

impl Default for RequestConfig {
    fn default() -> (r: Self)
        ensures
            r == (RequestConfig { max_retries: 3, retry_delay: 1000, timeout: 30000 }),
    {
        RequestConfig { max_retries: 3, retry_delay: 1000, timeout: 30000 }
    }
}

/// The delay before the next try after the try number `attempt` has failed,
/// counted from zero: the configured delay times the number of tries made;
/// none when the tries are used up. A delay that does not fit is the longest
/// that does.
pub open spec fn delay_after(config: RequestConfig, attempt: u32) -> Option<u64> {
    if attempt < config.max_retries {
        if config.retry_delay * (attempt + 1) <= u64::MAX {
            Some((config.retry_delay * (attempt + 1)) as u64)
        } else {
            Some(u64::MAX)
        }
    } else {
        None
    }
}

impl RequestConfig {
    /// The delay before the next try after try number `attempt` has failed.
    pub fn retry_after(&self, attempt: u32) -> (r: Option<u64>)
        ensures
            r == delay_after(*self, attempt),
    {
        if attempt < self.max_retries {
            let tries: u64 = (attempt as u64) + 1;
            match self.retry_delay.checked_mul(tries) {
                Some(d) => Some(d),
                None => Some(u64::MAX),
            }
        } else {
            None
        }
    }

    /// Whether answers are kept for later requests of the same kind: they
    /// are where a request is tried only once.
    pub fn caches(&self) -> (r: bool)
        ensures
            r == (self.max_retries == 0),
    {
        self.max_retries == 0
    }
}

} // verus!
