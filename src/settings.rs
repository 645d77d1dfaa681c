//! The settings that the crawl runs with.
use vstd::prelude::*;
use vstd::string::*;

use crate::queue::MAX_PENDING;

verus! {

/// The user agent that requests carry unless told otherwise.
pub open spec fn default_user_agent() -> Seq<char> {
    "Mozilla/5.0 (X11; Linux i686) AppleWebKit/537.36 (KHTML, like Gecko) Ubuntu Chromium/43.0.2357.130 Chrome/43.0.2357.130 Safari/537.36"@
}

/// Limits, timeouts and where to write.
pub struct Settings {
    /// Requests in flight at once, over all hosts.
    pub concurrent_requests: u32,
    /// Requests in flight at once to any one host.
    pub concurrent_requests_per_domain: u32,
    /// Where fetched pages are written, one JSON object per line.
    pub out_path: Option<String>,
    /// Seconds to wait for each read.
    pub timeout: u64,
    /// Where the log of responses is written.
    pub urls_path: Option<String>,
    pub user_agent: String,
}

impl Default for Settings {
    fn default() -> (r: Settings)
        ensures
            r.concurrent_requests == MAX_PENDING,
            r.concurrent_requests_per_domain == 4,
            r.out_path.is_some() && r.out_path.unwrap()@ == "out.jl"@,
            r.timeout == 120,
            r.urls_path.is_some() && r.urls_path.unwrap()@ == "urls.csv"@,
            r.user_agent@ == default_user_agent(),
    {
        Settings {
            concurrent_requests: MAX_PENDING,
            concurrent_requests_per_domain: 4,
            out_path: Some(String::from_str("out.jl")),
            timeout: 120,
            urls_path: Some(String::from_str("urls.csv")),
            user_agent: String::from_str(
                "Mozilla/5.0 (X11; Linux i686) AppleWebKit/537.36 (KHTML, like Gecko) Ubuntu Chromium/43.0.2357.130 Chrome/43.0.2357.130 Safari/537.36",
            ),
        }
    }
}

} // verus!
