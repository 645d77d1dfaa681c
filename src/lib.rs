//! A polite web crawler's engine: request fingerprinting, an admission-controlled
//! per-host request queue, the fetch state machine and the routing of responses.
pub mod address;
pub mod downloader;
pub mod engine;
pub mod queue;
pub mod request;
pub mod response;
pub mod settings;
pub mod stats;
pub mod text;

pub use address::{parse_seed, Url};
pub use downloader::{make_request, Handler, Next, ReadEvent, Stage};
pub use engine::{
    enqueue_links, handle_response, on_completion, page_body, resolve_links, CrawlResult,
};
pub use queue::RequestQueue;
pub use request::Request;
pub use response::Response;
pub use settings::Settings;
pub use stats::{CrawlStats, Stats, StatsReport};
