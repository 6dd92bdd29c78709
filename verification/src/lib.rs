//! Webmention receiver core: target-host policy checks, mention request
//! construction, a retry-limited processing queue, the store of accepted
//! mentions, and the durable-log bookkeeping around a processing pass.
//! Also carries the short-link code expander used by the site's redirector.

pub mod dates;

pub mod data;
pub mod mapper;
pub mod newbase60;
pub mod numfmt;
pub mod policy;
pub mod posts;
pub mod processing;
pub mod queue;
pub mod requesting;
pub mod storage;
pub mod synclog;
