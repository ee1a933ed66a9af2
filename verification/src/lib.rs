//! Tick-driven asynchronous HTTP request dispatch for an embedded script host.
//!
//! The host runs scripts on one thread and ticks. Scripts create request
//! clients and submit requests; the exchanges run elsewhere; the outcomes come
//! back as completion events and are turned into script callbacks on the tick
//! thread, each request once.
//!
//! - [`pool`]: handles for owned resources.
//! - [`headers`]: header sets with case-insensitive names.
//! - [`method`]: the HTTP methods and their numbers.
//! - [`request_client`]: endpoint plus default headers, and the requests
//!   built from them.
//! - [`completion`]: completion events and the callbacks they lead to.
//! - [`plugin`]: the dispatcher.
//! - [`trace`]: what holds over every run of the dispatcher.

pub mod completion;
pub mod headers;
pub mod method;
pub mod plugin;
pub mod pool;
pub mod request_client;
pub mod trace;
