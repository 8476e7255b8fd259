//! A small HTTP/1.1 server core: a request and response codec, a router over a
//! fixed set of routes, the handlers behind them, and the job queue that feeds
//! a pool of workers with graceful shutdown.

pub mod errors;
pub mod text;
pub mod http;
pub mod fields;
pub mod scan;
pub mod split;
pub mod router;
pub mod number;
pub mod request;
pub mod response;
pub mod dir;
pub mod handlers;
pub mod utils;
pub mod pool;
pub mod laws;
