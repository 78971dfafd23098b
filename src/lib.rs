//! A minimal HTTP front end: request-line dispatch, response framing, a route
//! table, a typestate builder and the job queue shared by a worker pool.

pub mod http;
pub mod queue;
pub mod router;
pub mod server;

pub use http::{completion_response, method_is_get, ok_response, split_request_line, Status};
pub use queue::{Claim, JobQueue};
pub use router::Router;
pub use server::{Builder, Host, NoHost, Server, DEFAULT_POOL_SIZE};
