//! A fixed-size worker pool and the small web server built around it.
//!
//! The crate holds the sequential core of both: the pool's lifecycle and
//! shutdown protocol, the message queue that the workers share, and the
//! request and response handling of the server. Threads, sockets and files
//! are left to the program that uses the crate.

pub mod asynchronous;
pub mod pool;
pub mod server;
pub mod text;
pub mod webjob;
