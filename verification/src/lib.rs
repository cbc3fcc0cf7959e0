//! A short-link registry: aliases of the form `go/<name>` mapped to
//! destination URLs, with a storage capability, a volatile backend and the
//! service rules built on top of them.

pub mod durable;
pub mod model;
pub mod paging;
pub mod reply;
pub mod service;
pub mod stamp;
pub mod storage;
pub mod text;
