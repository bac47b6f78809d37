//! Fetches one URL with caller-supplied headers, optionally persisting the body
//! to a file and optionally handing the bytes back.
//!
//! `headers` turns caller-supplied text pairs into a validated header map;
//! `fetch` holds the decisions of the fetch-and-persist operation, while the
//! network and filesystem work is performed by the caller.
pub mod fetch;
pub mod headers;
