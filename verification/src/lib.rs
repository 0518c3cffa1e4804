//! Verified core of a small WebAssembly HTTP endpoint framework: the records
//! that cross the component boundary, their conversion to and from the `http`
//! crate's request and response forms, and the host's function store.

pub mod wit;
pub mod http_ext;
pub mod method;
pub mod std_ext;
pub mod headers;
pub mod message;
pub mod base64_ext;
pub mod host;
pub mod structs;
