//! Network reconnaissance engine: port probing decisions, service
//! classification, raw SYN packet construction and OS inference, and the
//! bookkeeping of a bounded-concurrency scan.

pub mod config;
pub mod dns;
pub mod os_fingerprint;
pub mod scanner;
pub mod tcp;
pub mod text;
pub mod types;
pub mod utils;
