//! Measuring how long slot batches take to arrive: a running latency
//! histogram and the decisions of the client that feeds it.

pub mod connection;
pub mod decode;
pub mod dedup;
pub mod filter;
pub mod histogram;
pub mod oracle;
pub mod records;
pub mod session;
pub mod sink;
pub mod supervisor;
