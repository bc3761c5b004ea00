//! Verified core of a block-signing node: the HTTP response preamble used to
//! talk to the block-validation endpoint, and the signer-side consensus logic
//! (sortition view tracking, proposal evaluation, weighted response
//! aggregation, the committee channel, and reward-cycle rollover).

pub mod aggregator;
pub mod ascii;
pub mod channel;
pub mod cycles;
pub mod date;
pub mod encode;
pub mod evaluator;
pub mod headers;
pub mod http_types;
pub mod parse;
pub mod payload;
pub mod preamble;
pub mod sortition;
