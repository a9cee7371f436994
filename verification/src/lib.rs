//! Verified core of a STUN/TURN benchmarking toolkit: the wire formats of
//! the requests it sends, the checks it makes on replies, the bookkeeping
//! of its workers, and the parsing and formatting of its command line and
//! reports.

pub mod wire;
pub mod transaction;
pub mod stun;
pub mod turn;
pub mod text;
pub mod report;
pub mod cli;
