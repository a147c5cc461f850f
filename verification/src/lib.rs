//! A verified core for a kernel routing-netlink event monitor.
//!
//! The library computes the multicast-group subscription bitmask, decides
//! the outcome of socket configuration (strict-check option, bind), and
//! models the event pipeline: a connection driver that feeds an ordered
//! queue and a consumer that drains it in arrival order until end of
//! stream.

pub mod event;
pub mod groups;
pub mod pipeline;
pub mod queue;
