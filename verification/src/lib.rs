//! A composable library for writing P4Runtime controllers: values and their
//! encodings, packet formats, the P4Info lookups that turn flows into table
//! entries, and the network state that applications share.

pub mod buffer;
pub mod value;
pub mod packet;
pub mod ethernet;
pub mod arp;
pub mod p4info;
pub mod pure;
pub mod runtime;
pub mod flow;
pub mod util;
pub mod pipeconf;
pub mod representation;
pub mod event;
pub mod common;
pub mod proxyarp;
pub mod entity;
pub mod bmv2;
pub mod sync_app;
pub mod error;
pub mod context;
pub mod core_state;
pub mod statistic;
pub mod extended;
pub mod restore;
pub mod async_app;
pub mod handle;
