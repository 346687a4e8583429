//! Simulator for an in-circuit test (ICT) station: it fabricates synthetic
//! pass/fail measurement data for a catalog of electrical tests, groups the
//! results by board position on a multi-board panel, and renders one text log
//! per board in a fixed legacy line-tester format.

pub mod digits;
pub mod dec;
mod rng;
pub mod clock;
pub mod catalog;
pub mod sim;
pub mod ident;
pub mod panel;
pub mod log;
pub mod sched;
