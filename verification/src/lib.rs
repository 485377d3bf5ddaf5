//! A minimal timer: work that runs once after a delay or repeatedly at a
//! fixed period, with cooperative cancellation through one shared flag.

pub mod adjlist;
pub mod task;
pub mod timeline;
pub mod timer;
