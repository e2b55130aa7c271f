//! Core of a low-overhead sampling profiler: a lossy circular sample store,
//! a registry of sampling targets, a shared sampling-interval setting, the
//! wait-strategy decision of the background scheduler, and the record layout
//! written by the capture routine that runs inside an interrupted thread.
//!
//! Everything here is modelled sequentially: the surrounding program owns one
//! `Profiler` context and drives it; the platform plumbing (signal delivery,
//! thread creation, the host runtime's stack-capture primitive) lives outside
//! and hands this library plain values.

pub mod buffer;
pub mod profiler;
pub mod registry;
pub mod scheduler;
