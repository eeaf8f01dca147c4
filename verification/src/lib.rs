//! `httpsys`: the logic of an async server on the Windows `http.sys` API, of a
//! latency tester and of a benchmark for it, with what each part does stated and
//! proved.
//!
//! Nothing here talks to the kernel or to a network. The program around this
//! library makes the calls, hands in what came back as plain values, and is told
//! what to do next.
//!
//! * [`init`], [`iocp`], [`overlapped`], [`queue`] and [`server`] decide what
//!   follows a kernel call: which handle exists, which completion is delivered,
//!   who gives a completion state back, whether a receive is repeated, and what a
//!   request slot does next.
//! * [`buffer`] recycles receive and body buffers; [`request`] and [`response`]
//!   are what handlers see and return.
//! * [`address`], [`demo`], [`latency`] and [`plot`] are the demo server and its
//!   latency tester.
//! * [`bench`], [`load`], [`sweep`], [`report`], [`cpu`] and [`units`] are the
//!   benchmark.

pub mod address;
pub mod bench;
pub mod buffer;
pub mod content;
pub mod cpu;
pub mod demo;
pub mod error;
pub mod init;
pub mod iocp;
pub mod latency;
pub mod load;
pub mod overlapped;
pub mod plot;
pub mod queue;
pub mod report;
pub mod request;
pub mod response;
pub mod server;
pub mod status;
pub mod sweep;
pub mod text;
pub mod units;

pub use error::{Error, Result};
pub use init::{HttpInitializer, ServerSession, UrlGroup};
pub use request::{Body, Method, Request};
pub use response::Response;
pub use server::{ServerBuilder, ServerConfig};
