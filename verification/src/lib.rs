//! Escape-time fractal rendering engine.
//!
//! The engine turns an immutable configuration snapshot into a full
//! image buffer: a coordinate mapping from pixels to the complex plane,
//! five escape-time iteration formulas, an HSV-based color mapping, and
//! a row-chunked parallel rendering strategy. This crate holds the
//! decision and bookkeeping logic of that pipeline — escape counting,
//! color selection and arrangement, row partitioning, and image
//! assembly — with contracts; the floating-point arithmetic itself is
//! supplied by the caller, which feeds its results back in as plain
//! values.

pub mod color;
pub mod iterate;
pub mod randomize;
pub mod renderer;
pub mod state;
