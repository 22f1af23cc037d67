//! A narrow interchange layer between a managed host and a native component:
//! a bit-exact codec between the host's 128-bit scaled-decimal layout and the
//! bit pattern of a double, an ordered record-batch decoder, and a checked
//! handle lifecycle that threads stateful behavior instances across the
//! boundary without dangling or doubly-owned references.
#![allow(non_snake_case)]

pub mod algorithm;
pub mod batch;
pub mod codec;
pub mod errors;
pub mod lifecycle;
