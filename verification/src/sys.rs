//! The opaque type behind the MTS-ESP client C API.
use vstd::prelude::*;

verus! {

/// Opaque client handle, allocated and freed by the C side. It is never built on this side:
/// it only names what a client handle points to.
pub struct MTSClient {
    _private: [u8; 0],
}

} // verus!
