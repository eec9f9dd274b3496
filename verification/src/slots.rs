//! The places of the hooked methods in the tables of their interfaces.
//!
//! A COM interface starts with the methods of the interfaces it extends, in order, and never
//! changes once it has shipped.
use vstd::prelude::*;

verus! {

/// `IUnknown::QueryInterface`.
pub const QUERY_INTERFACE: usize = 0;

/// `IDXGIObject::GetParent`, through which an adapter is had from an `IDXGIDevice`.
pub const GET_PARENT: usize = 6;

/// `IDXGIDevice::GetAdapter`.
pub const GET_ADAPTER: usize = 7;

/// `IDXGIAdapter::EnumOutputs`.
pub const ENUM_OUTPUTS: usize = 7;

/// `IDXGIOutput1::DuplicateOutput`.
pub const DUPLICATE_OUTPUT: usize = 22;

/// `IDXGIOutput5::DuplicateOutput1`.
pub const DUPLICATE_OUTPUT1: usize = 26;

/// `IDXGIOutputDuplication::AcquireNextFrame`.
pub const ACQUIRE_NEXT_FRAME: usize = 8;

/// `IDXGIOutputDuplication::ReleaseFrame`.
pub const RELEASE_FRAME: usize = 14;

} // verus!
