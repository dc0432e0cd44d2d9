use vstd::prelude::*;

verus! {

/// Failures reported by the GPU driver.
#[derive(Debug, Clone, PartialEq, Eq)]
pub enum CudaErrors {
    /// The named driver call returned this error code.
    OpsFailed(String, u32),
    /// The named driver entry point is not available.
    OpsNotFound(String),
}

/// Failures reported by the verbs library.
#[derive(Debug, Clone, PartialEq, Eq)]
pub enum RdmaErrors {
    /// The named verbs call failed with this errno.
    OpsFailed(String, i32),
    /// The named verbs entry point is not available on the device.
    OpsNotFound(String),
    /// An address could not be parsed or resolved.
    InvalidAddress(String),
}

/// Every failure that the transport reports to its users.
#[derive(Debug, Clone, PartialEq, Eq)]
pub enum TransportErrors {
    /// A verbs call failed.
    RdmaErrors(RdmaErrors),
    /// A GPU driver call failed.
    CudaErrors(CudaErrors),
    /// The named operation failed, with a description.
    OpsFailed(String, String),
    /// A work completion came back with this non-success status.
    CompletionFailed(String, u32),
    /// An operation that the endpoint cannot perform in its present state or
    /// with the arguments given.
    BadOp(String),
    /// A wire payload could not be encoded or decoded.
    Serialization(String),
    /// The peer tore the connection down.
    PeerClosed,
    /// A tensor block names a buffer that is neither registered locally nor
    /// advertised by the peer.
    UnknownBuffer,
}

impl From<RdmaErrors> for TransportErrors {
    fn from(value: RdmaErrors) -> (r: Self)
        ensures
            r == TransportErrors::RdmaErrors(value),
    {
        TransportErrors::RdmaErrors(value)
    }
}

impl vstd::std_specs::convert::FromSpecImpl<RdmaErrors> for TransportErrors {
    open spec fn obeys_from_spec() -> bool {
        true
    }

    open spec fn from_spec(v: RdmaErrors) -> Self {
        TransportErrors::RdmaErrors(v)
    }
}

impl From<CudaErrors> for TransportErrors {
    fn from(value: CudaErrors) -> (r: Self)
        ensures
            r == TransportErrors::CudaErrors(value),
    {
        TransportErrors::CudaErrors(value)
    }
}

impl vstd::std_specs::convert::FromSpecImpl<CudaErrors> for TransportErrors {
    open spec fn obeys_from_spec() -> bool {
        true
    }

    open spec fn from_spec(v: CudaErrors) -> Self {
        TransportErrors::CudaErrors(v)
    }
}

} // verus!
