//! GPU-to-GPU transport over RDMA verbs: the wire formats, the handshake of
//! remote-memory descriptors, the decisions of the per-endpoint reactor and
//! the completion tracker, each with its contract.

pub mod buffer;
pub mod codec;
pub mod completion;
pub mod engine;
pub mod errors;
pub mod rdma;
pub mod tensor;
pub mod wire;

pub use buffer::{
    copy_len, CudaMemBuffer, GPUMemBuffer, MemBuffer, CPU_BUFFER_BASE_SIZE, CPU_BUFFER_SIZE,
    GPU_BUFFER_BASE_SIZE, GPU_BUFFER_SIZE, OFFSET_SLOTS,
};
pub use completion::CompletionReqs;
pub use engine::{
    advertise, descriptor_write, free_gpu_membuffer, read_peer_buffers, Action, Command,
    DataRequest, EndpointEvent, EndpointState, MetadataRequest, RecvOutcome, RegisteredRegion,
    Session, DEFAULT_COMPLETION_CAPACITY, WC_RECV_RDMA_WITH_IMM, WC_SUCCESS,
};
pub use errors::{CudaErrors, RdmaErrors, TransportErrors};
pub use rdma::{Connection, Connections, Notification, MAX_REQ_ID_LEN};
pub use tensor::{Message, TensorBlock, TensorBlocks};
pub use wire::{decode_imm, encode_imm, imm_from_wire, imm_to_wire};
