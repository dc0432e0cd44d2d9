use rdma_transport::{
    copy_len, CudaErrors, CudaMemBuffer, GPUMemBuffer, MemBuffer, Message, RdmaErrors,
    RegisteredRegion, TensorBlock, TensorBlocks, TransportErrors, CPU_BUFFER_BASE_SIZE,
    CPU_BUFFER_SIZE, GPU_BUFFER_BASE_SIZE, GPU_BUFFER_SIZE, OFFSET_SLOTS,
};

#[test]
fn sizes() {
    assert_eq!(CPU_BUFFER_BASE_SIZE, 4096);
    assert_eq!(CPU_BUFFER_SIZE, 4096 * OFFSET_SLOTS);
    assert_eq!(GPU_BUFFER_BASE_SIZE, 1 << 20);
    assert_eq!(GPU_BUFFER_SIZE, (1 << 20) * OFFSET_SLOTS);
}

#[test]
fn ring_starts_zeroed_and_slots_are_separate() {
    let mut ring = MemBuffer::new();
    assert_eq!(ring.get_size(), CPU_BUFFER_SIZE);
    assert!(ring.as_slice().iter().all(|b| *b == 0));
    ring.write_slot(1, &[7, 8, 9]);
    assert_eq!(ring.range(4096, 4099), vec![7, 8, 9]);
    assert_eq!(ring.range(4095, 4097), vec![0, 7]);
    assert_eq!(ring.range(4099, 4100), vec![0]);
    ring.write_slot(OFFSET_SLOTS - 1, &vec![1; 4096]);
    assert_eq!(ring.range(CPU_BUFFER_SIZE - 1, CPU_BUFFER_SIZE), vec![1]);
    assert_eq!(ring.range(0, 0), Vec::<u8>::new());
    let fresh = MemBuffer::default();
    assert_eq!(fresh.range(0, CPU_BUFFER_SIZE), vec![0; CPU_BUFFER_SIZE]);
}

#[test]
fn gpu_and_cuda_buffers() {
    let g = GPUMemBuffer::new(0xabc, 10);
    assert_eq!(g.get_base_ptr(), 0xabc);
    assert_eq!(g.get_size(), 10);
    let c = CudaMemBuffer::new(0xdef, 20);
    assert_eq!(c.get_ptr(), 0xdef);
    assert_eq!(c.get_size(), 20);
}

#[test]
fn copies_move_the_shortest_length() {
    let d = GPUMemBuffer::new(0x1000, 100);
    assert_eq!(copy_len(50, &d, None), 50);
    assert_eq!(copy_len(500, &d, None), 100);
    assert_eq!(copy_len(500, &d, Some(30)), 30);
    assert_eq!(copy_len(20, &d, Some(30)), 20);
}

#[test]
fn tensor_block_accessors() {
    let mut b = TensorBlock::new(1, 2, 3);
    assert_eq!((b.get_base_ptr(), b.get_offset(), b.get_size()), (1, 2, 3));
    b.set_base_ptr(10);
    b.set_offset(20);
    b.set_size(30);
    assert_eq!(b, TensorBlock::new(10, 20, 30));
    let g = b.to_gpu_buffer();
    assert_eq!(g, GPUMemBuffer::new(10, 30));
}

#[test]
fn tensor_blocks_list() {
    let mut a = TensorBlocks::new();
    a.add(TensorBlock::new(1, 0, 0));
    let mut b = TensorBlocks::from_vec(vec![TensorBlock::new(2, 0, 0), TensorBlock::new(3, 0, 0)]);
    a.extends(&mut b);
    assert_eq!(b.len(), 0);
    assert_eq!(a.len(), 3);
    assert_eq!(a.get_base_ptrs(), vec![1, 2, 3]);
    assert_eq!(a.get(2), TensorBlock::new(3, 0, 0));
}

#[test]
fn region_descriptor() {
    let r = RegisteredRegion::new(0x5000, 64, 7, 8);
    let d = r.descriptor();
    assert_eq!(d.get_base_ptr(), 0x5000);
    assert_eq!(d.get_mr_rkey(), 8);
}

#[test]
fn message_accessors() {
    let m = Message::new((1, 2, 3), vec![4, 5]);
    assert_eq!(m.get_buffer(), (1, 2, 3));
    assert_eq!(m.get_data(), &[4, 5]);
}

#[test]
fn error_conversions() {
    let e: TransportErrors = RdmaErrors::OpsFailed("rdma_connect".to_string(), 111).into();
    assert_eq!(
        e,
        TransportErrors::RdmaErrors(RdmaErrors::OpsFailed("rdma_connect".to_string(), 111))
    );
    let e = TransportErrors::from(CudaErrors::OpsNotFound("cuInit".to_string()));
    assert_eq!(e, TransportErrors::CudaErrors(CudaErrors::OpsNotFound("cuInit".to_string())));
}
