use vstd::prelude::*;

use crate::buffer::GPUMemBuffer;
use crate::rdma::Connection;

verus! {

/// A slice of a registered device buffer: the buffer's base address, the
/// offset of the slice inside it and the slice's length.
#[derive(Debug, Clone, Copy, PartialEq, Eq, Default)]
pub struct TensorBlock {
    pub base_ptr: u64,
    pub offset: u64,
    pub size: u32,
}

impl TensorBlock {
    pub fn new(base_ptr: u64, offset: u64, size: u32) -> (r: TensorBlock)
        ensures
            r.base_ptr == base_ptr,
            r.offset == offset,
            r.size == size,
    {
        TensorBlock { base_ptr, offset, size }
    }

    pub fn set_base_ptr(&mut self, base_ptr: u64)
        ensures
            *final(self) == (TensorBlock { base_ptr, ..*old(self) }),
    {
        self.base_ptr = base_ptr
    }

    pub fn get_base_ptr(&self) -> (r: u64)
        ensures
            r == self.base_ptr,
    {
        self.base_ptr
    }

    pub fn set_offset(&mut self, offset: u64)
        ensures
            *final(self) == (TensorBlock { offset, ..*old(self) }),
    {
        self.offset = offset
    }

    pub fn get_offset(&self) -> (r: u64)
        ensures
            r == self.offset,
    {
        self.offset
    }

    pub fn set_size(&mut self, size: u32)
        ensures
            *final(self) == (TensorBlock { size, ..*old(self) }),
    {
        self.size = size
    }

    pub fn get_size(&self) -> (r: u32)
        ensures
            r == self.size,
    {
        self.size
    }

    /// The block that stands for a whole buffer that a peer advertised.
    pub fn from_connection(conn: &Connection) -> (r: TensorBlock)
        ensures
            r == (TensorBlock { base_ptr: conn.base_ptr, offset: 0, size: 0 }),
    {
        TensorBlock::new(conn.base_ptr, 0, 0)
    }

    /// The device buffer that starts at this block's base and is as long as
    /// the block.
    pub fn to_gpu_buffer(&self) -> (r: GPUMemBuffer)
        ensures
            r.base_ptr == self.base_ptr,
            r.size == self.size,
    {
        GPUMemBuffer::new(self.base_ptr, self.size as usize)
    }
}

/// A list of tensor blocks.
#[derive(Debug, Clone, Default)]
pub struct TensorBlocks(Vec<TensorBlock>);

impl View for TensorBlocks {
    type V = Seq<TensorBlock>;

    closed spec fn view(&self) -> Seq<TensorBlock> {
        self.0@
    }
}

impl TensorBlocks {
    pub fn new() -> (r: TensorBlocks)
        ensures
            r@ == Seq::<TensorBlock>::empty(),
    {
        TensorBlocks(Vec::new())
    }

    pub fn from_vec(blocks: Vec<TensorBlock>) -> (r: TensorBlocks)
        ensures
            r@ == blocks@,
    {
        TensorBlocks(blocks)
    }

    pub fn add(&mut self, tensor_block: TensorBlock)
        ensures
            final(self)@ == old(self)@.push(tensor_block),
    {
        self.0.push(tensor_block)
    }

    /// Moves every block of `tensor_blocks` to the end of this list.
    pub fn extends(&mut self, tensor_blocks: &mut TensorBlocks)
        ensures
            final(self)@ == old(self)@ + old(tensor_blocks)@,
            final(tensor_blocks)@ == Seq::<TensorBlock>::empty(),
    {
        self.0.append(&mut tensor_blocks.0)
    }

    pub fn len(&self) -> (r: usize)
        ensures
            r == self@.len(),
    {
        self.0.len()
    }

    pub fn get(&self, i: usize) -> (r: TensorBlock)
        requires
            i < self@.len(),
        ensures
            r == self@[i as int],
    {
        self.0[i]
    }

    /// The base address of every block, in order.
    pub fn get_base_ptrs(&self) -> (r: Vec<u64>)
        ensures
            r@ == self@.map_values(|b: TensorBlock| b.base_ptr),
    {
        let mut out: Vec<u64> = Vec::with_capacity(self.0.len());
        let mut i: usize = 0;
        while i < self.0.len()
            invariant
                i <= self.0@.len(),
                out@ == self.0@.take(i as int).map_values(|b: TensorBlock| b.base_ptr),
            decreases self.0@.len() - i,
        {
            out.push(self.0[i].base_ptr);
            i = i + 1;
            assert(out@ =~= self.0@.take(i as int).map_values(|b: TensorBlock| b.base_ptr));
        }
        assert(self.0@.take(i as int) =~= self.0@);
        out
    }
}

/// A received data notice: the written region as (buffer, offset, size) and
/// the bytes that came with it.
pub struct Message {
    buffer: (u64, u32, u32),
    data: Vec<u8>,
}

impl Message {
    pub fn new(buffer: (u64, u32, u32), data: Vec<u8>) -> (r: Message)
        ensures
            r.buffer_spec() == buffer,
            r.data_spec() == data@,
    {
        Message { buffer, data }
    }

    pub closed spec fn buffer_spec(&self) -> (u64, u32, u32) {
        self.buffer
    }

    pub closed spec fn data_spec(&self) -> Seq<u8> {
        self.data@
    }

    pub fn get_buffer(&self) -> (r: (u64, u32, u32))
        ensures
            r == self.buffer_spec(),
    {
        self.buffer
    }

    pub fn get_data(&self) -> (r: &[u8])
        ensures
            r@ == self.data_spec(),
    {
        self.data.as_slice()
    }
}

} // verus!
