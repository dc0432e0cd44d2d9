use vstd::prelude::*;

verus! {

/// Number of slots in the host ring.
pub const OFFSET_SLOTS: usize = 16;

/// Bytes in one slot of the host ring.
pub const CPU_BUFFER_BASE_SIZE: usize = 4096;

/// Bytes in the whole host ring.
pub const CPU_BUFFER_SIZE: usize = CPU_BUFFER_BASE_SIZE * OFFSET_SLOTS;

/// Bytes in one device buffer slice.
pub const GPU_BUFFER_BASE_SIZE: usize = 1024 * 1024;

/// Bytes in a full device buffer.
pub const GPU_BUFFER_SIZE: usize = GPU_BUFFER_BASE_SIZE * OFFSET_SLOTS;

/// A buffer in device memory, named by its base address and its length.
#[derive(Debug, Clone, Copy, PartialEq, Eq)]
pub struct GPUMemBuffer {
    pub base_ptr: u64,
    pub size: usize,
}

impl GPUMemBuffer {
    pub fn new(base_ptr: u64, size: usize) -> (r: GPUMemBuffer)
        ensures
            r.base_ptr == base_ptr,
            r.size == size,
    {
        GPUMemBuffer { base_ptr, size }
    }

    pub fn get_base_ptr(&self) -> (r: u64)
        ensures
            r == self.base_ptr,
    {
        self.base_ptr
    }

    pub fn get_size(&self) -> (r: usize)
        ensures
            r == self.size,
    {
        self.size
    }
}

/// A buffer handed out by the GPU allocator.
#[derive(Debug, Clone, Copy, PartialEq, Eq)]
pub struct CudaMemBuffer {
    pub ptr: u64,
    pub size: usize,
}

impl CudaMemBuffer {
    pub fn new(ptr: u64, size: usize) -> (r: CudaMemBuffer)
        ensures
            r.ptr == ptr,
            r.size == size,
    {
        CudaMemBuffer { ptr, size }
    }

    pub fn get_ptr(&self) -> (r: u64)
        ensures
            r == self.ptr,
    {
        self.ptr
    }

    pub fn get_size(&self) -> (r: usize)
        ensures
            r == self.size,
    {
        self.size
    }
}

/// The number of bytes a copy between host and device moves: no more than the
/// host side holds, than the device buffer holds, or than the limit asked for.
pub fn copy_len(host_len: usize, device: &GPUMemBuffer, limit: Option<usize>) -> (r: usize)
    ensures
        r <= host_len,
        r <= device.size,
        limit matches Some(l) ==> r <= l,
        r == host_len || r == device.size || (limit matches Some(l) && r == l),
{
    let mut n = if host_len > device.size {
        device.size
    } else {
        host_len
    };
    if let Some(l) = limit {
        if l < n {
            n = l;
        }
    }
    n
}

/// Start of slot `slot` inside the host ring.
pub open spec fn slot_start(slot: int) -> int {
    slot * CPU_BUFFER_BASE_SIZE as int
}

/// The host ring: `OFFSET_SLOTS` slots of `CPU_BUFFER_BASE_SIZE` bytes, used
/// for the bootstrap handshake and for notifications.
#[derive(Debug, Clone)]
pub struct MemBuffer {
    buffer: Vec<u8>,
}

impl View for MemBuffer {
    type V = Seq<u8>;

    closed spec fn view(&self) -> Seq<u8> {
        self.buffer@
    }
}

impl MemBuffer {
    /// The ring always has its full size.
    pub closed spec fn wf(&self) -> bool {
        self.buffer@.len() == CPU_BUFFER_SIZE
    }

    /// A ring filled with zeros.
    pub fn new() -> (r: MemBuffer)
        ensures
            r.wf(),
            r@ == Seq::new(CPU_BUFFER_SIZE as nat, |i: int| 0u8),
    {
        let mut buffer: Vec<u8> = Vec::with_capacity(CPU_BUFFER_SIZE);
        let mut i: usize = 0;
        while i < CPU_BUFFER_SIZE
            invariant
                i <= CPU_BUFFER_SIZE,
                buffer@ == Seq::new(i as nat, |j: int| 0u8),
            decreases CPU_BUFFER_SIZE - i,
        {
            buffer.push(0u8);
            i = i + 1;
            assert(buffer@ =~= Seq::new(i as nat, |j: int| 0u8));
        }
        MemBuffer { buffer }
    }

    pub fn get_size(&self) -> (r: usize)
        ensures
            r == self@.len(),
    {
        self.buffer.len()
    }

    /// The bytes from `start` up to `end`.
    pub fn range(&self, start: usize, end: usize) -> (r: Vec<u8>)
        requires
            start <= end <= self@.len(),
        ensures
            r@ == self@.subrange(start as int, end as int),
    {
        let mut out: Vec<u8> = Vec::with_capacity(end - start);
        let mut i: usize = start;
        while i < end
            invariant
                start <= i <= end <= self.buffer@.len(),
                out@ == self.buffer@.subrange(start as int, i as int),
            decreases end - i,
        {
            out.push(self.buffer[i]);
            i = i + 1;
            assert(out@ =~= self.buffer@.subrange(start as int, i as int));
        }
        out
    }

    /// All bytes of the ring, for copying to and from registered memory.
    pub fn as_slice(&self) -> (r: &[u8])
        ensures
            r@ == self@,
    {
        self.buffer.as_slice()
    }

    /// Copies `payload` to the start of slot `slot`, leaving every other byte.
    pub fn write_slot(&mut self, slot: usize, payload: &[u8])
        requires
            old(self).wf(),
            slot < OFFSET_SLOTS,
            payload@.len() <= CPU_BUFFER_BASE_SIZE,
        ensures
            final(self).wf(),
            final(self)@ == old(self)@.take(slot_start(slot as int)) + payload@ + old(self)@.skip(
                slot_start(slot as int) + payload@.len(),
            ),
    {
        let start = slot * CPU_BUFFER_BASE_SIZE;
        let ghost before = self.buffer@;
        let mut i: usize = 0;
        while i < payload.len()
            invariant
                start == slot_start(slot as int),
                start + payload@.len() <= CPU_BUFFER_SIZE,
                i <= payload@.len(),
                self.buffer@.len() == before.len(),
                before.len() == CPU_BUFFER_SIZE,
                forall|j: int|
                    0 <= j < before.len() ==> #[trigger] self.buffer@[j] == if start <= j < start
                        + i {
                        payload@[j - start]
                    } else {
                        before[j]
                    },
            decreases payload@.len() - i,
        {
            self.buffer.set(start + i, payload[i]);
            i = i + 1;
        }
        assert(self.buffer@ =~= before.take(start as int) + payload@ + before.skip(
            start + payload@.len(),
        ));
    }
}

impl Default for MemBuffer {
    fn default() -> (r: MemBuffer)
        ensures
            r.wf(),
            r@ == Seq::new(CPU_BUFFER_SIZE as nat, |i: int| 0u8),
    {
        MemBuffer::new()
    }
}

} // verus!
