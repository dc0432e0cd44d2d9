use vstd::prelude::*;

use std::collections::HashMap;

use crate::buffer::{CPU_BUFFER_BASE_SIZE, GPUMemBuffer, OFFSET_SLOTS};
use crate::codec::descriptor_list_bytes;
use crate::completion::{CompletionReqs, added, copy_bytes};
use crate::errors::TransportErrors;
use crate::rdma::{
    Connection, Connections, MAX_REQ_ID_LEN, Notification, NotificationView, encode_notification,
    valid_notification,
};
use crate::tensor::TensorBlock;
use crate::wire::{
    decode_imm, encode_imm, from_network_bytes, imm_from_wire, imm_of, imm_to_wire, network_bytes,
};

verus! {

broadcast use vstd::std_specs::hash::group_hash_axioms;

/// The status a successful work completion carries.
pub const WC_SUCCESS: u32 = 0;

/// The opcode of a receive completion for an RDMA-WRITE-WITH-IMM.
pub const WC_RECV_RDMA_WITH_IMM: u32 = 129;

/// Capacity of the completion tracker unless told otherwise.
pub const DEFAULT_COMPLETION_CAPACITY: usize = 1024;

/// The stages an endpoint goes through.
#[derive(Debug, Clone, Copy, PartialEq, Eq, Structural)]
pub enum EndpointState {
    Fresh,
    Bound,
    Connected,
    Torn,
}

/// What moves an endpoint from one stage to the next.
#[derive(Debug, Clone, Copy, PartialEq, Eq, Structural)]
pub enum EndpointEvent {
    /// Address resolved and endpoint created (or listening id obtained).
    Bound,
    /// Accept or connect done and the bootstrap descriptors exchanged.
    Connected,
    /// Teardown notification sent or received, and disconnected.
    Disconnected,
    /// A verbs call or a completion failed.
    Failed,
}

/// The stage after `e` happens in stage `s`; an event that does not fit the
/// stage leaves it where it is.
pub open spec fn next_state(s: EndpointState, e: EndpointEvent) -> EndpointState {
    match (s, e) {
        (_, EndpointEvent::Failed) => EndpointState::Torn,
        (EndpointState::Fresh, EndpointEvent::Bound) => EndpointState::Bound,
        (EndpointState::Bound, EndpointEvent::Connected) => EndpointState::Connected,
        (EndpointState::Connected, EndpointEvent::Disconnected) => EndpointState::Torn,
        _ => s,
    }
}

impl EndpointState {
    pub fn step(self, e: EndpointEvent) -> (r: EndpointState)
        ensures
            r == next_state(self, e),
    {
        match (self, e) {
            (_, EndpointEvent::Failed) => EndpointState::Torn,
            (EndpointState::Fresh, EndpointEvent::Bound) => EndpointState::Bound,
            (EndpointState::Bound, EndpointEvent::Connected) => EndpointState::Connected,
            (EndpointState::Connected, EndpointEvent::Disconnected) => EndpointState::Torn,
            _ => self,
        }
    }
}

/// A buffer registered with the device: where it is, how long, and its keys.
#[derive(Debug, Clone, Copy, PartialEq, Eq, Structural)]
pub struct RegisteredRegion {
    pub base_ptr: u64,
    pub size: u64,
    pub lkey: u32,
    pub rkey: u32,
}

impl RegisteredRegion {
    pub fn new(base_ptr: u64, size: u64, lkey: u32, rkey: u32) -> (r: RegisteredRegion)
        ensures
            r == (RegisteredRegion { base_ptr, size, lkey, rkey }),
    {
        RegisteredRegion { base_ptr, size, lkey, rkey }
    }

    /// The descriptor that lets a peer reach this region.
    pub fn descriptor(&self) -> (r: Connection)
        ensures
            r == (Connection { base_ptr: self.base_ptr, mr_rkey: self.rkey }),
    {
        Connection::new(self.base_ptr, self.rkey)
    }
}

/// A data-plane work request: an RDMA-WRITE (or an RDMA-READ when `read`) of
/// `len` bytes between local address `laddr` and remote address `raddr`.
#[derive(Debug, Clone, Copy, PartialEq, Eq, Structural)]
pub struct DataRequest {
    pub read: bool,
    pub laddr: u64,
    pub len: u32,
    pub lkey: u32,
    pub raddr: u64,
    pub rkey: u32,
}

/// A control-plane RDMA-WRITE-WITH-IMM: `payload` is first copied into the
/// local ring at `laddr`, then written to the peer's ring at `raddr`.
/// `imm_wire` is the immediate value in network byte order.
#[derive(Debug, Clone)]
pub struct MetadataRequest {
    pub slot: u16,
    pub payload: Vec<u8>,
    pub laddr: u64,
    pub lkey: u32,
    pub raddr: u64,
    pub rkey: u32,
    pub imm_wire: [u8; 4],
}

/// One step that the reactor asks its driver to take, in order.
#[derive(Debug, Clone)]
pub enum Action {
    /// Post the data request and wait for its completion.
    Data(DataRequest),
    /// Post the metadata request and wait for its completion.
    Metadata(MetadataRequest),
    /// Disconnect the endpoint.
    Disconnect,
    /// Deregister the region based at this address.
    Deregister(u64),
    /// Give this device buffer back to the allocator.
    FreeDevice(GPUMemBuffer),
}

/// A command submitted to the reactor.
#[derive(Debug, Clone)]
pub enum Command {
    /// Push `local_tensor_block` into the peer's `remote_tensor_block`.
    Send { local_tensor_block: TensorBlock, remote_tensor_block: TensorBlock },
    /// Pull the peer's `remote_tensor_block` into `local_tensor_block`. No
    /// notification follows a read: the puller already knows when it is done.
    Recv { local_tensor_block: TensorBlock, remote_tensor_block: TensorBlock },
    /// Tell the peer that request `req_id` is complete.
    Complete { req_id: Vec<u8> },
    /// Tear the connection down.
    Disconnect,
}

/// What a receive completion amounted to.
#[derive(Debug, Clone, PartialEq, Eq)]
pub enum RecvOutcome {
    /// The peer is tearing down: leave the receive loop and disconnect.
    Closed,
    /// The request with this id is complete and now recorded.
    Completed(Vec<u8>),
    /// A fragment of a request that is not complete yet, or a notification
    /// without an id.
    Pending,
    /// The completion was not a notification, or its payload was malformed;
    /// nothing changed.
    Dropped,
}

/// Address `base + offset`, if it fits in 64 bits.
pub fn offset_addr(base: u64, offset: u64) -> (r: Option<u64>)
    ensures
        base as int + offset as int <= u64::MAX ==> r == Some((base + offset) as u64),
        base as int + offset as int > u64::MAX ==> r is None,
{
    if base <= u64::MAX - offset {
        Some(base + offset)
    } else {
        None
    }
}

/// Where slot `slot` of a ring based at `base` starts.
pub open spec fn slot_addr(base: u64, slot: u16) -> int {
    base as int + slot as int * CPU_BUFFER_BASE_SIZE as int
}

/// The data request for a transfer of `local` against `remote`, given the local
/// region and the peer descriptor they name.
pub open spec fn data_request(
    read: bool,
    local: TensorBlock,
    remote: TensorBlock,
    region: RegisteredRegion,
    peer: Connection,
) -> DataRequest {
    DataRequest {
        read,
        laddr: (local.base_ptr + local.offset) as u64,
        len: local.size,
        lkey: region.lkey,
        raddr: (peer.base_ptr + remote.offset) as u64,
        rkey: peer.mr_rkey,
    }
}

/// A transfer lies inside its local region and its addresses fit in 64 bits.
pub open spec fn transfer_in_range(
    local: TensorBlock,
    remote: TensorBlock,
    region: RegisteredRegion,
    peer: Connection,
) -> bool {
    &&& local.offset as int + local.size as int <= region.size as int
    &&& local.base_ptr as int + local.offset as int <= u64::MAX
    &&& peer.base_ptr as int + remote.offset as int <= u64::MAX
}

/// The map from base address to descriptor that a descriptor list gives; a
/// later entry for the same address replaces an earlier one.
pub open spec fn descriptor_map(s: Seq<(u64, u32)>) -> Map<u64, Connection>
    decreases s.len(),
{
    if s.len() == 0 {
        Map::empty()
    } else {
        descriptor_map(s.drop_last()).insert(
            s.last().0,
            Connection { base_ptr: s.last().0, mr_rkey: s.last().1 },
        )
    }
}

/// The descriptors of `regions`, in order.
pub open spec fn advertised(regions: Seq<RegisteredRegion>) -> Seq<(u64, u32)> {
    regions.map_values(|r: RegisteredRegion| (r.base_ptr, r.rkey))
}

/// The descriptor list that the server sends: one entry for each of its
/// registered device regions, in order.
pub fn advertise(regions: &Vec<RegisteredRegion>) -> (r: Connections)
    ensures
        r@ == advertised(regions@),
{
    let mut conns = Connections::new();
    let mut i: usize = 0;
    while i < regions.len()
        invariant
            i <= regions@.len(),
            conns@ == advertised(regions@.take(i as int)),
        decreases regions@.len() - i,
    {
        conns.add(regions[i].descriptor());
        i = i + 1;
        assert(advertised(regions@.take(i as int)) =~= advertised(regions@.take((i - 1) as int)).push(
            (regions@[i - 1].base_ptr, regions@[i - 1].rkey),
        ));
    }
    assert(regions@.take(i as int) =~= regions@);
    conns
}

/// The region registered at `base`, the latest one if several share it.
pub open spec fn region_for(regions: Seq<RegisteredRegion>, base: u64) -> Option<RegisteredRegion>
    decreases regions.len(),
{
    if regions.len() == 0 {
        None
    } else if regions.last().base_ptr == base {
        Some(regions.last())
    } else {
        region_for(regions.drop_last(), base)
    }
}

/// Finds the region registered at `base`.
pub fn find_region(regions: &Vec<RegisteredRegion>, base: u64) -> (r: Option<RegisteredRegion>)
    ensures
        r == region_for(regions@, base),
{
    let mut i: usize = regions.len();
    assert(regions@.take(i as int) =~= regions@);
    while i > 0
        invariant
            i <= regions@.len(),
            region_for(regions@, base) == region_for(regions@.take(i as int), base),
        decreases i,
    {
        let ghost pre = regions@.take(i as int);
        assert(pre.drop_last() =~= regions@.take(i - 1));
        if regions[i - 1].base_ptr == base {
            return Some(regions[i - 1]);
        }
        i = i - 1;
    }
    None
}

/// The slot that follows `slot` among the slots free for notifications
/// (slot 0 is kept for the handshake and for teardown).
pub open spec fn following_slot(slot: u16) -> u16 {
    if slot as int + 1 >= OFFSET_SLOTS as int {
        1
    } else {
        (slot + 1) as u16
    }
}

/// `m` writes `payload` from slot `slot` of the local ring to the same slot of
/// the peer's ring, announcing slot and size in the immediate value.
pub open spec fn metadata_is(
    m: MetadataRequest,
    slot: u16,
    payload: Seq<u8>,
    ring: RegisteredRegion,
    peer_ring: Connection,
) -> bool {
    &&& m.slot == slot
    &&& m.payload@ == payload
    &&& m.laddr as int == slot_addr(ring.base_ptr, slot)
    &&& m.lkey == ring.lkey
    &&& m.raddr as int == slot_addr(peer_ring.base_ptr, slot)
    &&& m.rkey == peer_ring.mr_rkey
    &&& m.imm_wire@ == network_bytes(imm_of(slot, payload.len() as u16))
}

/// `a` posts the teardown notification into slot 0 of the peer's ring.
pub open spec fn is_teardown_note(a: Action, ring: RegisteredRegion, peer_ring: Connection) -> bool {
    a matches Action::Metadata(m) && metadata_is(
        m,
        0,
        encode_notification(NotificationView { done: 1, req_id: None, remaining: 0 }),
        ring,
        peer_ring,
    )
}

/// The reactor's state for one connected endpoint: its own ring and device
/// regions, the peer's ring and device buffers, and the requests it has
/// completed.
pub struct Session {
    state: EndpointState,
    ring_region: RegisteredRegion,
    peer_ring: Connection,
    local_regions: Vec<RegisteredRegion>,
    peer_buffers: HashMap<u64, Connection>,
    completion: CompletionReqs,
    device_buffers: Vec<GPUMemBuffer>,
    next_slot: u16,
    released: bool,
}

impl Session {
    pub closed spec fn state(&self) -> EndpointState {
        self.state
    }

    pub closed spec fn ring_region(&self) -> RegisteredRegion {
        self.ring_region
    }

    pub closed spec fn peer_ring(&self) -> Connection {
        self.peer_ring
    }

    pub closed spec fn regions(&self) -> Seq<RegisteredRegion> {
        self.local_regions@
    }

    pub closed spec fn peer_map(&self) -> Map<u64, Connection> {
        self.peer_buffers@
    }

    /// The completed request ids, oldest first.
    pub closed spec fn completed(&self) -> Seq<Seq<u8>> {
        self.completion@
    }

    pub closed spec fn capacity(&self) -> nat {
        self.completion.capacity()
    }

    pub closed spec fn devices(&self) -> Seq<GPUMemBuffer> {
        self.device_buffers@
    }

    /// The slot the next notification goes to.
    pub closed spec fn next_slot(&self) -> u16 {
        self.next_slot
    }

    /// Whether the teardown steps have been handed out.
    pub closed spec fn released(&self) -> bool {
        self.released
    }

    pub closed spec fn wf(&self) -> bool {
        &&& self.completion.wf()
        &&& 1 <= self.next_slot < OFFSET_SLOTS
        &&& self.released ==> self.state == EndpointState::Torn
    }

    /// The session that a completed handshake leaves: connected, with nothing
    /// completed yet.
    pub fn new(
        ring_region: RegisteredRegion,
        peer_ring: Connection,
        local_regions: Vec<RegisteredRegion>,
        peer_buffers: HashMap<u64, Connection>,
        device_buffers: Vec<GPUMemBuffer>,
        capacity: usize,
    ) -> (r: Session)
        ensures
            r.wf(),
            r.state() == EndpointState::Connected,
            r.ring_region() == ring_region,
            r.peer_ring() == peer_ring,
            r.regions() == local_regions@,
            r.peer_map() == peer_buffers@,
            r.devices() == device_buffers@,
            r.completed() == Seq::<Seq<u8>>::empty(),
            r.capacity() == capacity,
            r.next_slot() == 1,
            !r.released(),
    {
        Session {
            state: EndpointState::Connected,
            ring_region,
            peer_ring,
            local_regions,
            peer_buffers,
            completion: CompletionReqs::new(capacity),
            device_buffers,
            next_slot: 1,
            released: false,
        }
    }

    pub fn get_state(&self) -> (r: EndpointState)
        ensures
            r == self.state(),
    {
        self.state
    }

    pub fn get_ring_region(&self) -> (r: RegisteredRegion)
        ensures
            r == self.ring_region(),
    {
        self.ring_region
    }

    /// Whether request `req_id` is recorded as complete.
    pub fn is_complete(&self, req_id: &Vec<u8>) -> (r: bool)
        ensures
            r == self.completed().contains(req_id@),
    {
        self.completion.is_req_complete(req_id)
    }

    /// What a transfer of `local` against `remote` must give.
    pub open spec fn transfer_post(
        &self,
        read: bool,
        local: TensorBlock,
        remote: TensorBlock,
        r: Result<Option<DataRequest>, TransportErrors>,
    ) -> bool {
        if self.state() != EndpointState::Connected {
            r is Err && r->Err_0 is BadOp
        } else if local.size == 0 {
            r == Ok::<Option<DataRequest>, TransportErrors>(None)
        } else if region_for(self.regions(), local.base_ptr) is None || !self.peer_map().contains_key(
            remote.base_ptr,
        ) {
            r is Err && r->Err_0 is UnknownBuffer
        } else if !transfer_in_range(
            local,
            remote,
            region_for(self.regions(), local.base_ptr)->Some_0,
            self.peer_map()[remote.base_ptr],
        ) {
            r is Err && r->Err_0 is BadOp
        } else {
            r == Ok::<Option<DataRequest>, TransportErrors>(
                Some(
                    data_request(
                        read,
                        local,
                        remote,
                        region_for(self.regions(), local.base_ptr)->Some_0,
                        self.peer_map()[remote.base_ptr],
                    ),
                ),
            )
        }
    }

    /// The data request that moves `local` to `remote` (or, when `read`,
    /// `remote` to `local`). An empty block needs none. Both blocks must name
    /// known buffers: `local` one of ours, `remote` one the peer advertised.
    pub fn transfer(&self, read: bool, local: &TensorBlock, remote: &TensorBlock) -> (r: Result<
        Option<DataRequest>,
        TransportErrors,
    >)
        ensures
            self.transfer_post(read, *local, *remote, r),
    {
        if self.state != EndpointState::Connected {
            return Err(TransportErrors::BadOp("endpoint is not connected".to_owned()));
        }
        if local.size == 0 {
            return Ok(None);
        }
        let region = match find_region(&self.local_regions, local.base_ptr) {
            Some(region) => region,
            None => {
                return Err(TransportErrors::UnknownBuffer);
            },
        };
        let peer = match self.peer_buffers.get(&remote.base_ptr) {
            Some(peer) => *peer,
            None => {
                return Err(TransportErrors::UnknownBuffer);
            },
        };
        if local.offset > region.size || (local.size as u64) > region.size - local.offset {
            return Err(TransportErrors::BadOp("block exceeds its region".to_owned()));
        }
        let laddr = match offset_addr(local.base_ptr, local.offset) {
            Some(a) => a,
            None => {
                return Err(TransportErrors::BadOp("local address overflows".to_owned()));
            },
        };
        let raddr = match offset_addr(peer.base_ptr, remote.offset) {
            Some(a) => a,
            None => {
                return Err(TransportErrors::BadOp("remote address overflows".to_owned()));
            },
        };
        Ok(
            Some(
                DataRequest {
                    read,
                    laddr,
                    len: local.size,
                    lkey: region.lkey,
                    raddr,
                    rkey: peer.mr_rkey,
                },
            ),
        )
    }

    /// Everything but the stage is as in `other`.
    pub open spec fn same_but_state(&self, other: &Session) -> bool {
        &&& self.same_resources(other)
        &&& self.released() == other.released()
    }

    /// The same buffers, peer, requests and slot as `other`.
    pub open spec fn same_resources(&self, other: &Session) -> bool {
        &&& self.wf()
        &&& self.ring_region() == other.ring_region()
        &&& self.peer_ring() == other.peer_ring()
        &&& self.regions() == other.regions()
        &&& self.peer_map() == other.peer_map()
        &&& self.completed() == other.completed()
        &&& self.capacity() == other.capacity()
        &&& self.devices() == other.devices()
        &&& self.next_slot() == other.next_slot()
    }

    /// What recording the completion of `req_id` must give.
    pub open spec fn complete_post(
        &self,
        after: &Session,
        req_id: Seq<u8>,
        r: Result<MetadataRequest, TransportErrors>,
    ) -> bool {
        if self.state() != EndpointState::Connected {
            r is Err && r->Err_0 is BadOp && *after == *self
        } else if req_id.len() > MAX_REQ_ID_LEN {
            r is Err && r->Err_0 is Serialization && *after == *self
        } else if slot_addr(self.ring_region().base_ptr, self.next_slot()) > u64::MAX || slot_addr(
            self.peer_ring().base_ptr,
            self.next_slot(),
        ) > u64::MAX {
            r is Err && r->Err_0 is BadOp && *after == *self
        } else {
            &&& r is Ok
            &&& metadata_is(
                r->Ok_0,
                self.next_slot(),
                encode_notification(
                    NotificationView { done: 0, req_id: Some(req_id), remaining: 0 },
                ),
                self.ring_region(),
                self.peer_ring(),
            )
            &&& after.wf()
            &&& after.state() == self.state()
            &&& after.ring_region() == self.ring_region()
            &&& after.peer_ring() == self.peer_ring()
            &&& after.regions() == self.regions()
            &&& after.peer_map() == self.peer_map()
            &&& after.capacity() == self.capacity()
            &&& after.devices() == self.devices()
            &&& after.released() == self.released()
            &&& after.completed() == added(self.completed(), self.capacity(), req_id)
            &&& after.next_slot() == following_slot(self.next_slot())
        }
    }

    /// Announces to the peer that request `req_id` is complete: the
    /// notification goes to the next free ring slot, and the request is
    /// recorded here too.
    pub fn complete(&mut self, req_id: &Vec<u8>) -> (r: Result<MetadataRequest, TransportErrors>)
        requires
            old(self).wf(),
        ensures
            old(self).complete_post(final(self), req_id@, r),
    {
        if self.state != EndpointState::Connected {
            return Err(TransportErrors::BadOp("endpoint is not connected".to_owned()));
        }
        if req_id.len() > MAX_REQ_ID_LEN {
            return Err(TransportErrors::Serialization("request id too long".to_owned()));
        }
        let slot = self.next_slot;
        assert(slot as int * 4096 <= 16 * 4096) by (nonlinear_arith)
            requires
                slot < 16,
        ;
        let slot_offset = slot as u64 * CPU_BUFFER_BASE_SIZE as u64;
        let laddr = match offset_addr(self.ring_region.base_ptr, slot_offset) {
            Some(a) => a,
            None => {
                return Err(TransportErrors::BadOp("ring address overflows".to_owned()));
            },
        };
        let raddr = match offset_addr(self.peer_ring.base_ptr, slot_offset) {
            Some(a) => a,
            None => {
                return Err(TransportErrors::BadOp("peer ring address overflows".to_owned()));
            },
        };
        let note = Notification::data(copy_bytes(req_id), 0);
        let payload = match note.to_bytes() {
            Ok(b) => b,
            Err(e) => {
                return Err(e);
            },
        };
        assert(payload@.len() == 17 + req_id@.len());
        let imm = encode_imm(slot, payload.len() as u16);
        let imm_wire = imm_to_wire(imm);
        self.completion.add_req(req_id);
        self.next_slot = if slot + 1 >= OFFSET_SLOTS as u16 {
            1
        } else {
            slot + 1
        };
        Ok(
            MetadataRequest {
                slot,
                payload,
                laddr,
                lkey: self.ring_region.lkey,
                raddr,
                rkey: self.peer_ring.mr_rkey,
                imm_wire,
            },
        )
    }

    /// The steps of a teardown from this session, in order: the teardown
    /// notification in slot 0 (when connected), the disconnect, then the
    /// release of the ring, of every device region and of every device buffer.
    pub open spec fn teardown_actions(&self, r: Seq<Action>) -> bool {
        let head: int = if self.state() == EndpointState::Connected {
            1
        } else {
            0
        };
        let n = self.regions().len() as int;
        let d = self.devices().len() as int;
        &&& r.len() == head + 2 + n + d
        &&& self.state() == EndpointState::Connected ==> is_teardown_note(
            r[0],
            self.ring_region(),
            self.peer_ring(),
        )
        &&& r[head] == Action::Disconnect
        &&& r[head + 1] == Action::Deregister(self.ring_region().base_ptr)
        &&& forall|i: int|
            0 <= i < n ==> r[head + 2 + i] == Action::Deregister(
                #[trigger] self.regions()[i].base_ptr,
            )
        &&& forall|i: int|
            0 <= i < d ==> r[head + 2 + n + i] == Action::FreeDevice(#[trigger] self.devices()[i])
    }

    /// What tearing the session down must give: nothing at all once the
    /// teardown steps have been handed out.
    pub open spec fn disconnect_post(&self, after: &Session, r: Seq<Action>) -> bool {
        if self.released() {
            r.len() == 0 && *after == *self
        } else {
            &&& after.state() == EndpointState::Torn
            &&& after.released()
            &&& after.same_resources(self)
            &&& self.teardown_actions(r)
        }
    }

    /// Tears the session down: the teardown notification if the connection
    /// still stands, then the release of everything the session owns, also
    /// after a failure or after the peer's own teardown. A second call does
    /// nothing.
    pub fn disconnect(&mut self) -> (r: Vec<Action>)
        requires
            old(self).wf(),
        ensures
            old(self).disconnect_post(final(self), r@),
    {
        let mut actions: Vec<Action> = Vec::new();
        if self.released {
            return actions;
        }
        let ghost head: int = if self.state == EndpointState::Connected {
            1
        } else {
            0
        };
        if self.state == EndpointState::Connected {
            let note = Notification::complete();
            let payload = match note.to_bytes() {
                Ok(b) => b,
                Err(_) => Vec::new(),
            };
            assert(payload@.len() == 9);
            let imm = encode_imm(0, payload.len() as u16);
            let m = MetadataRequest {
                slot: 0,
                payload,
                laddr: self.ring_region.base_ptr,
                lkey: self.ring_region.lkey,
                raddr: self.peer_ring.base_ptr,
                rkey: self.peer_ring.mr_rkey,
                imm_wire: imm_to_wire(imm),
            };
            actions.push(Action::Metadata(m));
        }
        actions.push(Action::Disconnect);
        actions.push(Action::Deregister(self.ring_region.base_ptr));
        let mut i: usize = 0;
        while i < self.local_regions.len()
            invariant
                i <= self.local_regions@.len(),
                actions@.len() == head + 2 + i,
                head == (if self.state == EndpointState::Connected { 1int } else { 0int }),
                self.state == old(self).state,
                *self == *old(self),
                old(self).state() == EndpointState::Connected ==> is_teardown_note(
                    actions@[0],
                    self.ring_region(),
                    self.peer_ring(),
                ),
                actions@[head] == Action::Disconnect,
                actions@[head + 1] == Action::Deregister(self.ring_region.base_ptr),
                forall|k: int|
                    0 <= k < i ==> #[trigger] actions@[head + 2 + k] == Action::Deregister(
                        self.local_regions@[k].base_ptr,
                    ),
            decreases self.local_regions@.len() - i,
        {
            actions.push(Action::Deregister(self.local_regions[i].base_ptr));
            i = i + 1;
        }
        let mut j: usize = 0;
        while j < self.device_buffers.len()
            invariant
                j <= self.device_buffers@.len(),
                actions@.len() == head + 2 + self.local_regions@.len() + j,
                head == (if self.state == EndpointState::Connected { 1int } else { 0int }),
                *self == *old(self),
                old(self).state() == EndpointState::Connected ==> is_teardown_note(
                    actions@[0],
                    self.ring_region(),
                    self.peer_ring(),
                ),
                actions@[head] == Action::Disconnect,
                actions@[head + 1] == Action::Deregister(self.ring_region.base_ptr),
                forall|k: int|
                    0 <= k < self.local_regions@.len() ==> #[trigger] actions@[head + 2 + k]
                        == Action::Deregister(self.local_regions@[k].base_ptr),
                forall|k: int|
                    0 <= k < j ==> #[trigger] actions@[head + 2 + self.local_regions@.len() + k]
                        == Action::FreeDevice(self.device_buffers@[k]),
            decreases self.device_buffers@.len() - j,
        {
            actions.push(Action::FreeDevice(self.device_buffers[j]));
            j = j + 1;
        }
        self.state = EndpointState::Torn;
        self.released = true;
        actions
    }

    /// What a send completion with status `status` must give.
    pub open spec fn send_completion_post(
        &self,
        after: &Session,
        status: u32,
        r: Result<(), TransportErrors>,
    ) -> bool {
        if status == WC_SUCCESS {
            r is Ok && *after == *self
        } else {
            &&& r is Err && r->Err_0 is CompletionFailed
            &&& after.state() == EndpointState::Torn
            &&& after.same_but_state(self)
        }
    }

    /// Accounts for the completion of a posted send-side request: any status
    /// but success is fatal to the session.
    pub fn send_completion(&mut self, op: &str, status: u32) -> (r: Result<(), TransportErrors>)
        requires
            old(self).wf(),
        ensures
            old(self).send_completion_post(final(self), status, r),
    {
        if status == WC_SUCCESS {
            Ok(())
        } else {
            self.state = EndpointState::Torn;
            Err(TransportErrors::CompletionFailed(op.to_owned(), status))
        }
    }

    /// What a receive completion must give, where `ring` holds our ring as the
    /// peer left it.
    pub open spec fn receive_post(
        &self,
        after: &Session,
        status: u32,
        opcode: u32,
        imm_wire: Seq<u8>,
        ring: Seq<u8>,
        r: Result<RecvOutcome, TransportErrors>,
    ) -> bool {
        if status != WC_SUCCESS {
            &&& r is Err && r->Err_0 is CompletionFailed
            &&& after.state() == EndpointState::Torn
            &&& after.same_but_state(self)
        } else if opcode != WC_RECV_RDMA_WITH_IMM || !payload_in_ring(imm_wire, ring.len()) {
            r == Ok::<RecvOutcome, TransportErrors>(RecvOutcome::Dropped) && *after == *self
        } else if !(exists|n: NotificationView|
            valid_notification(n) && #[trigger] encode_notification(n).is_prefix_of(
                ring_payload(imm_wire, ring),
            )) {
            r == Ok::<RecvOutcome, TransportErrors>(RecvOutcome::Dropped) && *after == *self
        } else {
            forall|n: NotificationView|
                valid_notification(n) && #[trigger] encode_notification(n).is_prefix_of(
                    ring_payload(imm_wire, ring),
                ) ==> self.notification_post(after, n, r)
        }
    }

    /// What the arrival of notification `n` must give.
    pub open spec fn notification_post(
        &self,
        after: &Session,
        n: NotificationView,
        r: Result<RecvOutcome, TransportErrors>,
    ) -> bool {
        if n.done != 0 {
            &&& r == Ok::<RecvOutcome, TransportErrors>(RecvOutcome::Closed)
            &&& after.state() == EndpointState::Torn
            &&& after.same_but_state(self)
        } else if n.remaining == 0 && n.req_id is Some {
            &&& r is Ok && r->Ok_0 is Completed
            &&& r->Ok_0->Completed_0@ == n.req_id->Some_0
            &&& after.wf()
            &&& after.completed() == added(self.completed(), self.capacity(), n.req_id->Some_0)
            &&& after.state() == self.state()
            &&& after.ring_region() == self.ring_region()
            &&& after.peer_ring() == self.peer_ring()
            &&& after.regions() == self.regions()
            &&& after.peer_map() == self.peer_map()
            &&& after.capacity() == self.capacity()
            &&& after.devices() == self.devices()
            &&& after.next_slot() == self.next_slot()
            &&& after.released() == self.released()
        } else {
            r == Ok::<RecvOutcome, TransportErrors>(RecvOutcome::Pending) && *after == *self
        }
    }

    /// Handles a receive completion: decodes the slot and size from the
    /// immediate value, reads the notification from that slot of `ring`, and
    /// records a completed request or notes the peer's teardown. A malformed
    /// notification is dropped and the session goes on.
    pub fn receive(&mut self, status: u32, opcode: u32, imm_wire: [u8; 4], ring: &[u8]) -> (r:
        Result<RecvOutcome, TransportErrors>)
        requires
            old(self).wf(),
        ensures
            old(self).receive_post(final(self), status, opcode, imm_wire@, ring@, r),
    {
        if status != WC_SUCCESS {
            self.state = EndpointState::Torn;
            return Err(TransportErrors::CompletionFailed("recv".to_owned(), status));
        }
        if opcode != WC_RECV_RDMA_WITH_IMM {
            return Ok(RecvOutcome::Dropped);
        }
        let (slot, size) = decode_imm(imm_from_wire(imm_wire));
        if slot as usize >= OFFSET_SLOTS || size as usize > CPU_BUFFER_BASE_SIZE {
            return Ok(RecvOutcome::Dropped);
        }
        let start = slot as usize * CPU_BUFFER_BASE_SIZE;
        if start + size as usize > ring.len() {
            return Ok(RecvOutcome::Dropped);
        }
        let payload = slice_range(ring, start, start + size as usize);
        assert(payload@ == ring_payload(imm_wire@, ring@));
        let note = match Notification::from_bytes(payload.as_slice()) {
            Ok(n) => n,
            Err(_) => {
                return Ok(RecvOutcome::Dropped);
            },
        };
        proof {
            assert forall|n: NotificationView|
                valid_notification(n) && #[trigger] encode_notification(n).is_prefix_of(
                    payload@,
                ) implies n == note@ by {
                crate::codec::lemma_notification_prefix_unique(
                    n.done,
                    n.req_id,
                    n.remaining,
                    note@.done,
                    note@.req_id,
                    note@.remaining,
                    payload@,
                );
            }
        }
        if note.done != 0 {
            self.state = EndpointState::Torn;
            return Ok(RecvOutcome::Closed);
        }
        if note.remaining == 0 {
            if let Some(id) = &note.req_id {
                self.completion.add_req(id);
                return Ok(RecvOutcome::Completed(copy_bytes(id)));
            }
        }
        Ok(RecvOutcome::Pending)
    }

    /// Carries out one command: the actions the driver must take, in order.
    pub fn handle(&mut self, cmd: Command) -> (r: Result<Vec<Action>, TransportErrors>)
        requires
            old(self).wf(),
        ensures
            final(self).wf(),
            match cmd {
                Command::Send { local_tensor_block, remote_tensor_block } => {
                    &&& *final(self) == *old(self)
                    &&& (r is Ok ==> r->Ok_0@.len() <= 1 && (r->Ok_0@.len() == 1 ==> r->Ok_0@[0] is Data))
                    &&& old(self).transfer_post(
                        false,
                        local_tensor_block,
                        remote_tensor_block,
                        data_result(r),
                    )
                },
                Command::Recv { local_tensor_block, remote_tensor_block } => {
                    &&& *final(self) == *old(self)
                    &&& (r is Ok ==> r->Ok_0@.len() <= 1 && (r->Ok_0@.len() == 1 ==> r->Ok_0@[0] is Data))
                    &&& old(self).transfer_post(
                        true,
                        local_tensor_block,
                        remote_tensor_block,
                        data_result(r),
                    )
                },
                Command::Complete { req_id } => {
                    &&& (r is Ok ==> r->Ok_0@.len() == 1 && r->Ok_0@[0] is Metadata)
                    &&& old(self).complete_post(final(self), req_id@, metadata_result(r))
                },
                Command::Disconnect => r is Ok && old(self).disconnect_post(final(self), r->Ok_0@),
            },
    {
        match cmd {
            Command::Send { local_tensor_block, remote_tensor_block } => {
                let t = self.transfer(false, &local_tensor_block, &remote_tensor_block);
                data_actions(t)
            },
            Command::Recv { local_tensor_block, remote_tensor_block } => {
                let t = self.transfer(true, &local_tensor_block, &remote_tensor_block);
                data_actions(t)
            },
            Command::Complete { req_id } => match self.complete(&req_id) {
                Ok(m) => {
                    let mut v: Vec<Action> = Vec::new();
                    v.push(Action::Metadata(m));
                    Ok(v)
                },
                Err(e) => Err(e),
            },
            Command::Disconnect => {
                let v = self.disconnect();
                Ok(v)
            },
        }
    }
}

/// The data request among `r`'s actions, read back as the result of a transfer.
pub open spec fn data_result(r: Result<Vec<Action>, TransportErrors>) -> Result<
    Option<DataRequest>,
    TransportErrors,
> {
    match r {
        Ok(v) => if v@.len() == 0 {
            Ok(None)
        } else {
            Ok(Some(v@[0]->Data_0))
        },
        Err(e) => Err(e),
    }
}

/// The metadata request among `r`'s actions.
pub open spec fn metadata_result(r: Result<Vec<Action>, TransportErrors>) -> Result<
    MetadataRequest,
    TransportErrors,
> {
    match r {
        Ok(v) => Ok(v@[0]->Metadata_0),
        Err(e) => Err(e),
    }
}

fn data_actions(t: Result<Option<DataRequest>, TransportErrors>) -> (r: Result<
    Vec<Action>,
    TransportErrors,
>)
    ensures
        data_result(r) == t,
        r is Ok ==> r->Ok_0@.len() <= 1 && (r->Ok_0@.len() == 1 ==> r->Ok_0@[0] is Data),
{
    match t {
        Ok(Some(d)) => {
            let mut v: Vec<Action> = Vec::new();
            v.push(Action::Data(d));
            Ok(v)
        },
        Ok(None) => Ok(Vec::new()),
        Err(e) => Err(e),
    }
}

/// The slot that an immediate value names.
pub open spec fn imm_slot(imm_wire: Seq<u8>) -> int {
    from_network_bytes(imm_wire) as int / 0x10000
}

/// The payload size that an immediate value names.
pub open spec fn imm_size(imm_wire: Seq<u8>) -> int {
    from_network_bytes(imm_wire) as int % 0x10000
}

/// The slot and size that an immediate value names lie inside a ring of
/// `ring_len` bytes.
pub open spec fn payload_in_ring(imm_wire: Seq<u8>, ring_len: nat) -> bool {
    &&& imm_slot(imm_wire) < OFFSET_SLOTS
    &&& imm_size(imm_wire) <= CPU_BUFFER_BASE_SIZE
    &&& imm_slot(imm_wire) * CPU_BUFFER_BASE_SIZE + imm_size(imm_wire) <= ring_len
}

/// The bytes of `ring` that an immediate value points at.
pub open spec fn ring_payload(imm_wire: Seq<u8>, ring: Seq<u8>) -> Seq<u8> {
    let start = imm_slot(imm_wire) * CPU_BUFFER_BASE_SIZE;
    ring.subrange(start, start + imm_size(imm_wire))
}

/// The bytes of `s` from `start` up to `end`.
pub fn slice_range(s: &[u8], start: usize, end: usize) -> (r: Vec<u8>)
    requires
        start <= end <= s@.len(),
    ensures
        r@ == s@.subrange(start as int, end as int),
{
    let mut out: Vec<u8> = Vec::with_capacity(end - start);
    let mut i: usize = start;
    while i < end
        invariant
            start <= i <= end <= s@.len(),
            out@ == s@.subrange(start as int, i as int),
        decreases end - i,
    {
        out.push(s[i]);
        i = i + 1;
        assert(out@ =~= s@.subrange(start as int, i as int));
    }
    out
}

/// The write that hands the server's descriptor list to the client: the list
/// goes into slot 0 of both rings and the immediate value is its length. A
/// list that does not fit in one slot cannot be sent.
pub fn descriptor_write(ring: &RegisteredRegion, peer_ring: &Connection, list: &Connections) -> (r:
    Result<MetadataRequest, TransportErrors>)
    ensures
        r is Ok <==> descriptor_list_bytes(list@).len() <= CPU_BUFFER_BASE_SIZE,
        r is Ok ==> {
            let m = r->Ok_0;
            &&& m.slot == 0
            &&& m.payload@ == descriptor_list_bytes(list@)
            &&& m.laddr == ring.base_ptr
            &&& m.lkey == ring.lkey
            &&& m.raddr == peer_ring.base_ptr
            &&& m.rkey == peer_ring.mr_rkey
            &&& m.imm_wire@ == network_bytes(m.payload@.len() as u32)
        },
        r is Err ==> r->Err_0 is Serialization,
{
    let payload = list.to_bytes();
    if payload.len() > CPU_BUFFER_BASE_SIZE {
        return Err(TransportErrors::Serialization("descriptor list exceeds a slot".to_owned()));
    }
    let imm_wire = imm_to_wire(payload.len() as u32);
    Ok(
        MetadataRequest {
            slot: 0,
            payload,
            laddr: ring.base_ptr,
            lkey: ring.lkey,
            raddr: peer_ring.base_ptr,
            rkey: peer_ring.mr_rkey,
            imm_wire,
        },
    )
}

/// The client's map of the server's device buffers, read from the receive
/// completion of the descriptor-list write and the ring it filled.
pub fn read_peer_buffers(status: u32, opcode: u32, imm_wire: [u8; 4], ring: &[u8]) -> (r: Result<
    HashMap<u64, Connection>,
    TransportErrors,
>)
    ensures
        status != WC_SUCCESS ==> r is Err && r->Err_0 is CompletionFailed,
        status == WC_SUCCESS && opcode != WC_RECV_RDMA_WITH_IMM ==> r is Err && r->Err_0 is BadOp,
        status == WC_SUCCESS && opcode == WC_RECV_RDMA_WITH_IMM ==> {
            let size = from_network_bytes(imm_wire@) as int;
            &&& r is Ok <==> size <= ring@.len() && exists|s: Seq<(u64, u32)>| #[trigger]
                descriptor_list_bytes(s).is_prefix_of(ring@.subrange(0, size))
            &&& r is Ok ==> exists|s: Seq<(u64, u32)>|
                #[trigger] descriptor_list_bytes(s).is_prefix_of(ring@.subrange(0, size))
                    && r->Ok_0@ == descriptor_map(s)
            &&& r is Err ==> r->Err_0 is Serialization
        },
{
    if status != WC_SUCCESS {
        return Err(TransportErrors::CompletionFailed("recv".to_owned(), status));
    }
    if opcode != WC_RECV_RDMA_WITH_IMM {
        return Err(TransportErrors::BadOp("expected a write with immediate".to_owned()));
    }
    let size = imm_from_wire(imm_wire) as usize;
    if size > ring.len() {
        return Err(TransportErrors::Serialization("descriptor list exceeds the ring".to_owned()));
    }
    let payload = slice_range(ring, 0, size);
    let conns = match Connections::from_bytes(payload.as_slice()) {
        Ok(c) => c,
        Err(e) => {
            return Err(e);
        },
    };
    let mut map: HashMap<u64, Connection> = HashMap::new();
    let mut i: usize = 0;
    while i < conns.len()
        invariant
            i <= conns@.len(),
            map@ == descriptor_map(conns@.take(i as int)),
        decreases conns@.len() - i,
    {
        let c = conns.get(i);
        map.insert(c.base_ptr, c);
        i = i + 1;
        assert(conns@.take(i as int).drop_last() =~= conns@.take((i - 1) as int));
    }
    assert(conns@.take(i as int) =~= conns@);
    Ok(map)
}

/// Whether the driver must be called to free `buffer`: a buffer with a null
/// base was never allocated, and freeing it is a no-op.
pub fn free_gpu_membuffer(buffer: &GPUMemBuffer) -> (r: bool)
    ensures
        r == (buffer.base_ptr != 0),
{
    buffer.base_ptr != 0
}

/// An immediate value built from a slot and a size names that slot and that
/// size once it has crossed the wire in network byte order.
pub proof fn lemma_imm_names_slot_and_size(slot: u16, size: u16)
    ensures
        imm_slot(network_bytes(imm_of(slot, size))) == slot,
        imm_size(network_bytes(imm_of(slot, size))) == size,
{
    crate::wire::lemma_network_order_round_trip(imm_of(slot, size));
    let x = imm_of(slot, size);
    assert(x as int == slot as int * 0x10000 + size as int) by (bit_vector)
        requires
            x == ((slot as u32) << 16u32) | (size as u32),
    ;
    assert((slot as int * 0x10000 + size as int) / 0x10000 == slot as int && (slot as int * 0x10000
        + size as int) % 0x10000 == size as int) by (nonlinear_arith)
        requires
            0 <= size < 0x10000,
            0 <= slot,
    ;
}

/// A notification written at slot `slot` reaches the peer intact: the peer
/// reads back slot `slot` and the notification's size from the immediate
/// value, and decodes from that slot exactly the notification that was sent.
pub proof fn lemma_notification_delivery(
    slot: u16,
    n: NotificationView,
    ring: Seq<u8>,
    m: NotificationView,
)
    requires
        slot < OFFSET_SLOTS,
        valid_notification(n),
        ring.len() >= slot * CPU_BUFFER_BASE_SIZE + encode_notification(n).len(),
        ring.subrange(
            slot * CPU_BUFFER_BASE_SIZE,
            slot * CPU_BUFFER_BASE_SIZE + encode_notification(n).len(),
        ) == encode_notification(n),
        valid_notification(m),
        encode_notification(m).is_prefix_of(
            ring_payload(
                network_bytes(imm_of(slot, encode_notification(n).len() as u16)),
                ring,
            ),
        ),
    ensures
        payload_in_ring(
            network_bytes(imm_of(slot, encode_notification(n).len() as u16)),
            ring.len(),
        ),
        imm_slot(network_bytes(imm_of(slot, encode_notification(n).len() as u16))) == slot,
        imm_size(network_bytes(imm_of(slot, encode_notification(n).len() as u16)))
            == encode_notification(n).len(),
        m == n,
        encode_notification(m) == encode_notification(n),
{
    let payload = encode_notification(n);
    assert(payload.len() <= 81);
    lemma_imm_names_slot_and_size(slot, payload.len() as u16);
    let wire = network_bytes(imm_of(slot, payload.len() as u16));
    assert(ring_payload(wire, ring) == payload);
    crate::rdma::lemma_notification_round_trip(n, m, payload);
}

/// The map that a list with distinct addresses gives holds each entry under
/// its address, and nothing else.
pub proof fn lemma_descriptor_map_distinct(s: Seq<(u64, u32)>)
    requires
        forall|i: int, j: int| 0 <= i < j < s.len() ==> s[i].0 != s[j].0,
    ensures
        forall|i: int|
            0 <= i < s.len() ==> #[trigger] descriptor_map(s).contains_key(s[i].0)
                && descriptor_map(s)[s[i].0] == (Connection { base_ptr: s[i].0, mr_rkey: s[i].1 }),
        forall|k: u64|
            #[trigger] descriptor_map(s).contains_key(k) ==> exists|i: int|
                0 <= i < s.len() && s[i].0 == k,
    decreases s.len(),
{
    if s.len() > 0 {
        let p = s.drop_last();
        lemma_descriptor_map_distinct(p);
        assert(descriptor_map(s) == descriptor_map(p).insert(
            s.last().0,
            Connection { base_ptr: s.last().0, mr_rkey: s.last().1 },
        ));
        assert forall|i: int| 0 <= i < s.len() implies #[trigger] descriptor_map(s).contains_key(
            s[i].0,
        ) && descriptor_map(s)[s[i].0] == (Connection { base_ptr: s[i].0, mr_rkey: s[i].1 }) by {
            if i < p.len() {
                assert(p[i] == s[i]);
                assert(s[i].0 != s.last().0);
                assert(descriptor_map(p).contains_key(p[i].0));
            }
        }
        assert forall|k: u64| #[trigger] descriptor_map(s).contains_key(k) implies exists|i: int|
            0 <= i < s.len() && s[i].0 == k by {
            if k != s.last().0 {
                assert(descriptor_map(p).contains_key(k));
                let i = choose|i: int| 0 <= i < p.len() && p[i].0 == k;
                assert(s[i].0 == k);
            } else {
                assert(s[s.len() - 1].0 == k);
            }
        }
    }
}

/// After the handshake the client's map of the server's buffers covers every
/// device region the server registered, with its base address and remote key,
/// and names no other buffer.
pub proof fn lemma_handshake_covers(regions: Seq<RegisteredRegion>, s: Seq<(u64, u32)>)
    requires
        forall|i: int, j: int| 0 <= i < j < regions.len() ==> regions[i].base_ptr != regions[j].base_ptr,
        regions.len() <= u64::MAX,
        s.len() <= u64::MAX,
        descriptor_list_bytes(s).is_prefix_of(descriptor_list_bytes(advertised(regions))),
    ensures
        s == advertised(regions),
        forall|i: int|
            0 <= i < regions.len() ==> #[trigger] descriptor_map(s).contains_key(
                regions[i].base_ptr,
            ) && descriptor_map(s)[regions[i].base_ptr] == (Connection {
                base_ptr: regions[i].base_ptr,
                mr_rkey: regions[i].rkey,
            }),
        forall|k: u64|
            #[trigger] descriptor_map(s).contains_key(k) ==> exists|i: int|
                0 <= i < regions.len() && regions[i].base_ptr == k,
{
    let a = advertised(regions);
    let bytes = descriptor_list_bytes(a);
    assert(bytes.is_prefix_of(bytes));
    crate::codec::lemma_descriptor_list_prefix_unique(s, a, bytes);
    assert(s == a);
    assert forall|i: int, j: int| 0 <= i < j < a.len() implies a[i].0 != a[j].0 by {
        assert(a[i].0 == regions[i].base_ptr);
        assert(a[j].0 == regions[j].base_ptr);
    }
    lemma_descriptor_map_distinct(a);
    assert forall|i: int| 0 <= i < regions.len() implies #[trigger] descriptor_map(s).contains_key(
        regions[i].base_ptr,
    ) && descriptor_map(s)[regions[i].base_ptr] == (Connection {
        base_ptr: regions[i].base_ptr,
        mr_rkey: regions[i].rkey,
    }) by {
        assert(a[i] == (regions[i].base_ptr, regions[i].rkey));
        assert(descriptor_map(a).contains_key(a[i].0));
        assert(descriptor_map(a)[a[i].0] == (Connection { base_ptr: a[i].0, mr_rkey: a[i].1 }));
    }
    assert forall|k: u64| #[trigger] descriptor_map(s).contains_key(k) implies exists|i: int|
        0 <= i < regions.len() && regions[i].base_ptr == k by {
        let i = choose|i: int| 0 <= i < a.len() && a[i].0 == k;
        assert(regions[i].base_ptr == k);
    }
}

/// Once a session is torn down it posts no more work requests, and the
/// teardown released the ring, every device region and every device buffer.
pub proof fn lemma_no_work_after_disconnect(s: Session, t: Session, actions: Seq<Action>)
    requires
        s.wf(),
        !s.released(),
        s.disconnect_post(&t, actions),
    ensures
        t.state() == EndpointState::Torn,
        actions.contains(Action::Disconnect),
        actions.contains(Action::Deregister(s.ring_region().base_ptr)),
        forall|i: int|
            0 <= i < s.regions().len() ==> actions.contains(
                Action::Deregister(#[trigger] s.regions()[i].base_ptr),
            ),
        forall|i: int|
            0 <= i < s.devices().len() ==> actions.contains(
                Action::FreeDevice(#[trigger] s.devices()[i]),
            ),
        forall|read: bool, l: TensorBlock, rm: TensorBlock, r: Result<Option<DataRequest>, TransportErrors>|
            #[trigger] t.transfer_post(read, l, rm, r) ==> r is Err,
        forall|u: Session, id: Seq<u8>, r: Result<MetadataRequest, TransportErrors>|
            #[trigger] t.complete_post(&u, id, r) ==> r is Err,
        forall|u: Session, r: Seq<Action>| #[trigger] t.disconnect_post(&u, r) ==> r.len() == 0,
{
    let head: int = if s.state() == EndpointState::Connected {
        1
    } else {
        0
    };
    let n = s.regions().len() as int;
    assert(actions[head] == Action::Disconnect);
    assert(actions[head + 1] == Action::Deregister(s.ring_region().base_ptr));
    assert forall|i: int| 0 <= i < n implies actions.contains(
        Action::Deregister(#[trigger] s.regions()[i].base_ptr),
    ) by {
        assert(actions[head + 2 + i] == Action::Deregister(s.regions()[i].base_ptr));
    }
    assert forall|i: int| 0 <= i < s.devices().len() implies actions.contains(
        Action::FreeDevice(#[trigger] s.devices()[i]),
    ) by {
        assert(actions[head + 2 + n + i] == Action::FreeDevice(s.devices()[i]));
    }
}

/// Tearing a session down twice is the same as tearing it down once: the
/// second time asks for nothing and changes nothing.
pub proof fn lemma_disconnect_idempotent(
    s: Session,
    t: Session,
    u: Session,
    first: Seq<Action>,
    second: Seq<Action>,
)
    requires
        s.wf(),
        s.disconnect_post(&t, first),
        t.disconnect_post(&u, second),
    ensures
        second.len() == 0,
        u == t,
        t.state() == EndpointState::Torn,
        t.released(),
{
}

} // verus!
