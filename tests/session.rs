use std::collections::HashMap;

use rdma_transport::{
    advertise, descriptor_write, encode_imm, free_gpu_membuffer, imm_to_wire, read_peer_buffers,
    Action, Command, Connection, DataRequest, EndpointEvent, EndpointState, GPUMemBuffer,
    MemBuffer, Notification, RecvOutcome, RegisteredRegion, Session, TensorBlock,
    TransportErrors, CPU_BUFFER_BASE_SIZE, CPU_BUFFER_SIZE, DEFAULT_COMPLETION_CAPACITY,
    WC_RECV_RDMA_WITH_IMM, WC_SUCCESS,
};

const MIB: u64 = 1 << 20;
const SERVER_RING: u64 = 0x10_0000_0000;
const CLIENT_RING: u64 = 0x20_0000_0000;
const B_S: u64 = 0x7f00_0000_0000;
const B_C: u64 = 0x7e00_0000_0000;

fn client_session() -> Session {
    let ring = RegisteredRegion::new(CLIENT_RING, CPU_BUFFER_SIZE as u64, 11, 12);
    let peer_ring = Connection::new(SERVER_RING, 22);
    let regions = vec![RegisteredRegion::new(B_C, MIB, 31, 32)];
    let mut peer = HashMap::new();
    peer.insert(B_S, Connection::new(B_S, 42));
    let devices = vec![GPUMemBuffer::new(B_C, MIB as usize)];
    Session::new(ring, peer_ring, regions, peer, devices, DEFAULT_COMPLETION_CAPACITY)
}

fn server_session() -> Session {
    let ring = RegisteredRegion::new(SERVER_RING, CPU_BUFFER_SIZE as u64, 21, 22);
    let peer_ring = Connection::new(CLIENT_RING, 12);
    let regions = vec![RegisteredRegion::new(B_S, MIB, 41, 42)];
    Session::new(ring, peer_ring, regions, HashMap::new(), Vec::new(), DEFAULT_COMPLETION_CAPACITY)
}

/// What the server's ring holds after the client's metadata write lands.
fn deliver(ring: &mut MemBuffer, m: &rdma_transport::MetadataRequest) {
    ring.write_slot(m.slot as usize, &m.payload);
}

fn metadata_of(actions: &[Action]) -> rdma_transport::MetadataRequest {
    assert_eq!(actions.len(), 1);
    match &actions[0] {
        Action::Metadata(m) => m.clone(),
        other => panic!("expected a metadata write, got {:?}", other),
    }
}

#[test]
fn single_push_then_complete() {
    let mut client = client_session();
    let mut server = server_session();
    let actions = client
        .handle(Command::Send {
            local_tensor_block: TensorBlock::new(B_C, 0, 1 << 20),
            remote_tensor_block: TensorBlock::new(B_S, 0, 1 << 20),
        })
        .unwrap();
    assert_eq!(actions.len(), 1);
    match &actions[0] {
        Action::Data(d) => assert_eq!(
            *d,
            DataRequest { read: false, laddr: B_C, len: 1 << 20, lkey: 31, raddr: B_S, rkey: 42 }
        ),
        other => panic!("expected a data write, got {:?}", other),
    }
    let m = metadata_of(&client.handle(Command::Complete { req_id: b"r1".to_vec() }).unwrap());
    assert_eq!(m.slot, 1);
    assert_eq!(m.laddr, CLIENT_RING + CPU_BUFFER_BASE_SIZE as u64);
    assert_eq!(m.raddr, SERVER_RING + CPU_BUFFER_BASE_SIZE as u64);
    assert_eq!(m.rkey, 22);
    assert_eq!(m.lkey, 11);
    assert_eq!(m.imm_wire, imm_to_wire(encode_imm(1, m.payload.len() as u16)));
    let mut ring = MemBuffer::new();
    deliver(&mut ring, &m);
    let out = server.receive(WC_SUCCESS, WC_RECV_RDMA_WITH_IMM, m.imm_wire, ring.as_slice());
    assert_eq!(out, Ok(RecvOutcome::Completed(b"r1".to_vec())));
    assert!(server.is_complete(&b"r1".to_vec()));
    assert!(client.is_complete(&b"r1".to_vec()));
    assert_eq!(server.get_state(), EndpointState::Connected);
}

#[test]
fn ordering_stress_keeps_last_ids() {
    let mut client = client_session();
    let mut server = server_session();
    let mut ring = MemBuffer::new();
    for n in 0..10000u32 {
        let actions = client
            .handle(Command::Send {
                local_tensor_block: TensorBlock::new(B_C, 0, 1 << 20),
                remote_tensor_block: TensorBlock::new(B_S, 0, 1 << 20),
            })
            .unwrap();
        assert!(matches!(actions[0], Action::Data(_)));
        let id = format!("i={}", n).into_bytes();
        let m = metadata_of(&client.handle(Command::Complete { req_id: id.clone() }).unwrap());
        deliver(&mut ring, &m);
        let out = server.receive(WC_SUCCESS, WC_RECV_RDMA_WITH_IMM, m.imm_wire, ring.as_slice());
        assert_eq!(out, Ok(RecvOutcome::Completed(id)));
    }
    for n in 0..10000u32 {
        let id = format!("i={}", n).into_bytes();
        assert_eq!(server.is_complete(&id), n >= 10000 - 1024, "id {}", n);
    }
}

#[test]
fn teardown_message() {
    let mut client = client_session();
    let mut server = server_session();
    let actions = client.disconnect();
    assert_eq!(actions.len(), 5);
    let notes: Vec<_> = actions.iter().filter(|a| matches!(a, Action::Metadata(_))).collect();
    assert_eq!(notes.len(), 1);
    let m = match &actions[0] {
        Action::Metadata(m) => m.clone(),
        other => panic!("expected the teardown notification, got {:?}", other),
    };
    assert_eq!(m.slot, 0);
    assert_eq!(m.laddr, CLIENT_RING);
    assert_eq!(m.raddr, SERVER_RING);
    let sent = Notification::from_bytes(&m.payload).unwrap();
    assert_eq!(sent.done, 1);
    assert!(matches!(actions[1], Action::Disconnect));
    assert!(matches!(actions[2], Action::Deregister(CLIENT_RING)));
    assert!(matches!(actions[3], Action::Deregister(B_C)));
    assert!(matches!(actions[4], Action::FreeDevice(b) if b == GPUMemBuffer::new(B_C, MIB as usize)));
    assert_eq!(client.get_state(), EndpointState::Torn);

    let mut ring = MemBuffer::new();
    deliver(&mut ring, &m);
    let out = server.receive(WC_SUCCESS, WC_RECV_RDMA_WITH_IMM, m.imm_wire, ring.as_slice());
    assert_eq!(out, Ok(RecvOutcome::Closed));
    assert_eq!(server.get_state(), EndpointState::Torn);
    let release = server.disconnect();
    assert_eq!(release.len(), 3);
    assert!(matches!(release[0], Action::Disconnect));
    assert!(matches!(release[1], Action::Deregister(SERVER_RING)));
    assert!(matches!(release[2], Action::Deregister(B_S)));
    assert!(server.disconnect().is_empty());
}

#[test]
fn shutdown_twice_is_a_no_op() {
    let mut client = client_session();
    assert!(!client.disconnect().is_empty());
    assert!(client.disconnect().is_empty());
    assert!(client.handle(Command::Disconnect).unwrap().is_empty());
    assert_eq!(client.get_state(), EndpointState::Torn);
}

#[test]
fn no_work_after_disconnect() {
    let mut client = client_session();
    client.disconnect();
    let r = client.handle(Command::Send {
        local_tensor_block: TensorBlock::new(B_C, 0, 16),
        remote_tensor_block: TensorBlock::new(B_S, 0, 16),
    });
    assert!(matches!(r, Err(TransportErrors::BadOp(_))));
    let r = client.handle(Command::Complete { req_id: b"late".to_vec() });
    assert!(matches!(r, Err(TransportErrors::BadOp(_))));
}

#[test]
fn unknown_buffer() {
    let mut client = client_session();
    let r = client.handle(Command::Send {
        local_tensor_block: TensorBlock::new(B_C, 0, 64),
        remote_tensor_block: TensorBlock::new(0xdead_0000, 0, 64),
    });
    assert!(matches!(r, Err(TransportErrors::UnknownBuffer)));
    assert_eq!(client.get_state(), EndpointState::Connected);
    let r = client.handle(Command::Send {
        local_tensor_block: TensorBlock::new(0xbeef_0000, 0, 64),
        remote_tensor_block: TensorBlock::new(B_S, 0, 64),
    });
    assert!(matches!(r, Err(TransportErrors::UnknownBuffer)));
    let ok = client
        .handle(Command::Send {
            local_tensor_block: TensorBlock::new(B_C, 128, 64),
            remote_tensor_block: TensorBlock::new(B_S, 256, 64),
        })
        .unwrap();
    match &ok[0] {
        Action::Data(d) => {
            assert_eq!(d.laddr, B_C + 128);
            assert_eq!(d.raddr, B_S + 256);
            assert_eq!(d.len, 64);
        }
        other => panic!("expected a data write, got {:?}", other),
    }
}

#[test]
fn pull_uses_a_read() {
    let client = client_session();
    let r = client
        .transfer(true, &TensorBlock::new(B_C, 0, 65536), &TensorBlock::new(B_S, 0, 65536))
        .unwrap()
        .unwrap();
    assert_eq!(
        r,
        DataRequest { read: true, laddr: B_C, len: 65536, lkey: 31, raddr: B_S, rkey: 42 }
    );
}

#[test]
fn empty_block_produces_no_request() {
    let mut client = client_session();
    let r = client.transfer(false, &TensorBlock::new(B_C, 0, 0), &TensorBlock::new(B_S, 0, 0));
    assert_eq!(r, Ok(None));
    let actions = client
        .handle(Command::Recv {
            local_tensor_block: TensorBlock::new(0x1, 0, 0),
            remote_tensor_block: TensorBlock::new(0x2, 0, 0),
        })
        .unwrap();
    assert!(actions.is_empty());
}

#[test]
fn block_past_its_region_is_refused() {
    let client = client_session();
    let r = client.transfer(false, &TensorBlock::new(B_C, MIB - 8, 16), &TensorBlock::new(B_S, 0, 16));
    assert!(matches!(r, Err(TransportErrors::BadOp(_))));
}

#[test]
fn complete_slots_rotate_and_skip_zero() {
    let mut client = client_session();
    let mut slots = Vec::new();
    for i in 0..17u8 {
        let m = client.complete(&vec![i]).unwrap();
        slots.push(m.slot);
    }
    assert_eq!(slots[0], 1);
    assert_eq!(slots[14], 15);
    assert_eq!(slots[15], 1);
    assert!(slots.iter().all(|s| *s != 0));
}

#[test]
fn complete_with_long_id_is_refused() {
    let mut client = client_session();
    let r = client.complete(&vec![0; 65]);
    assert!(matches!(r, Err(TransportErrors::Serialization(_))));
    assert!(!client.is_complete(&vec![0; 65]));
}

#[test]
fn malformed_notification_is_dropped() {
    let mut server = server_session();
    let mut ring = MemBuffer::new();
    ring.write_slot(2, &[0, 0, 0, 0, 7, 0, 0, 0, 0]);
    let imm = imm_to_wire(encode_imm(2, 9));
    let out = server.receive(WC_SUCCESS, WC_RECV_RDMA_WITH_IMM, imm, ring.as_slice());
    assert_eq!(out, Ok(RecvOutcome::Dropped));
    let out = server.receive(WC_SUCCESS, WC_RECV_RDMA_WITH_IMM, imm_to_wire(encode_imm(40, 9)), ring.as_slice());
    assert_eq!(out, Ok(RecvOutcome::Dropped));
    let out = server.receive(WC_SUCCESS, 0, imm, ring.as_slice());
    assert_eq!(out, Ok(RecvOutcome::Dropped));
    assert_eq!(server.get_state(), EndpointState::Connected);
}

#[test]
fn fragment_is_pending() {
    let mut server = server_session();
    let mut ring = MemBuffer::new();
    let payload = Notification::data(b"big".to_vec(), 2).to_bytes().unwrap();
    ring.write_slot(3, &payload);
    let imm = imm_to_wire(encode_imm(3, payload.len() as u16));
    let out = server.receive(WC_SUCCESS, WC_RECV_RDMA_WITH_IMM, imm, ring.as_slice());
    assert_eq!(out, Ok(RecvOutcome::Pending));
    assert!(!server.is_complete(&b"big".to_vec()));
}

#[test]
fn failed_completion_tears_down() {
    let mut server = server_session();
    let ring = MemBuffer::new();
    let out = server.receive(12, WC_RECV_RDMA_WITH_IMM, [0; 4], ring.as_slice());
    assert!(matches!(out, Err(TransportErrors::CompletionFailed(_, 12))));
    assert_eq!(server.get_state(), EndpointState::Torn);

    let mut client = client_session();
    assert!(client.send_completion("write", WC_SUCCESS).is_ok());
    assert_eq!(client.get_state(), EndpointState::Connected);
    assert!(matches!(
        client.send_completion("write", 5),
        Err(TransportErrors::CompletionFailed(_, 5))
    ));
    assert_eq!(client.get_state(), EndpointState::Torn);
    let release = client.disconnect();
    assert_eq!(release.len(), 4);
    assert!(matches!(release[0], Action::Disconnect));
}

#[test]
fn handshake_covers_every_server_buffer() {
    let regions = vec![
        RegisteredRegion::new(0x1000_0000, MIB, 1, 101),
        RegisteredRegion::new(0x2000_0000, MIB, 2, 102),
        RegisteredRegion::new(0x3000_0000, MIB, 3, 103),
    ];
    let list = advertise(&regions);
    assert_eq!(list.len(), 3);
    let server_ring = RegisteredRegion::new(SERVER_RING, CPU_BUFFER_SIZE as u64, 21, 22);
    let client_ring = Connection::new(CLIENT_RING, 12);
    let m = descriptor_write(&server_ring, &client_ring, &list).unwrap();
    assert_eq!(m.slot, 0);
    assert_eq!(m.laddr, SERVER_RING);
    assert_eq!(m.raddr, CLIENT_RING);
    assert_eq!(m.payload.len(), 8 + 3 * 12);
    assert_eq!(m.imm_wire, (m.payload.len() as u32).to_be_bytes());
    let mut ring = MemBuffer::new();
    ring.write_slot(0, &m.payload);
    let map = read_peer_buffers(WC_SUCCESS, WC_RECV_RDMA_WITH_IMM, m.imm_wire, ring.as_slice()).unwrap();
    assert_eq!(map.len(), 3);
    for r in &regions {
        assert_eq!(map.get(&r.base_ptr), Some(&Connection::new(r.base_ptr, r.rkey)));
    }
    let blocks: Vec<TensorBlock> = regions
        .iter()
        .map(|r| TensorBlock::from_connection(&map[&r.base_ptr]))
        .collect();
    assert_eq!(blocks[1], TensorBlock::new(0x2000_0000, 0, 0));
}

#[test]
fn handshake_errors() {
    let ring = MemBuffer::new();
    assert!(matches!(
        read_peer_buffers(3, WC_RECV_RDMA_WITH_IMM, [0; 4], ring.as_slice()),
        Err(TransportErrors::CompletionFailed(_, 3))
    ));
    assert!(matches!(
        read_peer_buffers(WC_SUCCESS, 0, [0; 4], ring.as_slice()),
        Err(TransportErrors::BadOp(_))
    ));
    assert!(matches!(
        read_peer_buffers(WC_SUCCESS, WC_RECV_RDMA_WITH_IMM, [0, 0, 0, 4], ring.as_slice()),
        Err(TransportErrors::Serialization(_))
    ));
    assert!(matches!(
        read_peer_buffers(WC_SUCCESS, WC_RECV_RDMA_WITH_IMM, [0, 2, 0, 0], ring.as_slice()),
        Err(TransportErrors::Serialization(_))
    ));
    let empty = read_peer_buffers(WC_SUCCESS, WC_RECV_RDMA_WITH_IMM, [0, 0, 0, 8], ring.as_slice()).unwrap();
    assert!(empty.is_empty());
}

#[test]
fn oversized_descriptor_list_is_refused() {
    let mut regions = Vec::new();
    for i in 0..400u64 {
        regions.push(RegisteredRegion::new(0x1000 * (i + 1), 16, 0, i as u32));
    }
    let list = advertise(&regions);
    let r = descriptor_write(
        &RegisteredRegion::new(SERVER_RING, CPU_BUFFER_SIZE as u64, 21, 22),
        &Connection::new(CLIENT_RING, 12),
        &list,
    );
    assert!(matches!(r, Err(TransportErrors::Serialization(_))));
}

#[test]
fn endpoint_stages() {
    let s = EndpointState::Fresh.step(EndpointEvent::Bound);
    assert_eq!(s, EndpointState::Bound);
    let s = s.step(EndpointEvent::Connected);
    assert_eq!(s, EndpointState::Connected);
    assert_eq!(s.step(EndpointEvent::Bound), EndpointState::Connected);
    assert_eq!(s.step(EndpointEvent::Disconnected), EndpointState::Torn);
    assert_eq!(EndpointState::Bound.step(EndpointEvent::Failed), EndpointState::Torn);
    assert_eq!(EndpointState::Fresh.step(EndpointEvent::Connected), EndpointState::Fresh);
}

#[test]
fn null_buffer_needs_no_free() {
    assert!(!free_gpu_membuffer(&GPUMemBuffer::new(0, 1024)));
    assert!(free_gpu_membuffer(&GPUMemBuffer::new(0x1000, 1024)));
}
