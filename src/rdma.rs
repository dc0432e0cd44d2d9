use vstd::prelude::*;

use crate::codec::{
    bincode_descriptors, bincode_descriptors_from, bincode_notification,
    bincode_notification_from, descriptor_bytes, descriptor_list_bytes, le_u32, le_u64,
    lemma_descriptor_list_prefix_unique, lemma_notification_prefix_unique, notification_bytes,
    opt_view,
};
use crate::errors::TransportErrors;

verus! {

/// Longest request id that a notification may carry.
pub const MAX_REQ_ID_LEN: usize = 64;

/// What a peer needs to reach one of our registered regions: its base address
/// and its remote key.
#[derive(Debug, Clone, Copy, PartialEq, Eq, Default)]
pub struct Connection {
    pub base_ptr: u64,
    pub mr_rkey: u32,
}

impl Connection {
    pub fn new(base_ptr: u64, mr_rkey: u32) -> (r: Connection)
        ensures
            r.base_ptr == base_ptr,
            r.mr_rkey == mr_rkey,
    {
        Connection { base_ptr, mr_rkey }
    }

    pub fn get_base_ptr(&self) -> (r: u64)
        ensures
            r == self.base_ptr,
    {
        self.base_ptr
    }

    pub fn get_mr_rkey(&self) -> (r: u32)
        ensures
            r == self.mr_rkey,
    {
        self.mr_rkey
    }

    pub open spec fn pair(&self) -> (u64, u32) {
        (self.base_ptr, self.mr_rkey)
    }

    /// The twelve bytes sent in the bootstrap exchange: the base address and
    /// then the key, little-endian.
    pub fn to_bytes(&self) -> (r: Vec<u8>)
        ensures
            r@ == descriptor_bytes(self.pair()),
    {
        let mut out: Vec<u8> = Vec::with_capacity(12);
        let lo = (self.base_ptr & 0xffff_ffffu64) as u32;
        let hi = (self.base_ptr >> 32u64) as u32;
        push_le_u32(&mut out, lo);
        push_le_u32(&mut out, hi);
        push_le_u32(&mut out, self.mr_rkey);
        assert(out@ =~= descriptor_bytes(self.pair()));
        out
    }

    /// Reads a descriptor from the first twelve bytes of `bytes`.
    pub fn from_bytes(bytes: &[u8]) -> (r: Result<Connection, TransportErrors>)
        ensures
            bytes@.len() >= 12 <==> r is Ok,
            r is Ok ==> descriptor_bytes(r->Ok_0.pair()) == bytes@.subrange(0, 12),
            r is Err ==> r->Err_0 is Serialization,
    {
        if bytes.len() < 12 {
            return Err(TransportErrors::Serialization("descriptor too short".to_owned()));
        }
        let lo = read_le_u32(bytes, 0);
        let hi = read_le_u32(bytes, 4);
        let rkey = read_le_u32(bytes, 8);
        let base = ((hi as u64) << 32u64) | (lo as u64);
        assert((base & 0xffff_ffffu64) as u32 == lo && (base >> 32u64) as u32 == hi)
            by (bit_vector)
            requires
                base == ((hi as u64) << 32u64) | (lo as u64),
        ;
        let c = Connection { base_ptr: base, mr_rkey: rkey };
        assert(descriptor_bytes(c.pair()) =~= bytes@.subrange(0, 12));
        Ok(c)
    }
}

fn push_le_u32(out: &mut Vec<u8>, x: u32)
    ensures
        final(out)@ == old(out)@ + le_u32(x),
{
    out.push((x & 0xffu32) as u8);
    out.push(((x >> 8u32) & 0xffu32) as u8);
    out.push(((x >> 16u32) & 0xffu32) as u8);
    out.push(((x >> 24u32) & 0xffu32) as u8);
    assert(final(out)@ =~= old(out)@ + le_u32(x));
}

fn read_le_u32(bytes: &[u8], at: usize) -> (r: u32)
    requires
        at + 4 <= bytes@.len(),
    ensures
        le_u32(r) == bytes@.subrange(at as int, at + 4),
{
    let b0 = bytes[at];
    let b1 = bytes[at + 1];
    let b2 = bytes[at + 2];
    let b3 = bytes[at + 3];
    let r = (b0 as u32) | ((b1 as u32) << 8u32) | ((b2 as u32) << 16u32) | ((b3 as u32) << 24u32);
    assert((r & 0xffu32) as u8 == b0 && ((r >> 8u32) & 0xffu32) as u8 == b1 && ((r >> 16u32)
        & 0xffu32) as u8 == b2 && ((r >> 24u32) & 0xffu32) as u8 == b3) by (bit_vector)
        requires
            r == (b0 as u32) | ((b1 as u32) << 8u32) | ((b2 as u32) << 16u32) | ((b3 as u32)
                << 24u32),
    ;
    assert(le_u32(r) =~= bytes@.subrange(at as int, at + 4));
    r
}

/// The descriptors of every device buffer that one side exports.
#[derive(Debug, Clone, Default)]
pub struct Connections {
    conns: Vec<Connection>,
}

impl View for Connections {
    type V = Seq<(u64, u32)>;

    closed spec fn view(&self) -> Seq<(u64, u32)> {
        self.conns@.map_values(|c: Connection| c.pair())
    }
}

impl Connections {
    pub fn new() -> (r: Connections)
        ensures
            r@ == Seq::<(u64, u32)>::empty(),
    {
        let r = Connections { conns: Vec::new() };
        assert(r@ =~= Seq::<(u64, u32)>::empty());
        r
    }

    pub fn add(&mut self, conn: Connection)
        ensures
            final(self)@ == old(self)@.push(conn.pair()),
    {
        self.conns.push(conn);
        assert(final(self)@ =~= old(self)@.push(conn.pair()));
    }

    pub fn len(&self) -> (r: usize)
        ensures
            r == self@.len(),
    {
        self.conns.len()
    }

    pub fn get(&self, i: usize) -> (r: Connection)
        requires
            i < self@.len(),
        ensures
            r.pair() == self@[i as int],
    {
        self.conns[i]
    }

    /// The descriptor list as the server writes it into the client's ring.
    pub fn to_bytes(&self) -> (r: Vec<u8>)
        ensures
            r@ == descriptor_list_bytes(self@),
    {
        let mut pairs: Vec<(u64, u32)> = Vec::with_capacity(self.conns.len());
        let mut i: usize = 0;
        while i < self.conns.len()
            invariant
                i <= self.conns@.len(),
                pairs@ == self@.take(i as int),
            decreases self.conns@.len() - i,
        {
            pairs.push((self.conns[i].base_ptr, self.conns[i].mr_rkey));
            i = i + 1;
            assert(pairs@ =~= self@.take(i as int));
        }
        assert(pairs@ =~= self@);
        match bincode_descriptors(&pairs) {
            Ok(b) => b,
            Err(_) => Vec::new(),
        }
    }

    /// Reads a descriptor list from the start of `bytes`.
    pub fn from_bytes(bytes: &[u8]) -> (r: Result<Connections, TransportErrors>)
        ensures
            r is Ok <==> exists|s: Seq<(u64, u32)>| #[trigger]
                descriptor_list_bytes(s).is_prefix_of(bytes@),
            r is Ok ==> descriptor_list_bytes(r->Ok_0@).is_prefix_of(bytes@),
            r is Err ==> r->Err_0 is Serialization,
    {
        match bincode_descriptors_from(bytes) {
            Ok(pairs) => {
                let mut conns: Vec<Connection> = Vec::with_capacity(pairs.len());
                let mut i: usize = 0;
                while i < pairs.len()
                    invariant
                        i <= pairs@.len(),
                        conns@.len() == i,
                        forall|k: int| 0 <= k < i ==> #[trigger] conns@[k].pair() == pairs@[k],
                    decreases pairs@.len() - i,
                {
                    let (base_ptr, mr_rkey) = pairs[i];
                    conns.push(Connection { base_ptr, mr_rkey });
                    i = i + 1;
                }
                let r = Connections { conns };
                assert(r@ =~= pairs@);
                Ok(r)
            },
            Err(_) => Err(TransportErrors::Serialization("malformed descriptor list".to_owned())),
        }
    }
}

/// The metadata record that follows a data write, or announces teardown.
#[derive(Debug, Clone, Default)]
pub struct Notification {
    /// 1 when the peer is tearing the connection down, 0 otherwise.
    pub done: u32,
    pub req_id: Option<Vec<u8>>,
    /// Fragments of the same request still to come; 0 completes it.
    pub remaining: u32,
}

/// What a notification says, as plain values.
pub struct NotificationView {
    pub done: u32,
    pub req_id: Option<Seq<u8>>,
    pub remaining: u32,
}

/// A notification that the wire may carry: its request id is short enough.
pub open spec fn valid_notification(n: NotificationView) -> bool {
    n.req_id matches Some(b) ==> b.len() <= MAX_REQ_ID_LEN
}

/// The wire form of a notification.
pub open spec fn encode_notification(n: NotificationView) -> Seq<u8> {
    notification_bytes(n.done, n.req_id, n.remaining)
}

impl View for Notification {
    type V = NotificationView;

    open spec fn view(&self) -> NotificationView {
        NotificationView { done: self.done, req_id: opt_view(self.req_id), remaining: self.remaining }
    }
}

impl Notification {
    /// The teardown notification.
    pub fn complete() -> (r: Notification)
        ensures
            r@ == (NotificationView { done: 1, req_id: None, remaining: 0 }),
    {
        Notification { done: 1, req_id: None, remaining: 0 }
    }

    /// A notification for a data write of request `req_id`.
    pub fn data(req_id: Vec<u8>, remaining: u32) -> (r: Notification)
        ensures
            r@ == (NotificationView { done: 0, req_id: Some(req_id@), remaining }),
    {
        Notification { done: 0, req_id: Some(req_id), remaining }
    }

    /// The wire form; an id longer than `MAX_REQ_ID_LEN` cannot be sent.
    pub fn to_bytes(&self) -> (r: Result<Vec<u8>, TransportErrors>)
        ensures
            r is Ok <==> valid_notification(self@),
            r is Ok ==> r->Ok_0@ == encode_notification(self@),
            r is Err ==> r->Err_0 is Serialization,
    {
        if let Some(id) = &self.req_id {
            if id.len() > MAX_REQ_ID_LEN {
                return Err(TransportErrors::Serialization("request id too long".to_owned()));
            }
        }
        match bincode_notification(self.done, &self.req_id, self.remaining) {
            Ok(b) => Ok(b),
            Err(_) => Err(TransportErrors::Serialization("notification".to_owned())),
        }
    }

    /// Reads a notification from the start of `bytes`; what follows it is
    /// ignored.
    pub fn from_bytes(bytes: &[u8]) -> (r: Result<Notification, TransportErrors>)
        ensures
            r is Ok <==> exists|n: NotificationView|
                valid_notification(n) && #[trigger] encode_notification(n).is_prefix_of(bytes@),
            r is Ok ==> valid_notification(r->Ok_0@) && encode_notification(r->Ok_0@).is_prefix_of(
                bytes@,
            ),
            r is Err ==> r->Err_0 is Serialization,
    {
        match bincode_notification_from(bytes) {
            Ok((done, req_id, remaining)) => {
                let n = Notification { done, req_id, remaining };
                if let Some(id) = &n.req_id {
                    if id.len() > MAX_REQ_ID_LEN {
                        proof {
                            assert forall|m: NotificationView|
                                valid_notification(m) && #[trigger] encode_notification(
                                    m,
                                ).is_prefix_of(bytes@) implies false by {
                                lemma_notification_prefix_unique(
                                    m.done,
                                    m.req_id,
                                    m.remaining,
                                    n@.done,
                                    n@.req_id,
                                    n@.remaining,
                                    bytes@,
                                );
                            }
                        }
                        return Err(TransportErrors::Serialization("request id too long".to_owned()));
                    }
                }
                assert(encode_notification(n@).is_prefix_of(bytes@));
                Ok(n)
            },
            Err(_) => {
                proof {
                    assert forall|m: NotificationView|
                        valid_notification(m) && #[trigger] encode_notification(m).is_prefix_of(
                            bytes@,
                        ) implies false by {
                        assert(notification_bytes(m.done, m.req_id, m.remaining).is_prefix_of(
                            bytes@,
                        ));
                    }
                }
                Err(TransportErrors::Serialization("malformed notification".to_owned()))
            },
        }
    }
}

/// Encoding a notification and decoding what comes out gives the notification
/// back, so encoding again gives the same bytes.
pub proof fn lemma_notification_round_trip(n: NotificationView, m: NotificationView, bytes: Seq<u8>)
    requires
        valid_notification(n),
        valid_notification(m),
        bytes == encode_notification(n),
        encode_notification(m).is_prefix_of(bytes),
    ensures
        m == n,
        encode_notification(m) == bytes,
{
    assert(encode_notification(n).is_prefix_of(bytes));
    lemma_notification_prefix_unique(
        m.done,
        m.req_id,
        m.remaining,
        n.done,
        n.req_id,
        n.remaining,
        bytes,
    );
}

} // verus!
