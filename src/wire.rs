use vstd::prelude::*;

verus! {

/// The value that RDMA-WRITE-WITH-IMM carries for a notification written into
/// ring slot `slot` with a payload of `size` bytes.
pub open spec fn imm_of(slot: u16, size: u16) -> u32 {
    ((slot as u32) << 16u32) | (size as u32)
}

/// The four bytes of `x` in network byte order (most significant first).
pub open spec fn network_bytes(x: u32) -> Seq<u8> {
    seq![
        ((x >> 24u32) & 0xffu32) as u8,
        ((x >> 16u32) & 0xffu32) as u8,
        ((x >> 8u32) & 0xffu32) as u8,
        (x & 0xffu32) as u8,
    ]
}

/// The value whose network-order bytes are `b`.
pub open spec fn from_network_bytes(b: Seq<u8>) -> u32
    recommends
        b.len() == 4,
{
    ((b[0] as u32) << 24u32) | ((b[1] as u32) << 16u32) | ((b[2] as u32) << 8u32) | (b[3] as u32)
}

/// Packs a ring slot and a payload size into an immediate value.
pub fn encode_imm(slot: u16, size: u16) -> (r: u32)
    ensures
        r == imm_of(slot, size),
        r as int == slot as int * 0x10000 + size as int,
{
    let r = ((slot as u32) << 16u32) | (size as u32);
    assert(r as int == slot as int * 0x10000 + size as int) by (bit_vector)
        requires
            r == ((slot as u32) << 16u32) | (size as u32),
    ;
    r
}

/// Splits an immediate value into its ring slot and payload size.
pub fn decode_imm(imm: u32) -> (r: (u16, u16))
    ensures
        imm_of(r.0, r.1) == imm,
        r.0 as int == imm as int / 0x10000,
        r.1 as int == imm as int % 0x10000,
{
    let slot = (imm >> 16u32) as u16;
    let size = (imm & 0xffffu32) as u16;
    assert(imm_of(slot, size) == imm && slot as int == imm as int / 0x10000 && size as int == imm
        as int % 0x10000) by (bit_vector)
        requires
            slot == (imm >> 16u32) as u16,
            size == (imm & 0xffffu32) as u16,
    ;
    (slot, size)
}

/// Lays an immediate value out in network byte order, as it travels on the wire.
pub fn imm_to_wire(x: u32) -> (r: [u8; 4])
    ensures
        r@ == network_bytes(x),
{
    let r = [
        ((x >> 24u32) & 0xffu32) as u8,
        ((x >> 16u32) & 0xffu32) as u8,
        ((x >> 8u32) & 0xffu32) as u8,
        (x & 0xffu32) as u8,
    ];
    assert(r@ =~= network_bytes(x));
    r
}

/// Reads an immediate value from its network-order bytes.
pub fn imm_from_wire(b: [u8; 4]) -> (r: u32)
    ensures
        r == from_network_bytes(b@),
{
    ((b[0] as u32) << 24u32) | ((b[1] as u32) << 16u32) | ((b[2] as u32) << 8u32) | (b[3] as u32)
}

/// Network byte order loses nothing: reading back the bytes that an immediate
/// value was laid out as gives that value, for every 32-bit value.
pub proof fn lemma_network_order_round_trip(x: u32)
    ensures
        from_network_bytes(network_bytes(x)) == x,
{
    let b = network_bytes(x);
    let b0 = ((x >> 24u32) & 0xffu32) as u8;
    let b1 = ((x >> 16u32) & 0xffu32) as u8;
    let b2 = ((x >> 8u32) & 0xffu32) as u8;
    let b3 = (x & 0xffu32) as u8;
    assert(b[0] == b0 && b[1] == b1 && b[2] == b2 && b[3] == b3);
    assert(((b0 as u32) << 24u32) | ((b1 as u32) << 16u32) | ((b2 as u32) << 8u32) | (b3 as u32)
        == x) by (bit_vector)
        requires
            b0 == ((x >> 24u32) & 0xffu32) as u8,
            b1 == ((x >> 16u32) & 0xffu32) as u8,
            b2 == ((x >> 8u32) & 0xffu32) as u8,
            b3 == (x & 0xffu32) as u8,
    ;
}

/// Packing a slot and a size and unpacking the result gives them back.
pub proof fn lemma_imm_round_trip(slot: u16, size: u16)
    ensures
        (imm_of(slot, size) >> 16u32) as u16 == slot,
        (imm_of(slot, size) & 0xffffu32) as u16 == size,
{
    assert((((slot as u32) << 16u32) | (size as u32)) >> 16u32 == slot as u32) by (bit_vector);
    assert((((slot as u32) << 16u32) | (size as u32)) & 0xffffu32 == size as u32) by (bit_vector);
}

} // verus!
