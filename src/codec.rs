use vstd::prelude::*;

verus! {

#[verifier::external_type_specification]
#[verifier::external_body]
pub struct ExBincodeErrorKind(bincode::ErrorKind);

/// The four bytes of `x`, least significant first.
pub open spec fn le_u32(x: u32) -> Seq<u8> {
    seq![
        (x & 0xffu32) as u8,
        ((x >> 8u32) & 0xffu32) as u8,
        ((x >> 16u32) & 0xffu32) as u8,
        ((x >> 24u32) & 0xffu32) as u8,
    ]
}

/// The eight bytes of `x`, least significant first.
pub open spec fn le_u64(x: u64) -> Seq<u8> {
    le_u32((x & 0xffff_ffffu64) as u32) + le_u32((x >> 32u64) as u32)
}

/// An optional byte string as the wire carries it: a tag byte, then for a
/// present value its length as eight little-endian bytes and the bytes.
pub open spec fn opt_bytes(o: Option<Seq<u8>>) -> Seq<u8> {
    match o {
        None => seq![0u8],
        Some(b) => seq![1u8] + le_u64(b.len() as u64) + b,
    }
}

/// The wire form of a notification: `done`, the request id, `remaining`.
pub open spec fn notification_bytes(done: u32, req_id: Option<Seq<u8>>, remaining: u32) -> Seq<u8> {
    le_u32(done) + opt_bytes(req_id) + le_u32(remaining)
}

/// The wire form of one remote-memory descriptor: base address, then key.
pub open spec fn descriptor_bytes(d: (u64, u32)) -> Seq<u8> {
    le_u64(d.0) + le_u32(d.1)
}

/// The descriptors of `s`, one after another.
pub open spec fn descriptor_entries(s: Seq<(u64, u32)>) -> Seq<u8>
    decreases s.len(),
{
    if s.len() == 0 {
        Seq::empty()
    } else {
        descriptor_entries(s.drop_last()) + descriptor_bytes(s.last())
    }
}

/// The wire form of a descriptor list: its length as eight bytes, then the entries.
pub open spec fn descriptor_list_bytes(s: Seq<(u64, u32)>) -> Seq<u8> {
    le_u64(s.len() as u64) + descriptor_entries(s)
}

/// The view of an optional byte vector.
pub open spec fn opt_view(o: Option<Vec<u8>>) -> Option<Seq<u8>> {
    match o {
        None => None,
        Some(v) => Some(v@),
    }
}

/// Relies on bincode::serialize with its default options, which writes
/// integers as fixed-width little-endian, an Option as a tag byte (0 or 1)
/// before the value, and a sequence as its u64 length before the items; it
/// cannot fail for a tuple of integers and byte vectors.
#[verifier::external_body]
pub(crate) fn bincode_notification(
    done: u32,
    req_id: &Option<Vec<u8>>,
    remaining: u32,
) -> (r: Result<Vec<u8>, Box<bincode::ErrorKind>>)
    ensures
        r is Ok,
        r is Ok ==> r->Ok_0@ == notification_bytes(done, opt_view(*req_id), remaining),
{
    bincode::serialize(&(done, req_id, remaining))
}

/// Relies on bincode::deserialize with its default options (the format above,
/// trailing bytes allowed): it succeeds exactly when the input starts with the
/// encoding of a value, and then returns that value.
#[verifier::external_body]
pub(crate) fn bincode_notification_from(
    bytes: &[u8],
) -> (r: Result<(u32, Option<Vec<u8>>, u32), Box<bincode::ErrorKind>>)
    ensures
        r is Ok ==> notification_bytes(r->Ok_0.0, opt_view(r->Ok_0.1), r->Ok_0.2).is_prefix_of(
            bytes@,
        ),
        (exists|d: u32, id: Option<Seq<u8>>, rem: u32|
            #[trigger] notification_bytes(d, id, rem).is_prefix_of(bytes@)) ==> r is Ok,
{
    bincode::deserialize::<(u32, Option<Vec<u8>>, u32)>(bytes)
}

/// Relies on bincode::serialize with its default options: a u64 length, then
/// each pair as a little-endian u64 and u32; it cannot fail for these types.
#[verifier::external_body]
pub(crate) fn bincode_descriptors(
    list: &Vec<(u64, u32)>,
) -> (r: Result<Vec<u8>, Box<bincode::ErrorKind>>)
    ensures
        r is Ok,
        r is Ok ==> r->Ok_0@ == descriptor_list_bytes(list@),
{
    bincode::serialize(list)
}

/// Relies on bincode::deserialize with its default options (trailing bytes
/// allowed): it succeeds exactly when the input starts with the encoding of a
/// list of pairs, and then returns that list.
#[verifier::external_body]
pub(crate) fn bincode_descriptors_from(
    bytes: &[u8],
) -> (r: Result<Vec<(u64, u32)>, Box<bincode::ErrorKind>>)
    ensures
        r is Ok ==> descriptor_list_bytes(r->Ok_0@).is_prefix_of(bytes@),
        (exists|s: Seq<(u64, u32)>| #[trigger] descriptor_list_bytes(s).is_prefix_of(bytes@))
            ==> r is Ok,
{
    bincode::deserialize::<Vec<(u64, u32)>>(bytes)
}

/// Distinct 32-bit values have distinct little-endian forms.
pub proof fn lemma_le_u32_injective(x: u32, y: u32)
    requires
        le_u32(x) == le_u32(y),
    ensures
        x == y,
{
    let a = le_u32(x);
    let b = le_u32(y);
    assert(a[0] == b[0] && a[1] == b[1] && a[2] == b[2] && a[3] == b[3]);
    assert(x == y) by (bit_vector)
        requires
            (x & 0xffu32) as u8 == (y & 0xffu32) as u8,
            ((x >> 8u32) & 0xffu32) as u8 == ((y >> 8u32) & 0xffu32) as u8,
            ((x >> 16u32) & 0xffu32) as u8 == ((y >> 16u32) & 0xffu32) as u8,
            ((x >> 24u32) & 0xffu32) as u8 == ((y >> 24u32) & 0xffu32) as u8,
    ;
}

/// Distinct 64-bit values have distinct little-endian forms.
pub proof fn lemma_le_u64_injective(x: u64, y: u64)
    requires
        le_u64(x) == le_u64(y),
    ensures
        x == y,
{
    let lx = le_u32((x & 0xffff_ffffu64) as u32);
    let hx = le_u32((x >> 32u64) as u32);
    let ly = le_u32((y & 0xffff_ffffu64) as u32);
    let hy = le_u32((y >> 32u64) as u32);
    assert(lx =~= le_u64(x).subrange(0, 4));
    assert(ly =~= le_u64(y).subrange(0, 4));
    assert(hx =~= le_u64(x).subrange(4, 8));
    assert(hy =~= le_u64(y).subrange(4, 8));
    lemma_le_u32_injective((x & 0xffff_ffffu64) as u32, (y & 0xffff_ffffu64) as u32);
    lemma_le_u32_injective((x >> 32u64) as u32, (y >> 32u64) as u32);
    assert(x == y) by (bit_vector)
        requires
            (x & 0xffff_ffffu64) as u32 == (y & 0xffff_ffffu64) as u32,
            (x >> 32u64) as u32 == (y >> 32u64) as u32,
    ;
}

/// `a` is a prefix of `b` exactly when it matches the start of `b`.
proof fn lemma_prefix_parts(a: Seq<u8>, b: Seq<u8>, bytes: Seq<u8>, start: int)
    requires
        0 <= start,
        a.len() == b.len(),
        a.is_prefix_of(bytes.subrange(start, bytes.len() as int)),
        b.is_prefix_of(bytes.subrange(start, bytes.len() as int)),
    ensures
        a == b,
{
    assert(a =~= b);
}

/// Two notifications whose encodings both start the same byte string are the
/// same notification: the encoding is self-delimiting.
pub proof fn lemma_notification_prefix_unique(
    d1: u32,
    id1: Option<Seq<u8>>,
    r1: u32,
    d2: u32,
    id2: Option<Seq<u8>>,
    r2: u32,
    bytes: Seq<u8>,
)
    requires
        notification_bytes(d1, id1, r1).is_prefix_of(bytes),
        notification_bytes(d2, id2, r2).is_prefix_of(bytes),
        id1 matches Some(b) ==> b.len() <= u64::MAX,
        id2 matches Some(b) ==> b.len() <= u64::MAX,
    ensures
        d1 == d2,
        id1 == id2,
        r1 == r2,
{
    let e1 = notification_bytes(d1, id1, r1);
    let e2 = notification_bytes(d2, id2, r2);
    assert(le_u32(d1) =~= e1.subrange(0, 4));
    assert(le_u32(d2) =~= e2.subrange(0, 4));
    assert(e1.subrange(0, 4) =~= bytes.subrange(0, 4));
    assert(e2.subrange(0, 4) =~= bytes.subrange(0, 4));
    lemma_le_u32_injective(d1, d2);
    assert(e1[4] == bytes[4] && e2[4] == bytes[4]);
    // the tag byte decides whether an id follows
    let tail_len1: int = match id1 {
        None => 5,
        Some(b) => 13 + b.len() as int,
    };
    let tail_len2: int = match id2 {
        None => 5,
        Some(b) => 13 + b.len() as int,
    };
    match id1 {
        None => {
            assert(e1[4] == 0u8);
        },
        Some(b1) => {
            assert(e1[4] == 1u8);
            match id2 {
                None => {
                    assert(e2[4] == 0u8);
                },
                Some(b2) => {
                    let l1 = le_u64(b1.len() as u64);
                    let l2 = le_u64(b2.len() as u64);
                    assert(l1 =~= e1.subrange(5, 13));
                    assert(l2 =~= e2.subrange(5, 13));
                    assert(e1.subrange(5, 13) =~= bytes.subrange(5, 13));
                    assert(e2.subrange(5, 13) =~= bytes.subrange(5, 13));
                    lemma_le_u64_injective(b1.len() as u64, b2.len() as u64);
                    assert(b1 =~= e1.subrange(13, 13 + b1.len() as int));
                    assert(b2 =~= e2.subrange(13, 13 + b2.len() as int));
                    assert(e1.subrange(13, 13 + b1.len() as int) =~= bytes.subrange(13, 13 + b1.len() as int));
                    assert(e2.subrange(13, 13 + b2.len() as int) =~= bytes.subrange(13, 13 + b2.len() as int));
                    assert(b1 =~= b2);
                },
            }
        },
    }
    match id2 {
        None => {
            assert(e2[4] == 0u8);
        },
        Some(_) => {
            assert(e2[4] == 1u8);
        },
    }
    assert(id1 == id2);
    assert(tail_len1 == tail_len2);
    assert(le_u32(r1) =~= e1.subrange(tail_len1, tail_len1 + 4));
    assert(le_u32(r2) =~= e2.subrange(tail_len2, tail_len2 + 4));
    assert(e1.subrange(tail_len1, tail_len1 + 4) =~= bytes.subrange(tail_len1, tail_len1 + 4));
    assert(e2.subrange(tail_len2, tail_len2 + 4) =~= bytes.subrange(tail_len2, tail_len2 + 4));
    lemma_le_u32_injective(r1, r2);
}

/// The entries of a descriptor list take twelve bytes each, in order.
pub proof fn lemma_descriptor_entries_layout(s: Seq<(u64, u32)>)
    ensures
        descriptor_entries(s).len() == 12 * s.len(),
        forall|i: int|
            0 <= i < s.len() ==> #[trigger] descriptor_entries(s).subrange(12 * i, 12 * i + 12)
                == descriptor_bytes(s[i]),
    decreases s.len(),
{
    if s.len() > 0 {
        let p = s.drop_last();
        lemma_descriptor_entries_layout(p);
        let e = descriptor_entries(s);
        assert forall|i: int| 0 <= i < s.len() implies #[trigger] e.subrange(12 * i, 12 * i + 12)
            == descriptor_bytes(s[i]) by {
            if i < p.len() {
                assert(e.subrange(12 * i, 12 * i + 12) =~= descriptor_entries(p).subrange(
                    12 * i,
                    12 * i + 12,
                ));
                assert(p[i] == s[i]);
            } else {
                assert(e.subrange(12 * i, 12 * i + 12) =~= descriptor_bytes(s.last()));
            }
        }
    }
}

/// A descriptor's twelve bytes determine it.
pub proof fn lemma_descriptor_bytes_injective(a: (u64, u32), b: (u64, u32))
    requires
        descriptor_bytes(a) == descriptor_bytes(b),
    ensures
        a == b,
{
    assert(le_u64(a.0) =~= descriptor_bytes(a).subrange(0, 8));
    assert(le_u64(b.0) =~= descriptor_bytes(b).subrange(0, 8));
    assert(le_u32(a.1) =~= descriptor_bytes(a).subrange(8, 12));
    assert(le_u32(b.1) =~= descriptor_bytes(b).subrange(8, 12));
    lemma_le_u64_injective(a.0, b.0);
    lemma_le_u32_injective(a.1, b.1);
}

/// Two descriptor lists whose encodings both start the same byte string are
/// the same list.
pub proof fn lemma_descriptor_list_prefix_unique(s1: Seq<(u64, u32)>, s2: Seq<(u64, u32)>, bytes: Seq<u8>)
    requires
        descriptor_list_bytes(s1).is_prefix_of(bytes),
        descriptor_list_bytes(s2).is_prefix_of(bytes),
        s1.len() <= u64::MAX,
        s2.len() <= u64::MAX,
    ensures
        s1 == s2,
{
    let e1 = descriptor_list_bytes(s1);
    let e2 = descriptor_list_bytes(s2);
    assert(le_u64(s1.len() as u64) =~= e1.subrange(0, 8));
    assert(le_u64(s2.len() as u64) =~= e2.subrange(0, 8));
    assert(e1.subrange(0, 8) =~= bytes.subrange(0, 8));
    assert(e2.subrange(0, 8) =~= bytes.subrange(0, 8));
    lemma_le_u64_injective(s1.len() as u64, s2.len() as u64);
    assert(s1.len() == s2.len());
    lemma_descriptor_entries_layout(s1);
    lemma_descriptor_entries_layout(s2);
    assert forall|i: int| 0 <= i < s1.len() implies s1[i] == s2[i] by {
        let x1 = descriptor_entries(s1).subrange(12 * i, 12 * i + 12);
        let x2 = descriptor_entries(s2).subrange(12 * i, 12 * i + 12);
        assert forall|k: int| 0 <= k < 12 implies x1[k] == bytes[8 + 12 * i + k] && x2[k] == bytes[8
            + 12 * i + k] by {
            assert(x1[k] == descriptor_entries(s1)[12 * i + k]);
            assert(e1[8 + 12 * i + k] == descriptor_entries(s1)[12 * i + k]);
            assert(x2[k] == descriptor_entries(s2)[12 * i + k]);
            assert(e2[8 + 12 * i + k] == descriptor_entries(s2)[12 * i + k]);
        }
        assert(x1 =~= x2);
        lemma_descriptor_bytes_injective(s1[i], s2[i]);
    }
    assert(s1 =~= s2);
}

} // verus!
