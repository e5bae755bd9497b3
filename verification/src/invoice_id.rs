//! Invoice identifiers: 32 bytes made of the ledger timestamp (8 bytes),
//! the ledger sequence number (4 bytes) and a per-contract counter (4
//! bytes), all big-endian, followed by 16 reserved zero bytes. The
//! allocator skips counter values whose identifier is already taken, so it
//! never hands out an identifier twice, even after the counter was set
//! back.
use vstd::prelude::*;

verus! {

/// The identifier for ledger timestamp `ts`, ledger sequence `sq` and
/// counter `ctr`.
pub open spec fn id_layout(ts: u64, sq: u32, ctr: u32) -> Seq<u8> {
    seq![
        (ts >> 56u64) as u8,
        (ts >> 48u64) as u8,
        (ts >> 40u64) as u8,
        (ts >> 32u64) as u8,
        (ts >> 24u64) as u8,
        (ts >> 16u64) as u8,
        (ts >> 8u64) as u8,
        ts as u8,
        (sq >> 24u32) as u8,
        (sq >> 16u32) as u8,
        (sq >> 8u32) as u8,
        sq as u8,
        (ctr >> 24u32) as u8,
        (ctr >> 16u32) as u8,
        (ctr >> 8u32) as u8,
        ctr as u8,
        0u8, 0u8, 0u8, 0u8, 0u8, 0u8, 0u8, 0u8,
        0u8, 0u8, 0u8, 0u8, 0u8, 0u8, 0u8, 0u8,
    ]
}

/// Big-endian value of the 8 bytes `b0 .. b7`.
pub open spec fn be64(b0: u8, b1: u8, b2: u8, b3: u8, b4: u8, b5: u8, b6: u8, b7: u8) -> u64 {
    ((b0 as u64) << 56u64) | ((b1 as u64) << 48u64) | ((b2 as u64) << 40u64) | ((b3 as u64) << 32u64)
        | ((b4 as u64) << 24u64) | ((b5 as u64) << 16u64) | ((b6 as u64) << 8u64) | (b7 as u64)
}

/// Big-endian value of the 4 bytes `b0 .. b3`.
pub open spec fn be32(b0: u8, b1: u8, b2: u8, b3: u8) -> u32 {
    ((b0 as u32) << 24u32) | ((b1 as u32) << 16u32) | ((b2 as u32) << 8u32) | (b3 as u32)
}

/// Timestamp segment of identifier `id` (bytes 0 to 7).
pub open spec fn timestamp_segment(id: Seq<u8>) -> u64 {
    be64(id[0], id[1], id[2], id[3], id[4], id[5], id[6], id[7])
}

/// Sequence segment of identifier `id` (bytes 8 to 11).
pub open spec fn sequence_segment(id: Seq<u8>) -> u32 {
    be32(id[8], id[9], id[10], id[11])
}

/// Counter segment of identifier `id` (bytes 12 to 15).
pub open spec fn counter_segment(id: Seq<u8>) -> u32 {
    be32(id[12], id[13], id[14], id[15])
}

/// Reading the segments back gives the values an identifier was made of,
/// and its reserved bytes are zero.
pub proof fn lemma_id_round_trip(ts: u64, sq: u32, ctr: u32)
    ensures
        id_layout(ts, sq, ctr).len() == 32,
        timestamp_segment(id_layout(ts, sq, ctr)) == ts,
        sequence_segment(id_layout(ts, sq, ctr)) == sq,
        counter_segment(id_layout(ts, sq, ctr)) == ctr,
        forall|i: int| 16 <= i < 32 ==> #[trigger] id_layout(ts, sq, ctr)[i] == 0,
{
    assert(be64(
        (ts >> 56u64) as u8,
        (ts >> 48u64) as u8,
        (ts >> 40u64) as u8,
        (ts >> 32u64) as u8,
        (ts >> 24u64) as u8,
        (ts >> 16u64) as u8,
        (ts >> 8u64) as u8,
        ts as u8,
    ) == ts) by (bit_vector);
    assert(be32((sq >> 24u32) as u8, (sq >> 16u32) as u8, (sq >> 8u32) as u8, sq as u8) == sq)
        by (bit_vector);
    assert(be32((ctr >> 24u32) as u8, (ctr >> 16u32) as u8, (ctr >> 8u32) as u8, ctr as u8) == ctr)
        by (bit_vector);
}

/// Identifiers made of different timestamps, sequence numbers or counters
/// differ.
pub proof fn lemma_id_injective(t1: u64, s1: u32, c1: u32, t2: u64, s2: u32, c2: u32)
    ensures
        id_layout(t1, s1, c1) == id_layout(t2, s2, c2) ==> t1 == t2 && s1 == s2 && c1 == c2,
{
    lemma_id_round_trip(t1, s1, c1);
    lemma_id_round_trip(t2, s2, c2);
}

/// The identifier for ledger timestamp `timestamp`, ledger sequence
/// `sequence` and counter `counter`.
pub fn generate_invoice_id(timestamp: u64, sequence: u32, counter: u32) -> (r: [u8; 32])
    ensures
        r@ == id_layout(timestamp, sequence, counter),
{
    let r: [u8; 32] = [
        (timestamp >> 56u64) as u8,
        (timestamp >> 48u64) as u8,
        (timestamp >> 40u64) as u8,
        (timestamp >> 32u64) as u8,
        (timestamp >> 24u64) as u8,
        (timestamp >> 16u64) as u8,
        (timestamp >> 8u64) as u8,
        timestamp as u8,
        (sequence >> 24u32) as u8,
        (sequence >> 16u32) as u8,
        (sequence >> 8u32) as u8,
        sequence as u8,
        (counter >> 24u32) as u8,
        (counter >> 16u32) as u8,
        (counter >> 8u32) as u8,
        counter as u8,
        0u8, 0u8, 0u8, 0u8, 0u8, 0u8, 0u8, 0u8,
        0u8, 0u8, 0u8, 0u8, 0u8, 0u8, 0u8, 0u8,
    ];
    assert(r@ =~= id_layout(timestamp, sequence, counter));
    r
}

/// An invoice identifier, by its parts: the ledger timestamp and ledger
/// sequence number it was issued at and the allocation counter. Its 32-byte
/// form is `id_layout` of the parts.
#[derive(Clone, Copy, Debug, PartialEq, Eq, Structural, Hash)]
pub struct InvoiceId {
    pub timestamp: u64,
    pub sequence: u32,
    pub counter: u32,
}

impl InvoiceId {
    /// The 32 bytes of this identifier.
    pub open spec fn bytes(self) -> Seq<u8> {
        id_layout(self.timestamp, self.sequence, self.counter)
    }

    /// The 32 bytes of this identifier.
    pub fn to_bytes(&self) -> (r: [u8; 32])
        ensures
            r@ == self.bytes(),
    {
        generate_invoice_id(self.timestamp, self.sequence, self.counter)
    }

    /// The identifier whose 32 bytes are `b`; `None` when its reserved
    /// bytes are not all zero, as no identifier has such bytes.
    pub fn from_bytes(b: &[u8; 32]) -> (r: Option<InvoiceId>)
        ensures
            r is Some <==> (forall|i: int| 16 <= i < 32 ==> #[trigger] b@[i] == 0),
            r matches Some(id) ==> id.bytes() == b@,
    {
        if !reserved_bytes_zero(b) {
            return None;
        }
        let id = InvoiceId { timestamp: id_timestamp(b), sequence: id_sequence(b), counter: id_counter(b) };
        proof {
            lemma_bytes_from_segments(b@);
        }
        Some(id)
    }
}

/// Bytes whose reserved part is zero are the layout of their own segments.
proof fn lemma_bytes_from_segments(b: Seq<u8>)
    requires
        b.len() == 32,
        forall|i: int| 16 <= i < 32 ==> #[trigger] b[i] == 0,
    ensures
        id_layout(timestamp_segment(b), sequence_segment(b), counter_segment(b)) == b,
{
    let (b0, b1, b2, b3, b4, b5, b6, b7) = (b[0], b[1], b[2], b[3], b[4], b[5], b[6], b[7]);
    let t = be64(b0, b1, b2, b3, b4, b5, b6, b7);
    assert((t >> 56u64) as u8 == b0 && (t >> 48u64) as u8 == b1 && (t >> 40u64) as u8 == b2
        && (t >> 32u64) as u8 == b3 && (t >> 24u64) as u8 == b4 && (t >> 16u64) as u8 == b5
        && (t >> 8u64) as u8 == b6 && t as u8 == b7) by (bit_vector)
        requires
            t == ((b0 as u64) << 56u64) | ((b1 as u64) << 48u64) | ((b2 as u64) << 40u64) | ((
            b3 as u64) << 32u64) | ((b4 as u64) << 24u64) | ((b5 as u64) << 16u64) | ((
            b6 as u64) << 8u64) | (b7 as u64),
    ;
    let (c0, c1, c2, c3) = (b[8], b[9], b[10], b[11]);
    let q = be32(c0, c1, c2, c3);
    assert((q >> 24u32) as u8 == c0 && (q >> 16u32) as u8 == c1 && (q >> 8u32) as u8 == c2
        && q as u8 == c3) by (bit_vector)
        requires
            q == ((c0 as u32) << 24u32) | ((c1 as u32) << 16u32) | ((c2 as u32) << 8u32) | (
            c3 as u32),
    ;
    let (d0, d1, d2, d3) = (b[12], b[13], b[14], b[15]);
    let k = be32(d0, d1, d2, d3);
    assert((k >> 24u32) as u8 == d0 && (k >> 16u32) as u8 == d1 && (k >> 8u32) as u8 == d2
        && k as u8 == d3) by (bit_vector)
        requires
            k == ((d0 as u32) << 24u32) | ((d1 as u32) << 16u32) | ((d2 as u32) << 8u32) | (
            d3 as u32),
    ;
    assert(id_layout(t, q, k) =~= b);
}

/// Timestamp segment of `id`.
pub fn id_timestamp(id: &[u8; 32]) -> (r: u64)
    ensures
        r == timestamp_segment(id@),
{
    ((id[0] as u64) << 56u64) | ((id[1] as u64) << 48u64) | ((id[2] as u64) << 40u64) | ((
    id[3] as u64) << 32u64) | ((id[4] as u64) << 24u64) | ((id[5] as u64) << 16u64) | ((
    id[6] as u64) << 8u64) | (id[7] as u64)
}

/// Sequence segment of `id`.
pub fn id_sequence(id: &[u8; 32]) -> (r: u32)
    ensures
        r == sequence_segment(id@),
{
    ((id[8] as u32) << 24u32) | ((id[9] as u32) << 16u32) | ((id[10] as u32) << 8u32) | (
    id[11] as u32)
}

/// Counter segment of `id`.
pub fn id_counter(id: &[u8; 32]) -> (r: u32)
    ensures
        r == counter_segment(id@),
{
    ((id[12] as u32) << 24u32) | ((id[13] as u32) << 16u32) | ((id[14] as u32) << 8u32) | (
    id[15] as u32)
}

/// Whether the reserved bytes of `id` (16 to 31) are all zero.
pub fn reserved_bytes_zero(id: &[u8; 32]) -> (r: bool)
    ensures
        r == (forall|i: int| 16 <= i < 32 ==> #[trigger] id@[i] == 0),
{
    let mut i: usize = 16;
    while i < 32
        invariant
            16 <= i <= 32,
            forall|j: int| 16 <= j < i ==> #[trigger] id@[j] == 0,
        decreases 32 - i,
    {
        if id[i] != 0 {
            return false;
        }
        i = i + 1;
    }
    true
}

/// Whether `a` and `b` are the same identifier.
fn same_id(a: &[u8; 32], b: &[u8; 32]) -> (r: bool)
    ensures
        r == (a@ == b@),
{
    let mut i: usize = 0;
    while i < 32
        invariant
            0 <= i <= 32,
            a@.len() == 32,
            b@.len() == 32,
            forall|j: int| 0 <= j < i ==> #[trigger] a@[j] == b@[j],
        decreases 32 - i,
    {
        if a[i] != b[i] {
            return false;
        }
        i = i + 1;
    }
    assert(a@ =~= b@);
    true
}

/// Views of the identifiers `ids`.
pub open spec fn id_views(ids: Seq<[u8; 32]>) -> Seq<Seq<u8>> {
    ids.map_values(|x: [u8; 32]| x@)
}

/// The identifiers handed out so far and the counter the next allocation
/// starts from.
pub struct InvoiceIdAllocator {
    counter: u32,
    issued: Vec<[u8; 32]>,
}

impl InvoiceIdAllocator {
    /// The counter the next allocation starts from.
    pub closed spec fn counter(&self) -> u32 {
        self.counter
    }

    /// The identifiers handed out, in order.
    pub closed spec fn issued(&self) -> Seq<Seq<u8>> {
        id_views(self.issued@)
    }

    /// Well-formedness: no identifier was handed out twice.
    pub open spec fn wf(&self) -> bool {
        self.issued().no_duplicates()
    }

    /// An allocator that has handed out nothing, with counter 0.
    pub fn new() -> (r: Self)
        ensures
            r.wf(),
            r.counter() == 0,
            r.issued() == Seq::<Seq<u8>>::empty(),
    {
        let r = InvoiceIdAllocator { counter: 0, issued: Vec::new() };
        assert(r.issued() =~= Seq::<Seq<u8>>::empty());
        r
    }

    /// The counter the next allocation starts from.
    pub fn get_counter(&self) -> (r: u32)
        ensures
            r == self.counter(),
    {
        self.counter
    }

    /// Sets the counter the next allocation starts from; identifiers
    /// already handed out stay taken.
    pub fn set_counter(&mut self, value: u32)
        requires
            old(self).wf(),
        ensures
            final(self).wf(),
            final(self).counter() == value,
            final(self).issued() == old(self).issued(),
    {
        self.counter = value;
    }

    /// Whether `id` was handed out.
    pub fn is_issued(&self, id: &[u8; 32]) -> (r: bool)
        ensures
            r == self.issued().contains(id@),
    {
        let mut k: usize = 0;
        while k < self.issued.len()
            invariant
                0 <= k <= self.issued@.len(),
                forall|j: int| 0 <= j < k ==> (#[trigger] self.issued@[j])@ != id@,
            decreases self.issued@.len() - k,
        {
            if same_id(&self.issued[k], id) {
                assert(self.issued()[k as int] == id@);
                return true;
            }
            k = k + 1;
        }
        assert forall|j: int| 0 <= j < self.issued().len() implies self.issued()[j] != id@ by {
            assert(self.issued()[j] == self.issued@[j]@);
        }
        false
    }

    /// Hands out the identifier for `timestamp`, `sequence` and the first
    /// counter value, from the current one up, whose identifier is not
    /// taken; the counter then moves past it. `None`, changing nothing,
    /// when every identifier from the current counter up to `u32::MAX` is
    /// taken.
    pub fn allocate(&mut self, timestamp: u64, sequence: u32) -> (r: Option<[u8; 32]>)
        requires
            old(self).wf(),
        ensures
            final(self).wf(),
            r is None <==> forall|c: u32|
                old(self).counter() <= c ==> old(self).issued().contains(
                    #[trigger] id_layout(timestamp, sequence, c),
                ),
            r is None ==> *final(self) == *old(self),
            r matches Some(id) ==> exists|c: u32|
                {
                    &&& old(self).counter() <= c
                    &&& id@ == #[trigger] id_layout(timestamp, sequence, c)
                    &&& !old(self).issued().contains(id@)
                    &&& forall|d: u32|
                        old(self).counter() <= d < c ==> old(self).issued().contains(
                            #[trigger] id_layout(timestamp, sequence, d),
                        )
                    &&& final(self).issued() == old(self).issued().push(id@)
                    &&& final(self).counter() == if c == u32::MAX {
                        u32::MAX
                    } else {
                        (c + 1) as u32
                    }
                },
    {
        let start = self.counter;
        let mut c: u32 = start;
        loop
            invariant
                start == old(self).counter(),
                start <= c,
                *self == *old(self),
                self.wf(),
                forall|d: u32|
                    start <= d < c ==> self.issued().contains(
                        #[trigger] id_layout(timestamp, sequence, d),
                    ),
            decreases u32::MAX - c,
        {
            let id = generate_invoice_id(timestamp, sequence, c);
            if !self.is_issued(&id) {
                let ghost old_ids = self.issued@;
                self.issued.push(id);
                self.counter = if c == u32::MAX {
                    u32::MAX
                } else {
                    c + 1
                };
                proof {
                    assert(self.issued() =~= id_views(old_ids).push(id@));
                    assert(id_views(old_ids).push(id@).no_duplicates());
                }
                return Some(id);
            }
            if c == u32::MAX {
                proof {
                    assert forall|d: u32| start <= d implies self.issued().contains(
                        #[trigger] id_layout(timestamp, sequence, d),
                    ) by {
                        if d == c {
                            assert(id@ == id_layout(timestamp, sequence, c));
                        }
                    }
                }
                return None;
            }
            c = c + 1;
        }
    }
}

} // verus!
