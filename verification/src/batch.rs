//! Building a multiple service packet: several requests sent as one.
//!
//! The payload is a count of 16 bits, one offset of 16 bits for each request,
//! and the requests, all little-endian. An offset is the distance from the
//! start of the payload to the start of its request.

use crate::batch_reply::{table_end, Frame, ReplyIter, OFFSET_BYTES};
use crate::buffer::{high_byte, low_byte, put_u16_le, written};
use crate::message::{Encodable, MessageRequest, ObjectPath};
use bytes::BytesMut;
use vstd::prelude::*;

verus! {

/// The service code of a multiple service packet.
pub const SERVICE_MULTIPLE_PACKET: u8 = 0x0A;

/// The class of the message router, which performs a multiple service packet.
pub const CLASS_MESSAGE_ROUTER: u8 = 0x02;

/// The greatest value that an offset, or the count, can take.
pub const MAX_OFFSET: usize = 0xFFFF;

/// The most requests whose offsets fit in front of them.
pub const MAX_BATCH: usize = 32766;

/// The parts one after another.
pub open spec fn joined(parts: Seq<Seq<u8>>) -> Seq<u8>
    decreases parts.len(),
{
    if parts.len() == 0 {
        Seq::empty()
    } else {
        joined(parts.drop_last()) + parts.last()
    }
}

/// The offset of the part `k`: the bytes of the count and the offsets, and
/// those of the parts before it.
pub open spec fn item_offset(parts: Seq<Seq<u8>>, k: int) -> int {
    table_end(parts.len() as int) + joined(parts.take(k)).len()
}

/// The bytes of the first `k` offsets.
pub open spec fn offset_table(parts: Seq<Seq<u8>>, k: int) -> Seq<u8>
    decreases k,
{
    if k <= 0 {
        Seq::empty()
    } else {
        offset_table(parts, k - 1).push(low_byte(item_offset(parts, k - 1) as u16)).push(
            high_byte(item_offset(parts, k - 1) as u16),
        )
    }
}

/// Whether every offset can be written in 16 bits. The offsets grow, so the
/// last one decides.
pub open spec fn offsets_fit(parts: Seq<Seq<u8>>) -> bool {
    parts.len() == 0 || item_offset(parts, parts.len() - 1) <= MAX_OFFSET
}

/// The payload of a multiple service packet that holds the given encoded
/// requests: the count, the offsets, the requests.
pub open spec fn batch_wire(parts: Seq<Seq<u8>>) -> Seq<u8> {
    seq![low_byte(parts.len() as u16), high_byte(parts.len() as u16)] + offset_table(
        parts,
        parts.len() as int,
    ) + joined(parts)
}

/// Joining one part more appends it.
pub proof fn lemma_joined_step(parts: Seq<Seq<u8>>, k: int)
    requires
        0 <= k < parts.len(),
    ensures
        joined(parts.take(k + 1)) == joined(parts.take(k)) + parts[k],
{
    assert(parts.take(k + 1).drop_last() =~= parts.take(k));
}

/// The offsets never fall from one part to the next.
pub proof fn lemma_offsets_grow(parts: Seq<Seq<u8>>, j: int, k: int)
    requires
        0 <= j <= k <= parts.len(),
    ensures
        item_offset(parts, j) <= item_offset(parts, k),
    decreases k - j,
{
    if j < k {
        lemma_offsets_grow(parts, j, k - 1);
        lemma_joined_step(parts, k - 1);
    }
}

/// The requests of a batch as the payload of the request that carries them.
#[derive(Debug)]
pub struct MultipleServicesEncoder<P, D> {
    items: Vec<MessageRequest<P, D>>,
}

impl<P, D> View for MultipleServicesEncoder<P, D> {
    type V = Seq<MessageRequest<P, D>>;

    closed spec fn view(&self) -> Seq<MessageRequest<P, D>> {
        self.items@
    }
}

/// The bytes of each request, in order.
pub open spec fn wires<P: Encodable, D: Encodable>(items: Seq<MessageRequest<P, D>>) -> Seq<
    Seq<u8>,
> {
    Seq::new(items.len(), |i: int| items[i].wire())
}

impl<P: Encodable, D: Encodable> MultipleServicesEncoder<P, D> {
    /// Writes the count and the offsets.
    fn encode_common(&self, buf: &mut BytesMut)
        requires
            self.fits(),
        ensures
            written(final(buf)) == written(old(buf)) + seq![
                low_byte(self@.len() as u16),
                high_byte(self@.len() as u16),
            ] + offset_table(wires(self@), self@.len() as int),
    {
        let n = self.items.len();
        let ghost parts = wires(self@);
        proof {
            if n > 0 {
                lemma_offsets_grow(parts, 0, n - 1);
                assert(parts.take(0) =~= Seq::<Seq<u8>>::empty());
            }
        }
        put_u16_le(buf, n as u16);
        let ghost head = written(buf);
        assert(head =~= written(old(buf)) + seq![low_byte(n as u16), high_byte(n as u16)]);
        let mut offset: usize = OFFSET_BYTES + OFFSET_BYTES * n;
        let mut k: usize = 0;
        while k < n
            invariant
                n == self.items.len(),
                self.fits(),
                parts == wires(self@),
                k <= n,
                offset == item_offset(parts, k as int),
                k < n ==> offset <= MAX_OFFSET,
                written(buf) == head + offset_table(parts, k as int),
            decreases n - k,
        {
            put_u16_le(buf, offset as u16);
            proof {
                lemma_joined_step(parts, k as int);
                lemma_offsets_grow(parts, k + 1, n as int);
                if k + 1 < n {
                    lemma_offsets_grow(parts, k + 1, n - 1);
                }
                assert(self@[k as int].fits());
            }
            offset += self.items[k].bytes_count();
            k += 1;
        }
        assert(written(buf) =~= written(old(buf)) + seq![
            low_byte(self@.len() as u16),
            high_byte(self@.len() as u16),
        ] + offset_table(wires(self@), self@.len() as int));
    }
}

impl<P: Encodable, D: Encodable> Encodable for MultipleServicesEncoder<P, D> {
    open spec fn wire(&self) -> Seq<u8> {
        batch_wire(wires(self@))
    }

    /// Every request keeps its limits, and every offset can be written.
    open spec fn fits(&self) -> bool {
        &&& forall|i: int| 0 <= i < self@.len() ==> (#[trigger] self@[i]).fits()
        &&& offsets_fit(wires(self@))
    }

    fn within_limits(&self) -> (ok: bool) {
        let n = self.items.len();
        let ghost parts = wires(self@);
        if n > MAX_BATCH {
            proof {
                lemma_offsets_grow(parts, 0, n - 1);
            }
            return false;
        }
        let mut offset: usize = OFFSET_BYTES + OFFSET_BYTES * n;
        let mut k: usize = 0;
        proof {
            assert(parts.take(0) =~= Seq::<Seq<u8>>::empty());
        }
        while k < n
            invariant
                n == self.items.len(),
                parts == wires(self@),
                k <= n,
                offset == item_offset(parts, k as int),
                k < n ==> offset <= MAX_OFFSET,
                k > 0 ==> item_offset(parts, k - 1) <= MAX_OFFSET,
                forall|i: int| 0 <= i < k ==> (#[trigger] self@[i]).fits(),
            decreases n - k,
        {
            if !self.items[k].within_limits() {
                return false;
            }
            proof {
                lemma_joined_step(parts, k as int);
            }
            offset += self.items[k].bytes_count();
            k += 1;
            if k < n && offset > MAX_OFFSET {
                proof {
                    lemma_offsets_grow(parts, k as int, n - 1);
                }
                return false;
            }
        }
        true
    }

    fn encode(self, buf: &mut BytesMut) {
        self.encode_by_ref(buf)
    }

    fn encode_by_ref(&self, buf: &mut BytesMut) {
        self.encode_common(buf);
        let n = self.items.len();
        let ghost parts = wires(self@);
        let ghost head = written(buf);
        let mut k: usize = 0;
        proof {
            assert(parts.take(0) =~= Seq::<Seq<u8>>::empty());
        }
        while k < n
            invariant
                n == self.items.len(),
                self.fits(),
                parts == wires(self@),
                k <= n,
                written(buf) == head + joined(parts.take(k as int)),
            decreases n - k,
        {
            proof {
                lemma_joined_step(parts, k as int);
                assert(self@[k as int].fits());
            }
            self.items[k].encode_by_ref(buf);
            k += 1;
        }
        assert(parts.take(n as int) =~= parts);
    }

    fn bytes_count(&self) -> (n: usize) {
        let len = self.items.len();
        let ghost parts = wires(self@);
        proof {
            if len > 0 {
                lemma_offsets_grow(parts, 0, len - 1);
            }
            assert(parts.take(0) =~= Seq::<Seq<u8>>::empty());
        }
        let mut total: usize = OFFSET_BYTES + OFFSET_BYTES * len;
        let mut k: usize = 0;
        while k < len
            invariant
                len == self.items.len(),
                self.fits(),
                parts == wires(self@),
                k <= len,
                total == item_offset(parts, k as int),
                k < len ==> total <= MAX_OFFSET,
            decreases len - k,
        {
            proof {
                lemma_joined_step(parts, k as int);
                if k + 1 < len {
                    lemma_offsets_grow(parts, k + 1, len - 1);
                }
                assert(self@[k as int].fits());
            }
            total += self.items[k].bytes_count();
            k += 1;
        }
        assert(parts.take(len as int) =~= parts);
        proof {
            lemma_table_len(parts, len as int);
        }
        total
    }
}

/// The first `k` offsets take two bytes each.
pub proof fn lemma_table_len(parts: Seq<Seq<u8>>, k: int)
    requires
        0 <= k,
    ensures
        offset_table(parts, k).len() == OFFSET_BYTES * k,
    decreases k,
{
    if k > 0 {
        lemma_table_len(parts, k - 1);
    }
}

/// A batch of requests that is being put together.
#[derive(Debug)]
pub struct MultipleServicePacket<P, D> {
    items: Vec<MessageRequest<P, D>>,
}

impl<P, D> View for MultipleServicePacket<P, D> {
    type V = Seq<MessageRequest<P, D>>;

    /// The requests queued, in the order of their queuing.
    closed spec fn view(&self) -> Seq<MessageRequest<P, D>> {
        self.items@
    }
}

/// What is to happen with a batch.
#[derive(Debug)]
pub enum BatchCall<P, D> {
    /// Nothing was queued: nothing is to be sent, and the replies are none.
    Empty(ReplyIter),
    /// The request that carries the batch, to be sent.
    Send(MessageRequest<ObjectPath, MultipleServicesEncoder<P, D>>),
}

impl<P: Encodable, D: Encodable> MultipleServicePacket<P, D> {
    /// An empty batch.
    pub fn new() -> (batch: Self)
        ensures
            batch@ == Seq::<MessageRequest<P, D>>::empty(),
    {
        MultipleServicePacket { items: Vec::new() }
    }

    /// Queues a request behind those queued before.
    pub fn push(self, mr: MessageRequest<P, D>) -> (batch: Self)
        ensures
            batch@ == self@.push(mr),
    {
        let mut items = self.items;
        items.push(mr);
        MultipleServicePacket { items }
    }

    /// Queues the requests, in their order, behind those queued before.
    pub fn push_all(self, requests: Vec<MessageRequest<P, D>>) -> (batch: Self)
        ensures
            batch@ == self@ + requests@,
    {
        let mut items = self.items;
        let mut requests = requests;
        items.append(&mut requests);
        MultipleServicePacket { items }
    }

    /// Decides what is to be sent. An empty batch needs no exchange: its
    /// replies are a cursor that yields nothing. Any other batch travels as
    /// the payload of one request to the message router.
    pub fn call(self) -> (r: BatchCall<P, D>)
        ensures
            match r {
                BatchCall::Empty(iter) => self@.len() == 0 && iter@ == Seq::<Frame>::empty(),
                BatchCall::Send(request) => {
                    &&& self@.len() > 0
                    &&& request.service_code == SERVICE_MULTIPLE_PACKET
                    &&& request.path == (ObjectPath { class: CLASS_MESSAGE_ROUTER, instance: 1 })
                    &&& request.data@ == self@
                },
            },
    {
        if self.items.len() == 0 {
            return BatchCall::Empty(ReplyIter::new(None));
        }
        BatchCall::Send(
            MessageRequest {
                service_code: SERVICE_MULTIPLE_PACKET,
                path: ObjectPath { class: CLASS_MESSAGE_ROUTER, instance: 1 },
                data: MultipleServicesEncoder { items: self.items },
            },
        )
    }
}

} // verus!
