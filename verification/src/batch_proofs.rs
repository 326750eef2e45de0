//! What holds of the framing of a batch, for every payload.

use crate::batch::{
    batch_wire, item_offset, joined, lemma_joined_step, lemma_offsets_grow, lemma_table_len,
    offset_table, offsets_fit,
};
use crate::batch_reply::{
    after_next, declared_count, frames, next_outcome, rest_frames, table_end, Frame,
};
use crate::buffer::{high_byte, le16, low_byte};
use crate::error::Error;
use crate::batch::wires;
use crate::message::{Decodable, Encodable, MessageRequest};
use vstd::prelude::*;

verus! {

/// The offset at place `j` of a table of offsets.
pub open spec fn entry(table: Seq<u8>, j: int) -> int {
    le16(table[2 * j], table[2 * j + 1])
}

/// The offset of the reply `j` where the first offset, `last`, is read and
/// `table` holds the others.
pub open spec fn bound(last: int, table: Seq<u8>, j: int) -> int {
    if j <= 0 {
        last
    } else {
        entry(table, j - 1)
    }
}

/// Whether the offsets grow from each reply to the next.
pub open spec fn bounds_grow(last: int, table: Seq<u8>) -> bool {
    forall|j: int|
        0 <= j < table.len() / 2 ==> #[trigger] bound(last, table, j) < bound(last, table, j + 1)
}

proof fn lemma_bounds_ordered(last: int, table: Seq<u8>, j: int, k: int)
    requires
        bounds_grow(last, table),
        0 <= j <= k <= table.len() / 2,
    ensures
        bound(last, table, j) <= bound(last, table, k),
    decreases k - j,
{
    if j < k {
        lemma_bounds_ordered(last, table, j, k - 1);
        assert(bound(last, table, k - 1) < bound(last, table, k - 1 + 1));
    }
}

/// Where the offsets grow and bytes are left beyond the last offset, each
/// offset bounds one reply, and the last reply holds all that is left.
pub proof fn lemma_rest_frames_follow_offsets(last: int, table: Seq<u8>, body: Seq<u8>)
    requires
        table.len() % 2 == 0,
        bounds_grow(last, table),
        body.len() > bound(last, table, table.len() as int / 2) - last,
    ensures
        rest_frames(last, table, body).len() == table.len() / 2 + 1,
        forall|j: int|
            0 <= j < table.len() / 2 ==> #[trigger] rest_frames(last, table, body)[j] == Ok::<
                Seq<u8>,
                Error,
            >(body.subrange(bound(last, table, j) - last, bound(last, table, j + 1) - last)),
        rest_frames(last, table, body)[table.len() as int / 2] == Ok::<Seq<u8>, Error>(
            body.skip(bound(last, table, table.len() as int / 2) - last),
        ),
    decreases table.len(),
{
    let m = table.len() as int / 2;
    if m == 0 {
        assert(body.skip(0) =~= body);
    } else {
        let offset = entry(table, 0);
        let rest_table = table.skip(2);
        let rest_body = body.skip(offset - last);
        assert(bound(last, table, 0) < bound(last, table, 0int + 1));
        lemma_bounds_ordered(last, table, 1, m);
        assert forall|j: int| 0 <= j <= m - 1 implies #[trigger] bound(offset, rest_table, j)
            == bound(last, table, j + 1) by {
            if j > 0 {
                assert(rest_table[2 * (j - 1)] == table[2 * j]);
                assert(rest_table[2 * (j - 1) + 1] == table[2 * j + 1]);
            }
        }
        assert(bounds_grow(offset, rest_table)) by {
            assert forall|j: int| 0 <= j < rest_table.len() / 2 implies #[trigger] bound(
                offset,
                rest_table,
                j,
            ) < bound(offset, rest_table, j + 1) by {
                assert(bound(last, table, j + 1) < bound(last, table, j + 1 + 1));
            }
        }
        lemma_rest_frames_follow_offsets(offset, rest_table, rest_body);
        let tail = rest_frames(offset, rest_table, rest_body);
        let all = rest_frames(last, table, body);
        assert(all == seq![Ok::<Seq<u8>, Error>(body.take(offset - last))] + tail);
        assert forall|j: int| 0 <= j < m implies #[trigger] all[j] == Ok::<Seq<u8>, Error>(
            body.subrange(bound(last, table, j) - last, bound(last, table, j + 1) - last),
        ) by {
            if j == 0 {
                assert(body.take(offset - last) =~= body.subrange(0, offset - last));
            } else {
                assert(all[j] == tail[j - 1]);
                lemma_bounds_ordered(last, table, 1, j);
                lemma_bounds_ordered(last, table, j + 1, m);
                assert(bound(offset, rest_table, j - 1) == bound(last, table, j - 1 + 1));
                assert(bound(offset, rest_table, j - 1 + 1) == bound(last, table, j + 1));
                assert(bound(last, table, j) < bound(last, table, j + 1));
                assert(rest_body.subrange(
                    bound(last, table, j) - offset,
                    bound(last, table, j + 1) - offset,
                ) =~= body.subrange(bound(last, table, j) - last, bound(last, table, j + 1) - last));
            }
        }
        assert(all[m] == tail[m - 1]);
        assert(bound(offset, rest_table, m - 1) == bound(last, table, m - 1 + 1));
        assert(rest_body.skip(bound(last, table, m) - offset) =~= body.skip(
            bound(last, table, m) - last,
        ));
    }
}

/// Only the last frame can be a failure.
pub proof fn lemma_rest_failure_is_last(last: int, table: Seq<u8>, body: Seq<u8>)
    ensures
        forall|i: int|
            0 <= i < rest_frames(last, table, body).len() - 1 ==> (#[trigger] rest_frames(
                last,
                table,
                body,
            )[i]) is Ok,
        forall|i: int|
            0 <= i < rest_frames(last, table, body).len() ==> (#[trigger] rest_frames(
                last,
                table,
                body,
            )[i]) is Err ==> rest_frames(last, table, body)[i] == Err::<Seq<u8>, Error>(
                Error::MalformedReply,
            ),
    decreases table.len(),
{
    if table.len() >= 2 {
        let offset = entry(table, 0);
        if !(offset <= last || body.len() < offset - last) {
            lemma_rest_failure_is_last(offset, table.skip(2), body.skip(offset - last));
        }
    }
}

/// Where an offset does not exceed the one before it, the reading ends in a
/// failure, after no more replies than offsets grew.
pub proof fn lemma_rest_offset_not_grown(last: int, table: Seq<u8>, body: Seq<u8>, j: int)
    requires
        0 <= j < table.len() / 2,
        bound(last, table, j + 1) <= bound(last, table, j),
    ensures
        1 <= rest_frames(last, table, body).len() <= j + 1,
        rest_frames(last, table, body).last() == Err::<Seq<u8>, Error>(Error::MalformedReply),
    decreases table.len(),
{
    let offset = entry(table, 0);
    if !(offset <= last || body.len() < offset - last) {
        let rest_table = table.skip(2);
        assert(j > 0);
        if j > 1 {
            assert(rest_table[2 * (j - 2)] == table[2 * (j - 1)]);
            assert(rest_table[2 * (j - 2) + 1] == table[2 * (j - 1) + 1]);
        }
        assert(rest_table[2 * (j - 1)] == table[2 * j]);
        assert(rest_table[2 * (j - 1) + 1] == table[2 * j + 1]);
        lemma_rest_offset_not_grown(offset, rest_table, body.skip(offset - last), j - 1);
    }
}

/// The offset that a payload holds for its reply `k`.
pub open spec fn table_offset(buf: Seq<u8>, k: int) -> int {
    le16(buf[2 + 2 * k], buf[3 + 2 * k])
}

/// Whether the payload holds its count, a count above zero, and all the
/// offsets that the count announces.
pub open spec fn table_complete(buf: Seq<u8>) -> bool {
    &&& buf.len() >= 2
    &&& declared_count(buf) >= 1
    &&& buf.len() >= table_end(declared_count(buf))
}

/// The bytes of a payload behind its offsets.
pub open spec fn body_of(buf: Seq<u8>) -> Seq<u8> {
    buf.skip(table_end(declared_count(buf)))
}

proof fn lemma_table_bounds(buf: Seq<u8>, k: int)
    requires
        table_complete(buf),
        0 <= k < declared_count(buf),
    ensures
        bound(
            table_offset(buf, 0),
            buf.subrange(4, table_end(declared_count(buf))),
            k,
        ) == table_offset(buf, k),
{
}

/// Where the offsets of a payload grow and bytes are left beyond the last
/// offset, there are as many replies as the count says. Each reply but the
/// last reaches from its offset to the next. The last one takes every byte
/// from its offset on, though no offset bounds it from above.
pub proof fn lemma_frames_follow_offsets(buf: Seq<u8>)
    requires
        table_complete(buf),
        forall|k: int|
            0 <= k < declared_count(buf) - 1 ==> #[trigger] table_offset(buf, k) < table_offset(
                buf,
                k + 1,
            ),
        body_of(buf).len() > table_offset(buf, declared_count(buf) - 1) - table_offset(buf, 0),
    ensures
        frames(buf).len() == declared_count(buf),
        forall|k: int|
            0 <= k < declared_count(buf) - 1 ==> #[trigger] frames(buf)[k] == Ok::<Seq<u8>, Error>(
                body_of(buf).subrange(
                    table_offset(buf, k) - table_offset(buf, 0),
                    table_offset(buf, k + 1) - table_offset(buf, 0),
                ),
            ),
        frames(buf)[declared_count(buf) - 1] == Ok::<Seq<u8>, Error>(
            body_of(buf).skip(
                table_offset(buf, declared_count(buf) - 1) - table_offset(buf, 0),
            ),
        ),
{
    let n = declared_count(buf);
    let last = table_offset(buf, 0);
    let table = buf.subrange(4, table_end(n));
    let body = body_of(buf);
    assert forall|j: int| 0 <= j < n implies #[trigger] bound(last, table, j) == table_offset(
        buf,
        j,
    ) by {
        lemma_table_bounds(buf, j);
    }
    assert(bounds_grow(last, table)) by {
        assert forall|j: int| 0 <= j < table.len() / 2 implies #[trigger] bound(last, table, j)
            < bound(last, table, j + 1) by {
            assert(table_offset(buf, j) < table_offset(buf, j + 1));
            assert(bound(last, table, j + 1) == table_offset(buf, j + 1));
        }
    }
    assert(bound(last, table, n - 1) == table_offset(buf, n - 1));
    lemma_rest_frames_follow_offsets(last, table, body);
    assert forall|k: int| 0 <= k < n - 1 implies #[trigger] frames(buf)[k] == Ok::<Seq<u8>, Error>(
        body.subrange(table_offset(buf, k) - last, table_offset(buf, k + 1) - last),
    ) by {
        assert(bound(last, table, k) == table_offset(buf, k));
        assert(bound(last, table, k + 1) == table_offset(buf, k + 1));
    }
}

/// Where a payload holds an offset that does not exceed the one before it,
/// the reading ends in a failure, and the failure is the only one: every
/// frame before it is a reply, whatever bytes follow.
pub proof fn lemma_offset_not_grown(buf: Seq<u8>, k: int)
    requires
        table_complete(buf),
        0 <= k < declared_count(buf) - 1,
        table_offset(buf, k + 1) <= table_offset(buf, k),
    ensures
        1 <= frames(buf).len() <= k + 1,
        frames(buf).last() == Err::<Seq<u8>, Error>(Error::MalformedReply),
        forall|i: int| 0 <= i < frames(buf).len() - 1 ==> (#[trigger] frames(buf)[i]) is Ok,
{
    let n = declared_count(buf);
    let last = table_offset(buf, 0);
    let table = buf.subrange(4, table_end(n));
    lemma_table_bounds(buf, k);
    lemma_table_bounds(buf, k + 1);
    lemma_rest_offset_not_grown(last, table, body_of(buf), k);
    lemma_rest_failure_is_last(last, table, body_of(buf));
}

/// In the frames of any payload, only the last can be a failure.
pub proof fn lemma_failure_is_last(buf: Seq<u8>)
    ensures
        forall|i: int| 0 <= i < frames(buf).len() - 1 ==> (#[trigger] frames(buf)[i]) is Ok,
{
    if buf.len() >= 2 && declared_count(buf) != 0 && buf.len() >= table_end(declared_count(buf)) {
        lemma_rest_failure_is_last(
            le16(buf[2], buf[3]),
            buf.subrange(4, table_end(declared_count(buf))),
            body_of(buf),
        );
    }
}

proof fn lemma_table_entry(parts: Seq<Seq<u8>>, m: int, k: int)
    requires
        0 <= k < m,
    ensures
        offset_table(parts, m)[2 * k] == low_byte(item_offset(parts, k) as u16),
        offset_table(parts, m)[2 * k + 1] == high_byte(item_offset(parts, k) as u16),
    decreases m,
{
    lemma_table_len(parts, m - 1);
    if k < m - 1 {
        lemma_table_entry(parts, m - 1, k);
    }
}

proof fn lemma_joined_prefix(parts: Seq<Seq<u8>>, k: int, m: int)
    requires
        0 <= k <= m <= parts.len(),
    ensures
        joined(parts.take(k)).len() <= joined(parts.take(m)).len(),
        joined(parts.take(m)).take(joined(parts.take(k)).len() as int) == joined(parts.take(k)),
    decreases m - k,
{
    if k < m {
        lemma_joined_prefix(parts, k, m - 1);
        lemma_joined_step(parts, m - 1);
        assert(joined(parts.take(m)).take(joined(parts.take(k)).len() as int) =~= joined(
            parts.take(m - 1),
        ).take(joined(parts.take(k)).len() as int));
    } else {
        assert(joined(parts.take(m)).take(joined(parts.take(k)).len() as int) =~= joined(
            parts.take(k),
        ));
    }
}

proof fn lemma_wire_offset(parts: Seq<Seq<u8>>, k: int)
    requires
        parts.len() >= 1,
        offsets_fit(parts),
        0 <= k < parts.len(),
    ensures
        table_offset(batch_wire(parts), k) == item_offset(parts, k),
{
    let n = parts.len() as int;
    let table = offset_table(parts, n);
    let head = seq![low_byte(parts.len() as u16), high_byte(parts.len() as u16)];
    lemma_table_len(parts, n);
    lemma_table_entry(parts, n, k);
    lemma_offsets_grow(parts, 0, k);
    lemma_offsets_grow(parts, k, n - 1);
    assert(batch_wire(parts) == head + table + joined(parts));
    assert((head + table + joined(parts))[2 + 2 * k] == table[2 * k]);
    assert((head + table + joined(parts))[3 + 2 * k] == table[2 * k + 1]);
}

proof fn lemma_wire_layout(parts: Seq<Seq<u8>>)
    requires
        parts.len() >= 1,
        offsets_fit(parts),
    ensures
        table_complete(batch_wire(parts)),
        declared_count(batch_wire(parts)) == parts.len(),
        body_of(batch_wire(parts)) == joined(parts),
{
    let n = parts.len() as int;
    let table = offset_table(parts, n);
    let head = seq![low_byte(parts.len() as u16), high_byte(parts.len() as u16)];
    lemma_table_len(parts, n);
    lemma_offsets_grow(parts, 0, n - 1);
    assert(batch_wire(parts) == head + table + joined(parts));
    assert((head + table + joined(parts))[0] == head[0]);
    assert((head + table + joined(parts))[1] == head[1]);
    assert(declared_count(batch_wire(parts)) == n);
    assert((head + table + joined(parts)).skip(table_end(n)) =~= joined(parts));
}

proof fn lemma_part_is_slice(parts: Seq<Seq<u8>>, k: int)
    requires
        0 <= k < parts.len(),
    ensures
        joined(parts.take(k + 1)).len() == joined(parts.take(k)).len() + parts[k].len(),
        joined(parts.take(k + 1)).len() <= joined(parts).len(),
        joined(parts).subrange(
            joined(parts.take(k)).len() as int,
            joined(parts.take(k + 1)).len() as int,
        ) == parts[k],
        k == parts.len() - 1 ==> joined(parts).skip(joined(parts.take(k)).len() as int)
            == parts[k],
{
    let n = parts.len() as int;
    let whole = joined(parts);
    let from = joined(parts.take(k)).len() as int;
    let to = joined(parts.take(k + 1)).len() as int;
    assert(parts.take(n) =~= parts);
    lemma_joined_step(parts, k);
    lemma_joined_prefix(parts, k + 1, n);
    assert(whole.take(to) == joined(parts.take(k)) + parts[k]);
    assert(whole.subrange(from, to) =~= whole.take(to).skip(from));
    assert((joined(parts.take(k)) + parts[k]).skip(from) =~= parts[k]);
    if k == n - 1 {
        assert(whole.take(to) =~= whole);
    }
}

/// The payload that a batch is written as, read as the payload of a batch
/// reply, gives back the parts it was written from: as many, in their order,
/// each with its own bytes. The parts must not be empty, and their offsets
/// must be writable.
pub proof fn lemma_batch_round_trip(parts: Seq<Seq<u8>>)
    requires
        parts.len() >= 1,
        offsets_fit(parts),
        forall|i: int| 0 <= i < parts.len() ==> (#[trigger] parts[i]).len() > 0,
    ensures
        frames(batch_wire(parts)) == Seq::new(
            parts.len(),
            |i: int| Ok::<Seq<u8>, Error>(parts[i]),
        ),
{
    let n = parts.len() as int;
    let buf = batch_wire(parts);
    let whole = joined(parts);
    lemma_wire_layout(parts);
    assert(parts.take(0) =~= Seq::<Seq<u8>>::empty());
    assert(joined(parts.take(0)).len() == 0);
    assert forall|k: int| 0 <= k < n implies #[trigger] table_offset(buf, k) == table_end(n)
        + joined(parts.take(k)).len() by {
        lemma_wire_offset(parts, k);
    }
    assert forall|k: int| 0 <= k < n - 1 implies #[trigger] table_offset(buf, k) < table_offset(
        buf,
        k + 1,
    ) by {
        lemma_part_is_slice(parts, k);
        assert(parts[k].len() > 0);
    }
    lemma_part_is_slice(parts, n - 1);
    assert(parts[n - 1].len() > 0);
    lemma_frames_follow_offsets(buf);
    let read = frames(buf);
    let given = Seq::new(parts.len(), |i: int| Ok::<Seq<u8>, Error>(parts[i]));
    assert forall|k: int| 0 <= k < n implies read[k] == given[k] by {
        lemma_part_is_slice(parts, k);
        assert(table_offset(buf, 0) == table_end(n));
        assert(table_offset(buf, k) - table_offset(buf, 0) == joined(parts.take(k)).len());
        if k < n - 1 {
            assert(table_offset(buf, k + 1) - table_offset(buf, 0) == joined(
                parts.take(k + 1),
            ).len());
        }
    }
    assert(read =~= given);
}

/// A batch of one request or more, written and read back as the payload of
/// a batch reply, gives the bytes of each request, in the order of queuing.
pub proof fn lemma_requests_round_trip<P: Encodable, D: Encodable>(
    items: Seq<MessageRequest<P, D>>,
)
    requires
        items.len() >= 1,
        offsets_fit(wires(items)),
    ensures
        frames(batch_wire(wires(items))) == Seq::new(
            items.len(),
            |i: int| Ok::<Seq<u8>, Error>(items[i].wire()),
        ),
{
    lemma_batch_round_trip(wires(items));
    assert(Seq::new(wires(items).len(), |i: int| Ok::<Seq<u8>, Error>(wires(items)[i]))
        =~= Seq::new(items.len(), |i: int| Ok::<Seq<u8>, Error>(items[i].wire())));
}

/// A read that fails leaves nothing pending, and the read after it yields
/// nothing, as does every read after that.
pub proof fn lemma_failure_ends_reading<Item: Decodable, Next: Decodable>(pending: Seq<Frame>)
    requires
        next_outcome::<Item>(pending) matches Some(Err(_)),
    ensures
        after_next::<Item>(pending) == Seq::<Frame>::empty(),
        next_outcome::<Next>(after_next::<Item>(pending)) is None,
        after_next::<Next>(after_next::<Item>(pending)) == Seq::<Frame>::empty(),
{
}

/// A batch without requests is read as no reply at all, at every read.
pub proof fn lemma_nothing_pending<Item: Decodable>()
    ensures
        next_outcome::<Item>(Seq::<Frame>::empty()) is None,
        after_next::<Item>(Seq::<Frame>::empty()) == Seq::<Frame>::empty(),
{
}

} // verus!
