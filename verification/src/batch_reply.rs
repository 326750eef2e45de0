//! Reading the reply to a multiple service packet, one reply at a time.
//!
//! The reply's payload begins with a count of 16 bits and as many offsets of
//! 16 bits, all little-endian. The replies follow. The length of a reply is
//! the distance from its offset to the next; the last reply takes all the
//! bytes that remain.

use crate::buffer::{
    bytes_copy_to_bytes, bytes_get_u16_le, bytes_len, bytes_new, bytes_split_to, content, le16,
};
use crate::error::Error;
use crate::message::{parse_reply, Decodable, MessageReply, ReplyValue};
use bytes::Bytes;
use vstd::prelude::*;

verus! {

/// The service code that the reply to a multiple service packet carries.
pub const REPLY_MULTIPLE_PACKET: u8 = 0x8A;

/// The bytes that the count, and each offset, takes.
pub const OFFSET_BYTES: usize = 2;

/// One step of reading a batch: the bytes of one reply, or the failure that
/// ends the reading.
pub type Frame = Result<Seq<u8>, Error>;

/// The frames still to come once the count and the first offset are read:
/// `last` is the offset read last, `table` the offsets not read yet, `body`
/// the bytes not handed out yet.
///
/// With no offset left, the one reply still due takes all of `body`; an empty
/// `body` holds no reply. Otherwise the next offset must exceed `last`, and
/// `body` must hold as many bytes as the two are apart: those bytes are the
/// next reply. A failure is the last frame.
pub open spec fn rest_frames(last: int, table: Seq<u8>, body: Seq<u8>) -> Seq<Frame>
    decreases table.len(),
{
    if table.len() < OFFSET_BYTES {
        if body.len() > 0 {
            seq![Ok(body)]
        } else {
            Seq::empty()
        }
    } else {
        let offset = le16(table[0], table[1]);
        if offset <= last || body.len() < offset - last {
            seq![Err(Error::MalformedReply)]
        } else {
            seq![Ok(body.take(offset - last))] + rest_frames(
                offset,
                table.skip(OFFSET_BYTES as int),
                body.skip(offset - last),
            )
        }
    }
}

/// The number of replies that the payload declares. Needs two bytes.
pub open spec fn declared_count(buf: Seq<u8>) -> int {
    le16(buf[0], buf[1])
}

/// The bytes that the count and the offsets take, for a given count.
pub open spec fn table_end(count: int) -> int {
    OFFSET_BYTES + OFFSET_BYTES * count
}

/// The frames that the payload of a batch reply holds. A payload too short
/// for its count, or for the offsets that the count announces, is one failure;
/// a count of zero announces no reply.
pub open spec fn frames(buf: Seq<u8>) -> Seq<Frame> {
    if buf.len() < OFFSET_BYTES {
        seq![Err(Error::MalformedReply)]
    } else if declared_count(buf) == 0 {
        Seq::empty()
    } else if buf.len() < table_end(declared_count(buf)) {
        seq![Err(Error::MalformedReply)]
    } else {
        rest_frames(
            le16(buf[2], buf[3]),
            buf.subrange(OFFSET_BYTES + OFFSET_BYTES, table_end(declared_count(buf))),
            buf.skip(table_end(declared_count(buf))),
        )
    }
}

/// What reading one reply off the pending frames gives, the payload decoded as
/// `Item`: nothing where no frame is pending, else the frame's failure, or
/// what its bytes decode to as a reply envelope.
pub open spec fn next_outcome<Item: Decodable>(pending: Seq<Frame>) -> Option<
    Result<ReplyValue<Item::Value>, Error>,
> {
    if pending.len() == 0 {
        None
    } else {
        Some(
            match pending[0] {
                Err(e) => Err(e),
                Ok(bytes) => parse_reply::<Item>(bytes),
            },
        )
    }
}

/// The frames pending after one reply was read: the rest after a reply,
/// none after a failure.
pub open spec fn after_next<Item: Decodable>(pending: Seq<Frame>) -> Seq<Frame> {
    match next_outcome::<Item>(pending) {
        Some(Ok(_)) => pending.skip(1),
        _ => Seq::empty(),
    }
}

/// A cursor over the replies of a batch. It moves forward only, and once a
/// read has failed, or the replies are through, it yields nothing more.
#[derive(Debug)]
pub struct ReplyIter {
    /// The bytes not handed out yet; `None` once the cursor is through.
    buf: Option<Bytes>,
    /// The offsets not read yet.
    offsets: Bytes,
    /// The offset read last; `None` until the count is read.
    last: Option<u16>,
}

impl View for ReplyIter {
    type V = Seq<Frame>;

    /// The frames still to come.
    closed spec fn view(&self) -> Seq<Frame> {
        match self.buf {
            None => Seq::empty(),
            Some(buf) => match self.last {
                None => frames(content(&buf)),
                Some(last) => rest_frames(last as int, content(&self.offsets), content(&buf)),
            },
        }
    }
}

impl ReplyIter {
    /// A cursor over the payload of a batch reply, or, with `None`, one that
    /// yields nothing.
    pub fn new(buf: Option<Bytes>) -> (iter: Self)
        ensures
            iter@ == match buf {
                Some(b) => frames(content(&b)),
                None => Seq::<Frame>::empty(),
            },
    {
        ReplyIter { buf, offsets: bytes_new(), last: None }
    }

    /// The cursor over the replies of a batch, given what the exchange of the
    /// batch brought: the failure of the exchange unchanged; a mismatch where
    /// the reply does not name the service of a batch; else a cursor over the
    /// reply's payload.
    pub fn from_reply(exchanged: Result<MessageReply<Bytes>, Error>) -> (r: Result<Self, Error>)
        ensures
            match exchanged {
                Err(e) => r matches Err(failure) && failure == e,
                Ok(reply) => if reply.reply_service == REPLY_MULTIPLE_PACKET {
                    r matches Ok(iter) && iter@ == frames(content(&reply.data))
                } else {
                    r matches Err(failure) && failure == (Error::UnexpectedReplyService {
                        expected: REPLY_MULTIPLE_PACKET,
                        actual: reply.reply_service,
                    })
                },
            },
    {
        let reply = match exchanged {
            Ok(reply) => reply,
            Err(e) => {
                return Err(e);
            },
        };
        if reply.reply_service != REPLY_MULTIPLE_PACKET {
            return Err(
                Error::UnexpectedReplyService {
                    expected: REPLY_MULTIPLE_PACKET,
                    actual: reply.reply_service,
                },
            );
        }
        Ok(ReplyIter::new(Some(reply.data)))
    }

    /// Reads the count and the offsets off `buf`, and the first offset off the
    /// table: the first offset, or `None` where the count is zero, or the
    /// failure of a payload that is too short.
    fn read_table(&mut self, buf: &mut Bytes) -> (first: Result<Option<u16>, Error>)
        ensures
            final(self).buf == old(self).buf,
            match first {
                Ok(Some(offset)) => frames(content(old(buf))) == rest_frames(
                    offset as int,
                    content(&final(self).offsets),
                    content(final(buf)),
                ),
                Ok(None) => frames(content(old(buf))) == Seq::<Frame>::empty(),
                Err(e) => frames(content(old(buf))) == seq![Err::<Seq<u8>, Error>(e)],
            },
    {
        let ghost whole = content(buf);
        if bytes_len(buf) < OFFSET_BYTES {
            return Err(Error::MalformedReply);
        }
        let count = bytes_get_u16_le(buf);
        if count == 0 {
            return Ok(None);
        }
        let table_bytes = OFFSET_BYTES * (count as usize);
        if bytes_len(buf) < table_bytes {
            return Err(Error::MalformedReply);
        }
        self.offsets = bytes_copy_to_bytes(buf, table_bytes);
        let first = bytes_get_u16_le(&mut self.offsets);
        proof {
            assert(content(&self.offsets) =~= whole.subrange(
                OFFSET_BYTES + OFFSET_BYTES,
                table_end(count as int),
            ));
            assert(content(buf) =~= whole.skip(table_end(count as int)));
        }
        Ok(Some(first))
    }

    /// Decodes the next reply of the batch, its payload as `Item`.
    ///
    /// `None` once the replies are through. A failure is handed out once, and
    /// nothing after it.
    pub fn next<Item: Decodable>(&mut self) -> (r: Option<Result<MessageReply<Item>, Error>>)
        ensures
            final(self)@ == after_next::<Item>(old(self)@),
            match r {
                None => next_outcome::<Item>(old(self)@) is None,
                Some(Ok(reply)) => next_outcome::<Item>(old(self)@) == Some(
                    Ok::<ReplyValue<Item::Value>, Error>(reply.value()),
                ),
                Some(Err(e)) => next_outcome::<Item>(old(self)@) == Some(
                    Err::<ReplyValue<Item::Value>, Error>(e),
                ),
            },
    {
        let mut buf = match self.buf.take() {
            Some(buf) => buf,
            None => {
                return None;
            },
        };
        let last = match self.last {
            Some(last) => last,
            None => match self.read_table(&mut buf) {
                Ok(Some(first)) => {
                    self.last = Some(first);
                    first
                },
                Ok(None) => {
                    return None;
                },
                Err(e) => {
                    return Some(Err(e));
                },
            },
        };
        if bytes_len(&self.offsets) < OFFSET_BYTES {
            if bytes_len(&buf) > 0 {
                return Some(MessageReply::<Item>::decode(buf));
            }
            return None;
        }
        let ghost table = content(&self.offsets);
        let ghost body = content(&buf);
        let offset = bytes_get_u16_le(&mut self.offsets);
        if offset <= last {
            return Some(Err(Error::MalformedReply));
        }
        let size = (offset - last) as usize;
        if bytes_len(&buf) < size {
            return Some(Err(Error::MalformedReply));
        }
        let item = bytes_split_to(&mut buf, size);
        self.last = Some(offset);
        proof {
            assert(rest_frames(last as int, table, body).skip(1) =~= rest_frames(
                offset as int,
                content(&self.offsets),
                content(&buf),
            ));
        }
        match MessageReply::<Item>::decode(item) {
            Ok(reply) => {
                self.buf = Some(buf);
                Some(Ok(reply))
            },
            Err(e) => Some(Err(e)),
        }
    }
}

} // verus!
