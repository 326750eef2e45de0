//! Replies to sends, read out of a common packet.

use crate::buffer::{bytes_as_slice, bytes_len, bytes_slice_from, content, read_u16_le};
use crate::common_packet::{
    send_reply_data, CommonPacket, CommonPacketItem, TYPE_CONNECTED_ADDRESS, TYPE_CONNECTED_DATA,
    TYPE_NULL_ADDRESS, TYPE_UNCONNECTED_DATA,
};
use crate::error::{Error, FrameShape};
use crate::message::{parse_reply, MessageReply, ReplyValue};
use bytes::Bytes;
use vstd::prelude::*;

verus! {

/// The bytes of the sequence count that leads the data of a connected reply.
pub const SEQUENCE_COUNT_BYTES: usize = 2;

/// The reply to a connected send.
#[derive(Debug)]
pub struct ConnectedSendReply<D>(pub MessageReply<D>);

/// The reply to an unconnected send.
#[derive(Debug)]
pub struct UnconnectedSendReply<D>(pub MessageReply<D>);

/// One attribute of a reply that lists attributes.
#[derive(Debug)]
pub struct AttributeReply {
    pub id: u16,
    pub status: u16,
    pub data: Bytes,
}

/// What a common packet holds as the reply to an unconnected send: a null
/// address item, then an unconnected data item whose bytes are a reply
/// envelope.
pub open spec fn unconnected_reply_of(items: Seq<CommonPacketItem>) -> Result<
    ReplyValue<Seq<u8>>,
    Error,
> {
    match send_reply_data(items, TYPE_NULL_ADDRESS, TYPE_UNCONNECTED_DATA) {
        Err(e) => Err(e),
        Ok(item) => parse_reply::<Bytes>(content(&item.data)),
    }
}

/// What a common packet holds as the reply to a connected send: a connected
/// address item, then a connected data item whose bytes are a sequence count
/// of 16 bits, which goes unread, and a reply envelope.
pub open spec fn connected_reply_of(items: Seq<CommonPacketItem>) -> Result<
    ReplyValue<Seq<u8>>,
    Error,
> {
    match send_reply_data(items, TYPE_CONNECTED_ADDRESS, TYPE_CONNECTED_DATA) {
        Err(e) => Err(e),
        Ok(item) => if content(&item.data).len() < SEQUENCE_COUNT_BYTES {
            Err(Error::MalformedReply)
        } else {
            parse_reply::<Bytes>(content(&item.data).skip(SEQUENCE_COUNT_BYTES as int))
        },
    }
}

/// A common packet that does not hold exactly two items, or whose first item
/// does not carry the address code that is due, is read as neither reply: the
/// failure names the shape, and no envelope is decoded.
pub proof fn lemma_wrong_shape_is_refused(items: Seq<CommonPacketItem>)
    ensures
        items.len() != 2 ==> {
            &&& unconnected_reply_of(items) matches Err(Error::UnexpectedFrameShape(
                FrameShape::ItemCount { .. },
            ))
            &&& connected_reply_of(items) matches Err(Error::UnexpectedFrameShape(
                FrameShape::ItemCount { .. },
            ))
        },
        items.len() == 2 && items[0].type_code != TYPE_NULL_ADDRESS ==> unconnected_reply_of(items)
            == Err::<ReplyValue<Seq<u8>>, Error>(
            Error::UnexpectedFrameShape(
                FrameShape::TypeCode { expected: TYPE_NULL_ADDRESS, actual: items[0].type_code },
            ),
        ),
        items.len() == 2 && items[0].type_code != TYPE_CONNECTED_ADDRESS ==> connected_reply_of(
            items,
        ) == Err::<ReplyValue<Seq<u8>>, Error>(
            Error::UnexpectedFrameShape(
                FrameShape::TypeCode {
                    expected: TYPE_CONNECTED_ADDRESS,
                    actual: items[0].type_code,
                },
            ),
        ),
{
}

impl ConnectedSendReply<Bytes> {
    /// Reads the reply to a connected send out of a common packet.
    pub fn try_from(cpf: CommonPacket) -> (r: Result<Self, Error>)
        ensures
            match r {
                Ok(reply) => connected_reply_of(cpf@) == Ok::<ReplyValue<Seq<u8>>, Error>(
                    reply.0.value(),
                ),
                Err(e) => connected_reply_of(cpf@) == Err::<ReplyValue<Seq<u8>>, Error>(e),
            },
    {
        let data_item = match cpf.into_send_reply_data(TYPE_CONNECTED_ADDRESS, TYPE_CONNECTED_DATA) {
            Ok(item) => item,
            Err(e) => {
                return Err(e);
            },
        };
        if bytes_len(&data_item.data) < SEQUENCE_COUNT_BYTES {
            return Err(Error::MalformedReply);
        }
        let _sequence_count = read_u16_le(bytes_as_slice(&data_item.data));
        match MessageReply::<Bytes>::try_from(bytes_slice_from(&data_item.data, SEQUENCE_COUNT_BYTES)) {
            Ok(reply) => Ok(ConnectedSendReply(reply)),
            Err(e) => Err(e),
        }
    }
}

impl UnconnectedSendReply<Bytes> {
    /// Reads the reply to an unconnected send out of a common packet.
    pub fn try_from(cpf: CommonPacket) -> (r: Result<Self, Error>)
        ensures
            match r {
                Ok(reply) => unconnected_reply_of(cpf@) == Ok::<ReplyValue<Seq<u8>>, Error>(
                    reply.0.value(),
                ),
                Err(e) => unconnected_reply_of(cpf@) == Err::<ReplyValue<Seq<u8>>, Error>(e),
            },
    {
        let data_item = match cpf.into_send_reply_data(TYPE_NULL_ADDRESS, TYPE_UNCONNECTED_DATA) {
            Ok(item) => item,
            Err(e) => {
                return Err(e);
            },
        };
        match MessageReply::<Bytes>::try_from(data_item.data) {
            Ok(reply) => Ok(UnconnectedSendReply(reply)),
            Err(e) => Err(e),
        }
    }
}

} // verus!
