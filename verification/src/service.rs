//! The sends of a session, and the session's life cycle.
//!
//! The transport is not part of this library. A send is therefore two steps
//! here: one that builds what the transport is to carry, and one that reads
//! what the transport brought back.

use crate::buffer::{high_byte, low_byte, put_u16_le, put_u8, written};
use crate::common_packet::CommonPacket;
use crate::error::Error;
use crate::message::{
    Encodable, MessageReply, MessageRequest, ObjectPath, ReplyValue, MAX_DATA_BYTES,
    MAX_PATH_BYTES,
};
use crate::reply::{
    connected_reply_of, unconnected_reply_of, ConnectedSendReply, UnconnectedSendReply,
};
use bytes::{Bytes, BytesMut};
use vstd::prelude::*;

verus! {

/// The service code of an unconnected send.
pub const SERVICE_UNCONNECTED_SEND: u8 = 0x52;

/// The service code that opens a connection.
pub const SERVICE_FORWARD_OPEN: u8 = 0x54;

/// The service code that closes a connection.
pub const SERVICE_FORWARD_CLOSE: u8 = 0x4E;

/// The class of the connection manager, which performs these services.
pub const CLASS_CONNECTION_MANAGER: u8 = 0x06;

/// The bit that marks a service code as that of a reply.
pub const REPLY_BIT: u8 = 0x80;

/// The path to the connection manager.
pub open spec fn connection_manager() -> ObjectPath {
    ObjectPath { class: CLASS_CONNECTION_MANAGER, instance: 1 }
}

/// The service code that the reply to a request of `service_code` carries.
pub open spec fn reply_service_of(service_code: u8) -> u8 {
    service_code | REPLY_BIT
}

/// A request on its way through an unconnected send: how long and how often
/// to try, the route to the target, and the request itself.
#[derive(Debug)]
pub struct UnconnectedSend<P, D> {
    pub priority_ticks: u8,
    pub timeout_ticks: u8,
    /// The route to the target.
    pub path: P,
    /// The request to deliver.
    pub data: D,
}

/// The payload of an unconnected send: the two tick bytes, the length of the
/// embedded request in 16 bits, the request, one zero byte if its length is
/// odd, the length of the route in 16-bit words, one reserved byte, the route.
pub open spec fn unconnected_send_wire(
    priority_ticks: u8,
    timeout_ticks: u8,
    request: Seq<u8>,
    route: Seq<u8>,
) -> Seq<u8> {
    seq![
        priority_ticks,
        timeout_ticks,
        low_byte(request.len() as u16),
        high_byte(request.len() as u16),
    ] + request + (if request.len() % 2 == 1 {
        seq![0u8]
    } else {
        Seq::empty()
    }) + seq![(route.len() / 2) as u8, 0u8] + route
}

/// The limits of an unconnected send: an embedded request of 65535 bytes at
/// most, and a route of an even number of bytes, 255 at most.
pub open spec fn unconnected_send_fits(request: Seq<u8>, route: Seq<u8>) -> bool {
    &&& request.len() <= MAX_DATA_BYTES
    &&& route.len() % 2 == 0
    &&& route.len() <= MAX_PATH_BYTES
}

impl<P, D> UnconnectedSend<P, D> {
    pub fn new(priority_ticks: u8, timeout_ticks: u8, path: P, data: D) -> (send: Self)
        ensures
            send.priority_ticks == priority_ticks,
            send.timeout_ticks == timeout_ticks,
            send.path == path,
            send.data == data,
    {
        UnconnectedSend { priority_ticks, timeout_ticks, path, data }
    }
}

impl<P: Encodable, D: Encodable> Encodable for UnconnectedSend<P, D> {
    open spec fn wire(&self) -> Seq<u8> {
        unconnected_send_wire(
            self.priority_ticks,
            self.timeout_ticks,
            self.data.wire(),
            self.path.wire(),
        )
    }

    open spec fn fits(&self) -> bool {
        &&& self.data.fits()
        &&& self.path.fits()
        &&& unconnected_send_fits(self.data.wire(), self.path.wire())
    }

    fn within_limits(&self) -> (ok: bool) {
        if !self.data.within_limits() || !self.path.within_limits() {
            return false;
        }
        let path_len = self.path.bytes_count();
        self.data.bytes_count() <= MAX_DATA_BYTES && path_len % 2 == 0 && path_len
            <= MAX_PATH_BYTES
    }

    fn encode(self, buf: &mut BytesMut) {
        self.encode_by_ref(buf)
    }

    fn encode_by_ref(&self, buf: &mut BytesMut) {
        let mr_data_len = self.data.bytes_count();
        let path_len = self.path.bytes_count();
        put_u8(buf, self.priority_ticks);
        put_u8(buf, self.timeout_ticks);
        put_u16_le(buf, mr_data_len as u16);
        self.data.encode_by_ref(buf);
        if mr_data_len % 2 == 1 {
            put_u8(buf, 0);
        }
        put_u8(buf, (path_len / 2) as u8);
        put_u8(buf, 0);
        self.path.encode_by_ref(buf);
        assert(written(buf) =~= written(old(buf)) + self.wire());
    }

    fn bytes_count(&self) -> (n: usize) {
        let mr_data_len = self.data.bytes_count();
        let path_len = self.path.bytes_count();
        4 + mr_data_len + mr_data_len % 2 + 2 + path_len
    }
}

/// The request that carries an unconnected send to the connection manager.
pub fn unconnected_send<CP, P, D>(request: UnconnectedSend<CP, MessageRequest<P, D>>) -> (outer:
    MessageRequest<ObjectPath, UnconnectedSend<CP, MessageRequest<P, D>>>)
    ensures
        outer.service_code == SERVICE_UNCONNECTED_SEND,
        outer.path == connection_manager(),
        outer.data == request,
{
    MessageRequest {
        service_code: SERVICE_UNCONNECTED_SEND,
        path: ObjectPath { class: CLASS_CONNECTION_MANAGER, instance: 1 },
        data: request,
    }
}

/// What a connected send hands to the transport: the connection, the number
/// of the request in its sequence, and the request.
#[derive(Debug)]
pub struct ConnectedSend<P, D> {
    pub connection_id: u32,
    pub sequence_number: u16,
    pub request: MessageRequest<P, D>,
}

/// A request on its way over a connection.
pub fn connected_send<P, D>(
    connection_id: u32,
    sequence_number: u16,
    request: MessageRequest<P, D>,
) -> (send: ConnectedSend<P, D>)
    ensures
        send.connection_id == connection_id,
        send.sequence_number == sequence_number,
        send.request == request,
{
    ConnectedSend { connection_id, sequence_number, request }
}

/// The request that asks the connection manager to open a connection.
pub fn forward_open<P>(request: P) -> (outer: MessageRequest<ObjectPath, P>)
    ensures
        outer.service_code == SERVICE_FORWARD_OPEN,
        outer.path == connection_manager(),
        outer.data == request,
{
    MessageRequest {
        service_code: SERVICE_FORWARD_OPEN,
        path: ObjectPath { class: CLASS_CONNECTION_MANAGER, instance: 1 },
        data: request,
    }
}

/// The request that asks the connection manager to close a connection.
pub fn forward_close<P>(request: P) -> (outer: MessageRequest<ObjectPath, P>)
    ensures
        outer.service_code == SERVICE_FORWARD_CLOSE,
        outer.path == connection_manager(),
        outer.data == request,
{
    MessageRequest {
        service_code: SERVICE_FORWARD_CLOSE,
        path: ObjectPath { class: CLASS_CONNECTION_MANAGER, instance: 1 },
        data: request,
    }
}

/// What holding a reply against the request's service code gives: the reply,
/// where it names the service of the request with the reply bit set; else the
/// mismatch, with the code that was due and the code that came.
pub open spec fn echo_checked<V>(service_code: u8, reply: ReplyValue<V>) -> Result<
    ReplyValue<V>,
    Error,
> {
    if reply.reply_service == reply_service_of(service_code) {
        Ok(reply)
    } else {
        Err(
            Error::UnexpectedReplyService {
                expected: reply_service_of(service_code),
                actual: reply.reply_service,
            },
        )
    }
}

/// Accepts a reply only if it answers the service `service_code`.
pub fn check_reply_service(service_code: u8, reply: MessageReply<Bytes>) -> (r: Result<
    MessageReply<Bytes>,
    Error,
>)
    ensures
        match r {
            Ok(accepted) => accepted == reply && echo_checked(service_code, reply.value()) is Ok,
            Err(e) => echo_checked(service_code, reply.value()) == Err::<
                ReplyValue<Seq<u8>>,
                Error,
            >(e),
        },
{
    let expected = service_code | REPLY_BIT;
    if reply.reply_service != expected {
        return Err(Error::UnexpectedReplyService { expected, actual: reply.reply_service });
    }
    Ok(reply)
}

/// What an unconnected send of `service_code` comes to, given what the
/// exchange brought: the transport's failure unchanged; else the failure of
/// reading the common packet; else the reply, held against the service code.
pub open spec fn unconnected_send_outcome(
    service_code: u8,
    exchanged: Result<CommonPacket, Error>,
) -> Result<ReplyValue<Seq<u8>>, Error> {
    match exchanged {
        Err(e) => Err(e),
        Ok(cpf) => match unconnected_reply_of(cpf@) {
            Err(e) => Err(e),
            Ok(reply) => echo_checked(service_code, reply),
        },
    }
}

/// What a connected send of `service_code` comes to, given what the exchange
/// brought.
pub open spec fn connected_send_outcome(
    service_code: u8,
    exchanged: Result<CommonPacket, Error>,
) -> Result<ReplyValue<Seq<u8>>, Error> {
    match exchanged {
        Err(e) => Err(e),
        Ok(cpf) => match connected_reply_of(cpf@) {
            Err(e) => Err(e),
            Ok(reply) => echo_checked(service_code, reply),
        },
    }
}

/// Reads what the exchange of an unconnected send brought back.
pub fn unconnected_send_reply(service_code: u8, exchanged: Result<CommonPacket, Error>) -> (r:
    Result<MessageReply<Bytes>, Error>)
    ensures
        match r {
            Ok(reply) => unconnected_send_outcome(service_code, exchanged) == Ok::<
                ReplyValue<Seq<u8>>,
                Error,
            >(reply.value()),
            Err(e) => unconnected_send_outcome(service_code, exchanged) == Err::<
                ReplyValue<Seq<u8>>,
                Error,
            >(e),
        },
{
    let cpf = match exchanged {
        Ok(cpf) => cpf,
        Err(e) => {
            return Err(e);
        },
    };
    match UnconnectedSendReply::<Bytes>::try_from(cpf) {
        Ok(res) => check_reply_service(service_code, res.0),
        Err(e) => Err(e),
    }
}

/// Reads what the exchange of a connected send brought back.
pub fn connected_send_reply(service_code: u8, exchanged: Result<CommonPacket, Error>) -> (r:
    Result<MessageReply<Bytes>, Error>)
    ensures
        match r {
            Ok(reply) => connected_send_outcome(service_code, exchanged) == Ok::<
                ReplyValue<Seq<u8>>,
                Error,
            >(reply.value()),
            Err(e) => connected_send_outcome(service_code, exchanged) == Err::<
                ReplyValue<Seq<u8>>,
                Error,
            >(e),
        },
{
    let cpf = match exchanged {
        Ok(cpf) => cpf,
        Err(e) => {
            return Err(e);
        },
    };
    match ConnectedSendReply::<Bytes>::try_from(cpf) {
        Ok(res) => check_reply_service(service_code, res.0),
        Err(e) => Err(e),
    }
}

} // verus!
