//! Request and reply envelopes, and what a payload must offer to travel in one.

use crate::buffer::{
    bytes_as_slice, bytes_len, bytes_mut_new, bytes_slice_from, content, freeze, le16, put_slice,
    put_u8, read_u16_le, written,
};
use crate::error::{Error, Status};
use bytes::{Bytes, BytesMut};
use vstd::prelude::*;
use vstd::slice::slice_subrange;

verus! {

/// A value that can be written to the wire.
pub trait Encodable: Sized {
    /// The bytes that stand for the value on the wire.
    spec fn wire(&self) -> Seq<u8>;

    /// Whether the value keeps the size limits of the format it is written in.
    spec fn fits(&self) -> bool;

    /// Tests the size limits.
    fn within_limits(&self) -> (ok: bool)
        ensures
            ok == self.fits(),
    ;

    /// Appends the value's bytes to `buf`, consuming the value.
    fn encode(self, buf: &mut BytesMut)
        requires
            self.fits(),
        ensures
            written(final(buf)) == written(old(buf)) + self.wire(),
    ;

    /// Appends the value's bytes to `buf`.
    fn encode_by_ref(&self, buf: &mut BytesMut)
        requires
            self.fits(),
        ensures
            written(final(buf)) == written(old(buf)) + self.wire(),
    ;

    /// The number of bytes that `encode` appends.
    fn bytes_count(&self) -> (n: usize)
        requires
            self.fits(),
        ensures
            n == self.wire().len(),
    ;
}

/// A value that can be read from the payload of a reply.
pub trait Decodable: Sized {
    /// What a value of this type stands for.
    type Value;

    /// What this value stands for.
    spec fn value(&self) -> Self::Value;

    /// What the bytes decode to, if they are well-formed.
    spec fn parse(bytes: Seq<u8>) -> Option<Self::Value>;

    /// Decodes a value from the bytes of `buf`; `None` where they are
    /// malformed.
    fn decode(buf: Bytes) -> (r: Option<Self>)
        ensures
            match r {
                Some(v) => Self::parse(content(&buf)) == Some(v.value()),
                None => Self::parse(content(&buf)) is None,
            },
    ;
}

impl Encodable for Bytes {
    open spec fn wire(&self) -> Seq<u8> {
        content(self)
    }

    open spec fn fits(&self) -> bool {
        true
    }

    fn within_limits(&self) -> (ok: bool) {
        true
    }

    fn encode(self, buf: &mut BytesMut) {
        self.encode_by_ref(buf)
    }

    fn encode_by_ref(&self, buf: &mut BytesMut) {
        put_slice(buf, bytes_as_slice(self))
    }

    fn bytes_count(&self) -> (n: usize) {
        bytes_len(self)
    }
}

impl Decodable for Bytes {
    type Value = Seq<u8>;

    open spec fn value(&self) -> Seq<u8> {
        content(self)
    }

    open spec fn parse(bytes: Seq<u8>) -> Option<Seq<u8>> {
        Some(bytes)
    }

    fn decode(buf: Bytes) -> (r: Option<Self>) {
        Some(buf)
    }
}

impl Decodable for u16 {
    type Value = u16;

    open spec fn value(&self) -> u16 {
        *self
    }

    /// The first two bytes, little-endian; what follows them is not looked
    /// at.
    open spec fn parse(bytes: Seq<u8>) -> Option<u16> {
        if bytes.len() >= 2 {
            Some(le16(bytes[0], bytes[1]) as u16)
        } else {
            None
        }
    }

    fn decode(buf: Bytes) -> (r: Option<Self>) {
        if bytes_len(&buf) < 2 {
            return None;
        }
        Some(read_u16_le(bytes_as_slice(&buf)))
    }
}

/// The bytes of a value, in a buffer of their own.
pub fn encoded<T: Encodable>(value: &T) -> (bytes: Bytes)
    requires
        value.fits(),
    ensures
        content(&bytes) == value.wire(),
{
    let mut buf = bytes_mut_new();
    value.encode_by_ref(&mut buf);
    assert(written(&buf) =~= value.wire());
    freeze(buf)
}

impl Encodable for Vec<u8> {
    open spec fn wire(&self) -> Seq<u8> {
        self@
    }

    open spec fn fits(&self) -> bool {
        true
    }

    fn within_limits(&self) -> (ok: bool) {
        true
    }

    fn encode(self, buf: &mut BytesMut) {
        self.encode_by_ref(buf)
    }

    fn encode_by_ref(&self, buf: &mut BytesMut) {
        put_slice(buf, self.as_slice())
    }

    fn bytes_count(&self) -> (n: usize) {
        self.len()
    }
}

/// The path to one instance of one class of object, each addressed by an
/// 8-bit logical segment.
#[derive(Clone, Copy, Debug, PartialEq, Eq, Structural)]
pub struct ObjectPath {
    pub class: u8,
    pub instance: u8,
}

/// The segment type of an 8-bit class id.
pub const SEGMENT_CLASS: u8 = 0x20;

/// The segment type of an 8-bit instance id.
pub const SEGMENT_INSTANCE: u8 = 0x24;

impl Encodable for ObjectPath {
    open spec fn wire(&self) -> Seq<u8> {
        seq![SEGMENT_CLASS, self.class, SEGMENT_INSTANCE, self.instance]
    }

    open spec fn fits(&self) -> bool {
        true
    }

    fn within_limits(&self) -> (ok: bool) {
        true
    }

    fn encode(self, buf: &mut BytesMut) {
        self.encode_by_ref(buf)
    }

    fn encode_by_ref(&self, buf: &mut BytesMut) {
        put_u8(buf, SEGMENT_CLASS);
        put_u8(buf, self.class);
        put_u8(buf, SEGMENT_INSTANCE);
        put_u8(buf, self.instance);
        assert(written(buf) =~= written(old(buf)) + self.wire());
    }

    fn bytes_count(&self) -> (n: usize) {
        4
    }
}

/// The longest routing path that an envelope can carry, in bytes.
pub const MAX_PATH_BYTES: usize = 255;

/// The longest payload, or embedded request, that an envelope can carry.
pub const MAX_DATA_BYTES: usize = 65535;

/// An outbound request: a service code, the path to the object that is to
/// perform it, and the service's payload.
#[derive(Debug)]
pub struct MessageRequest<P, D> {
    pub service_code: u8,
    pub path: P,
    pub data: D,
}

impl<P, D> MessageRequest<P, D> {
    pub fn new(service_code: u8, path: P, data: D) -> (mr: Self)
        ensures
            mr.service_code == service_code,
            mr.path == path,
            mr.data == data,
    {
        MessageRequest { service_code, path, data }
    }
}

/// The bytes of a request envelope: the service code, the length of the path
/// in 16-bit words, the path, the payload.
pub open spec fn request_wire(service_code: u8, path: Seq<u8>, data: Seq<u8>) -> Seq<u8> {
    seq![service_code, (path.len() / 2) as u8] + path + data
}

/// The limits that a request envelope puts on its parts: a path of an even
/// number of bytes, 255 at most, and a payload of 65535 bytes at most.
pub open spec fn request_fits(path: Seq<u8>, data: Seq<u8>) -> bool {
    &&& path.len() % 2 == 0
    &&& path.len() <= MAX_PATH_BYTES
    &&& data.len() <= MAX_DATA_BYTES
}

impl<P: Encodable, D: Encodable> Encodable for MessageRequest<P, D> {
    open spec fn wire(&self) -> Seq<u8> {
        request_wire(self.service_code, self.path.wire(), self.data.wire())
    }

    open spec fn fits(&self) -> bool {
        &&& self.path.fits()
        &&& self.data.fits()
        &&& request_fits(self.path.wire(), self.data.wire())
    }

    fn within_limits(&self) -> (ok: bool) {
        if !self.path.within_limits() || !self.data.within_limits() {
            return false;
        }
        let path_len = self.path.bytes_count();
        path_len % 2 == 0 && path_len <= MAX_PATH_BYTES && self.data.bytes_count() <= MAX_DATA_BYTES
    }

    fn encode(self, buf: &mut BytesMut) {
        let path_len = self.path.bytes_count();
        put_u8(buf, self.service_code);
        put_u8(buf, (path_len / 2) as u8);
        self.path.encode(buf);
        self.data.encode(buf);
        assert(written(buf) =~= written(old(buf)) + self.wire());
    }

    fn encode_by_ref(&self, buf: &mut BytesMut) {
        let path_len = self.path.bytes_count();
        put_u8(buf, self.service_code);
        put_u8(buf, (path_len / 2) as u8);
        self.path.encode_by_ref(buf);
        self.data.encode_by_ref(buf);
        assert(written(buf) =~= written(old(buf)) + self.wire());
    }

    fn bytes_count(&self) -> (n: usize) {
        2 + self.path.bytes_count() + self.data.bytes_count()
    }
}

/// An inbound reply: the service that answered, its status, and the payload.
#[derive(Debug)]
pub struct MessageReply<D> {
    pub reply_service: u8,
    pub status: Status,
    pub data: D,
}

/// What a reply stands for: its payload taken by what it decodes to.
pub struct ReplyValue<V> {
    pub reply_service: u8,
    pub status: Status,
    pub data: V,
}

/// The bytes of a reply envelope before its payload: the service, a reserved
/// byte, the general status, and the size of the extended status.
pub const REPLY_HEADER_BYTES: usize = 4;

/// Whether the bytes fall short of a reply envelope: fewer than four, an
/// extended status declared with a size other than 0, 1 or 2, or fewer bytes
/// than the header and the declared extended status take.
pub open spec fn reply_malformed(buf: Seq<u8>) -> bool {
    ||| buf.len() < REPLY_HEADER_BYTES
    ||| buf[3] > 2
    ||| buf.len() < REPLY_HEADER_BYTES + buf[3]
}

/// The status that a well-formed reply envelope carries. The extended status
/// is little-endian, as wide as the fourth byte says, and zero where that byte
/// is zero.
pub open spec fn reply_status(buf: Seq<u8>) -> Status {
    Status {
        general: buf[2],
        extended: if buf[3] == 0 {
            0u16
        } else if buf[3] == 1 {
            buf[4] as u16
        } else {
            le16(buf[4], buf[5]) as u16
        },
    }
}

/// The payload of a well-formed reply envelope: all that follows the extended
/// status.
pub open spec fn reply_payload(buf: Seq<u8>) -> Seq<u8> {
    buf.skip(REPLY_HEADER_BYTES + buf[3])
}

/// What the bytes of a reply envelope decode to, with a payload of type `D`.
/// A status other than zero is an error that carries the status alone, and
/// the payload is then not looked at.
pub open spec fn parse_reply<D: Decodable>(buf: Seq<u8>) -> Result<ReplyValue<D::Value>, Error> {
    if reply_malformed(buf) {
        Err(Error::MalformedReply)
    } else if buf[2] != 0 {
        Err(Error::ProtocolStatus(reply_status(buf)))
    } else {
        match D::parse(reply_payload(buf)) {
            Some(data) => Ok(
                ReplyValue { reply_service: buf[0], status: reply_status(buf), data },
            ),
            None => Err(Error::MalformedReply),
        }
    }
}

impl<D: Decodable> MessageReply<D> {
    /// What the reply stands for.
    pub open spec fn value(&self) -> ReplyValue<D::Value> {
        ReplyValue {
            reply_service: self.reply_service,
            status: self.status,
            data: self.data.value(),
        }
    }

    pub fn new(reply_service: u8, status: Status, data: D) -> (reply: Self)
        ensures
            reply.reply_service == reply_service,
            reply.status == status,
            reply.data == data,
    {
        MessageReply { reply_service, status, data }
    }

    /// Decodes a reply envelope and its payload.
    pub fn decode(buf: Bytes) -> (r: Result<Self, Error>)
        ensures
            match r {
                Ok(reply) => parse_reply::<D>(content(&buf)) == Ok::<ReplyValue<D::Value>, Error>(
                    reply.value(),
                ),
                Err(e) => parse_reply::<D>(content(&buf)) == Err::<ReplyValue<D::Value>, Error>(e),
            },
    {
        let bytes = bytes_as_slice(&buf);
        let len = bytes.len();
        if len < REPLY_HEADER_BYTES {
            return Err(Error::MalformedReply);
        }
        let reply_service = bytes[0];
        let general_status = bytes[2];
        let extended_status_size = bytes[3];
        if len < REPLY_HEADER_BYTES + extended_status_size as usize {
            return Err(Error::MalformedReply);
        }
        let extended_status: u16 = match extended_status_size {
            0 => 0,
            1 => bytes[4] as u16,
            2 => read_u16_le(slice_subrange(bytes, 4, 6)),
            _ => {
                return Err(Error::MalformedReply);
            },
        };
        let status = Status { general: general_status, extended: extended_status };
        if general_status != 0 {
            return Err(Error::ProtocolStatus(status));
        }
        let payload = bytes_slice_from(&buf, REPLY_HEADER_BYTES + extended_status_size as usize);
        match D::decode(payload) {
            Some(data) => Ok(MessageReply { reply_service, status, data }),
            None => Err(Error::MalformedReply),
        }
    }
}

/// A reply whose general status is not zero decodes to a failure that
/// carries the status and nothing of the payload, whatever the payload would
/// decode as. Where the extended status is one byte wide, the failure
/// carries that byte.
pub proof fn lemma_status_gates_payload<D: Decodable>(buf: Seq<u8>)
    requires
        !reply_malformed(buf),
        buf[2] != 0,
    ensures
        parse_reply::<D>(buf) == Err::<ReplyValue<D::Value>, Error>(
            Error::ProtocolStatus(reply_status(buf)),
        ),
        reply_status(buf).general == buf[2],
        buf[3] == 1 ==> reply_status(buf).extended == buf[4],
{
}

impl MessageReply<Bytes> {
    /// Decodes a reply envelope, leaving the payload as the bytes it is.
    pub fn try_from(buf: Bytes) -> (r: Result<Self, Error>)
        ensures
            match r {
                Ok(reply) => parse_reply::<Bytes>(content(&buf)) == Ok::<ReplyValue<Seq<u8>>, Error>(
                    reply.value(),
                ),
                Err(e) => parse_reply::<Bytes>(content(&buf)) == Err::<ReplyValue<Seq<u8>>, Error>(
                    e,
                ),
            },
    {
        MessageReply::<Bytes>::decode(buf)
    }
}

} // verus!
