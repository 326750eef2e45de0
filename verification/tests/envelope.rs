use bytes::{Bytes, BytesMut};
use cip_messaging::error::{Error, Status};
use cip_messaging::message::{encoded, Decodable, Encodable, MessageReply, MessageRequest, ObjectPath};

fn bytes(v: &[u8]) -> Bytes {
    Bytes::copy_from_slice(v)
}

#[test]
fn reply_without_extended_status() {
    let reply = MessageReply::<Bytes>::try_from(bytes(&[0xCC, 0x00, 0x00, 0x00, 1, 2, 3])).unwrap();
    assert_eq!(reply.reply_service, 0xCC);
    assert_eq!(reply.status, Status { general: 0, extended: 0 });
    assert_eq!(&reply.data[..], &[1, 2, 3]);
}

#[test]
fn reply_ignores_reserved_byte() {
    let reply = MessageReply::<Bytes>::try_from(bytes(&[0x8E, 0x7F, 0x00, 0x00])).unwrap();
    assert_eq!(reply.reply_service, 0x8E);
    assert_eq!(reply.status, Status { general: 0, extended: 0 });
    assert!(reply.data.is_empty());
}

#[test]
fn reply_with_one_byte_of_extended_status() {
    let reply = MessageReply::<Bytes>::try_from(bytes(&[0xCC, 0, 0, 1, 0x07, 9])).unwrap();
    assert_eq!(reply.status, Status { general: 0, extended: 7 });
    assert_eq!(&reply.data[..], &[9]);
}

#[test]
fn reply_with_two_bytes_of_extended_status() {
    let reply = MessageReply::<Bytes>::try_from(bytes(&[0xCC, 0, 0, 2, 0x34, 0x12, 9, 8])).unwrap();
    assert_eq!(reply.status, Status { general: 0, extended: 0x1234 });
    assert_eq!(&reply.data[..], &[9, 8]);
}

#[test]
fn reply_shorter_than_header_is_malformed() {
    for len in 0..4usize {
        let buf = vec![0u8; len];
        assert_eq!(MessageReply::<Bytes>::try_from(Bytes::from(buf)).unwrap_err(), Error::MalformedReply);
    }
}

#[test]
fn reply_with_wide_extended_status_is_malformed() {
    let r = MessageReply::<Bytes>::try_from(bytes(&[0xCC, 0, 0, 3, 1, 2, 3, 4]));
    assert_eq!(r.unwrap_err(), Error::MalformedReply);
    let r = MessageReply::<Bytes>::try_from(bytes(&[0xCC, 0, 5, 0xFF, 1, 2, 3, 4]));
    assert_eq!(r.unwrap_err(), Error::MalformedReply);
}

#[test]
fn reply_shorter_than_its_extended_status_is_malformed() {
    let r = MessageReply::<Bytes>::try_from(bytes(&[0xCC, 0, 0, 2, 0x34]));
    assert_eq!(r.unwrap_err(), Error::MalformedReply);
    let r = MessageReply::<Bytes>::try_from(bytes(&[0xCC, 0, 0, 1]));
    assert_eq!(r.unwrap_err(), Error::MalformedReply);
}

#[test]
fn status_gates_payload() {
    let r = MessageReply::<Bytes>::try_from(bytes(&[0xCC, 0, 0x05, 1, 0x2A, 0xFF, 0xFF]));
    assert_eq!(r.unwrap_err(), Error::ProtocolStatus(Status { general: 0x05, extended: 0x002A }));
}

#[test]
fn status_without_extended_block() {
    let r = MessageReply::<Bytes>::try_from(bytes(&[0xCC, 0, 0x08, 0]));
    assert_eq!(r.unwrap_err(), Error::ProtocolStatus(Status { general: 0x08, extended: 0 }));
}

#[test]
fn status_with_two_byte_extended_block() {
    let r = MessageReply::<Bytes>::try_from(bytes(&[0xCC, 0, 0xFF, 2, 0x05, 0x21, 7]));
    assert_eq!(r.unwrap_err(), Error::ProtocolStatus(Status { general: 0xFF, extended: 0x2105 }));
}

#[test]
fn status_is_looked_at_before_the_payload() {
    let r = MessageReply::<u16>::decode(bytes(&[0xCC, 0, 0x04, 0, 1]));
    assert_eq!(r.unwrap_err(), Error::ProtocolStatus(Status { general: 0x04, extended: 0 }));
}

#[test]
fn typed_payload_is_decoded() {
    let reply = MessageReply::<u16>::decode(bytes(&[0xCC, 0, 0, 0, 0x34, 0x12, 0xEE])).unwrap();
    assert_eq!(reply.reply_service, 0xCC);
    assert_eq!(reply.data, 0x1234);
}

#[test]
fn typed_payload_too_short_is_malformed() {
    let r = MessageReply::<u16>::decode(bytes(&[0xCC, 0, 0, 0, 0x34]));
    assert_eq!(r.unwrap_err(), Error::MalformedReply);
}

#[test]
fn payload_decoders() {
    assert_eq!(<u16 as Decodable>::decode(bytes(&[0x01, 0x02])), Some(0x0201));
    assert_eq!(<u16 as Decodable>::decode(bytes(&[0x01])), None);
    let raw = <Bytes as Decodable>::decode(bytes(&[5, 6, 7])).unwrap();
    assert_eq!(&raw[..], &[5, 6, 7]);
}

#[test]
fn request_envelope_bytes() {
    let mr = MessageRequest::new(0x4C, ObjectPath { class: 0x02, instance: 0x01 }, vec![1u8, 2, 3]);
    assert!(mr.within_limits());
    assert_eq!(mr.bytes_count(), 9);
    let mut buf = BytesMut::new();
    mr.encode_by_ref(&mut buf);
    assert_eq!(&buf[..], &[0x4C, 0x02, 0x20, 0x02, 0x24, 0x01, 1, 2, 3]);
    mr.encode(&mut buf);
    assert_eq!(buf.len(), 18);
    assert_eq!(&buf[9..], &[0x4C, 0x02, 0x20, 0x02, 0x24, 0x01, 1, 2, 3]);
}

#[test]
fn request_envelope_appends_to_what_is_written() {
    let mr = MessageRequest::new(0x0E, Vec::<u8>::new(), Bytes::from_static(&[0xAA]));
    let mut buf = BytesMut::new();
    buf.extend_from_slice(&[9, 9]);
    mr.encode_by_ref(&mut buf);
    assert_eq!(&buf[..], &[9, 9, 0x0E, 0x00, 0xAA]);
    assert_eq!(mr.bytes_count(), 3);
}

#[test]
fn request_limits() {
    let odd = MessageRequest::new(0x4C, vec![0x20u8, 0x02, 0x24], Vec::<u8>::new());
    assert!(!odd.within_limits());
    let longest = MessageRequest::new(0x4C, vec![0u8; 254], vec![0u8; 65535]);
    assert!(longest.within_limits());
    assert_eq!(longest.bytes_count(), 2 + 254 + 65535);
    let long_path = MessageRequest::new(0x4C, vec![0u8; 256], Vec::<u8>::new());
    assert!(!long_path.within_limits());
    let long_data = MessageRequest::new(0x4C, Vec::<u8>::new(), vec![0u8; 65536]);
    assert!(!long_data.within_limits());
}

#[test]
fn path_length_is_written_in_words() {
    let mr = MessageRequest::new(0x01, vec![0u8; 254], Vec::<u8>::new());
    let out = encoded(&mr);
    assert_eq!(out.len(), 256);
    assert_eq!(out[0], 0x01);
    assert_eq!(out[1], 127);
}

#[test]
fn nested_request_limits() {
    let inner = MessageRequest::new(0x4C, vec![0u8; 3], Vec::<u8>::new());
    let outer = MessageRequest::new(0x52, ObjectPath { class: 6, instance: 1 }, inner);
    assert!(!outer.within_limits());
}

#[test]
fn object_path_bytes() {
    let path = ObjectPath { class: 0x06, instance: 0x01 };
    assert_eq!(path.bytes_count(), 4);
    assert_eq!(&encoded(&path)[..], &[0x20, 0x06, 0x24, 0x01]);
}

#[test]
fn leaf_payloads() {
    let v = vec![7u8, 8, 9];
    assert!(v.within_limits());
    assert_eq!(v.bytes_count(), 3);
    assert_eq!(&encoded(&v)[..], &[7, 8, 9]);
    let b = Bytes::from_static(&[1, 2]);
    assert!(b.within_limits());
    assert_eq!(b.bytes_count(), 2);
    let mut buf = BytesMut::new();
    b.encode_by_ref(&mut buf);
    v.encode(&mut buf);
    b.encode(&mut buf);
    assert_eq!(&buf[..], &[1, 2, 7, 8, 9, 1, 2]);
}
