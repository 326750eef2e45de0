use bytes::{Bytes, BytesMut};
use cip_messaging::batch::{BatchCall, MultipleServicePacket};
use cip_messaging::batch_reply::ReplyIter;
use cip_messaging::error::{Error, Status};
use cip_messaging::message::{encoded, Encodable, MessageReply, MessageRequest, ObjectPath};

type Request = MessageRequest<Vec<u8>, Vec<u8>>;

fn request(service_code: u8, path: &[u8], data: &[u8]) -> Request {
    MessageRequest::new(service_code, path.to_vec(), data.to_vec())
}

fn sent(batch: MultipleServicePacket<Vec<u8>, Vec<u8>>) -> MessageRequest<
    ObjectPath,
    cip_messaging::batch::MultipleServicesEncoder<Vec<u8>, Vec<u8>>,
> {
    match batch.call() {
        BatchCall::Send(request) => request,
        BatchCall::Empty(_) => panic!("the batch holds requests"),
    }
}

fn iter_over(data: &[u8]) -> ReplyIter {
    ReplyIter::new(Some(Bytes::copy_from_slice(data)))
}

#[test]
fn empty_batch_sends_nothing() {
    let batch = MultipleServicePacket::<Vec<u8>, Vec<u8>>::new();
    match batch.call() {
        BatchCall::Empty(mut iter) => {
            assert!(iter.next::<Bytes>().is_none());
            assert!(iter.next::<Bytes>().is_none());
        }
        BatchCall::Send(_) => panic!("nothing was queued"),
    }
}

#[test]
fn batch_without_buffer_yields_nothing() {
    let mut iter = ReplyIter::new(None);
    assert!(iter.next::<u16>().is_none());
    assert!(iter.next::<Bytes>().is_none());
}

#[test]
fn batch_is_addressed_to_the_message_router() {
    let batch = MultipleServicePacket::new().push(request(0x4C, &[0x91, 0x00], &[1, 0]));
    let outer = sent(batch);
    assert_eq!(outer.service_code, 0x0A);
    assert_eq!(outer.path, ObjectPath { class: 2, instance: 1 });
}

#[test]
fn batch_payload_bytes() {
    let batch = MultipleServicePacket::new()
        .push(request(0x4C, &[0x91, 0x00], &[1, 0]))
        .push(request(0x4D, &[], &[7, 8, 9]))
        .push(request(0x0E, &[0x20, 0x01, 0x24, 0x01], &[]));
    let outer = sent(batch);
    assert!(outer.data.within_limits());
    assert_eq!(outer.data.bytes_count(), 2 + 6 + 6 + 5 + 6);
    let mut buf = BytesMut::new();
    outer.data.encode_by_ref(&mut buf);
    let expected: Vec<u8> = vec![
        3, 0, // count
        8, 0, 14, 0, 19, 0, // offsets
        0x4C, 1, 0x91, 0x00, 1, 0, // first
        0x4D, 0, 7, 8, 9, // second
        0x0E, 2, 0x20, 0x01, 0x24, 0x01, // third
    ];
    assert_eq!(&buf[..], &expected[..]);
    assert_eq!(outer.bytes_count(), 6 + expected.len());
    let whole = encoded(&outer);
    assert_eq!(&whole[..6], &[0x0A, 0x02, 0x20, 0x02, 0x24, 0x01]);
    assert_eq!(&whole[6..], &expected[..]);
    let mut by_value = BytesMut::new();
    outer.data.encode(&mut by_value);
    assert_eq!(&by_value[..], &expected[..]);
}

#[test]
fn batch_of_one() {
    let batch = MultipleServicePacket::new().push(request(0x01, &[], &[]));
    let outer = sent(batch);
    assert_eq!(outer.data.bytes_count(), 6);
    assert_eq!(&encoded(&outer.data)[..], &[1, 0, 4, 0, 0x01, 0]);
}

#[test]
fn push_all_keeps_order() {
    let batch = MultipleServicePacket::new()
        .push(request(1, &[], &[]))
        .push_all(vec![request(2, &[], &[0xAA]), request(3, &[], &[])])
        .push(request(4, &[], &[]));
    let outer = sent(batch);
    assert_eq!(
        &encoded(&outer.data)[..],
        &[4, 0, 10, 0, 12, 0, 15, 0, 17, 0, 1, 0, 2, 0, 0xAA, 3, 0, 4, 0]
    );
}

#[test]
fn offsets_wider_than_sixteen_bits_do_not_fit() {
    let big = MultipleServicePacket::new()
        .push(request(1, &[], &vec![0u8; 65535]))
        .push(request(2, &[], &[]));
    assert!(!sent(big).data.within_limits());
    let edge = MultipleServicePacket::new()
        .push(request(1, &[], &vec![0u8; 65535 - 6 - 2]))
        .push(request(2, &[], &[]));
    let outer = sent(edge);
    assert!(outer.data.within_limits());
    let out = encoded(&outer.data);
    assert_eq!(&out[..6], &[2, 0, 6, 0, 0xFF, 0xFF]);
    assert_eq!(out.len(), 65535 + 2);
    let over = MultipleServicePacket::new()
        .push(request(1, &[], &vec![0u8; 65535 - 6 - 1]))
        .push(request(2, &[], &[]));
    assert!(!sent(over).data.within_limits());
}

#[test]
fn a_request_over_its_limits_spoils_the_batch() {
    let batch = MultipleServicePacket::new()
        .push(request(1, &[], &[]))
        .push(request(2, &[0x20], &[]));
    assert!(!sent(batch).data.within_limits());
}

#[test]
fn too_many_requests_do_not_fit() {
    let mut items = Vec::new();
    for _ in 0..32767 {
        items.push(request(1, &[], &[]));
    }
    let batch = MultipleServicePacket::new().push_all(items);
    assert!(!sent(batch).data.within_limits());
}

#[test]
fn round_trip() {
    // A request whose path is two zero bytes reads as a reply envelope:
    // service, a reserved byte, status 0, no extended status, payload.
    let payloads: Vec<Vec<u8>> = vec![vec![1, 2, 3], vec![], vec![9; 40], vec![0xFF]];
    let mut batch = MultipleServicePacket::new();
    for (i, p) in payloads.iter().enumerate() {
        batch = batch.push(request(0x80 + i as u8, &[0, 0], p));
    }
    let outer = sent(batch);
    assert!(outer.data.within_limits());
    let wire = encoded(&outer.data);
    let mut iter = ReplyIter::new(Some(wire));
    for (i, p) in payloads.iter().enumerate() {
        let reply = iter.next::<Bytes>().unwrap().unwrap();
        assert_eq!(reply.reply_service, 0x80 + i as u8);
        assert_eq!(reply.status, Status { general: 0, extended: 0 });
        assert_eq!(&reply.data[..], &p[..]);
    }
    assert!(iter.next::<Bytes>().is_none());
    assert!(iter.next::<Bytes>().is_none());
}

#[test]
fn count_of_zero_is_an_empty_stream() {
    let mut iter = iter_over(&[0, 0, 0xCC, 0, 0, 0]);
    assert!(iter.next::<Bytes>().is_none());
    assert!(iter.next::<Bytes>().is_none());
}

#[test]
fn payload_without_count_fails_once() {
    for data in [&[][..], &[1][..]] {
        let mut iter = iter_over(data);
        assert_eq!(iter.next::<Bytes>().unwrap().unwrap_err(), Error::MalformedReply);
        assert!(iter.next::<Bytes>().is_none());
        assert!(iter.next::<Bytes>().is_none());
    }
}

#[test]
fn offsets_cut_short_fail_once() {
    let mut iter = iter_over(&[2, 0, 6, 0, 10]);
    assert_eq!(iter.next::<Bytes>().unwrap().unwrap_err(), Error::MalformedReply);
    assert!(iter.next::<Bytes>().is_none());
    let mut iter = iter_over(&[0xFF, 0xFF, 0, 0, 0, 0]);
    assert_eq!(iter.next::<Bytes>().unwrap().unwrap_err(), Error::MalformedReply);
    assert!(iter.next::<Bytes>().is_none());
}

#[test]
fn items_follow_offset_differences() {
    let mut iter = iter_over(&[
        3, 0, 8, 0, 12, 0, 17, 0, // table
        0xCC, 0, 0, 0, // 4 bytes
        0xCD, 0, 0, 0, 0x55, // 5 bytes
        0xCE, 0, 0, 1, 0x03, 1, 2, 3, // the rest
    ]);
    let first = iter.next::<Bytes>().unwrap().unwrap();
    assert_eq!(first.reply_service, 0xCC);
    assert!(first.data.is_empty());
    let second = iter.next::<Bytes>().unwrap().unwrap();
    assert_eq!(second.reply_service, 0xCD);
    assert_eq!(&second.data[..], &[0x55]);
    let third = iter.next::<Bytes>().unwrap().unwrap();
    assert_eq!(third.reply_service, 0xCE);
    assert_eq!(third.status, Status { general: 0, extended: 3 });
    assert_eq!(&third.data[..], &[1, 2, 3]);
    assert!(iter.next::<Bytes>().is_none());
}

#[test]
fn first_offset_is_only_recorded() {
    // The first offset does not match the size of the table; only the
    // differences count.
    let mut iter = iter_over(&[2, 0, 100, 0, 104, 0, 0xCC, 0, 0, 0, 0xCD, 0, 0, 0, 1]);
    assert_eq!(iter.next::<Bytes>().unwrap().unwrap().reply_service, 0xCC);
    let last = iter.next::<Bytes>().unwrap().unwrap();
    assert_eq!(last.reply_service, 0xCD);
    assert_eq!(&last.data[..], &[1]);
    assert!(iter.next::<Bytes>().is_none());
}

#[test]
fn last_item_consumes_remainder() {
    for k in 4..40usize {
        let mut data = vec![2, 0, 6, 0, 11, 0, 0xCC, 0, 0, 0, 0xEE];
        let mut trailing = vec![0xCD, 0, 0, 0];
        trailing.extend((4..k).map(|b| b as u8));
        data.extend_from_slice(&trailing);
        let mut iter = iter_over(&data);
        let first = iter.next::<Bytes>().unwrap().unwrap();
        assert_eq!(&first.data[..], &[0xEE]);
        let last = iter.next::<Bytes>().unwrap().unwrap();
        assert_eq!(last.reply_service, 0xCD);
        assert_eq!(last.data.len(), k - 4);
        assert_eq!(&last.data[..], &trailing[4..]);
        assert!(iter.next::<Bytes>().is_none());
    }
}

#[test]
fn single_item_takes_everything() {
    let mut iter = iter_over(&[1, 0, 4, 0, 0xCC, 0, 0, 0, 1, 2, 3, 4, 5]);
    let only = iter.next::<Bytes>().unwrap().unwrap();
    assert_eq!(&only.data[..], &[1, 2, 3, 4, 5]);
    assert!(iter.next::<Bytes>().is_none());
}

#[test]
fn nothing_left_for_the_last_item() {
    let mut iter = iter_over(&[2, 0, 6, 0, 10, 0, 0xCC, 0, 0, 0]);
    assert_eq!(iter.next::<Bytes>().unwrap().unwrap().reply_service, 0xCC);
    assert!(iter.next::<Bytes>().is_none());
    assert!(iter.next::<Bytes>().is_none());
    let mut iter = iter_over(&[1, 0, 4, 0]);
    assert!(iter.next::<Bytes>().is_none());
}

#[test]
fn non_increasing_offsets_poison_the_stream() {
    // Equal offsets.
    let mut iter = iter_over(&[2, 0, 6, 0, 6, 0, 0xCC, 0, 0, 0, 0xCD, 0, 0, 0]);
    assert_eq!(iter.next::<Bytes>().unwrap().unwrap_err(), Error::MalformedReply);
    assert!(iter.next::<Bytes>().is_none());
    assert!(iter.next::<Bytes>().is_none());
    // A falling offset.
    let mut iter = iter_over(&[2, 0, 10, 0, 6, 0, 0xCC, 0, 0, 0, 0xCD, 0, 0, 0]);
    assert_eq!(iter.next::<Bytes>().unwrap().unwrap_err(), Error::MalformedReply);
    assert!(iter.next::<Bytes>().is_none());
}

#[test]
fn a_later_offset_that_falls_back_ends_the_stream() {
    let mut iter = iter_over(&[
        4, 0, 10, 0, 14, 0, 12, 0, 20, 0, // table: the third offset falls back
        0xCC, 0, 0, 0, 0xCD, 0, 0, 0, 0xCE, 0, 0, 0, 0xCF, 0, 0, 0,
    ]);
    assert_eq!(iter.next::<Bytes>().unwrap().unwrap().reply_service, 0xCC);
    assert_eq!(iter.next::<Bytes>().unwrap().unwrap_err(), Error::MalformedReply);
    assert!(iter.next::<Bytes>().is_none());
    assert!(iter.next::<Bytes>().is_none());
}

#[test]
fn offset_beyond_the_buffer_poisons_the_stream() {
    let mut iter = iter_over(&[2, 0, 6, 0, 60, 0, 0xCC, 0, 0, 0, 0xCD, 0, 0, 0]);
    assert_eq!(iter.next::<Bytes>().unwrap().unwrap_err(), Error::MalformedReply);
    assert!(iter.next::<Bytes>().is_none());
}

#[test]
fn a_malformed_item_poisons_the_stream() {
    let mut iter = iter_over(&[3, 0, 8, 0, 10, 0, 14, 0, 0xCC, 0, 0xCD, 0, 0, 0, 0xCE, 0, 0, 0]);
    assert_eq!(iter.next::<Bytes>().unwrap().unwrap_err(), Error::MalformedReply);
    assert!(iter.next::<Bytes>().is_none());
    assert!(iter.next::<Bytes>().is_none());
}

#[test]
fn an_item_with_a_status_poisons_the_stream() {
    let mut iter = iter_over(&[2, 0, 6, 0, 11, 0, 0xCC, 0, 0x05, 1, 0x2A, 0xCD, 0, 0, 0]);
    assert_eq!(
        iter.next::<Bytes>().unwrap().unwrap_err(),
        Error::ProtocolStatus(Status { general: 5, extended: 0x2A })
    );
    assert!(iter.next::<Bytes>().is_none());
}

#[test]
fn a_failing_last_item_is_handed_out_once() {
    let mut iter = iter_over(&[1, 0, 4, 0, 0xCC, 0]);
    assert_eq!(iter.next::<Bytes>().unwrap().unwrap_err(), Error::MalformedReply);
    assert!(iter.next::<Bytes>().is_none());
}

#[test]
fn each_read_names_its_payload_type() {
    let mut iter = iter_over(&[
        3, 0, 8, 0, 14, 0, 19, 0, // table
        0xCC, 0, 0, 0, 0x34, 0x12, // a number
        0xCD, 0, 0, 0, 7, // raw
        0xCE, 0, 0, 0, 1, // too short for a number
    ]);
    let number = iter.next::<u16>().unwrap().unwrap();
    assert_eq!(number.data, 0x1234);
    let raw = iter.next::<Bytes>().unwrap().unwrap();
    assert_eq!(&raw.data[..], &[7]);
    assert_eq!(iter.next::<u16>().unwrap().unwrap_err(), Error::MalformedReply);
    assert!(iter.next::<u16>().is_none());
}

#[test]
fn batch_reply_must_name_the_batch_service() {
    let reply = MessageReply::new(
        0x8A,
        Status { general: 0, extended: 0 },
        Bytes::from_static(&[1, 0, 4, 0, 0xCC, 0, 0, 0, 5]),
    );
    let mut iter = ReplyIter::from_reply(Ok(reply)).unwrap();
    let only = iter.next::<Bytes>().unwrap().unwrap();
    assert_eq!(only.reply_service, 0xCC);
    assert_eq!(&only.data[..], &[5]);
    assert!(iter.next::<Bytes>().is_none());

    let reply = MessageReply::new(0x8B, Status { general: 0, extended: 0 }, Bytes::new());
    assert_eq!(
        ReplyIter::from_reply(Ok(reply)).unwrap_err(),
        Error::UnexpectedReplyService { expected: 0x8A, actual: 0x8B }
    );
    assert_eq!(
        ReplyIter::from_reply(Err(Error::Transport(String::from("timeout")))).unwrap_err(),
        Error::Transport(String::from("timeout"))
    );
    assert_eq!(
        ReplyIter::from_reply(Err(Error::MalformedReply)).unwrap_err(),
        Error::MalformedReply
    );
}
