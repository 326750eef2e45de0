use bytes::BytesMut;
use cip_messaging::error::Error;
use cip_messaging::message::{encoded, Encodable, MessageRequest, ObjectPath};
use cip_messaging::service::{
    connected_send, forward_close, forward_open, unconnected_send, UnconnectedSend,
};
use cip_messaging::session::{Session, SessionState, SessionStep};

#[test]
fn unconnected_send_frame_with_odd_request() {
    let inner = MessageRequest::new(0x4C, ObjectPath { class: 2, instance: 1 }, vec![1u8, 2, 3]);
    let send = UnconnectedSend::new(0x03, 0xFA, vec![0x01u8, 0x00], inner);
    assert!(send.within_limits());
    assert_eq!(send.bytes_count(), 4 + 9 + 1 + 2 + 2);
    let mut buf = BytesMut::new();
    send.encode_by_ref(&mut buf);
    assert_eq!(
        &buf[..],
        &[
            0x03, 0xFA, // ticks
            9, 0, // length of the request
            0x4C, 0x02, 0x20, 0x02, 0x24, 0x01, 1, 2, 3, // the request
            0, // pad
            1, 0, // route: words, reserved
            0x01, 0x00, // route
        ]
    );
    let mut by_value = BytesMut::new();
    send.encode(&mut by_value);
    assert_eq!(&by_value[..], &buf[..]);
}

#[test]
fn unconnected_send_frame_with_even_request() {
    let inner = MessageRequest::new(0x4C, Vec::<u8>::new(), vec![1u8, 2]);
    let send = UnconnectedSend::new(0x0A, 0x05, vec![0x01u8, 0x02, 0x03, 0x04], inner);
    assert_eq!(send.bytes_count(), 4 + 4 + 2 + 4);
    assert_eq!(
        &encoded(&send)[..],
        &[0x0A, 0x05, 4, 0, 0x4C, 0, 1, 2, 2, 0, 0x01, 0x02, 0x03, 0x04]
    );
}

#[test]
fn unconnected_send_length_is_little_endian() {
    let inner = vec![0x11u8; 0x0102];
    let send = UnconnectedSend::new(1, 2, Vec::<u8>::new(), inner);
    let out = encoded(&send);
    assert_eq!(&out[..4], &[1, 2, 0x02, 0x01]);
    assert_eq!(out.len(), 4 + 0x0102 + 2);
    assert_eq!(&out[4 + 0x0102..], &[0, 0]);
}

#[test]
fn unconnected_send_limits() {
    let ok = UnconnectedSend::new(0, 0, vec![0u8; 254], vec![0u8; 65535]);
    assert!(ok.within_limits());
    assert_eq!(ok.bytes_count(), 4 + 65535 + 1 + 2 + 254);
    let long_request = UnconnectedSend::new(0, 0, Vec::<u8>::new(), vec![0u8; 65536]);
    assert!(!long_request.within_limits());
    let odd_route = UnconnectedSend::new(0, 0, vec![0u8; 5], Vec::<u8>::new());
    assert!(!odd_route.within_limits());
    let long_route = UnconnectedSend::new(0, 0, vec![0u8; 256], Vec::<u8>::new());
    assert!(!long_route.within_limits());
    let bad_inner = UnconnectedSend::new(
        0,
        0,
        Vec::<u8>::new(),
        MessageRequest::new(1, vec![0u8; 1], Vec::<u8>::new()),
    );
    assert!(!bad_inner.within_limits());
}

#[test]
fn unconnected_send_goes_to_the_connection_manager() {
    let inner = MessageRequest::new(0x4C, Vec::<u8>::new(), Vec::<u8>::new());
    let send = UnconnectedSend::new(0x03, 0xFA, vec![0x01u8, 0x00], inner);
    let outer = unconnected_send(send);
    assert_eq!(outer.service_code, 0x52);
    assert_eq!(outer.path, ObjectPath { class: 6, instance: 1 });
    assert_eq!(outer.data.data.service_code, 0x4C);
    assert_eq!(
        &encoded(&outer)[..],
        &[0x52, 0x02, 0x20, 0x06, 0x24, 0x01, 0x03, 0xFA, 2, 0, 0x4C, 0, 1, 0, 0x01, 0x00]
    );
}

#[test]
fn connected_send_carries_connection_and_sequence() {
    let send = connected_send(0xDEAD_BEEF, 7, MessageRequest::new(0x4C, vec![0u8; 2], vec![1u8]));
    assert_eq!(send.connection_id, 0xDEAD_BEEF);
    assert_eq!(send.sequence_number, 7);
    assert_eq!(&encoded(&send.request)[..], &[0x4C, 1, 0, 0, 1]);
}

#[test]
fn forward_open_and_close_requests() {
    let open = forward_open(vec![1u8, 2]);
    assert_eq!(open.service_code, 0x54);
    assert_eq!(open.path, ObjectPath { class: 6, instance: 1 });
    assert_eq!(&encoded(&open)[..], &[0x54, 0x02, 0x20, 0x06, 0x24, 0x01, 1, 2]);
    let close = forward_close(vec![3u8]);
    assert_eq!(close.service_code, 0x4E);
    assert_eq!(close.path, ObjectPath { class: 6, instance: 1 });
    assert_eq!(&encoded(&close)[..], &[0x4E, 0x02, 0x20, 0x06, 0x24, 0x01, 3]);
}

#[test]
fn session_life_cycle() {
    let mut session = Session::new();
    assert!(!session.is_open());
    assert_eq!(session.state(), SessionState::Closed);
    assert_eq!(session.close(), SessionStep::Nothing);
    assert_eq!(session.open(), SessionStep::Establish);
    assert_eq!(session.established(Ok(())), Ok(()));
    assert!(session.is_open());
    assert_eq!(session.state(), SessionState::Open);
    assert_eq!(session.open(), SessionStep::Nothing);
    assert_eq!(session.close(), SessionStep::TearDown);
    assert_eq!(session.torn_down(Ok(())), Ok(()));
    assert!(!session.is_open());
    assert_eq!(session.close(), SessionStep::Nothing);
    assert_eq!(session.open(), SessionStep::Establish);
}

#[test]
fn failed_setup_leaves_the_session_closed() {
    let mut session = Session::new();
    let failure = Error::Transport(String::from("refused"));
    assert_eq!(session.established(Err(failure)), Err(Error::Transport(String::from("refused"))));
    assert!(!session.is_open());
    assert_eq!(session.open(), SessionStep::Establish);
}

#[test]
fn close_is_best_effort() {
    let mut session = Session::new();
    assert_eq!(session.established(Ok(())), Ok(()));
    assert_eq!(session.torn_down(Err(Error::MalformedReply)), Ok(()));
    assert!(!session.is_open());

    let mut session = Session::new();
    assert_eq!(session.established(Ok(())), Ok(()));
    assert_eq!(
        session.torn_down(Err(Error::Transport(String::from("gone")))),
        Err(Error::Transport(String::from("gone")))
    );
    assert!(!session.is_open());
}
