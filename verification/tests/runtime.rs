use webrtc_datachannels::drive::{Drive, DriveReply, DriveRequest, Phase};
use webrtc_datachannels::driver::{
    wait_delay, ConnectedOnce, Driver, DriverAction, RoundTrip, RoundTripStep, Settle,
    OVERALL_TIMEOUT_NANOS,
};
use webrtc_datachannels::error::Error;
use webrtc_datachannels::host::{
    poll_consume, poll_produce, Incoming, ManualPeer, Polled, StreamStep,
};
use webrtc_datachannels::peer_event::{InboundMessage, PeerEvent};
use webrtc_datachannels::runtime::{
    max_inbound_buffer_bytes, Pump, PumpAction, PumpEvent, Shared, Streamed, CLOSE_DRAIN_NANOS,
    DEFAULT_MAX_INBOUND_BUFFER_BYTES, MAX_WAIT_NANOS,
};
use webrtc_datachannels::script::Side;
use webrtc_datachannels::shim::{
    after_recvmsg, after_setsockopt, stubbed_ip_option, BatchReceive, BatchStep, OptionStep,
    EINVAL, ENOPROTOOPT, ENOSYS, IPPROTO_IP, IP_MTU_DISCOVER, IP_PKTINFO, IP_RECVTOS,
    MSG_WAITFORONE,
};
use webrtc_datachannels::state_watch::StateWatch;

fn message(id: u16, data: &[u8]) -> PeerEvent {
    PeerEvent::Message { id, text: false, data: data.to_vec() }
}

fn open(id: u16) -> PeerEvent {
    PeerEvent::ChannelOpen { id, label: "l".to_string() }
}

// ----- the watch -----

#[test]
fn no_change_is_lost() {
    let mut watch = StateWatch::new();
    let waiting = watch.changed(watch.version());
    assert!(!waiting.poll(&mut watch, 7));
    assert_eq!(watch.notify(), vec![7]);
    assert!(waiting.poll(&mut watch, 7));
    assert!(!watch.changed(watch.version()).poll(&mut watch, 8));
    let stale = watch.changed(watch.version() - 1);
    assert!(stale.poll(&mut watch, 9));
}

// ----- the event loop -----

#[test]
fn buffer_limit_comes_from_the_environment() {
    assert_eq!(max_inbound_buffer_bytes(None), DEFAULT_MAX_INBOUND_BUFFER_BYTES);
    assert_eq!(DEFAULT_MAX_INBOUND_BUFFER_BYTES, 8 * 1024 * 1024);
    assert_eq!(max_inbound_buffer_bytes(Some("4096")), 4096);
    assert_eq!(max_inbound_buffer_bytes(Some("x")), DEFAULT_MAX_INBOUND_BUFFER_BYTES);
}

#[test]
fn messages_are_buffered_in_order() {
    let mut shared = Shared::new();
    shared.apply_event(open(1), 100);
    assert_eq!(shared.apply_event(message(1, b"a"), 100), None);
    assert_eq!(shared.apply_event(message(1, b"bc"), 100), None);
    assert_eq!(shared.apply_event(message(9, b"lost"), 100), None);
    let channel = shared.channel_mut(1).unwrap();
    assert_eq!(channel.inbox_bytes, 3);
    assert_eq!(channel.pop().unwrap().data, b"a");
    assert_eq!(channel.pop().unwrap().data, b"bc");
    assert!(channel.pop().is_none());
    assert_eq!(channel.inbox_bytes, 0);
}

#[test]
fn overflow_closes_the_channel_and_keeps_the_backlog() {
    let mut shared = Shared::new();
    shared.apply_event(open(1), 4);
    assert_eq!(shared.apply_event(message(1, b"abc"), 4), None);
    assert_eq!(shared.apply_event(message(1, b"de"), 4), Some(1));
    assert_eq!(shared.apply_event(message(1, b"f"), 4), None);
    let channel = shared.channel_mut(1).unwrap();
    assert!(channel.overflowed);
    assert!(channel.inbox_bytes <= 4);
    assert_eq!(channel.pop().unwrap().data, b"abc");
    assert!(channel.pop().is_none());
}

#[test]
fn overflow_is_told_after_the_backlog() {
    let mut shared = Shared::new();
    shared.apply_event(open(1), 4);
    shared.apply_event(message(1, b"abc"), 4);
    assert_eq!(shared.apply_event(message(1, b"de"), 4), Some(1));
    let channel = shared.channel_mut(1).unwrap();
    assert!(matches!(channel.receive(), Some(Ok(m)) if m.data == b"abc"));
    assert!(matches!(channel.receive(), Some(Err(Error::ReceiveBufferOverflow))));
    assert!(matches!(channel.receive(), Some(Err(Error::ReceiveBufferOverflow))));
}

#[test]
fn closed_channels_deliver_their_backlog() {
    let mut shared = Shared::new();
    shared.apply_event(open(1), 100);
    assert!(shared.channel_mut(1).unwrap().receive().is_none());
    shared.apply_event(message(1, b"a"), 100);
    shared.begin_close(0);
    let channel = shared.channel_mut(1).unwrap();
    assert!(matches!(channel.receive(), Some(Ok(m)) if m.data == b"a"));
    assert!(matches!(channel.receive(), Some(Err(Error::Closed))));
}

#[test]
fn a_stream_is_claimed_once() {
    let mut shared = Shared::new();
    shared.apply_event(open(1), 100);
    let channel = shared.channel_mut(1).unwrap();
    assert!(channel.claim().is_ok());
    assert!(matches!(channel.claim(), Err(Error::ReceivingViaStream)));
    assert!(matches!(channel.next_streamed(), Streamed::Pending));
    shared.apply_event(message(1, b"a"), 100);
    let channel = shared.channel_mut(1).unwrap();
    assert!(matches!(channel.receive(), Some(Err(Error::ReceivingViaStream))));
    assert!(matches!(channel.next_streamed(), Streamed::Message(m) if m.data == b"a"));
    shared.apply_event(PeerEvent::ChannelClosed { id: 1 }, 100);
    assert!(matches!(shared.channel_mut(1).unwrap().next_streamed(), Streamed::End));
}

#[test]
fn closing_is_idempotent() {
    let mut shared = Shared::new();
    shared.begin_close(10);
    assert!(shared.close_requested);
    let deadline = shared.drain_deadline;
    assert_eq!(deadline, Some(10 + CLOSE_DRAIN_NANOS));
    shared.begin_close(500);
    assert_eq!(shared.drain_deadline, deadline);
}

#[test]
fn the_loop_flushes_before_the_core_closes() {
    let mut shared = Shared::new();
    let (mut pump, actions) = Pump::start();
    assert!(actions.contains(&PumpAction::Flush));
    let actions = pump.pump(&mut shared, PumpEvent::Flushed, 0, 100);
    assert!(!actions.contains(&PumpAction::CloseCore));
    shared.begin_close(0);
    let (mut pump, _) = Pump::start();
    let actions = pump.pump(&mut shared, PumpEvent::Flushed, 0, 100);
    assert!(actions.contains(&PumpAction::CloseCore));
}

#[test]
fn a_failed_connection_ends_the_loop() {
    let mut shared = Shared::new();
    let (mut pump, _) = Pump::start();
    pump.pump(&mut shared, PumpEvent::Flushed, 0, 100);
    let mut actions = pump.pump(&mut shared, PumpEvent::Drained(vec![PeerEvent::Failed]), 0, 100);
    for _ in 0..4 {
        if actions.contains(&PumpAction::Stop) {
            break;
        }
        actions = pump.pump(&mut shared, PumpEvent::Flushed, 0, 100);
    }
    assert!(actions.contains(&PumpAction::Stop));
    assert!(shared.failed);
}

// ----- the driver -----

#[test]
fn deadlines_are_serviced_in_time() {
    assert_eq!(wait_delay(Some(15), 10), 5);
    assert_eq!(wait_delay(Some(5), 10), 0);
    assert!(wait_delay(None, 0) <= MAX_WAIT_NANOS);
    assert!(wait_delay(Some(u64::MAX), 0) <= MAX_WAIT_NANOS);
}

fn text(s: &str) -> InboundMessage {
    InboundMessage { text: true, data: s.as_bytes().to_vec() }
}

#[test]
fn early_messages_wait_for_the_channel() {
    let mut driver = Driver::new();
    assert!(driver.on_command(Some(text("a"))).is_empty());
    assert!(driver.on_command(Some(text("b"))).is_empty());
    let actions = driver.on_event(open(4));
    let sent: Vec<(u16, Vec<u8>)> = actions
        .iter()
        .filter_map(|a| match a {
            DriverAction::Send { channel, message } => Some((*channel, message.data.clone())),
            _ => None,
        })
        .collect();
    assert_eq!(sent, vec![(4, b"a".to_vec()), (4, b"b".to_vec())]);
    // The first channel is kept.
    driver.on_event(open(6));
    assert!(matches!(
        driver.on_command(Some(text("c")))[..],
        [DriverAction::Send { channel: 4, .. }]
    ));
    assert!(matches!(driver.on_event(message(4, b"in"))[..], [DriverAction::Deliver(_)]));
    assert!(matches!(driver.on_event(message(6, b"in"))[..], [DriverAction::Deliver(_)]));
}

#[test]
fn a_dropped_handle_closes_the_driver() {
    let mut driver = Driver::new();
    assert!(matches!(driver.on_command(None)[..], [DriverAction::Close, ..]));
}

/// Start a loop and take it to its first wait, with these events.
fn waiting(events: Vec<PeerEvent>) -> Drive {
    let mut drive = Drive::new();
    assert!(matches!(drive.step(DriveReply::Done), DriveRequest::Flush));
    assert!(matches!(drive.step(DriveReply::Done), DriveRequest::Drain));
    let mut request = drive.step(DriveReply::Events(events));
    while !matches!(request, DriveRequest::Flush) {
        request = drive.step(DriveReply::Done);
    }
    assert!(matches!(drive.step(DriveReply::Done), DriveRequest::AskDeadline));
    let wait = drive.step(DriveReply::Deadline { deadline: Some(15), now: 10 });
    assert!(matches!(wait, DriveRequest::Wait { nanos: 5 }));
    drive
}

#[test]
fn a_turn_flushes_drains_flushes_and_waits() {
    let mut drive = Drive::new();
    assert!(matches!(drive.step(DriveReply::Done), DriveRequest::Flush));
    assert!(matches!(drive.step(DriveReply::Done), DriveRequest::Drain));
    let events = vec![PeerEvent::Connected, open(4), PeerEvent::Connected, message(4, b"in")];
    assert!(matches!(drive.step(DriveReply::Events(events)), DriveRequest::Announce));
    match drive.step(DriveReply::Done) {
        DriveRequest::Deliver(m) => assert_eq!(m.data, b"in"),
        other => panic!("{other:?}"),
    }
    assert_eq!(drive.phase(), Phase::Delivering);
    assert!(matches!(drive.step(DriveReply::Done), DriveRequest::Flush));
    assert!(matches!(drive.step(DriveReply::Done), DriveRequest::AskDeadline));
    let wait = drive.step(DriveReply::Deadline { deadline: None, now: 0 });
    assert!(matches!(wait, DriveRequest::Wait { nanos: MAX_WAIT_NANOS }));
    assert!(matches!(drive.step(DriveReply::Timer), DriveRequest::HandleTimeout));
    assert!(matches!(drive.step(DriveReply::Done), DriveRequest::Flush));
    assert_eq!(drive.phase(), Phase::Flushing);
}

#[test]
fn waits_end_with_a_datagram_or_a_command() {
    let mut drive = waiting(vec![]);
    assert!(matches!(drive.step(DriveReply::Datagram), DriveRequest::HandleInput));
    let mut drive = waiting(vec![]);
    assert!(matches!(drive.step(DriveReply::NoDatagram), DriveRequest::Flush));
    // No channel is open: the message waits.
    let mut drive = waiting(vec![]);
    assert!(matches!(drive.step(DriveReply::Command(Some(text("a")))), DriveRequest::Flush));
    assert!(matches!(drive.step(DriveReply::Done), DriveRequest::Drain));
    match drive.step(DriveReply::Events(vec![open(4)])) {
        DriveRequest::SendText { channel: 4, text } => assert_eq!(text, "a"),
        other => panic!("{other:?}"),
    }
    assert!(matches!(drive.step(DriveReply::Done), DriveRequest::Flush));
}

#[test]
fn text_is_sent_as_what_its_bytes_read_as() {
    let mut drive = waiting(vec![open(4)]);
    let bytes = b"a\xffb".to_vec();
    let told = InboundMessage { text: true, data: bytes.clone() };
    match drive.step(DriveReply::Command(Some(told))) {
        DriveRequest::SendText { channel: 4, text } => assert_eq!(text, "a\u{fffd}b"),
        other => panic!("{other:?}"),
    }
    let mut drive = waiting(vec![open(4)]);
    let told = InboundMessage { text: false, data: bytes.clone() };
    match drive.step(DriveReply::Command(Some(told))) {
        DriveRequest::SendBinary { channel: 4, data } => assert_eq!(data, bytes),
        other => panic!("{other:?}"),
    }
}

#[test]
fn the_loop_ends_with_its_peer_or_its_owner() {
    for last in [PeerEvent::Failed, PeerEvent::Closed] {
        let mut drive = Drive::new();
        drive.step(DriveReply::Done);
        drive.step(DriveReply::Done);
        assert!(matches!(drive.step(DriveReply::Events(vec![last, open(4)])), DriveRequest::End));
        assert!(matches!(drive.step(DriveReply::Done), DriveRequest::End));
    }
    let mut drive = Drive::new();
    drive.step(DriveReply::Done);
    drive.step(DriveReply::Done);
    let events = vec![message(4, b"x"), message(4, b"y")];
    assert!(matches!(drive.step(DriveReply::Events(events)), DriveRequest::Deliver(_)));
    assert!(matches!(drive.step(DriveReply::Unheard), DriveRequest::End));
    // The owner has gone: goodbye is said before the end.
    let mut drive = waiting(vec![open(4)]);
    assert!(matches!(drive.step(DriveReply::Command(None)), DriveRequest::Close));
    assert!(matches!(drive.step(DriveReply::Done), DriveRequest::Flush));
    assert!(matches!(drive.step(DriveReply::Done), DriveRequest::End));
    assert_eq!(drive.phase(), Phase::Ended);
}

#[test]
fn connecting_is_awaited_once() {
    let mut once = ConnectedOnce { awaited: false };
    assert!(once.begin().is_ok());
    assert!(once.begin().is_err());
}

#[test]
fn round_trips_end() {
    let mut trip = RoundTrip::new("offerer", 5);
    assert_eq!(trip.deadline, 5 + OVERALL_TIMEOUT_NANOS);
    assert!(matches!(trip.on_event(open(2)), RoundTripStep::Greet { channel: 2, .. }));
    assert!(matches!(trip.settle(0, 5), Settle::Wait));
    assert!(matches!(trip.settle(0, trip.deadline), Settle::GiveUp(_)));
    let counted = trip.on_event(PeerEvent::Message { id: 2, text: true, data: b"hi".to_vec() });
    assert!(matches!(counted, RoundTripStep::Count));
    assert!(matches!(trip.settle(2, 5), Settle::Finish(got) if got == "hi"));
}

// ----- the host -----

#[test]
fn incoming_streams_are_taken_once() {
    let mut incoming = Incoming { taken: false };
    assert!(incoming.take_incoming().is_ok());
    assert!(incoming.take_incoming().is_err());
}

#[test]
fn a_peer_connects_once() {
    let mut peer = ManualPeer::new();
    assert!(peer.pc().is_err());
    assert!(peer.connect().is_err());
    peer.init_pc(Side::Answerer);
    assert!(peer.pc().is_ok());
    peer.init_pc(Side::Offerer);
    peer.wire_channel();
    assert!(peer.connect().is_ok());
    assert!(peer.connect().is_err());
    assert!(peer.close());
    assert!(!peer.close());
}

#[test]
fn stream_ends_are_told_apart() {
    assert_eq!(poll_produce(Polled::Item, false), StreamStep::Completed);
    assert_eq!(poll_produce(Polled::End, false), StreamStep::Dropped);
    assert_eq!(poll_produce(Polled::Pending, false), StreamStep::Pending);
    assert_eq!(poll_produce(Polled::Pending, true), StreamStep::Cancelled);
    assert_eq!(poll_consume(true, true, false), StreamStep::Completed);
}

// ----- the socket shim -----

#[test]
fn shim_constants_are_those_of_the_system() {
    assert_eq!(IPPROTO_IP, libc::IPPROTO_IP);
    assert_eq!(IP_PKTINFO, libc::IP_PKTINFO);
    assert_eq!(IP_MTU_DISCOVER, libc::IP_MTU_DISCOVER);
    assert_eq!(IP_RECVTOS, libc::IP_RECVTOS);
    assert_eq!(ENOPROTOOPT, libc::ENOPROTOOPT);
    assert_eq!(ENOSYS, libc::ENOSYS);
    assert_eq!(EINVAL, libc::EINVAL);
    assert_eq!(MSG_WAITFORONE, libc::MSG_WAITFORONE as i32);
}

#[test]
fn only_known_options_are_stubbed() {
    assert!(stubbed_ip_option(IPPROTO_IP, IP_PKTINFO));
    assert!(!stubbed_ip_option(IPPROTO_IP, 1));
    assert!(!stubbed_ip_option(1, IP_PKTINFO));
    let ended = |optname: i32, ret: i32, errno: i32| {
        match after_setsockopt(3, IPPROTO_IP, optname, ret, errno, "e") {
            OptionStep::Return(ret) => ret,
            other => panic!("{other:?}"),
        }
    };
    assert_eq!(ended(IP_PKTINFO, -1, ENOPROTOOPT), 0);
    assert_eq!(ended(IP_PKTINFO, 0, 0), 0);
    assert_eq!(ended(1, 0, 0), 0);
    assert_eq!(ended(1, -1, EINVAL), -1);
    match after_setsockopt(3, IPPROTO_IP, IP_RECVTOS, -1, EINVAL, "boom") {
        OptionStep::Abort(text) => assert_eq!(
            text,
            "shadow-syscall-shim: setsockopt(fd=3, level=0, opt=13) failed with unexpected error \
             boom (expected success on a real kernel or ENOPROTOOPT under Shadow); aborting"
        ),
        other => panic!("{other:?}"),
    }
}

#[test]
fn unimplemented_batches_receive_one() {
    let mut batch = BatchReceive { unimplemented: false };
    assert!(batch.forwards());
    assert_eq!(batch.after_recvmmsg(2, 0, false, 4, 0), BatchStep::Return(2));
    assert_eq!(batch.after_recvmmsg(-1, EINVAL, false, 4, 0), BatchStep::Return(-1));
    assert!(batch.forwards());
    assert_eq!(
        batch.after_recvmmsg(-1, ENOSYS, false, 4, 0x40 | MSG_WAITFORONE),
        BatchStep::ReceiveOne { flags: 0x40 }
    );
    assert!(!batch.forwards());
    assert_eq!(batch.emulate(false, 0, 0), BatchStep::Fail(EINVAL));
    assert_eq!(batch.emulate(true, 4, 0), BatchStep::Fail(EINVAL));
    assert_eq!(after_recvmsg(17), (1, Some(17)));
    assert_eq!(after_recvmsg(-1), (-1, None));
}
