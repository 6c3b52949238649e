use std::collections::VecDeque;

use webrtc_datachannels::demo::{
    after_failure, check_stats, connect_once, connect_pair, describe_attempt, echo_all, echo_batch,
    echo_stats, read_back, send_all, signaling_stats, DemoStats, EchoLoop, Link, Retry,
    StreamBatch, Tally, MAX_ATTEMPTS,
};
use webrtc_datachannels::error::Error;
use webrtc_datachannels::exchange::{
    barrier, barrier_message, barrier_receive, barrier_send, exchange, exchange_once, first_half,
    second_half, Half, Trial,
};
use webrtc_datachannels::guest::{list_tests, outcome_so_far, run_test};
use webrtc_datachannels::handshake::{channel_options, handshake_offerer};
use webrtc_datachannels::host::build_echo;
use webrtc_datachannels::inproc::{inproc_connect, labelled_options, Connecting};
use webrtc_datachannels::negotiation::{Problem, Progress, Stage};
use webrtc_datachannels::outcome::TestOutcome;
use webrtc_datachannels::payload::make_payload;
use webrtc_datachannels::script::{
    MailboxProblem, Message, Next, Reply, Request, Side, StreamError, StreamedMessage,
};
use webrtc_datachannels::sequence::{recv_sequence, send_sequence, Receiving, Sending};
use webrtc_datachannels::signal::{
    encode_ice, encode_sdp, make_sdp, GuestSignal, IceCandidate, SdpType,
};
use webrtc_datachannels::signaling_demo::{
    connect_answerer, connect_offerer, consume_remote_signal, forward_local_ice, Consumed,
};
use webrtc_datachannels::stream_probes::{feed, Feed};
use webrtc_datachannels::suite::{make_config, Role, TestConfig};

// ----- a host that behaves -----

/// Two peers, their channel and their mailboxes.
struct World {
    described: [bool; 2],
    gathered: [bool; 2],
    claimed: [bool; 2],
    taken: bool,
    closed: [bool; 2],
    inbox: [VecDeque<Message>; 2],
    overflow_at: usize,
    overflowed: bool,
    signals: [Vec<GuestSignal>; 2],
    done: [bool; 2],
    read: [usize; 2],
    requests: usize,
}

fn index(side: Side) -> usize {
    match side {
        Side::Offerer => 0,
        Side::Answerer => 1,
    }
}

fn copy(message: &Message) -> Message {
    match message {
        Message::Binary(data) => Message::Binary(data.clone()),
        Message::Text(text) => Message::Text(text.clone()),
    }
}

fn candidate(name: &str) -> IceCandidate {
    IceCandidate {
        candidate: name.to_string(),
        sdp_mid: Some("0".to_string()),
        sdp_mline_index: Some(0),
    }
}

fn copy_signal(signal: &GuestSignal) -> GuestSignal {
    match signal {
        GuestSignal::Offer { sdp } => GuestSignal::Offer { sdp: sdp.clone() },
        GuestSignal::Answer { sdp } => GuestSignal::Answer { sdp: sdp.clone() },
        GuestSignal::Candidate(c) => GuestSignal::Candidate(candidate(&c.candidate)),
        GuestSignal::EndOfCandidates => GuestSignal::EndOfCandidates,
    }
}

impl World {
    fn new() -> Self {
        World {
            described: [false; 2],
            gathered: [false; 2],
            claimed: [false; 2],
            taken: false,
            closed: [false; 2],
            inbox: [VecDeque::new(), VecDeque::new()],
            overflow_at: usize::MAX,
            overflowed: false,
            signals: [Vec::new(), Vec::new()],
            done: [false; 2],
            read: [0; 2],
            requests: 0,
        }
    }

    fn gate(&self, on: Side) -> Result<(), Error> {
        if self.closed[index(on)] {
            Err(Error::Closed)
        } else {
            Ok(())
        }
    }

    fn receive(&mut self, on: Side) -> Option<Result<Message, Error>> {
        let i = index(on);
        if self.claimed[i] {
            return Some(Err(Error::ReceivingViaStream));
        }
        if let Some(message) = self.inbox[i].pop_front() {
            return Some(Ok(message));
        }
        if self.overflowed && i == 1 {
            return Some(Err(Error::ReceiveBufferOverflow));
        }
        if self.closed[i] || self.overflowed {
            return Some(Err(Error::Closed));
        }
        None
    }

    fn connected(&self) -> bool {
        self.described[0] && self.described[1]
    }

    /// The reply to a request that `me` makes, once there is one.
    fn answer(&mut self, me: Side, request: &Request) -> Option<Reply> {
        self.requests += 1;
        Some(match request {
            Request::CreateDataChannel { on, .. } => Reply::Done(self.gate(*on)),
            Request::CreateOffer { on } => Reply::Described(
                self.gate(*on).map(|_| make_sdp(SdpType::Offer, "v=0 offer".to_string())),
            ),
            Request::CreateAnswer { on } => Reply::Described(
                self.gate(*on).map(|_| make_sdp(SdpType::Answer, "v=0 answer".to_string())),
            ),
            Request::SetLocal { on, .. } => Reply::Done(self.gate(*on)),
            Request::SetRemote { on, description } => {
                let outcome = match self.gate(*on) {
                    Err(e) => Err(e),
                    Ok(()) if !description.sdp.starts_with("v=0") => {
                        Err(Error::InvalidSignaling("bad sdp".to_string()))
                    }
                    Ok(()) => {
                        self.described[index(*on)] = true;
                        Ok(())
                    }
                };
                Reply::Done(outcome)
            }
            Request::LocalCandidates { on } => {
                let i = index(*on);
                if self.gathered[i] {
                    Reply::Gathered(vec![])
                } else {
                    self.gathered[i] = true;
                    Reply::Gathered(vec![candidate("host-a"), candidate("host-b")])
                }
            }
            Request::AddCandidate { on, .. } => Reply::Done(self.gate(*on)),
            Request::WaitConnected { .. } | Request::AwaitConnected { .. } => {
                Reply::Done(if self.connected() { Ok(()) } else { Err(Error::TimedOut) })
            }
            Request::WaitBothConnected => Reply::Connected { offerer: Ok(()), answerer: Ok(()) },
            Request::ReadIncoming { .. } => {
                let n = if self.taken { 0 } else { 1 };
                self.taken = true;
                Reply::Incoming(n)
            }
            Request::WaitOpen { .. } => Reply::Done(Ok(())),
            Request::Send { on, message } => {
                if self.gate(*on).is_err() || self.overflowed {
                    return Some(Reply::Done(Err(Error::Closed)));
                }
                let peer = 1 - index(*on);
                if self.inbox[peer].len() >= self.overflow_at {
                    self.overflowed = true;
                } else {
                    self.inbox[peer].push_back(copy(message));
                }
                Reply::Done(Ok(()))
            }
            Request::Receive { on } => Reply::Received(self.receive(*on)?),
            Request::ReadLabel { .. } => Reply::Label("conformance".to_string()),
            Request::Barrier { .. } => Reply::Met(Ok(())),
            Request::OpenMailbox { .. } => Reply::Done(Ok(())),
            Request::Publish { signal } => {
                self.signals[index(me)].push(copy_signal(signal));
                Reply::Published(Ok(()))
            }
            Request::MarkDone => {
                self.done[index(me)] = true;
                Reply::Done(Ok(()))
            }
            Request::FetchSignal => {
                let peer = 1 - index(me);
                let at = self.read[index(me)];
                if at < self.signals[peer].len() {
                    self.read[index(me)] += 1;
                    Reply::Fetched(Ok(Some(copy_signal(&self.signals[peer][at]))))
                } else if self.done[peer] {
                    Reply::Fetched(Ok(None))
                } else {
                    return None;
                }
            }
            Request::ExchangeOnce => Reply::Judged(Ok(true)),
            Request::SendAndReceive { count, size, .. } => Reply::Exchanged {
                sent: Ok(()),
                received: Ok((0..*count).map(|i| make_payload(i, *size)).collect()),
            },
            Request::SendViaStream { on, count, size } => {
                for i in 0..*count {
                    self.inbox[1 - index(*on)].push_back(Message::Binary(make_payload(i, *size)));
                }
                Reply::Streamed { fed: Ok(()), streamed: Ok(()) }
            }
            Request::ReceiveViaStream { on } => {
                let i = index(*on);
                if self.claimed[i] {
                    Reply::Done(Err(Error::ReceivingViaStream))
                } else {
                    self.claimed[i] = true;
                    Reply::Done(Ok(()))
                }
            }
            Request::ReceiveThenClaim { on } => {
                self.claimed[index(*on)] = true;
                Reply::Claimed { pending: Err(Error::ReceivingViaStream), claim: Ok(()) }
            }
            Request::ReadStream { on } => {
                let messages = self.inbox[index(*on)]
                    .drain(..)
                    .map(|m| match m {
                        Message::Binary(data) => {
                            StreamedMessage { text: false, declared: data.len() as u32, data }
                        }
                        Message::Text(t) => StreamedMessage {
                            text: true,
                            declared: t.len() as u32,
                            data: t.into_bytes(),
                        },
                    })
                    .collect();
                Reply::Batch { messages, ended: false }
            }
            Request::Close { on } => {
                self.closed[index(*on)] = true;
                Reply::Done(Ok(()))
            }
            Request::SendBlob { .. } | Request::RecvBlob => panic!("no raw blobs here"),
        })
    }
}

fn config(role: Role) -> TestConfig {
    make_config(role, "http://s", "room", 4, 256)
}

/// Run a test as one instance.
fn run_alone(world: &mut World, test_id: &str) -> TestOutcome {
    let config = config(Role::Both);
    let mut replies = Vec::new();
    loop {
        match run_test(test_id, &config, &replies) {
            Next::Ask(request) => {
                let reply = world.answer(Side::Offerer, &request);
                replies.push(reply.unwrap_or_else(|| panic!("{test_id} waits forever")));
            }
            next => return outcome_so_far(&next).unwrap_or_else(|| panic!("{test_id}: {next:?}")),
        }
    }
}

/// Run a test as two instances that share the world.
fn run_pair(world: &mut World, test_id: &str) -> [TestOutcome; 2] {
    let sides = [(Side::Offerer, config(Role::Offerer)), (Side::Answerer, config(Role::Answerer))];
    let mut replies = [Vec::new(), Vec::new()];
    let mut outcomes: [Option<TestOutcome>; 2] = [None, None];
    while outcomes.iter().any(|o| o.is_none()) {
        let mut moved = false;
        for i in 0..2 {
            if outcomes[i].is_some() {
                continue;
            }
            match run_test(test_id, &sides[i].1, &replies[i]) {
                Next::Ask(request) => {
                    if let Some(reply) = world.answer(sides[i].0, &request) {
                        replies[i].push(reply);
                        moved = true;
                    }
                }
                next => {
                    outcomes[i] = Some(outcome_so_far(&next).unwrap());
                    moved = true;
                }
            }
        }
        assert!(moved, "{test_id} waits forever");
    }
    let [a, b] = outcomes;
    [a.unwrap(), b.unwrap()]
}

// ----- the suite -----

const IN_PROCESS: [&str; 18] = [
    "peer-offer-answer",
    "peer-create-data-channel",
    "peer-local-ice-candidates",
    "peer-add-ice-candidate",
    "peer-wait-connected",
    "peer-wait-connected-latch",
    "peer-streams-once",
    "post-close-signaling",
    "peer-close-releases",
    "peer-invalid-sdp",
    "error-invalid-signaling",
    "error-closed",
    "error-timed-out",
    "post-close-send",
    "receive-buffer-overflow",
    "send-via-stream",
    "receive-via-stream",
    "receive-via-stream-once",
];

#[test]
fn in_process_tests_pass_on_a_host_that_behaves() {
    for test_id in IN_PROCESS {
        let mut world = World::new();
        world.overflow_at = 2;
        if test_id != "receive-buffer-overflow" {
            world.overflow_at = usize::MAX;
        }
        let outcome = run_alone(&mut world, test_id);
        assert!(matches!(outcome, TestOutcome::Pass), "{test_id}: {outcome:?}");
    }
}

#[test]
fn two_peer_tests_pass_on_a_host_that_behaves() {
    for test_id in webrtc_datachannels::corpus::TWO_PEER_TESTS {
        for outcome in run_pair(&mut World::new(), test_id) {
            assert!(matches!(outcome, TestOutcome::Pass), "{test_id}: {outcome:?}");
        }
    }
}

#[test]
fn candidates_reach_the_other_mailbox_in_order() {
    let mut world = World::new();
    run_pair(&mut world, "label-round-trip");
    for side in 0..2 {
        assert!(world.done[side]);
        let names: Vec<&str> = world.signals[side]
            .iter()
            .filter_map(|s| match s {
                GuestSignal::Candidate(c) => Some(c.candidate.as_str()),
                _ => None,
            })
            .collect();
        assert_eq!(names, vec!["host-a", "host-b"]);
        assert!(matches!(world.signals[side].last(), Some(GuestSignal::EndOfCandidates)));
    }
    assert!(matches!(&world.signals[0][0], GuestSignal::Offer { sdp } if sdp == "v=0 offer"));
    assert!(matches!(&world.signals[1][0], GuestSignal::Answer { sdp } if sdp == "v=0 answer"));
}

#[test]
fn every_corpus_test_is_listed() {
    let listed = list_tests();
    assert_eq!(listed.len(), 29);
    for id in webrtc_datachannels::corpus::TESTS {
        let entry = listed.iter().find(|t| t.id == id);
        assert!(entry.is_some_and(|t| !t.tags.is_empty()), "{id}");
    }
}

#[test]
fn two_peer_tests_need_one_role() {
    let next = run_test("ordering", &config(Role::Both), &[]);
    assert!(matches!(
        outcome_so_far(&next),
        Some(TestOutcome::Fail(detail)) if detail == "two-peer test invoked with role=both"
    ));
}

#[test]
fn unknown_tests_fail() {
    let outcomes = run_pair(&mut World::new(), "nope");
    for outcome in outcomes {
        assert!(matches!(outcome, TestOutcome::Fail(d) if d == "unhandled test id \"nope\""));
    }
}

// ----- hosts that misbehave -----

#[test]
fn the_first_failing_call_ends_a_test() {
    let failing = [Reply::Done(Ok(())), Reply::Described(Err(Error::Other("x".to_string())))];
    match inproc_connect("peer-offer-answer", &failing) {
        Connecting::Next(Next::Fail(detail)) => assert_eq!(detail, "create-offer: other: x"),
        other => panic!("{other:?}"),
    }
    assert!(matches!(
        inproc_connect("peer-offer-answer", &[Reply::Label("x".to_string())]),
        Connecting::Next(Next::OutOfStep)
    ));
}

/// Run a test as one instance, on a host whose replies are altered: why it failed.
fn fails(test_id: &str, alter: impl Fn(&Request, Reply) -> Reply) -> String {
    let mut world = World::new();
    if test_id == "receive-buffer-overflow" {
        world.overflow_at = 2;
    }
    let mut replies = Vec::new();
    loop {
        match run_test(test_id, &config(Role::Both), &replies) {
            Next::Ask(request) => {
                let reply = world.answer(Side::Offerer, &request).unwrap();
                replies.push(alter(&request, reply));
            }
            Next::Fail(detail) => return detail,
            other => panic!("{test_id}: {other:?}"),
        }
    }
}

#[test]
fn probes_fail_on_a_host_that_misbehaves() {
    assert_eq!(
        fails("peer-invalid-sdp", |request, reply| match request {
            Request::SetRemote { .. } => Reply::Done(Ok(())),
            _ => reply,
        }),
        "malformed SDP was accepted"
    );
    assert_eq!(
        fails("error-closed", |request, reply| match request {
            Request::Receive { .. } => Reply::Received(Err(Error::TimedOut)),
            _ => reply,
        }),
        "expected closed, got timed-out"
    );
    assert_eq!(
        fails("post-close-send", |request, reply| match request {
            Request::Send { .. } => Reply::Done(Ok(())),
            _ => reply,
        }),
        "send never failed after close"
    );
    assert_eq!(
        fails("error-timed-out", |request, reply| match request {
            Request::WaitConnected { .. } => Reply::Done(Ok(())),
            _ => reply,
        }),
        "wait-connected resolved without a remote peer"
    );
    assert_eq!(
        fails("post-close-signaling", |request, reply| match request {
            Request::AddCandidate { .. } => Reply::Done(Ok(())),
            _ => reply,
        }),
        "add-ice-candidate succeeded after close"
    );
    assert_eq!(
        fails("peer-streams-once", |_, reply| match reply {
            Reply::Gathered(list) if list.is_empty() => Reply::Gathered(vec![candidate("again")]),
            reply => reply,
        }),
        "second local-ice-candidates call yielded 1 candidate(s); \
         expected an immediately-ended empty stream"
    );
    assert_eq!(
        fails("peer-wait-connected-latch", |request, reply| match request {
            Request::WaitConnected { .. } => Reply::Done(Err(Error::Closed)),
            _ => reply,
        }),
        "re-await after connect: closed"
    );
    assert_eq!(
        fails("receive-buffer-overflow", |_, reply| match reply {
            Reply::Received(Err(Error::ReceiveBufferOverflow)) => {
                Reply::Received(Err(Error::Closed))
            }
            reply => reply,
        }),
        "expected receive-buffer-overflow, got closed"
    );
    assert_eq!(
        fails("send-via-stream", |_, reply| match reply {
            Reply::Received(Ok(_)) => Reply::Received(Ok(Message::Binary(vec![1; 16]))),
            reply => reply,
        }),
        "payload failed integrity check"
    );
    assert_eq!(
        fails("receive-via-stream", |_, reply| match reply {
            Reply::Batch { mut messages, ended } => {
                messages[0].declared = 1;
                Reply::Batch { messages, ended }
            }
            reply => reply,
        }),
        "stream-message declared 1 bytes but carried 256"
    );
    assert_eq!(
        fails("receive-via-stream-once", |request, reply| match request {
            Request::ReceiveViaStream { .. } => Reply::Done(Ok(())),
            _ => reply,
        }),
        "second receive-via-stream succeeded"
    );
    assert_eq!(
        fails("peer-wait-connected", |_, reply| match reply {
            Reply::Judged(_) => Reply::Judged(Ok(false)),
            reply => reply,
        }),
        "data channel round trip failed"
    );
}

#[test]
fn missing_candidates_fail_only_their_test() {
    let described = || {
        let mut replies = vec![
            Reply::Done(Ok(())),
            Reply::Described(Ok(make_sdp(SdpType::Offer, "o".to_string()))),
            Reply::Done(Ok(())),
            Reply::Done(Ok(())),
            Reply::Described(Ok(make_sdp(SdpType::Answer, "a".to_string()))),
            Reply::Done(Ok(())),
            Reply::Done(Ok(())),
            Reply::Gathered(vec![]),
        ];
        replies.push(Reply::Gathered(vec![]));
        replies
    };
    assert!(matches!(
        inproc_connect("peer-local-ice-candidates", &described()),
        Connecting::Next(Next::Fail(detail)) if detail == "no local ICE candidates were gathered"
    ));
    assert!(matches!(
        inproc_connect("peer-wait-connected", &described()),
        Connecting::Next(Next::Ask(Request::WaitBothConnected))
    ));
}

#[test]
fn altered_messages_fail_their_test() {
    let config = config(Role::Offerer);
    let verdict = |test_id: &str, replies: &[Reply]| {
        match exchange(test_id, &config, Side::Offerer, replies) {
            Trial::Over { verdict, .. } => verdict,
            other => panic!("{other:?}"),
        }
    };
    let back = |m: Message| [Reply::Done(Ok(())), Reply::Received(Ok(m))];
    assert_eq!(
        verdict("binary-message", &back(Message::Binary(vec![0, 1, 2, 3, 4, 5]))),
        Ok(())
    );
    assert_eq!(
        verdict("binary-message", &back(Message::Binary(vec![9]))),
        Err("binary payload mismatch".to_string())
    );
    assert_eq!(
        verdict("text-message", &back(Message::Binary(vec![]))),
        Err("text message arrived as binary".to_string())
    );
    assert_eq!(
        verdict("label-round-trip", &[Reply::Label("a\"b".to_string())]),
        Err("label was \"a\\\"b\", expected \"conformance\"".to_string())
    );
    let mut swapped: Vec<Vec<u8>> = (0..4).map(|i| make_payload(i, 256)).collect();
    swapped.swap(0, 1);
    let received = [Reply::Exchanged { sent: Ok(()), received: Ok(swapped) }];
    assert!(verdict("ordering", &received).is_err());
    assert_eq!(verdict("payload-integrity", &received), Ok(()));
}

#[test]
fn malformed_descriptions_must_be_refused() {
    let both = config(Role::Both);
    assert!(matches!(
        run_test("peer-invalid-sdp", &both, &[Reply::Done(Ok(()))]),
        Next::Fail(detail) if detail == "malformed SDP was accepted"
    ));
    assert!(matches!(
        run_test("peer-invalid-sdp", &both, &[Reply::Done(Err(Error::Closed))]),
        Next::Fail(detail) if detail == "expected invalid-signaling, got closed"
    ));
}

#[test]
fn mailbox_problems_end_the_handshake() {
    let failing = [
        Reply::Done(Ok(())),
        Reply::Described(Ok(make_sdp(SdpType::Offer, "o".to_string()))),
        Reply::Done(Ok(())),
        Reply::Published(Err(MailboxProblem::Codec("bad".to_string()))),
    ];
    match handshake_offerer("label-round-trip", &failing) {
        Connecting::Next(Next::Fail(detail)) => assert_eq!(detail, "encode signal: bad"),
        other => panic!("{other:?}"),
    }
    assert_eq!(channel_options("label-round-trip").label.as_deref(), Some("conformance"));
    let unreliable = channel_options("max-retransmits-accepted");
    assert!(unreliable.max_retransmits.is_some());
}

// ----- sequences, streams, barriers -----

#[test]
fn sequences_come_back_as_they_were_sent() {
    let mut replies = Vec::new();
    let mut sent = Vec::new();
    loop {
        match send_sequence(Side::Offerer, 3, 32, &replies, 0) {
            Sending::Ask(Request::Send { message, .. }) => {
                sent.push(message);
                replies.push(Reply::Done(Ok(())));
            }
            Sending::Sent(n) => {
                assert_eq!(n, 3);
                break;
            }
            other => panic!("{other:?}"),
        }
    }
    let received: Vec<Reply> = sent.iter().map(|m| Reply::Received(Ok(copy(m)))).collect();
    match recv_sequence(Side::Answerer, 3, &received, 0) {
        Receiving::Received { payloads, heard } => {
            assert_eq!(heard, 3);
            let expected: Vec<Vec<u8>> = (0..3).map(|i| make_payload(i, 32)).collect();
            assert_eq!(payloads, expected);
        }
        other => panic!("{other:?}"),
    }
    assert!(matches!(
        recv_sequence(Side::Answerer, 1, &[Reply::Received(Err(Error::Closed))], 0),
        Receiving::Fail(_)
    ));
}

#[test]
fn streams_are_fed_head_and_payload_in_turn() {
    assert!(matches!(feed(2, 32, &[]), Feed::Head(32)));
    assert!(matches!(feed(2, 32, &[true]), Feed::Payload(p) if p == make_payload(0, 32)));
    assert!(matches!(feed(2, 32, &[true, true]), Feed::Head(32)));
    assert!(matches!(feed(2, 32, &[true, true, true, true]), Feed::Fed));
    assert!(matches!(feed(2, 32, &[false]), Feed::Fail(_)));
}

#[test]
fn stream_errors_tell_how_many_were_sent() {
    let mut world = World::new();
    let both = config(Role::Both);
    let mut replies = Vec::new();
    loop {
        match run_test("send-via-stream", &both, &replies) {
            Next::Ask(Request::SendViaStream { .. }) => replies.push(Reply::Streamed {
                fed: Ok(()),
                streamed: Err(StreamError { error: Error::Closed, sent: 3 }),
            }),
            Next::Ask(request) => replies.push(world.answer(Side::Offerer, &request).unwrap()),
            Next::Fail(detail) => {
                assert_eq!(detail, "send-via-stream: closed after 3 message(s)");
                break;
            }
            other => panic!("{other:?}"),
        }
    }
}

#[test]
fn barriers_skip_what_is_in_flight() {
    let pending = [Ok(Message::Binary(vec![1])), Ok(Message::Text("x".to_string()))];
    assert!(barrier_receive(&pending).is_none());
    let met = [Ok(Message::Binary(vec![1])), Ok(barrier_message())];
    assert_eq!(barrier_receive(&met), Some(Ok(())));
    assert!(matches!(barrier_receive(&[Err(Error::Closed)]), Some(_)));
    assert_eq!(barrier_send(&Ok(())), Ok(()));
    assert_eq!(barrier(Err("s".to_string()), Ok(())), Err("s".to_string()));
    assert_eq!(barrier(Ok(()), Ok(())), Ok(()));
}

#[test]
fn an_exchange_is_intact_only_both_ways() {
    assert_eq!(exchange_once(Ok(true), Ok(true)), Ok(true));
    assert_eq!(exchange_once(Ok(true), Ok(false)), Ok(false));
    assert_eq!(exchange_once(Ok(true), Err("x".to_string())), Err("x".to_string()));
    let mut first = Vec::new();
    let sent = match first_half(Side::Offerer, &first) {
        Half::Ask(Request::Send { on: Side::Offerer, message }) => message,
        other => panic!("{other:?}"),
    };
    first.push(Reply::Done(Ok(())));
    assert!(matches!(first_half(Side::Offerer, &first), Half::Ask(Request::Receive { .. })));
    let mut second = vec![Reply::Received(Ok(sent))];
    let sent_back = match second_half(Side::Answerer, &second) {
        Half::Ask(Request::Send { on: Side::Answerer, message }) => message,
        other => panic!("{other:?}"),
    };
    second.push(Reply::Done(Ok(())));
    assert!(matches!(second_half(Side::Answerer, &second), Half::Over(Ok(true))));
    first.push(Reply::Received(Ok(sent_back)));
    assert!(matches!(first_half(Side::Offerer, &first), Half::Over(Ok(true))));
    first[1] = Reply::Received(Ok(Message::Binary(vec![])));
    assert!(matches!(first_half(Side::Offerer, &first), Half::Over(Ok(false))));
}

// ----- the demos -----

/// Answer every request of a negotiation as a host that behaves.
fn negotiate(mut next: impl FnMut(&[Reply]) -> Option<Request>) -> Vec<Reply> {
    let mut world = World::new();
    let mut replies = Vec::new();
    while let Some(request) = next(&replies) {
        replies.push(world.answer(Side::Offerer, &request).unwrap());
    }
    replies
}

#[test]
fn demo_pairs_connect() {
    let mut ready = 0;
    let replies = negotiate(|r| match connect_pair(r) {
        Link::Ask(request) => Some(request),
        Link::Ready(n) => {
            ready = n;
            None
        }
        other => panic!("{other:?}"),
    });
    assert_eq!(ready, replies.len());
    let consumer = negotiate(|r| match connect_once(r) {
        Progress::Ask(request) => Some(request),
        Progress::Ready(_) => None,
        other => panic!("{other:?}"),
    });
    assert!(!consumer.is_empty());
    let echo = negotiate(|r| match build_echo(&labelled_options(), r) {
        Link::Ask(request) => Some(request),
        Link::Ready(_) => None,
        other => panic!("{other:?}"),
    });
    assert!(!echo.is_empty());
}

#[test]
fn demo_failures_are_reported() {
    assert!(matches!(
        connect_pair(&[Reply::Done(Err(Error::Closed))]),
        Link::Failed(Error::Closed)
    ));
    let problem = Problem::Failed { stage: Stage::CreateOffer, error: Error::TimedOut };
    let text = describe_attempt(&problem, "Error::TimedOut");
    assert!(text.contains("Error::TimedOut"), "{text}");
    assert!(matches!(after_failure(1, "wait-connected: TimedOut"), Retry::Again(_)));
    assert!(matches!(after_failure(MAX_ATTEMPTS, "wait-connected: TimedOut"), Retry::GiveUp));
    assert!(matches!(after_failure(1, "closed"), Retry::GiveUp));
}

#[test]
fn echoes_return_what_arrives() {
    let heard = || Reply::Received(Ok(Message::Binary(vec![4, 2])));
    match echo_all(1, &[heard()]) {
        EchoLoop::Ask(Request::Send { on: Side::Answerer, message: Message::Binary(data) }) => {
            assert_eq!(data, vec![4, 2])
        }
        other => panic!("{other:?}"),
    }
    assert!(matches!(echo_all(1, &[heard(), Reply::Done(Ok(()))]), EchoLoop::Over(Ok(()))));
    assert!(matches!(echo_all(0, &[]), EchoLoop::Over(Ok(()))));
    match send_all(1, 8, &[]) {
        EchoLoop::Ask(Request::Send { on: Side::Offerer, message: Message::Binary(data) }) => {
            assert_eq!(data, webrtc_datachannels::payload::make_message(8, 0))
        }
        other => panic!("{other:?}"),
    }
    assert_eq!(echo_batch(&[true, true, true], 3), 3);
    assert_eq!(echo_batch(&[true, false, true], 3), 2);
}

#[test]
fn reading_stops_in_time() {
    let batch = |lengths: &[usize], ended| StreamBatch { lengths: lengths.to_vec(), ended };
    let read = read_back(3, &[batch(&[10, 20], false)]);
    assert!(read.more);
    let read = read_back(3, &[batch(&[10, 20], false), batch(&[5], false)]);
    assert!(!read.more);
    assert_eq!((read.tally.messages, read.tally.total), (3, 35));
    assert!(!read_back(3, &[batch(&[1], true)]).more);
}

#[test]
fn demo_statistics_are_checked() {
    let tally = Tally { messages: 2, total: 20 };
    let stats = echo_stats(Ok(()), Ok(()), 2, tally).unwrap();
    assert_eq!(stats.messages_sent, 2);
    assert_eq!(stats.messages_received, 2);
    assert_eq!(stats.bytes_echoed, 20);
    assert!(check_stats(&stats, 2).is_ok());
    assert!(check_stats(&stats, 3).is_err());
    let short = DemoStats { messages_sent: 2, messages_received: 1, bytes_echoed: 1 };
    assert!(check_stats(&short, 2).is_err());
    let tally = Tally { messages: 2, total: 20 };
    assert!(echo_stats(Err(Error::Closed), Ok(()), 2, tally).is_err());
    let tally = Tally { messages: 2, total: 20 };
    assert!(signaling_stats(Side::Offerer, Ok(()), 2, tally).unwrap().connected);
}

// ----- the signaling demo -----

#[test]
fn offers_cross_the_rendezvous() {
    let mut offerer: Vec<Reply> = Vec::new();
    let mut published = Vec::new();
    loop {
        match connect_offerer(&offerer) {
            Link::Ask(Request::SendBlob { blob }) => {
                published.push(blob);
                offerer.push(Reply::Done(Ok(())));
                break;
            }
            Link::Ask(Request::CreateOffer { .. }) => offerer.push(Reply::Described(Ok(make_sdp(
                SdpType::Offer,
                "v=0 o".to_string(),
            )))),
            Link::Ask(_) => offerer.push(Reply::Done(Ok(()))),
            other => panic!("{other:?}"),
        }
    }
    let mut answerer: Vec<Reply> = Vec::new();
    loop {
        match connect_answerer(&answerer) {
            Link::Ask(Request::RecvBlob) => {
                answerer.push(Reply::Blob(Ok(Some(published[0].clone()))))
            }
            Link::Ask(Request::SetRemote { description, .. }) => {
                assert_eq!(description.sdp, "v=0 o");
                assert_eq!(description.kind, SdpType::Offer);
                break;
            }
            Link::Ask(_) => answerer.push(Reply::Done(Ok(()))),
            other => panic!("{other:?}"),
        }
    }
}

#[test]
fn remote_signals_are_consumed_by_kind() {
    let offer = encode_sdp(&make_sdp(SdpType::Offer, "v=0".to_string()));
    assert!(matches!(consume_remote_signal(Some(&offer)), Consumed::SetRemote(d) if d.sdp == "v=0"));
    let ice = encode_ice(&candidate("c"));
    assert!(matches!(
        consume_remote_signal(Some(&ice)),
        Consumed::AddCandidate(c) if c.candidate == "c"
    ));
    assert!(matches!(consume_remote_signal(Some(b"junk")), Consumed::Skip));
    assert!(matches!(consume_remote_signal(None), Consumed::End));
    assert_eq!(forward_local_ice(&[candidate("c")]), vec![ice]);
}
