//! The conformance guest: its corpus, and how it runs one test to its outcome.

use vstd::prelude::*;

use crate::corpus::{plan_of, Plan, TESTS, TWO_PEER_TESTS};
use crate::exchange::{exchange, exchange_script, Trial, TrialView};
use crate::handshake::{
    answering, handshake_answerer, handshake_offerer, lemma_handshakes_do_not_pass, offering,
};
use crate::inproc::{
    connected_then, inproc, inproc_round_trip, rest, round_trip_tail, Connecting, ConnectingView,
};
use crate::outcome::{OutcomeView, TestOutcome};
use crate::probes::{
    at_least, error_closed, error_closed_tail, error_timed_out, error_timed_out_script, invalid_sdp,
    invalid_sdp_script, latch_tail, overflow_flood, post_close_send, post_close_send_tail,
    post_close_signaling, post_close_signaling_script, receive_overflow, streams_once,
    streams_once_tail, wait_connected_latch,
};
use crate::script::{
    fail, failure, replies_view, Next, NextView, Reply, ReplyView, Request, RequestView, Side,
};
use crate::stream_probes::{
    claim_once_tail, receive_via_stream_once, receive_via_stream_round_trip,
    receive_via_stream_tail, send_via_stream_round_trip, send_via_stream_tail,
};
use crate::suite::{Role, TestConfig, TestConfigView};
use crate::text::{lemma_texts_push, same, texts, views};

verus! {

broadcast use lemma_texts_push;

// ----- the corpus ------------------------------------------------------------------------------------

/// A test and its tags.
#[derive(Debug, Clone)]
pub struct TestDescriptor {
    pub id: String,
    pub tags: Vec<String>,
}

/// The contents of a [`TestDescriptor`].
#[verifier::ext_equal]
pub struct DescriptorView {
    pub id: Seq<char>,
    pub tags: Seq<Seq<char>>,
}

impl View for TestDescriptor {
    type V = DescriptorView;

    open spec fn view(&self) -> DescriptorView {
        DescriptorView { id: self.id@, tags: texts(self.tags@) }
    }
}

/// A test and its tags.
pub open spec fn tagged(id: Seq<char>, tags: Seq<Seq<char>>) -> DescriptorView {
    DescriptorView { id, tags }
}

/// The test corpus.
pub open spec fn corpus_entries() -> Seq<DescriptorView> {
    seq![
        tagged("label-round-trip"@, seq!["data-channel"@]),
        tagged("binary-message"@, seq!["data-channel"@]),
        tagged("text-message"@, seq!["data-channel"@]),
        tagged("message-boundaries"@, seq!["data-channel"@]),
        tagged("zero-length-message"@, seq!["data-channel"@]),
        tagged("large-message"@, seq!["data-channel"@]),
        tagged("ordering"@, seq!["data-channel"@]),
        tagged("payload-integrity"@, seq!["data-channel"@]),
        tagged("concurrent-send-receive"@, seq!["data-channel"@]),
        tagged("send-via-stream"@, seq!["data-channel"@, "streaming"@]),
        tagged("receive-via-stream"@, seq!["data-channel"@, "streaming"@]),
        tagged("receive-via-stream-once"@, seq!["data-channel"@, "streaming"@, "errors"@]),
        tagged("post-close-send"@, seq!["data-channel"@, "errors"@]),
        tagged("receive-buffer-overflow"@, seq!["data-channel"@, "errors"@, "flow-control"@]),
        tagged("max-retransmits-accepted"@, seq!["data-channel"@, "unreliable-channels"@]),
        tagged("error-invalid-signaling"@, seq!["errors"@]),
        tagged("error-closed"@, seq!["errors"@]),
        tagged("error-timed-out"@, seq!["errors"@]),
        tagged("peer-offer-answer"@, seq!["peer-connection"@]),
        tagged("peer-create-data-channel"@, seq!["peer-connection"@]),
        tagged("peer-local-ice-candidates"@, seq!["peer-connection"@]),
        tagged("peer-add-ice-candidate"@, seq!["peer-connection"@]),
        tagged("peer-wait-connected"@, seq!["peer-connection"@]),
        tagged("peer-wait-connected-latch"@, seq!["peer-connection"@]),
        tagged("peer-streams-once"@, seq!["peer-connection"@]),
        tagged("post-close-signaling"@, seq!["peer-connection"@, "errors"@]),
        tagged("peer-close-releases"@, seq!["peer-connection"@]),
        tagged("peer-invalid-sdp"@, seq!["peer-connection"@, "errors"@]),
        tagged("interop-handshake"@, seq!["interop"@, "signaling"@]),
    ]
}

fn describe_test(id: &str, tags: &[&str]) -> (r: TestDescriptor)
    ensures
        r@ == tagged(id@, views(tags@)),
{
    let mut list: Vec<String> = Vec::new();
    assert(texts(list@) =~= views(tags@).take(0));
    let mut i: usize = 0;
    while i < tags.len()
        invariant
            i <= tags@.len(),
            texts(list@) == views(tags@).take(i as int),
        decreases tags@.len() - i,
    {
        let tag = tags[i].to_string();
        assert(tag@ == views(tags@)[i as int]);
        list.push(tag);
        i = i + 1;
        assert(texts(list@) =~= views(tags@).take(i as int));
    }
    assert(views(tags@).take(i as int) =~= views(tags@));
    TestDescriptor { id: id.to_string(), tags: list }
}

/// The contents of a list of descriptors.
pub open spec fn descriptors_view(list: Seq<TestDescriptor>) -> Seq<DescriptorView> {
    list.map_values(|d: TestDescriptor| d@)
}

fn push_test(list: &mut Vec<TestDescriptor>, id: &str, tags: &[&str])
    ensures
        descriptors_view(final(list)@) == descriptors_view(old(list)@).push(
            tagged(id@, views(tags@)),
        ),
{
    let ghost before = descriptors_view(list@);
    list.push(describe_test(id, tags));
    assert(descriptors_view(list@) =~= before.push(tagged(id@, views(tags@))));
}

/// Every test of the corpus, with its tags.
pub fn list_tests() -> (r: Vec<TestDescriptor>)
    ensures
        descriptors_view(r@) == corpus_entries(),
{
    let mut list: Vec<TestDescriptor> = Vec::new();
    assert(descriptors_view(list@) =~= seq![]);
    push_test(&mut list, "label-round-trip", &["data-channel"]);
    push_test(&mut list, "binary-message", &["data-channel"]);
    push_test(&mut list, "text-message", &["data-channel"]);
    push_test(&mut list, "message-boundaries", &["data-channel"]);
    push_test(&mut list, "zero-length-message", &["data-channel"]);
    push_test(&mut list, "large-message", &["data-channel"]);
    push_test(&mut list, "ordering", &["data-channel"]);
    push_test(&mut list, "payload-integrity", &["data-channel"]);
    push_test(&mut list, "concurrent-send-receive", &["data-channel"]);
    push_test(&mut list, "send-via-stream", &["data-channel", "streaming"]);
    push_test(&mut list, "receive-via-stream", &["data-channel", "streaming"]);
    push_test(&mut list, "receive-via-stream-once", &["data-channel", "streaming", "errors"]);
    push_test(&mut list, "post-close-send", &["data-channel", "errors"]);
    push_test(&mut list, "receive-buffer-overflow", &["data-channel", "errors", "flow-control"]);
    push_test(&mut list, "max-retransmits-accepted", &["data-channel", "unreliable-channels"]);
    push_test(&mut list, "error-invalid-signaling", &["errors"]);
    push_test(&mut list, "error-closed", &["errors"]);
    push_test(&mut list, "error-timed-out", &["errors"]);
    push_test(&mut list, "peer-offer-answer", &["peer-connection"]);
    push_test(&mut list, "peer-create-data-channel", &["peer-connection"]);
    push_test(&mut list, "peer-local-ice-candidates", &["peer-connection"]);
    push_test(&mut list, "peer-add-ice-candidate", &["peer-connection"]);
    push_test(&mut list, "peer-wait-connected", &["peer-connection"]);
    push_test(&mut list, "peer-wait-connected-latch", &["peer-connection"]);
    push_test(&mut list, "peer-streams-once", &["peer-connection"]);
    push_test(&mut list, "post-close-signaling", &["peer-connection", "errors"]);
    push_test(&mut list, "peer-close-releases", &["peer-connection"]);
    push_test(&mut list, "peer-invalid-sdp", &["peer-connection", "errors"]);
    push_test(&mut list, "interop-handshake", &["interop", "signaling"]);
    assert(descriptors_view(list@) =~~= corpus_entries());
    list
}

// ----- in-process tests -----------------------------------------------------------------------------------

/// The tests that run as a single instance, with two in-process peer connections or, for
/// some probes, a single one.
pub open spec fn runs_in_process(test_id: Seq<char>) -> bool {
    ||| test_id == "peer-offer-answer"@
    ||| test_id == "peer-create-data-channel"@
    ||| test_id == "peer-local-ice-candidates"@
    ||| test_id == "peer-add-ice-candidate"@
    ||| test_id == "peer-wait-connected"@
    ||| test_id == "peer-wait-connected-latch"@
    ||| test_id == "peer-streams-once"@
    ||| test_id == "post-close-signaling"@
    ||| test_id == "peer-close-releases"@
    ||| test_id == "peer-invalid-sdp"@
    ||| test_id == "error-invalid-signaling"@
    ||| test_id == "error-closed"@
    ||| test_id == "error-timed-out"@
    ||| test_id == "post-close-send"@
    ||| test_id == "receive-buffer-overflow"@
    ||| test_id == "send-via-stream"@
    ||| test_id == "receive-via-stream"@
    ||| test_id == "receive-via-stream-once"@
}

fn in_process(test_id: &str) -> (r: bool)
    ensures
        r == runs_in_process(test_id@),
{
    same(test_id, "peer-offer-answer")
        || same(test_id, "peer-create-data-channel")
        || same(test_id, "peer-local-ice-candidates")
        || same(test_id, "peer-add-ice-candidate")
        || same(test_id, "peer-wait-connected")
        || same(test_id, "peer-wait-connected-latch")
        || same(test_id, "peer-streams-once")
        || same(test_id, "post-close-signaling")
        || same(test_id, "peer-close-releases")
        || same(test_id, "peer-invalid-sdp")
        || same(test_id, "error-invalid-signaling")
        || same(test_id, "error-closed")
        || same(test_id, "error-timed-out")
        || same(test_id, "post-close-send")
        || same(test_id, "receive-buffer-overflow")
        || same(test_id, "send-via-stream")
        || same(test_id, "receive-via-stream")
        || same(test_id, "receive-via-stream-once")
}

/// A single-instance test.
pub open spec fn inproc_script(test_id: Seq<char>, config: TestConfigView, h: Seq<ReplyView>) -> NextView {
    let count = at_least(config.message_count, 1);
    let size = at_least(config.message_size, 16);
    if test_id == "error-invalid-signaling"@ || test_id == "peer-invalid-sdp"@ {
        invalid_sdp_script(h)
    } else if test_id == "receive-buffer-overflow"@ {
        connected_then(
            test_id,
            h,
            |t: Seq<ReplyView>| overflow_flood(t, 0, count, config.message_size),
        )
    } else if test_id == "error-closed"@ {
        connected_then(test_id, h, |t: Seq<ReplyView>| error_closed_tail(t))
    } else if test_id == "error-timed-out"@ {
        error_timed_out_script(h)
    } else if test_id == "post-close-send"@ {
        connected_then(test_id, h, |t: Seq<ReplyView>| post_close_send_tail(t))
    } else if test_id == "peer-wait-connected-latch"@ {
        connected_then(test_id, h, |t: Seq<ReplyView>| latch_tail(t))
    } else if test_id == "peer-streams-once"@ {
        connected_then(test_id, h, |t: Seq<ReplyView>| streams_once_tail(t))
    } else if test_id == "post-close-signaling"@ {
        post_close_signaling_script(h)
    } else if test_id == "send-via-stream"@ {
        connected_then(test_id, h, |t: Seq<ReplyView>| send_via_stream_tail(t, count, size))
    } else if test_id == "receive-via-stream"@ {
        connected_then(test_id, h, |t: Seq<ReplyView>| receive_via_stream_tail(t, count, size))
    } else if test_id == "receive-via-stream-once"@ {
        connected_then(test_id, h, |t: Seq<ReplyView>| claim_once_tail(t))
    } else {
        connected_then(test_id, h, |t: Seq<ReplyView>| round_trip_tail(t))
    }
}

/// Run a single-instance peer-connection test: stand up two peers in-process (no external
/// signaling) and exercise the targeted API surface.
pub fn run_inproc(test_id: &str, config: &TestConfig, replies: &[Reply]) -> (r: Next)
    ensures
        r@ == inproc_script(test_id@, config@, replies_view(replies@)),
{
    if same(test_id, "error-invalid-signaling") || same(test_id, "peer-invalid-sdp") {
        invalid_sdp(replies)
    } else if same(test_id, "receive-buffer-overflow") {
        receive_overflow(config, replies)
    } else if same(test_id, "error-closed") {
        error_closed(replies)
    } else if same(test_id, "error-timed-out") {
        error_timed_out(replies)
    } else if same(test_id, "post-close-send") {
        post_close_send(replies)
    } else if same(test_id, "peer-wait-connected-latch") {
        wait_connected_latch(replies)
    } else if same(test_id, "peer-streams-once") {
        streams_once(replies)
    } else if same(test_id, "post-close-signaling") {
        post_close_signaling(replies)
    } else if same(test_id, "send-via-stream") {
        send_via_stream_round_trip(config, replies)
    } else if same(test_id, "receive-via-stream") {
        receive_via_stream_round_trip(config, replies)
    } else if same(test_id, "receive-via-stream-once") {
        receive_via_stream_once(replies)
    } else {
        inproc_round_trip(test_id, replies)
    }
}

// ----- two-peer tests -----------------------------------------------------------------------------------------

/// The own peer is closed before a verdict is given.
pub open spec fn closed_then(t: Seq<ReplyView>, on: Side, at: int, verdict: NextView) -> NextView {
    if t.len() <= at {
        NextView::Ask(RequestView::Close { on })
    } else {
        verdict
    }
}

/// A verdict.
pub open spec fn verdict_of(outcome: Result<(), Seq<char>>) -> NextView {
    match outcome {
        Ok(()) => NextView::Pass,
        Err(detail) => NextView::Fail(detail),
    }
}

/// What follows the handshake: the payload exchange and, if it went well, the rendezvous;
/// then the peer is closed.
pub open spec fn exchange_tail(
    test_id: Seq<char>,
    config: TestConfigView,
    on: Side,
    t: Seq<ReplyView>,
) -> NextView {
    match exchange_script(test_id, config, on, t) {
        TrialView::Ask(request) => NextView::Ask(request),
        TrialView::OutOfStep => NextView::OutOfStep,
        TrialView::Over { verdict: Err(detail), heard } => closed_then(
            t,
            on,
            heard as int,
            NextView::Fail(detail),
        ),
        TrialView::Over { verdict: Ok(()), heard } => if t.len() <= heard {
            NextView::Ask(RequestView::Barrier { on })
        } else {
            match t[heard as int] {
                ReplyView::Met(outcome) => closed_then(
                    t,
                    on,
                    heard as int + 1,
                    verdict_of(outcome),
                ),
                _ => NextView::OutOfStep,
            }
        },
    }
}

/// The side that a role plays in a two-peer test.
pub open spec fn side_of(role: Role) -> Option<Side> {
    match role {
        Role::Offerer => Some(Side::Offerer),
        Role::Answerer => Some(Side::Answerer),
        Role::Both => None,
    }
}

/// A two-peer test.
pub open spec fn two_peer_script(test_id: Seq<char>, config: TestConfigView, h: Seq<ReplyView>) -> NextView {
    match side_of(config.role) {
        None => NextView::Fail("two-peer test invoked with role=both"@),
        Some(on) => if h.len() == 0 {
            NextView::Ask(
                RequestView::OpenMailbox {
                    server: config.signaling_server,
                    room: config.room,
                    role: on,
                },
            )
        } else {
            match h[0] {
                ReplyView::Done(Err(error)) => NextView::Fail(failure("mailbox open"@, error)),
                ReplyView::Done(Ok(())) => {
                    let t = h.skip(1);
                    let connecting = match on {
                        Side::Offerer => offering(test_id, t),
                        Side::Answerer => answering(t),
                    };
                    match connecting {
                        ConnectingView::Next(next) => next,
                        ConnectingView::Ready(n) => exchange_tail(
                            test_id,
                            config,
                            on,
                            t.skip(n as int),
                        ),
                    }
                },
                _ => NextView::OutOfStep,
            }
        },
    }
}

fn close_then(n: usize, on: Side, at: usize, verdict: Next) -> (r: Next)
    ensures
        forall|t: Seq<ReplyView>|
            t.len() == n ==> r@ == #[trigger] closed_then(t, on, at as int, verdict@),
{
    if n <= at {
        Next::Ask(Request::Close { on })
    } else {
        verdict
    }
}

/// Run a two-peer behavioral test: complete the mailbox-driven handshake for this
/// instance's role, then run the per-test payload exchange over the connected data
/// channel. The peers meet once more before they tear down, so neither closes the
/// connection while the other still needs it.
pub fn run_two_peer(test_id: &str, config: &TestConfig, replies: &[Reply]) -> (r: Next)
    ensures
        r@ == two_peer_script(test_id@, config@, replies_view(replies@)),
{
    let on = match config.role {
        Role::Both => {
            return Next::Fail("two-peer test invoked with role=both".to_string());
        },
        Role::Offerer => Side::Offerer,
        Role::Answerer => Side::Answerer,
    };
    if replies.len() == 0 {
        return Next::Ask(
            Request::OpenMailbox {
                server: config.signaling_server.clone(),
                room: config.room.clone(),
                role: on,
            },
        );
    }
    match &replies[0] {
        Reply::Done(Ok(())) => {},
        Reply::Done(Err(error)) => {
            return Next::Fail(fail("mailbox open", error));
        },
        _ => {
            return Next::OutOfStep;
        },
    }
    let joined = rest(replies, 1);
    let connecting = match on {
        Side::Offerer => handshake_offerer(test_id, joined),
        Side::Answerer => handshake_answerer(joined),
    };
    let n = match connecting {
        Connecting::Next(next) => {
            return next;
        },
        Connecting::Ready(n) => n,
    };
    let tail = rest(joined, n);
    match exchange(test_id, config, on, tail) {
        Trial::Ask(request) => Next::Ask(request),
        Trial::OutOfStep => Next::OutOfStep,
        Trial::Over { verdict: Err(detail), heard } => close_then(
            tail.len(),
            on,
            heard,
            Next::Fail(detail),
        ),
        Trial::Over { verdict: Ok(()), heard } => {
            if tail.len() <= heard {
                return Next::Ask(Request::Barrier { on });
            }
            match &tail[heard] {
                Reply::Met(Ok(())) => close_then(tail.len(), on, heard + 1, Next::Pass),
                Reply::Met(Err(detail)) => close_then(
                    tail.len(),
                    on,
                    heard + 1,
                    Next::Fail(detail.clone()),
                ),
                _ => Next::OutOfStep,
            }
        },
    }
}

// ----- one test -----------------------------------------------------------------------------------------------

/// A test of the guest.
pub open spec fn guest_script(test_id: Seq<char>, config: TestConfigView, h: Seq<ReplyView>) -> NextView {
    if runs_in_process(test_id) {
        inproc_script(test_id, config, h)
    } else {
        two_peer_script(test_id, config, h)
    }
}

/// Run a test by id: from the replies so far to what comes next.
pub fn run_test(test_id: &str, config: &TestConfig, replies: &[Reply]) -> (r: Next)
    ensures
        r@ == guest_script(test_id@, config@, replies_view(replies@)),
{
    if in_process(test_id) {
        run_inproc(test_id, config, replies)
    } else {
        run_two_peer(test_id, config, replies)
    }
}

/// The outcome that a script has come to, if it has.
pub open spec fn outcome_of_next(next: NextView) -> Option<OutcomeView> {
    match next {
        NextView::Pass => Some(OutcomeView::Pass),
        NextView::Fail(detail) => Some(OutcomeView::Fail(detail)),
        _ => None,
    }
}

/// The outcome that a script has come to, if it has. No script skips its test.
pub fn outcome_so_far(next: &Next) -> (r: Option<TestOutcome>)
    ensures
        match r {
            Some(outcome) => outcome_of_next(next@) == Some(outcome@),
            None => outcome_of_next(next@) is None,
        },
{
    match next {
        Next::Pass => Some(TestOutcome::Pass),
        Next::Fail(detail) => Some(TestOutcome::Fail(detail.clone())),
        _ => None,
    }
}

/// A two-peer test passes only if all of it went well: the mailbox was opened, the
/// handshake connected the peers, the exchange succeeded and the peers met, in this order.
pub proof fn law_two_peer_tests_pass_only_after_everything(
    test_id: Seq<char>,
    config: TestConfigView,
    h: Seq<ReplyView>,
)
    requires
        two_peer_script(test_id, config, h) == NextView::Pass,
    ensures
        side_of(config.role) is Some,
        h.len() > 0,
        h[0] matches ReplyView::Done(Ok(_)),
        ({
            let connecting = match side_of(config.role)->0 {
                Side::Offerer => offering(test_id, h.skip(1)),
                Side::Answerer => answering(h.skip(1)),
            };
            connecting matches ConnectingView::Ready(n) && {
                let t = h.skip(1).skip(n as int);
                match exchange_script(test_id, config, side_of(config.role)->0, t) {
                    TrialView::Over { verdict: Ok(()), heard } => heard + 1 < t.len() && (
                    t[heard as int] matches ReplyView::Met(Ok(_))),
                    _ => false,
                }
            }
        }),
{
    lemma_handshakes_do_not_pass(test_id, h.skip(1));
}

// ----- laws -----------------------------------------------------------------------------------------------------

/// The names of the single-instance tests, pairwise different.
proof fn lemma_inproc_names()
    ensures
        "error-invalid-signaling"@.len() == 23,
        "peer-invalid-sdp"@.len() == 16,
        "receive-buffer-overflow"@.len() == 23,
        "error-closed"@.len() == 12,
        "error-timed-out"@.len() == 15,
        "post-close-send"@.len() == 15,
        "peer-wait-connected-latch"@.len() == 25,
        "peer-streams-once"@.len() == 17,
        "post-close-signaling"@.len() == 20,
        "send-via-stream"@.len() == 15,
        "receive-via-stream"@.len() == 18,
        "receive-via-stream-once"@.len() == 23,
        "peer-offer-answer"@.len() == 17,
        "peer-create-data-channel"@.len() == 24,
        "peer-local-ice-candidates"@.len() == 25,
        "peer-add-ice-candidate"@.len() == 22,
        "peer-wait-connected"@.len() == 19,
        "peer-close-releases"@.len() == 19,
        "error-invalid-signaling"@ != "receive-buffer-overflow"@,
        "error-invalid-signaling"@ != "receive-via-stream-once"@,
        "receive-buffer-overflow"@ != "receive-via-stream-once"@,
        "error-timed-out"@ != "post-close-send"@,
        "error-timed-out"@ != "send-via-stream"@,
        "post-close-send"@ != "send-via-stream"@,
        "peer-wait-connected-latch"@ != "peer-local-ice-candidates"@,
        "peer-streams-once"@ != "peer-offer-answer"@,
        "peer-wait-connected"@ != "peer-close-releases"@,
{
    reveal_strlit("error-invalid-signaling");
    reveal_strlit("peer-invalid-sdp");
    reveal_strlit("receive-buffer-overflow");
    reveal_strlit("error-closed");
    reveal_strlit("error-timed-out");
    reveal_strlit("post-close-send");
    reveal_strlit("peer-wait-connected-latch");
    reveal_strlit("peer-streams-once");
    reveal_strlit("post-close-signaling");
    reveal_strlit("send-via-stream");
    reveal_strlit("receive-via-stream");
    reveal_strlit("receive-via-stream-once");
    reveal_strlit("peer-offer-answer");
    reveal_strlit("peer-create-data-channel");
    reveal_strlit("peer-local-ice-candidates");
    reveal_strlit("peer-add-ice-candidate");
    reveal_strlit("peer-wait-connected");
    reveal_strlit("peer-close-releases");
    assert("error-invalid-signaling"@.len() == 23);
    assert("peer-invalid-sdp"@.len() == 16);
    assert("receive-buffer-overflow"@.len() == 23);
    assert("error-closed"@.len() == 12);
    assert("error-timed-out"@.len() == 15);
    assert("post-close-send"@.len() == 15);
    assert("peer-wait-connected-latch"@.len() == 25);
    assert("peer-streams-once"@.len() == 17);
    assert("post-close-signaling"@.len() == 20);
    assert("send-via-stream"@.len() == 15);
    assert("receive-via-stream"@.len() == 18);
    assert("receive-via-stream-once"@.len() == 23);
    assert("peer-offer-answer"@.len() == 17);
    assert("peer-create-data-channel"@.len() == 24);
    assert("peer-local-ice-candidates"@.len() == 25);
    assert("peer-add-ice-candidate"@.len() == 22);
    assert("peer-wait-connected"@.len() == 19);
    assert("peer-close-releases"@.len() == 19);
    assert("error-invalid-signaling"@[0] == 'e' && "receive-buffer-overflow"@[0] == 'r');
    assert("error-invalid-signaling"@[0] == 'e' && "receive-via-stream-once"@[0] == 'r');
    assert("receive-buffer-overflow"@[8] == 'b' && "receive-via-stream-once"@[8] == 'v');
    assert("error-timed-out"@[0] == 'e' && "post-close-send"@[0] == 'p');
    assert("error-timed-out"@[0] == 'e' && "send-via-stream"@[0] == 's');
    assert("post-close-send"@[0] == 'p' && "send-via-stream"@[0] == 's');
    assert("peer-wait-connected-latch"@[5] == 'w' && "peer-local-ice-candidates"@[5] == 'l');
    assert("peer-streams-once"@[5] == 's' && "peer-offer-answer"@[5] == 'o');
    assert("peer-wait-connected"@[5] == 'w' && "peer-close-releases"@[5] == 'c');
}

/// Every single-instance test runs a script of its own: no test passes or fails by what
/// another is about. The tests of the peer-connection surface without a probe of their own
/// send a message each way.
pub proof fn law_each_test_runs_its_own_script(config: TestConfigView, h: Seq<ReplyView>)
    ensures
        ({
            let run = |id: Seq<char>| guest_script(id, config, h);
            let count = if config.message_count < 1 {
                1u32
            } else {
                config.message_count
            };
            let size = if config.message_size < 16 {
                16u32
            } else {
                config.message_size
            };
            &&& run("error-invalid-signaling"@) == invalid_sdp_script(h)
            &&& run("peer-invalid-sdp"@) == invalid_sdp_script(h)
            &&& run("error-timed-out"@) == error_timed_out_script(h)
            &&& run("post-close-signaling"@) == post_close_signaling_script(h)
            &&& run("receive-buffer-overflow"@) == match inproc("receive-buffer-overflow"@, h) {
                ConnectingView::Next(next) => next,
                ConnectingView::Ready(n) => overflow_flood(
                    h.skip(n as int),
                    0,
                    count,
                    config.message_size,
                ),
            }
            &&& run("error-closed"@) == match inproc("error-closed"@, h) {
                ConnectingView::Next(next) => next,
                ConnectingView::Ready(n) => error_closed_tail(h.skip(n as int)),
            }
            &&& run("post-close-send"@) == match inproc("post-close-send"@, h) {
                ConnectingView::Next(next) => next,
                ConnectingView::Ready(n) => post_close_send_tail(h.skip(n as int)),
            }
            &&& run("peer-wait-connected-latch"@) == match inproc("peer-wait-connected-latch"@, h) {
                ConnectingView::Next(next) => next,
                ConnectingView::Ready(n) => latch_tail(h.skip(n as int)),
            }
            &&& run("peer-streams-once"@) == match inproc("peer-streams-once"@, h) {
                ConnectingView::Next(next) => next,
                ConnectingView::Ready(n) => streams_once_tail(h.skip(n as int)),
            }
            &&& run("send-via-stream"@) == match inproc("send-via-stream"@, h) {
                ConnectingView::Next(next) => next,
                ConnectingView::Ready(n) => send_via_stream_tail(h.skip(n as int), count, size),
            }
            &&& run("receive-via-stream"@) == match inproc("receive-via-stream"@, h) {
                ConnectingView::Next(next) => next,
                ConnectingView::Ready(n) => receive_via_stream_tail(h.skip(n as int), count, size),
            }
            &&& run("receive-via-stream-once"@) == match inproc("receive-via-stream-once"@, h) {
                ConnectingView::Next(next) => next,
                ConnectingView::Ready(n) => claim_once_tail(h.skip(n as int)),
            }
        }),
        forall|id: Seq<char>|
            id == "peer-offer-answer"@ || id == "peer-create-data-channel"@ || id
                == "peer-local-ice-candidates"@ || id == "peer-add-ice-candidate"@ || id
                == "peer-wait-connected"@ || id == "peer-close-releases"@ ==> (
            #[trigger] guest_script(id, config, h)) == match inproc(id, h) {
                ConnectingView::Next(next) => next,
                ConnectingView::Ready(n) => round_trip_tail(h.skip(n as int)),
            },
{
    lemma_inproc_names();
}

/// The tests that the corpus runs as one instance are single-instance tests of the guest,
/// and those it runs between two peers are not: both sides agree on every such test.
pub proof fn law_corpus_and_guest_agree(test_id: Seq<char>, i: int)
    requires
        0 <= i < TWO_PEER_TESTS@.len(),
    ensures
        plan_of(test_id) != Plan::TwoPeer ==> runs_in_process(test_id),
        !runs_in_process(TWO_PEER_TESTS@[i]@),
{
    lemma_inproc_names();
    reveal_strlit("error-invalid-signaling");
    reveal_strlit("peer-invalid-sdp");
    reveal_strlit("receive-buffer-overflow");
    reveal_strlit("error-closed");
    reveal_strlit("error-timed-out");
    reveal_strlit("post-close-send");
    reveal_strlit("peer-wait-connected-latch");
    reveal_strlit("peer-streams-once");
    reveal_strlit("post-close-signaling");
    reveal_strlit("send-via-stream");
    reveal_strlit("receive-via-stream");
    reveal_strlit("receive-via-stream-once");
    reveal_strlit("peer-offer-answer");
    reveal_strlit("peer-create-data-channel");
    reveal_strlit("peer-local-ice-candidates");
    reveal_strlit("peer-add-ice-candidate");
    reveal_strlit("peer-wait-connected");
    reveal_strlit("peer-close-releases");
    reveal_strlit("label-round-trip");
    assert("label-round-trip"@.len() == 16);
    reveal_strlit("binary-message");
    assert("binary-message"@.len() == 14);
    reveal_strlit("text-message");
    assert("text-message"@.len() == 12);
    reveal_strlit("message-boundaries");
    assert("message-boundaries"@.len() == 18);
    reveal_strlit("zero-length-message");
    assert("zero-length-message"@.len() == 19);
    reveal_strlit("large-message");
    assert("large-message"@.len() == 13);
    reveal_strlit("ordering");
    assert("ordering"@.len() == 8);
    reveal_strlit("payload-integrity");
    assert("payload-integrity"@.len() == 17);
    reveal_strlit("concurrent-send-receive");
    assert("concurrent-send-receive"@.len() == 23);
    reveal_strlit("max-retransmits-accepted");
    assert("max-retransmits-accepted"@.len() == 24);
    reveal_strlit("interop-handshake");
    assert("interop-handshake"@.len() == 17);
    let id = TWO_PEER_TESTS@[i]@;
    assert(id[0] == 'l' || id[0] == 'b' || id[0] == 't' || id[0] == 'm' || id[0] == 'z' || id[0] == 'o'
        || (id[0] == 'p' && id[1] == 'a') || id[0] == 'c' || id[0] == 'i');
}

/// Every single-instance test is a test of the corpus, under its own name.
pub proof fn law_single_instance_tests_are_listed(test_id: Seq<char>)
    requires
        runs_in_process(test_id),
    ensures
        exists|i: int|
            0 <= i < corpus_entries().len() && (#[trigger] corpus_entries()[i]).id == test_id,
{
    let all = corpus_entries();
    assert(all[9].id == "send-via-stream"@);
    assert(all[10].id == "receive-via-stream"@);
    assert(all[11].id == "receive-via-stream-once"@);
    assert(all[12].id == "post-close-send"@);
    assert(all[13].id == "receive-buffer-overflow"@);
    assert(all[15].id == "error-invalid-signaling"@);
    assert(all[16].id == "error-closed"@);
    assert(all[17].id == "error-timed-out"@);
    assert(all[18].id == "peer-offer-answer"@);
    assert(all[19].id == "peer-create-data-channel"@);
    assert(all[20].id == "peer-local-ice-candidates"@);
    assert(all[21].id == "peer-add-ice-candidate"@);
    assert(all[22].id == "peer-wait-connected"@);
    assert(all[23].id == "peer-wait-connected-latch"@);
    assert(all[24].id == "peer-streams-once"@);
    assert(all[25].id == "post-close-signaling"@);
    assert(all[26].id == "peer-close-releases"@);
    assert(all[27].id == "peer-invalid-sdp"@);
}

/// Every registered test is a test of the corpus.
pub proof fn law_registered_tests_are_listed(j: int)
    requires
        0 <= j < TESTS@.len(),
    ensures
        exists|i: int|
            0 <= i < corpus_entries().len() && (#[trigger] corpus_entries()[i]).id == TESTS@[j]@,
{
    let all = corpus_entries();
    let at = if j <= 12 {
        j
    } else if j <= 21 {
        j + 1
    } else if j <= 23 {
        j + 4
    } else {
        28
    };
    assert(all[at].id == TESTS@[j]@);
}

/// What the tags say: a test between two peers and a probe of a channel are about the data
/// channel; a test of the peer-connection surface is about that; whatever has to end in an
/// error is about errors.
pub proof fn law_tags_say_what_a_test_is_about(i: int)
    requires
        0 <= i < corpus_entries().len(),
    ensures
        corpus_entries()[i].tags.len() > 0,
        i <= 14 ==> corpus_entries()[i].tags[0] == "data-channel"@,
        15 <= i <= 17 ==> corpus_entries()[i].tags == seq!["errors"@],
        18 <= i <= 27 ==> corpus_entries()[i].tags[0] == "peer-connection"@,
        i == 28 ==> corpus_entries()[i].tags == seq!["interop"@, "signaling"@],
        9 <= i <= 11 ==> corpus_entries()[i].tags[1] == "streaming"@,
        i == 11 || i == 13 || i == 12 || i == 25 || i == 27 ==> corpus_entries()[i].tags.contains(
            "errors"@,
        ),
        i == 13 ==> corpus_entries()[i].tags.contains("flow-control"@),
        i == 14 ==> corpus_entries()[i].tags.contains("unreliable-channels"@),
        corpus_entries().len() == 29,
{
    let tags = corpus_entries()[i].tags;
    if i == 11 {
        assert(tags[2] == "errors"@);
    }
    if i == 12 || i == 13 || i == 25 || i == 27 {
        assert(tags[1] == "errors"@);
    }
    if i == 13 {
        assert(tags[2] == "flow-control"@);
    }
    if i == 14 {
        assert(tags[1] == "unreliable-channels"@);
    }
}

/// A verdict of a two-peer test comes only once the own peer was closed; a good exchange
/// is followed by the rendezvous first, and the rendezvous decides the verdict.
pub proof fn law_the_peer_is_closed_before_the_verdict(
    test_id: Seq<char>,
    config: TestConfigView,
    on: Side,
    t: Seq<ReplyView>,
)
    ensures
        exchange_script(test_id, config, on, t) matches TrialView::Over { verdict: Err(detail), heard }
            ==> exchange_tail(test_id, config, on, t) == (if t.len() <= heard {
            NextView::Ask(RequestView::Close { on })
        } else {
            NextView::Fail(detail)
        }),
        exchange_script(test_id, config, on, t) matches TrialView::Over { verdict: Ok(_), heard } ==> {
            &&& t.len() <= heard ==> exchange_tail(test_id, config, on, t) == NextView::Ask(
                RequestView::Barrier { on },
            )
            &&& t.len() == heard + 1 && t[heard as int] is Met ==> exchange_tail(
                test_id,
                config,
                on,
                t,
            ) == NextView::Ask(RequestView::Close { on })
            &&& t.len() >= heard + 2 ==> (exchange_tail(test_id, config, on, t) is Pass <==> (
            t[heard as int] matches ReplyView::Met(Ok(_))))
            &&& t.len() >= heard + 2 ==> (t[heard as int] matches ReplyView::Met(Err(detail))
                ==> exchange_tail(test_id, config, on, t) == NextView::Fail(detail))
        },
{
}

/// A two-peer test plays the side that its role names, joins the room it is given on the
/// server it is given under that side, and makes an offer exactly as the offerer; with
/// both roles it fails, and so does a room that cannot be joined.
pub proof fn law_roles_play_their_side(
    test_id: Seq<char>,
    config: TestConfigView,
    error: crate::error::ErrorView,
    h: Seq<ReplyView>,
)
    ensures
        config.role == Role::Offerer ==> two_peer_script(test_id, config, seq![]) == NextView::Ask(
            RequestView::OpenMailbox {
                server: config.signaling_server,
                room: config.room,
                role: Side::Offerer,
            },
        ) && two_peer_script(test_id, config, seq![ReplyView::Done(Ok(()))]) == NextView::Ask(
            RequestView::CreateDataChannel {
                on: Side::Offerer,
                options: crate::handshake::options_for(test_id),
            },
        ),
        config.role == Role::Answerer ==> two_peer_script(test_id, config, seq![]) == NextView::Ask(
            RequestView::OpenMailbox {
                server: config.signaling_server,
                room: config.room,
                role: Side::Answerer,
            },
        ) && two_peer_script(test_id, config, seq![ReplyView::Done(Ok(()))]) == NextView::Ask(
            RequestView::FetchSignal,
        ),
        config.role == Role::Both ==> two_peer_script(test_id, config, h) == NextView::Fail(
            "two-peer test invoked with role=both"@,
        ),
        config.role != Role::Both && h.len() > 0 && h[0] == ReplyView::Done(Err(error))
            ==> two_peer_script(test_id, config, h) == NextView::Fail(
            "mailbox open"@ + ": "@ + error.described(),
        ),
{
    let t = seq![ReplyView::Done(Ok(()))].skip(1);
    assert(t =~= seq![]);
}

/// A script has an outcome exactly once it has passed or failed, and that is its outcome.
pub proof fn law_only_verdicts_are_outcomes(next: NextView)
    ensures
        outcome_of_next(next) is Some <==> next is Pass || next is Fail,
        outcome_of_next(next) == Some(OutcomeView::Pass) <==> next is Pass,
        next matches NextView::Fail(detail) ==> outcome_of_next(next) == Some(
            OutcomeView::Fail(detail),
        ),
{
}

} // verus!
