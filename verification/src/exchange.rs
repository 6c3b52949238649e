//! The payload exchanges of the two-peer tests of the conformance guest. Both peers run
//! the same routine.

use vstd::prelude::*;
use vstd::slice::slice_to_vec;

use crate::corpus::is_sequence_test;
use crate::error::{Error, ErrorView};
use crate::inproc::CHANNEL_LABEL;
use crate::payload::{
    index_in, integrity_problem, law_integrity_needs_every_payload, law_order_needs_every_index,
    law_payloads_verify, law_what_is_sent_verifies, make_payload, order_problem, payload,
    sent_payloads, verify_all, verify_ordered, well_formed,
};
use crate::probes::at_least;
use crate::script::{
    fail, failure, replies_view, Message, PayloadView, Reply, ReplyView, Request, RequestView, Side,
};
use crate::suite::{TestConfig, TestConfigView};
use crate::text::{concat2, concat4, debug_quoted, quoted, same};

verus! {

/// Whether two byte sequences are equal.
pub fn same_bytes(a: &[u8], b: &[u8]) -> (r: bool)
    ensures
        r == (a@ == b@),
{
    if a.len() != b.len() {
        return false;
    }
    let mut i: usize = 0;
    while i < a.len()
        invariant
            i <= a@.len(),
            a@.len() == b@.len(),
            forall|k: int| 0 <= k < i ==> a@[k] == b@[k],
        decreases a@.len() - i,
    {
        if a[i] != b[i] {
            assert(a@[i as int] != b@[i as int]);
            return false;
        }
        i = i + 1;
    }
    assert(a@ =~= b@);
    true
}

/// A copy of a message.
pub fn same_message(message: &Message) -> (r: Message)
    ensures
        r@ == message@,
{
    match message {
        Message::Binary(bytes) => Message::Binary(slice_to_vec(bytes.as_slice())),
        Message::Text(text) => Message::Text(text.clone()),
    }
}

/// The contents of a list of messages.
pub open spec fn payloads_view(list: Seq<Message>) -> Seq<PayloadView> {
    list.map_values(|m: Message| m@)
}

/// How far the exchange of a test has come.
#[derive(Debug)]
pub enum Trial {
    Ask(Request),
    /// It has ended, well or not; so many replies were heard by then.
    Over { verdict: Result<(), String>, heard: usize },
    OutOfStep,
}

/// The contents of a [`Trial`].
#[verifier::ext_equal]
pub enum TrialView {
    Ask(RequestView),
    Over { verdict: Result<(), Seq<char>>, heard: nat },
    OutOfStep,
}

/// The contents of an outcome with a detail.
pub open spec fn detail_view(r: Result<(), String>) -> Result<(), Seq<char>> {
    match r {
        Ok(()) => Ok(()),
        Err(detail) => Err(detail@),
    }
}

impl View for Trial {
    type V = TrialView;

    open spec fn view(&self) -> TrialView {
        match self {
            Trial::Ask(request) => TrialView::Ask(request@),
            Trial::Over { verdict, heard } => TrialView::Over {
                verdict: detail_view(*verdict),
                heard: *heard as nat,
            },
            Trial::OutOfStep => TrialView::OutOfStep,
        }
    }
}

/// An exchange that has failed.
pub open spec fn lost(detail: Seq<char>, heard: int) -> TrialView {
    TrialView::Over { verdict: Err(detail), heard: heard as nat }
}

/// An exchange that went well.
pub open spec fn won(heard: int) -> TrialView {
    TrialView::Over { verdict: Ok(()), heard: heard as nat }
}

// ----- what a test sends and expects ---------------------------------------------------------------------

/// The payload of the plain binary test.
pub open spec fn binary_payload() -> Seq<u8> {
    seq![0u8, 1u8, 2u8, 3u8, 4u8, 5u8]
}

/// The payload of the test of a channel without retransmissions.
pub open spec fn unreliable_payload() -> Seq<u8> {
    seq![9u8, 8u8, 7u8, 6u8]
}

/// The text of the plain text test.
pub const TEXT_MESSAGE: &'static str = "conformance text message";

/// What a test that sends first and receives afterwards sends. There is none for the
/// other tests.
pub open spec fn outgoing(test_id: Seq<char>, message_size: u32) -> Option<Seq<PayloadView>> {
    if test_id == "binary-message"@ {
        Some(seq![PayloadView::Binary(binary_payload())])
    } else if test_id == "text-message"@ {
        Some(seq![PayloadView::Text(TEXT_MESSAGE@)])
    } else if test_id == "zero-length-message"@ {
        Some(seq![PayloadView::Binary(seq![]), PayloadView::Text(seq![])])
    } else if test_id == "large-message"@ {
        Some(seq![PayloadView::Binary(payload(0, at_least(message_size, 1024)))])
    } else if test_id == "max-retransmits-accepted"@ {
        Some(seq![PayloadView::Binary(unreliable_payload())])
    } else {
        None
    }
}

/// What is wrong with the `k`-th message that a test receives, given what was sent.
pub open spec fn incoming_problem(
    test_id: Seq<char>,
    k: int,
    sent: PayloadView,
    got: PayloadView,
) -> Option<Seq<char>> {
    if got == sent {
        None
    } else if test_id == "binary-message"@ {
        Some(
            if got is Binary {
                "binary payload mismatch"@
            } else {
                "binary message arrived as text"@
            },
        )
    } else if test_id == "text-message"@ {
        Some(
            if got is Text {
                "text payload mismatch"@
            } else {
                "text message arrived as binary"@
            },
        )
    } else if test_id == "zero-length-message"@ {
        Some(
            if k == 0 {
                "expected empty binary message"@
            } else {
                "expected empty text message"@
            },
        )
    } else if test_id == "large-message"@ {
        Some("large payload mismatch"@)
    } else {
        Some("unreliable channel payload mismatch"@)
    }
}

/// The messages `out` go out one by one; the first send that fails ends the test.
pub open spec fn sends_from(on: Side, out: Seq<PayloadView>, h: Seq<ReplyView>, i: int) -> Option<TrialView>
    decreases out.len() - i,
{
    if i < 0 || i >= out.len() {
        None
    } else if i >= h.len() {
        Some(TrialView::Ask(RequestView::Send { on, message: out[i] }))
    } else {
        match h[i] {
            ReplyView::Done(Ok(())) => sends_from(on, out, h, i + 1),
            ReplyView::Done(Err(error)) => Some(lost(failure("send"@, error), i + 1)),
            _ => Some(TrialView::OutOfStep),
        }
    }
}

/// The same messages come back one by one; the first that does not ends the test.
pub open spec fn receives_from(
    test_id: Seq<char>,
    on: Side,
    out: Seq<PayloadView>,
    h: Seq<ReplyView>,
    k: int,
) -> TrialView
    decreases out.len() - k,
{
    if k < 0 || k >= out.len() {
        won((2 * out.len()) as int)
    } else if out.len() + k >= h.len() {
        TrialView::Ask(RequestView::Receive { on })
    } else {
        match h[out.len() + k] {
            ReplyView::Received(Ok(message)) => match incoming_problem(test_id, k, out[k], message) {
                Some(detail) => lost(detail, out.len() + k + 1),
                None => receives_from(test_id, on, out, h, k + 1),
            },
            ReplyView::Received(Err(error)) => lost(
                failure("receive"@, error),
                out.len() + k + 1,
            ),
            _ => TrialView::OutOfStep,
        }
    }
}

/// The verdict on a sequence that was received.
pub open spec fn sequence_problem(test_id: Seq<char>, received: Seq<Seq<u8>>, count: u32) -> Option<
    Seq<char>,
> {
    if test_id == "ordering"@ {
        order_problem(received, count)
    } else {
        integrity_problem(received, count)
    }
}

/// The exchange of `test_id`.
pub open spec fn exchange_script(
    test_id: Seq<char>,
    config: TestConfigView,
    on: Side,
    h: Seq<ReplyView>,
) -> TrialView {
    if test_id == "label-round-trip"@ {
        if h.len() == 0 {
            TrialView::Ask(RequestView::ReadLabel { on })
        } else {
            match h[0] {
                ReplyView::Label(label) => if label == CHANNEL_LABEL@ {
                    won(1)
                } else {
                    lost(
                        "label was "@ + debug_quoted(label) + ", expected "@ + debug_quoted(
                            CHANNEL_LABEL@,
                        ),
                        1,
                    )
                },
                _ => TrialView::OutOfStep,
            }
        }
    } else if is_sequence_test(test_id) {
        let count = at_least(config.message_count, 1);
        if h.len() == 0 {
            TrialView::Ask(
                RequestView::SendAndReceive { on, count, size: at_least(config.message_size, 16) },
            )
        } else {
            match h[0] {
                ReplyView::Exchanged { sent: Err(detail), .. } => lost(detail, 1),
                ReplyView::Exchanged { sent: Ok(()), received: Err(detail) } => lost(detail, 1),
                ReplyView::Exchanged { sent: Ok(()), received: Ok(list) } => match sequence_problem(
                    test_id,
                    list,
                    count,
                ) {
                    Some(detail) => lost(detail, 1),
                    None => won(1),
                },
                _ => TrialView::OutOfStep,
            }
        }
    } else {
        match outgoing(test_id, config.message_size) {
            Some(out) => match sends_from(on, out, h, 0) {
                Some(trial) => trial,
                None => receives_from(test_id, on, out, h, 0),
            },
            None => lost("unhandled test id "@ + debug_quoted(test_id), 0),
        }
    }
}

fn make_outgoing(test_id: &str, message_size: u32) -> (r: Option<Vec<Message>>)
    ensures
        match r {
            Some(out) => outgoing(test_id@, message_size) == Some(payloads_view(out@)),
            None => outgoing(test_id@, message_size) is None,
        },
{
    let mut out: Vec<Message> = Vec::new();
    let ghost expected = outgoing(test_id@, message_size);
    if same(test_id, "binary-message") {
        let bytes = vec![0u8, 1u8, 2u8, 3u8, 4u8, 5u8];
        assert(bytes@ =~= binary_payload());
        out.push(Message::Binary(bytes));
    } else if same(test_id, "text-message") {
        out.push(Message::Text(TEXT_MESSAGE.to_string()));
    } else if same(test_id, "zero-length-message") {
        out.push(Message::Binary(Vec::new()));
        proof {
            reveal_strlit("");
            assert(""@ =~= seq![]);
        }
        out.push(Message::Text("".to_string()));
    } else if same(test_id, "large-message") {
        let size: u32 = if message_size < 1024 {
            1024
        } else {
            message_size
        };
        out.push(Message::Binary(make_payload(0, size)));
    } else if same(test_id, "max-retransmits-accepted") {
        let bytes = vec![9u8, 8u8, 7u8, 6u8];
        assert(bytes@ =~= unreliable_payload());
        out.push(Message::Binary(bytes));
    } else {
        return None;
    }
    assert(payloads_view(out@) =~~= expected->0);
    Some(out)
}

fn equal_messages(a: &Message, b: &Message) -> (r: bool)
    ensures
        r == (a@ == b@),
{
    match (a, b) {
        (Message::Binary(x), Message::Binary(y)) => same_bytes(x.as_slice(), y.as_slice()),
        (Message::Text(x), Message::Text(y)) => same(x.as_str(), y.as_str()),
        _ => false,
    }
}

fn check_incoming(test_id: &str, k: usize, sent: &Message, got: &Message) -> (r: Option<String>)
    ensures
        match r {
            Some(detail) => incoming_problem(test_id@, k as int, sent@, got@) == Some(detail@),
            None => incoming_problem(test_id@, k as int, sent@, got@) is None,
        },
{
    if equal_messages(got, sent) {
        return None;
    }
    let binary = match got {
        Message::Binary(_) => true,
        Message::Text(_) => false,
    };
    let detail = if same(test_id, "binary-message") {
        if binary {
            "binary payload mismatch"
        } else {
            "binary message arrived as text"
        }
    } else if same(test_id, "text-message") {
        if binary {
            "text message arrived as binary"
        } else {
            "text payload mismatch"
        }
    } else if same(test_id, "zero-length-message") {
        if k == 0 {
            "expected empty binary message"
        } else {
            "expected empty text message"
        }
    } else if same(test_id, "large-message") {
        "large payload mismatch"
    } else {
        "unreliable channel payload mismatch"
    };
    Some(detail.to_string())
}

fn sequence_test(test_id: &str) -> (r: bool)
    ensures
        r == is_sequence_test(test_id@),
{
    same(test_id, "concurrent-send-receive") || same(test_id, "message-boundaries") || same(
        test_id,
        "ordering",
    ) || same(test_id, "payload-integrity") || same(test_id, "interop-handshake")
}

/// Run the payload exchange for `test_id` over the connected data channel.
pub fn exchange(test_id: &str, config: &TestConfig, on: Side, replies: &[Reply]) -> (r: Trial)
    ensures
        r@ == exchange_script(test_id@, config@, on, replies_view(replies@)),
        r matches Trial::Over { heard, .. } ==> heard <= replies@.len(),
{
    let ghost h = replies_view(replies@);
    if same(test_id, "label-round-trip") {
        if replies.len() == 0 {
            return Trial::Ask(Request::ReadLabel { on });
        }
        return match &replies[0] {
            Reply::Label(label) => if same(label.as_str(), CHANNEL_LABEL) {
                Trial::Over { verdict: Ok(()), heard: 1 }
            } else {
                Trial::Over {
                    verdict: Err(
                        concat4(
                            "label was ",
                            quoted(label.as_str()).as_str(),
                            ", expected ",
                            quoted(CHANNEL_LABEL).as_str(),
                        ),
                    ),
                    heard: 1,
                }
            },
            _ => Trial::OutOfStep,
        };
    }
    if sequence_test(test_id) {
        let count: u32 = if config.message_count < 1 {
            1
        } else {
            config.message_count
        };
        let size: u32 = if config.message_size < 16 {
            16
        } else {
            config.message_size
        };
        if replies.len() == 0 {
            return Trial::Ask(Request::SendAndReceive { on, count, size });
        }
        return match &replies[0] {
            Reply::Exchanged { sent: Err(detail), .. } => Trial::Over {
                verdict: Err(detail.clone()),
                heard: 1,
            },
            Reply::Exchanged { sent: Ok(()), received: Err(detail) } => Trial::Over {
                verdict: Err(detail.clone()),
                heard: 1,
            },
            Reply::Exchanged { sent: Ok(()), received: Ok(list) } => {
                let verdict = if same(test_id, "ordering") {
                    verify_ordered(list.as_slice(), count)
                } else {
                    verify_all(list.as_slice(), count)
                };
                Trial::Over { verdict, heard: 1 }
            },
            _ => Trial::OutOfStep,
        };
    }
    let out = match make_outgoing(test_id, config.message_size) {
        Some(out) => out,
        None => {
            return Trial::Over {
                verdict: Err(concat2("unhandled test id ", quoted(test_id).as_str())),
                heard: 0,
            };
        },
    };
    let ghost sent = payloads_view(out@);
    let ghost goal = exchange_script(test_id@, config@, on, h);
    let n = out.len();
    let mut i: usize = 0;
    while i < n
        invariant
            n == out@.len(),
            sent == payloads_view(out@),
            h == replies_view(replies@),
            i <= n,
            i <= h.len(),
            goal == exchange_script(test_id@, config@, on, h),
            goal == match sends_from(on, sent, h, i as int) {
                Some(next) => next,
                None => receives_from(test_id@, on, sent, h, 0),
            },
        decreases n - i,
    {
        if i >= replies.len() {
            return Trial::Ask(Request::Send { on, message: same_message(&out[i]) });
        }
        match &replies[i] {
            Reply::Done(Ok(())) => {
                i = i + 1;
            },
            Reply::Done(Err(error)) => {
                return Trial::Over { verdict: Err(fail("send", error)), heard: i + 1 };
            },
            _ => {
                return Trial::OutOfStep;
            },
        }
    }
    let mut k: usize = 0;
    while k < n
        invariant
            n == out@.len(),
            sent == payloads_view(out@),
            h == replies_view(replies@),
            k <= n,
            n + k <= h.len(),
            goal == exchange_script(test_id@, config@, on, h),
            goal == receives_from(test_id@, on, sent, h, k as int),
        decreases n - k,
    {
        if k >= replies.len() - n {
            return Trial::Ask(Request::Receive { on });
        }
        match &replies[n + k] {
            Reply::Received(Ok(message)) => {
                assert(sent[k as int] == out@[k as int]@);
                if let Some(detail) = check_incoming(test_id, k, &out[k], message) {
                    return Trial::Over { verdict: Err(detail), heard: n + k + 1 };
                }
                k = k + 1;
            },
            Reply::Received(Err(error)) => {
                return Trial::Over { verdict: Err(fail("receive", error)), heard: n + k + 1 };
            },
            _ => {
                return Trial::OutOfStep;
            },
        }
    }
    Trial::Over { verdict: Ok(()), heard: n + k }
}

/// A faithful channel carried the messages of a test: every send succeeded, and what one
/// peer sent, which is what the other sent too, arrived unchanged and in order.
pub open spec fn faithful(test_id: Seq<char>, config: TestConfigView, h: Seq<ReplyView>) -> bool {
    if test_id == "label-round-trip"@ {
        h == seq![ReplyView::Label(CHANNEL_LABEL@)]
    } else if is_sequence_test(test_id) {
        let count = at_least(config.message_count, 1);
        let size = at_least(config.message_size, 16);
        h.len() == 1 && h[0] == (ReplyView::Exchanged {
            sent: Ok(()),
            received: Ok(sent_payloads(count, size)),
        })
    } else {
        match outgoing(test_id, config.message_size) {
            Some(out) => {
                &&& h.len() == 2 * out.len()
                &&& forall|i: int|
                    0 <= i < out.len() ==> (#[trigger] h[i]) == ReplyView::Done(Ok(()))
                &&& forall|k: int|
                    0 <= k < out.len() ==> h[out.len() + k] == ReplyView::Received(
                        Ok(#[trigger] out[k]),
                    )
            },
            None => false,
        }
    }
}

proof fn lemma_faithful_sends(on: Side, out: Seq<PayloadView>, h: Seq<ReplyView>, i: int)
    requires
        0 <= i <= out.len() <= h.len(),
        forall|i: int| 0 <= i < out.len() ==> (#[trigger] h[i]) == ReplyView::Done(Ok(())),
    ensures
        sends_from(on, out, h, i) is None,
    decreases out.len() - i,
{
    if i < out.len() {
        assert(h[i] == ReplyView::Done(Ok(())));
        lemma_faithful_sends(on, out, h, i + 1);
    }
}

proof fn lemma_faithful_receives(
    test_id: Seq<char>,
    on: Side,
    out: Seq<PayloadView>,
    h: Seq<ReplyView>,
    k: int,
)
    requires
        0 <= k <= out.len(),
        h.len() == 2 * out.len(),
        forall|k: int|
            0 <= k < out.len() ==> h[out.len() + k] == ReplyView::Received(Ok(#[trigger] out[k])),
    ensures
        receives_from(test_id, on, out, h, k) == won((2 * out.len()) as int),
    decreases out.len() - k,
{
    if k < out.len() {
        assert(h[out.len() + k] == ReplyView::Received(Ok(out[k])));
        lemma_faithful_receives(test_id, on, out, h, k + 1);
    }
}

/// A faithful channel passes every payload test.
pub proof fn law_faithful_channels_pass(
    test_id: Seq<char>,
    config: TestConfigView,
    on: Side,
    h: Seq<ReplyView>,
)
    requires
        faithful(test_id, config, h),
    ensures
        exchange_script(test_id, config, on, h) == won(h.len() as int),
{
    if test_id == "label-round-trip"@ {
    } else if is_sequence_test(test_id) {
        law_what_is_sent_verifies(
            at_least(config.message_count, 1),
            at_least(config.message_size, 16),
        );
    } else {
        let out = outgoing(test_id, config.message_size)->0;
        lemma_faithful_sends(on, out, h, 0);
        lemma_faithful_receives(test_id, on, out, h, 0);
    }
}

/// A test passes only over a channel that delivered: where a message other than the one
/// sent arrives first, the test does not pass.
pub proof fn law_altered_message_fails(
    test_id: Seq<char>,
    config: TestConfigView,
    on: Side,
    h: Seq<ReplyView>,
    got: PayloadView,
)
    requires
        test_id != "label-round-trip"@,
        !is_sequence_test(test_id),
        outgoing(test_id, config.message_size) matches Some(out) && h.len() > out.len()
            && h[out.len() as int] == ReplyView::Received(Ok(got)) && got != out[0],
    ensures
        !(exchange_script(test_id, config, on, h) matches TrialView::Over { verdict: Ok(_), .. }),
{
    let out = outgoing(test_id, config.message_size)->0;
    assert(out.len() > 0);
    lemma_no_pass_while_sending(on, out, h, 0);
}

proof fn lemma_no_pass_while_sending(on: Side, out: Seq<PayloadView>, h: Seq<ReplyView>, i: int)
    ensures
        sends_from(on, out, h, i) matches Some(trial) ==> !(trial matches TrialView::Over {
            verdict: Ok(_),
            ..
        }),
    decreases out.len() - i,
{
    if 0 <= i < out.len() && i < h.len() {
        lemma_no_pass_while_sending(on, out, h, i + 1);
    }
}

// ----- the rendezvous at the end -------------------------------------------------------------------------------

/// The message that ends an exchange: `__conformance_barrier__`.
pub open spec fn sentinel() -> Seq<u8> {
    vstd::utf8::encode_utf8("__conformance_barrier__"@)
}

/// The sentinel that each peer sends before it tears down.
pub fn barrier_message() -> (r: Message)
    ensures
        r@ == PayloadView::Binary(sentinel()),
{
    Message::Binary(slice_to_vec("__conformance_barrier__".as_bytes()))
}

/// What the sending of the sentinel comes to: a `closed` error counts as success.
pub open spec fn barrier_sent(outcome: Result<(), ErrorView>) -> Result<(), Seq<char>> {
    match outcome {
        Ok(()) => Ok(()),
        Err(ErrorView::Closed) => Ok(()),
        Err(error) => Err(failure("send"@, error)),
    }
}

/// What the sending of the sentinel comes to: a `closed` error counts as success, for the
/// peer only closes after completing its own exchange.
pub fn barrier_send(outcome: &Result<(), Error>) -> (r: Result<(), String>)
    ensures
        detail_view(r) == barrier_sent(
            match outcome {
                Ok(()) => Ok(()),
                Err(e) => Err(e@),
            },
        ),
{
    match outcome {
        Ok(()) => Ok(()),
        Err(Error::Closed) => Ok(()),
        Err(error) => Err(fail("send", error)),
    }
}

/// The wait for the peer's sentinel from the `i`-th receive on: `None` while it goes on.
/// What is still in flight before the sentinel is skipped, and a `closed` error counts as
/// the sentinel.
pub open spec fn barrier_received(received: Seq<Result<PayloadView, ErrorView>>, i: int) -> Option<
    Result<(), Seq<char>>,
>
    decreases received.len() - i,
{
    if i < 0 || i >= received.len() {
        None
    } else {
        match received[i] {
            Ok(message) => if message == PayloadView::Binary(sentinel()) {
                Some(Ok(()))
            } else {
                barrier_received(received, i + 1)
            },
            Err(ErrorView::Closed) => Some(Ok(())),
            Err(error) => Some(Err(failure("receive"@, error))),
        }
    }
}

/// The contents of a list of receives.
pub open spec fn receives_view(list: Seq<Result<Message, Error>>) -> Seq<
    Result<PayloadView, ErrorView>,
> {
    list.map_values(|r: Result<Message, Error>| crate::script::received_view(r))
}

/// Wait for the peer's sentinel: `None` asks for another receive.
pub fn barrier_receive(received: &[Result<Message, Error>]) -> (r: Option<Result<(), String>>)
    ensures
        match r {
            Some(outcome) => barrier_received(receives_view(received@), 0) == Some(
                detail_view(outcome),
            ),
            None => barrier_received(receives_view(received@), 0) is None,
        },
{
    let ghost all = receives_view(received@);
    let awaited = barrier_message();
    let mut i: usize = 0;
    while i < received.len()
        invariant
            i <= received@.len(),
            all == receives_view(received@),
            awaited@ == PayloadView::Binary(sentinel()),
            barrier_received(all, 0) == barrier_received(all, i as int),
        decreases received@.len() - i,
    {
        assert(all[i as int] == crate::script::received_view(received@[i as int]));
        match &received[i] {
            Ok(message) => {
                if equal_messages(message, &awaited) {
                    return Some(Ok(()));
                }
            },
            Err(Error::Closed) => {
                return Some(Ok(()));
            },
            Err(error) => {
                return Some(Err(fail("receive", error)));
            },
        }
        i = i + 1;
    }
    None
}

/// The rendezvous is over once both halves are; a failed send is reported before a failed
/// receive.
pub open spec fn met(sent: Result<(), Seq<char>>, received: Result<(), Seq<char>>) -> Result<
    (),
    Seq<char>,
> {
    match sent {
        Err(detail) => Err(detail),
        Ok(()) => received,
    }
}

/// A final rendezvous over the connected data channel: each peer sends a sentinel and
/// waits for the peer's, so neither tears down the connection while the other still needs
/// it.
pub fn barrier(sent: Result<(), String>, received: Result<(), String>) -> (r: Result<(), String>)
    ensures
        detail_view(r) == met(detail_view(sent), detail_view(received)),
{
    match sent {
        Err(detail) => Err(detail),
        Ok(()) => received,
    }
}

/// The sentinel is seen behind whatever is still in flight: where it arrives, or the
/// peer closes, and every receive before brought a message, the rendezvous succeeds.
pub proof fn law_barrier_skips_what_is_in_flight(
    received: Seq<Result<PayloadView, ErrorView>>,
    n: int,
)
    requires
        0 <= n < received.len(),
        forall|i: int| 0 <= i < n ==> (#[trigger] received[i]) is Ok,
        received[n] == Ok::<PayloadView, ErrorView>(PayloadView::Binary(sentinel())) || received[n]
            == Err::<PayloadView, ErrorView>(ErrorView::Closed),
    ensures
        barrier_received(received, 0) matches Some(Ok(_)),
{
    lemma_barrier_skips(received, 0, n);
}

proof fn lemma_barrier_skips(received: Seq<Result<PayloadView, ErrorView>>, i: int, n: int)
    requires
        0 <= i <= n < received.len(),
        forall|i: int| 0 <= i < n ==> (#[trigger] received[i]) is Ok,
        received[n] == Ok::<PayloadView, ErrorView>(PayloadView::Binary(sentinel())) || received[n]
            == Err::<PayloadView, ErrorView>(ErrorView::Closed),
    ensures
        barrier_received(received, i) matches Some(Ok(_)),
    decreases n - i,
{
    if i < n {
        assert(received[i] is Ok);
        lemma_barrier_skips(received, i + 1, n);
    }
}

// ----- one message each way -----------------------------------------------------------------------------------------

/// What one half of an exchange of one message each way does next.
#[derive(Debug)]
pub enum Half {
    Ask(Request),
    /// Whether the message arrived intact.
    Over(Result<bool, String>),
    OutOfStep,
}

/// The contents of a [`Half`].
#[verifier::ext_equal]
pub enum HalfView {
    Ask(RequestView),
    Over(Result<bool, Seq<char>>),
    OutOfStep,
}

/// The contents of a verdict.
pub open spec fn verdict_view(r: Result<bool, String>) -> Result<bool, Seq<char>> {
    match r {
        Ok(intact) => Ok(intact),
        Err(detail) => Err(detail@),
    }
}

impl View for Half {
    type V = HalfView;

    open spec fn view(&self) -> HalfView {
        match self {
            Half::Ask(request) => HalfView::Ask(request@),
            Half::Over(verdict) => HalfView::Over(verdict_view(*verdict)),
            Half::OutOfStep => HalfView::OutOfStep,
        }
    }
}

/// What the first half sends.
pub open spec fn first_message() -> PayloadView {
    PayloadView::Binary(seq![1u8, 2u8, 3u8])
}

/// What the second half sends back.
pub open spec fn second_message() -> PayloadView {
    PayloadView::Binary(seq![4u8, 5u8, 6u8])
}

fn make_first() -> (r: Message)
    ensures
        r@ == first_message(),
{
    let bytes = vec![1u8, 2u8, 3u8];
    assert(bytes@ =~= seq![1u8, 2u8, 3u8]);
    Message::Binary(bytes)
}

fn make_second() -> (r: Message)
    ensures
        r@ == second_message(),
{
    let bytes = vec![4u8, 5u8, 6u8];
    assert(bytes@ =~= seq![4u8, 5u8, 6u8]);
    Message::Binary(bytes)
}

/// The half that sends first.
pub open spec fn first_half_script(on: Side, h: Seq<ReplyView>) -> HalfView {
    if h.len() == 0 {
        HalfView::Ask(RequestView::Send { on, message: first_message() })
    } else {
        match h[0] {
            ReplyView::Done(Err(error)) => HalfView::Over(Err(failure("send"@, error))),
            ReplyView::Done(Ok(())) => if h.len() == 1 {
                HalfView::Ask(RequestView::Receive { on })
            } else {
                match h[1] {
                    ReplyView::Received(Ok(message)) => HalfView::Over(
                        Ok(message == second_message()),
                    ),
                    ReplyView::Received(Err(error)) => HalfView::Over(
                        Err(failure("receive"@, error)),
                    ),
                    _ => HalfView::OutOfStep,
                }
            },
            _ => HalfView::OutOfStep,
        }
    }
}

/// The half that answers.
pub open spec fn second_half_script(on: Side, h: Seq<ReplyView>) -> HalfView {
    if h.len() == 0 {
        HalfView::Ask(RequestView::Receive { on })
    } else {
        match h[0] {
            ReplyView::Received(Err(error)) => HalfView::Over(Err(failure("receive"@, error))),
            ReplyView::Received(Ok(message)) => if message != first_message() {
                HalfView::Over(Ok(false))
            } else if h.len() == 1 {
                HalfView::Ask(RequestView::Send { on, message: second_message() })
            } else {
                match h[1] {
                    ReplyView::Done(Ok(())) => HalfView::Over(Ok(true)),
                    ReplyView::Done(Err(error)) => HalfView::Over(Err(failure("send"@, error))),
                    _ => HalfView::OutOfStep,
                }
            },
            _ => HalfView::OutOfStep,
        }
    }
}

/// The half of an exchange that sends first and then receives.
pub fn first_half(on: Side, replies: &[Reply]) -> (r: Half)
    ensures
        r@ == first_half_script(on, replies_view(replies@)),
{
    if replies.len() == 0 {
        return Half::Ask(Request::Send { on, message: make_first() });
    }
    match &replies[0] {
        Reply::Done(Ok(())) => {},
        Reply::Done(Err(error)) => {
            return Half::Over(Err(fail("send", error)));
        },
        _ => {
            return Half::OutOfStep;
        },
    }
    if replies.len() == 1 {
        return Half::Ask(Request::Receive { on });
    }
    match &replies[1] {
        Reply::Received(Ok(message)) => Half::Over(Ok(equal_messages(message, &make_second()))),
        Reply::Received(Err(error)) => Half::Over(Err(fail("receive", error))),
        _ => Half::OutOfStep,
    }
}

/// The half of an exchange that receives first and then answers.
pub fn second_half(on: Side, replies: &[Reply]) -> (r: Half)
    ensures
        r@ == second_half_script(on, replies_view(replies@)),
{
    if replies.len() == 0 {
        return Half::Ask(Request::Receive { on });
    }
    match &replies[0] {
        Reply::Received(Ok(message)) => {
            if !equal_messages(message, &make_first()) {
                return Half::Over(Ok(false));
            }
        },
        Reply::Received(Err(error)) => {
            return Half::Over(Err(fail("receive", error)));
        },
        _ => {
            return Half::OutOfStep;
        },
    }
    if replies.len() == 1 {
        return Half::Ask(Request::Send { on, message: make_second() });
    }
    match &replies[1] {
        Reply::Done(Ok(())) => Half::Over(Ok(true)),
        Reply::Done(Err(error)) => Half::Over(Err(fail("send", error))),
        _ => Half::OutOfStep,
    }
}

/// What both halves come to.
pub open spec fn both_halves(a: Result<bool, Seq<char>>, b: Result<bool, Seq<char>>) -> Result<
    bool,
    Seq<char>,
> {
    match a {
        Err(detail) => Err(detail),
        Ok(false) => Ok(false),
        Ok(true) => b,
    }
}

/// Exchange one message each way; whether both arrived intact.
pub fn exchange_once(a: Result<bool, String>, b: Result<bool, String>) -> (r: Result<bool, String>)
    ensures
        verdict_view(r) == both_halves(verdict_view(a), verdict_view(b)),
{
    match a {
        Err(detail) => Err(detail),
        Ok(intact) => if intact {
            b
        } else {
            Ok(false)
        },
    }
}

// ----- what passing means ----------------------------------------------------------------------------------------------

/// A trial that went well.
pub open spec fn passes(trial: TrialView) -> bool {
    trial matches TrialView::Over { verdict: Ok(_), .. }
}

/// The tests that exchange a sequence pass exactly if everything was sent, and as many
/// payloads came back as were sent (at least one), none of them corrupted; the one on
/// ordering only if each carries the index of its place.
pub proof fn law_sequence_tests_pass_only_intact(
    test_id: Seq<char>,
    config: TestConfigView,
    on: Side,
    h: Seq<ReplyView>,
)
    requires
        test_id == "message-boundaries"@ || test_id == "ordering"@ || test_id
            == "payload-integrity"@ || test_id == "concurrent-send-receive"@ || test_id
            == "interop-handshake"@,
    ensures
        passes(exchange_script(test_id, config, on, h)) <==> h.len() > 0 && (h[0] matches
            ReplyView::Exchanged { sent: Ok(_), received: Ok(list) } && list.len() == (if config.message_count
            == 0 {
            1
        } else {
            config.message_count as int
        }) && (forall|i: int|
            0 <= i < list.len() ==> well_formed(#[trigger] list[i]) && (test_id == "ordering"@
                ==> index_in(list[i]) == Some(i)))),
        h.len() == 0 ==> exchange_script(test_id, config, on, h) == TrialView::Ask(
            RequestView::SendAndReceive {
                on,
                count: at_least(config.message_count, 1),
                size: at_least(config.message_size, 16),
            },
        ),
{
    lemma_sequence_ids(test_id);
    if h.len() > 0 {
        if let ReplyView::Exchanged { sent: Ok(_), received: Ok(list) } = h[0] {
            let count = at_least(config.message_count, 1);
            law_integrity_needs_every_payload(list, count);
            law_order_needs_every_index(list, count);
        }
    }
}

/// The ids of the tests are told apart by their first letters.
proof fn lemma_sequence_ids(test_id: Seq<char>)
    ensures
        test_id == "message-boundaries"@ || test_id == "ordering"@ || test_id
            == "payload-integrity"@ || test_id == "concurrent-send-receive"@ || test_id
            == "interop-handshake"@ ==> test_id != "label-round-trip"@,
{
    reveal_strlit("message-boundaries");
    reveal_strlit("ordering");
    reveal_strlit("payload-integrity");
    reveal_strlit("concurrent-send-receive");
    reveal_strlit("interop-handshake");
    reveal_strlit("label-round-trip");
    assert("message-boundaries"@[0] == 'm');
    assert("ordering"@[0] == 'o');
    assert("payload-integrity"@[0] == 'p');
    assert("concurrent-send-receive"@[0] == 'c');
    assert("interop-handshake"@[0] == 'i');
    assert("label-round-trip"@[0] == 'l');
}

/// The label test passes exactly if the channel has the label that both peers gave it.
pub proof fn law_label_test_passes_only_labelled(
    config: TestConfigView,
    on: Side,
    h: Seq<ReplyView>,
)
    ensures
        passes(exchange_script("label-round-trip"@, config, on, h)) <==> h.len() > 0 && h[0]
            == ReplyView::Label("conformance"@),
{
}

/// A test that sends first and receives afterwards passes exactly if every send succeeded
/// and every message came back as it was sent, in order: same bytes, and text as text.
pub proof fn law_message_tests_pass_only_unchanged(
    test_id: Seq<char>,
    config: TestConfigView,
    on: Side,
    h: Seq<ReplyView>,
    out: Seq<PayloadView>,
)
    requires
        test_id != "label-round-trip"@,
        !is_sequence_test(test_id),
        outgoing(test_id, config.message_size) == Some(out),
    ensures
        passes(exchange_script(test_id, config, on, h)) <==> h.len() >= 2 * out.len() && (forall|i: int|
            0 <= i < out.len() ==> (#[trigger] h[i] matches ReplyView::Done(Ok(_)))) && (forall|k: int|
            0 <= k < out.len() ==> h[out.len() + k] == ReplyView::Received(Ok(#[trigger] out[k]))),
{
    lemma_sends(on, out, h, 0);
    lemma_receives(test_id, on, out, h, 0);
    lemma_no_pass_while_sending(on, out, h, 0);
}

proof fn lemma_sends(on: Side, out: Seq<PayloadView>, h: Seq<ReplyView>, i: int)
    requires
        0 <= i <= out.len(),
    ensures
        sends_from(on, out, h, i) is None <==> (i == out.len() || h.len() >= out.len()) && forall|k: int|
            i <= k < out.len() ==> (#[trigger] h[k] matches ReplyView::Done(Ok(_))),
    decreases out.len() - i,
{
    if i < out.len() {
        lemma_sends(on, out, h, i + 1);
    }
}

proof fn lemma_receives(
    test_id: Seq<char>,
    on: Side,
    out: Seq<PayloadView>,
    h: Seq<ReplyView>,
    k: int,
)
    requires
        0 <= k <= out.len(),
    ensures
        passes(receives_from(test_id, on, out, h, k)) <==> (k == out.len() || h.len() >= 2
            * out.len()) && forall|j: int|
            k <= j < out.len() ==> h[out.len() + j] == ReplyView::Received(Ok(#[trigger] out[j])),
    decreases out.len() - k,
{
    if k < out.len() {
        lemma_receives(test_id, on, out, h, k + 1);
        if out.len() + k < h.len() {
            if let ReplyView::Received(Ok(message)) = h[out.len() + k] {
                assert(incoming_problem(test_id, k, out[k], message) is None <==> message
                    == out[k]);
            } else {
                assert(!(h[out.len() + k] == ReplyView::Received(Ok(out[k]))));
            }
        }
    }
}

/// What a test that sends first sends is what it is about: the binary test bytes, the text
/// test text, the test of empty messages one empty message of each kind, the test of large
/// messages a payload of the size asked for, but no less than 1 KiB. They are sent in
/// order, before anything is received.
pub proof fn law_tests_send_what_they_are_about(message_size: u32)
    ensures
        outgoing("binary-message"@, message_size) matches Some(out) && out.len() == 1 && (out[0]
            matches PayloadView::Binary(bytes) && bytes.len() > 0),
        outgoing("text-message"@, message_size) matches Some(out) && out.len() == 1 && (out[0]
            matches PayloadView::Text(text) && text.len() > 0),
        outgoing("zero-length-message"@, message_size) matches Some(out) && out.len() == 2 && (
        out[0] matches PayloadView::Binary(bytes) && bytes.len() == 0) && (out[1] matches
            PayloadView::Text(text) && text.len() == 0),
        outgoing("large-message"@, message_size) matches Some(out) && out.len() == 1 && (out[0]
            matches PayloadView::Binary(bytes) && well_formed(bytes) && bytes.len() >= 1024
            && bytes.len() >= message_size),
        outgoing("max-retransmits-accepted"@, message_size) matches Some(out) && out.len() == 1 && (
        out[0] matches PayloadView::Binary(bytes) && bytes.len() > 0),
{
    reveal_strlit("binary-message");
    reveal_strlit("text-message");
    reveal_strlit("zero-length-message");
    reveal_strlit("large-message");
    reveal_strlit("max-retransmits-accepted");
    reveal_strlit("conformance text message");
    assert("binary-message"@[0] == 'b');
    assert("text-message"@[0] == 't');
    assert("zero-length-message"@[0] == 'z');
    assert("large-message"@[0] == 'l');
    assert("max-retransmits-accepted"@[0] == 'm');
    law_payloads_verify(0, at_least(message_size, 1024));
}

/// The rendezvous is over exactly if a sentinel came, or the peer closed, with nothing but
/// messages before; any other error ends it badly.
pub proof fn law_only_a_sentinel_or_a_close_ends_the_wait(
    received: Seq<Result<PayloadView, ErrorView>>,
)
    ensures
        (barrier_received(received, 0) matches Some(Ok(_))) <==> exists|n: int|
            0 <= n < received.len() && #[trigger] ends_barrier(received[n]) && forall|i: int|
                0 <= i < n ==> (#[trigger] received[i]) is Ok,
        barrier_received(received, 0) is None ==> forall|i: int|
            0 <= i < received.len() ==> (#[trigger] received[i]) is Ok && !ends_barrier(received[i]),
{
    lemma_barrier(received, 0);
}

/// A receive that brings the sentinel, or finds the channel closed.
pub open spec fn ends_barrier(received: Result<PayloadView, ErrorView>) -> bool {
    match received {
        Ok(message) => message == PayloadView::Binary(
            vstd::utf8::encode_utf8("__conformance_barrier__"@),
        ),
        Err(error) => error is Closed,
    }
}

proof fn lemma_barrier(received: Seq<Result<PayloadView, ErrorView>>, i: int)
    requires
        0 <= i,
    ensures
        (barrier_received(received, i) matches Some(Ok(_))) <==> exists|n: int|
            i <= n < received.len() && #[trigger] ends_barrier(received[n]) && forall|k: int|
                i <= k < n ==> (#[trigger] received[k]) is Ok,
        barrier_received(received, i) is None ==> forall|k: int|
            i <= k < received.len() ==> (#[trigger] received[k]) is Ok && !ends_barrier(received[k]),
    decreases received.len() - i,
{
    if i < received.len() {
        lemma_barrier(received, i + 1);
        if ends_barrier(received[i]) {
            assert(barrier_received(received, i) matches Some(Ok(_)));
        } else if received[i] is Ok {
            if barrier_received(received, i) matches Some(Ok(_)) {
                let n = choose|n: int|
                    i + 1 <= n < received.len() && #[trigger] ends_barrier(received[n]) && forall|k: int|
                        i + 1 <= k < n ==> (#[trigger] received[k]) is Ok;
                assert(ends_barrier(received[n]));
            }
        } else {
            assert forall|n: int|
                i <= n < received.len() && #[trigger] ends_barrier(received[n]) && (forall|k: int|
                    i <= k < n ==> (#[trigger] received[k]) is Ok) implies false by {
                assert(received[i] is Ok);
            }
        }
    }
}

/// Both halves of the rendezvous have to succeed. A peer that has closed has completed its
/// own exchange, so a send that finds it closed counts as a success; any other error does
/// not.
pub proof fn law_the_rendezvous_needs_both_halves(
    outcome: Result<(), ErrorView>,
    received: Result<(), Seq<char>>,
)
    ensures
        met(barrier_sent(outcome), received) is Ok <==> received is Ok && (outcome is Ok || outcome
            == Err::<(), ErrorView>(ErrorView::Closed)),
{
}

/// The two halves of an exchange fit each other: what the first sends the second answers,
/// and with that answer both have succeeded. Any other message fails the half that gets
/// it.
pub proof fn law_halves_fit_each_other(a: Side, b: Side, other: PayloadView)
    ensures
        ({
            let first = first_half_script(a, seq![]);
            &&& first matches HalfView::Ask(RequestView::Send { on, message }) && on == a && {
                let got = seq![ReplyView::Received(Ok(message))];
                &&& second_half_script(b, seq![]) == HalfView::Ask(RequestView::Receive { on: b })
                &&& second_half_script(b, got) matches HalfView::Ask(
                    RequestView::Send { on: back, message: answer },
                ) && back == b && answer != message && {
                    &&& second_half_script(b, got.push(ReplyView::Done(Ok(())))) == HalfView::Over(
                        Ok(true),
                    )
                    &&& first_half_script(
                        a,
                        seq![ReplyView::Done(Ok(())), ReplyView::Received(Ok(answer))],
                    ) == HalfView::Over(Ok(true))
                    &&& other != answer ==> first_half_script(
                        a,
                        seq![ReplyView::Done(Ok(())), ReplyView::Received(Ok(other))],
                    ) == HalfView::Over(Ok(false))
                    &&& other != message ==> second_half_script(
                        b,
                        seq![ReplyView::Received(Ok(other))],
                    ) == HalfView::Over(Ok(false))
                }
            }
        }),
{
    assert(seq![1u8, 2u8, 3u8][0] != seq![4u8, 5u8, 6u8][0]);
}

/// An exchange of one message each way went well exactly if both halves did.
pub proof fn law_both_messages_have_to_arrive(
    a: Result<bool, Seq<char>>,
    b: Result<bool, Seq<char>>,
)
    ensures
        both_halves(a, b) == Ok::<bool, Seq<char>>(true) <==> a == Ok::<bool, Seq<char>>(true) && b
            == Ok::<bool, Seq<char>>(true),
        both_halves(a, b) is Err ==> a is Err || b is Err,
{
}

/// The tests that exchange a sequence, and no others.
pub proof fn law_which_tests_exchange_a_sequence(test_id: Seq<char>)
    ensures
        is_sequence_test(test_id) <==> test_id == "message-boundaries"@ || test_id == "ordering"@
            || test_id == "payload-integrity"@ || test_id == "concurrent-send-receive"@ || test_id
            == "interop-handshake"@,
{
}

/// What the tests that send first send, to the byte; no other test sends first.
pub proof fn law_what_the_messages_hold(test_id: Seq<char>, message_size: u32)
    ensures
        test_id == "binary-message"@ ==> outgoing(test_id, message_size) == Some(
            seq![PayloadView::Binary(seq![0u8, 1u8, 2u8, 3u8, 4u8, 5u8])],
        ),
        test_id == "text-message"@ ==> outgoing(test_id, message_size) == Some(
            seq![PayloadView::Text("conformance text message"@)],
        ),
        test_id == "max-retransmits-accepted"@ ==> outgoing(test_id, message_size) == Some(
            seq![PayloadView::Binary(seq![9u8, 8u8, 7u8, 6u8])],
        ),
        test_id == "large-message"@ ==> (outgoing(test_id, message_size) matches Some(out)
            && out.len() == 1 && out[0] == PayloadView::Binary(
            payload(
                0,
                if message_size < 1024 {
                    1024
                } else {
                    message_size
                },
            ),
        )),
        outgoing(test_id, message_size) is Some <==> test_id == "binary-message"@ || test_id
            == "text-message"@ || test_id == "zero-length-message"@ || test_id == "large-message"@
            || test_id == "max-retransmits-accepted"@,
{
    reveal_strlit("binary-message");
    reveal_strlit("text-message");
    reveal_strlit("zero-length-message");
    reveal_strlit("large-message");
    reveal_strlit("max-retransmits-accepted");
    assert("binary-message"@[0] == 'b');
    assert("text-message"@[0] == 't');
    assert("zero-length-message"@[0] == 'z');
    assert("large-message"@[0] == 'l');
    assert("max-retransmits-accepted"@[0] == 'm');
}

/// A message that comes back otherwise than it was sent is described by its test; one that
/// comes back unchanged is never a problem.
pub proof fn law_changed_messages_are_described(
    test_id: Seq<char>,
    k: int,
    sent: PayloadView,
    got: PayloadView,
)
    ensures
        incoming_problem(test_id, k, sent, got) is None <==> got == sent,
        got != sent && test_id == "binary-message"@ ==> incoming_problem(test_id, k, sent, got)
            == Some(
            match got {
                PayloadView::Binary(_) => "binary payload mismatch"@,
                PayloadView::Text(_) => "binary message arrived as text"@,
            },
        ),
        got != sent && test_id == "text-message"@ ==> incoming_problem(test_id, k, sent, got)
            == Some(
            match got {
                PayloadView::Text(_) => "text payload mismatch"@,
                PayloadView::Binary(_) => "text message arrived as binary"@,
            },
        ),
        got != sent && test_id == "zero-length-message"@ ==> incoming_problem(test_id, 0, sent, got)
            == Some("expected empty binary message"@) && incoming_problem(test_id, 1, sent, got)
            == Some("expected empty text message"@),
        got != sent && test_id == "large-message"@ ==> incoming_problem(test_id, k, sent, got)
            == Some("large payload mismatch"@),
        got != sent && test_id == "max-retransmits-accepted"@ ==> incoming_problem(
            test_id,
            k,
            sent,
            got,
        ) == Some("unreliable channel payload mismatch"@),
{
    reveal_strlit("binary-message");
    reveal_strlit("text-message");
    reveal_strlit("zero-length-message");
    reveal_strlit("large-message");
    reveal_strlit("max-retransmits-accepted");
    assert("binary-message"@[0] == 'b');
    assert("text-message"@[0] == 't');
    assert("zero-length-message"@[0] == 'z');
    assert("large-message"@[0] == 'l');
    assert("max-retransmits-accepted"@[0] == 'm');
}

/// A test that sends first sends its messages in order, the next only once the last was
/// taken, and then receives as many, on its own side; the first send or receive that fails
/// ends it with its error.
pub proof fn law_messages_go_out_before_any_is_awaited(
    test_id: Seq<char>,
    config: TestConfigView,
    on: Side,
    h: Seq<ReplyView>,
    out: Seq<PayloadView>,
    n: int,
)
    requires
        test_id != "label-round-trip"@,
        !is_sequence_test(test_id),
        outgoing(test_id, config.message_size) == Some(out),
        0 <= n <= h.len(),
        forall|i: int|
            0 <= i < n && i < out.len() ==> (#[trigger] h[i] matches ReplyView::Done(Ok(_))),
        forall|i: int|
            out.len() <= i < n && i < 2 * out.len() ==> #[trigger] h[i] == ReplyView::Received(
                Ok(out[i - out.len()]),
            ),
    ensures
        n == h.len() && n < out.len() ==> exchange_script(test_id, config, on, h) == TrialView::Ask(
            RequestView::Send { on, message: out[n] },
        ),
        n == h.len() && out.len() <= n < 2 * out.len() ==> exchange_script(test_id, config, on, h)
            == TrialView::Ask(RequestView::Receive { on }),
        n < h.len() && n < out.len() ==> (h[n] matches ReplyView::Done(Err(error))
            ==> exchange_script(test_id, config, on, h) == (TrialView::Over {
            verdict: Err("send"@ + ": "@ + error.described()),
            heard: (n + 1) as nat,
        })),
        n < h.len() && out.len() <= n < 2 * out.len() ==> (h[n] matches ReplyView::Received(
            Err(error),
        ) ==> exchange_script(test_id, config, on, h) == (TrialView::Over {
            verdict: Err("receive"@ + ": "@ + error.described()),
            heard: (n + 1) as nat,
        })),
        n >= 2 * out.len() ==> exchange_script(test_id, config, on, h) == (TrialView::Over {
            verdict: Ok(()),
            heard: 2 * out.len(),
        }),
{
    let sends = if n < out.len() {
        n
    } else {
        out.len() as int
    };
    lemma_sends_up_to(on, out, h, 0, sends);
    if n >= out.len() {
        let receives = if n < 2 * out.len() {
            n - out.len()
        } else {
            out.len() as int
        };
        lemma_receives_up_to(test_id, on, out, h, 0, receives);
    }
}

proof fn lemma_sends_up_to(on: Side, out: Seq<PayloadView>, h: Seq<ReplyView>, i: int, n: int)
    requires
        0 <= i <= n <= out.len(),
        n <= h.len(),
        forall|k: int| 0 <= k < n ==> (#[trigger] h[k] matches ReplyView::Done(Ok(_))),
    ensures
        sends_from(on, out, h, i) == sends_from(on, out, h, n),
    decreases n - i,
{
    if i < n {
        assert(h[i] matches ReplyView::Done(Ok(_)));
        lemma_sends_up_to(on, out, h, i + 1, n);
    }
}

proof fn lemma_receives_up_to(
    test_id: Seq<char>,
    on: Side,
    out: Seq<PayloadView>,
    h: Seq<ReplyView>,
    k: int,
    n: int,
)
    requires
        0 <= k <= n <= out.len(),
        out.len() + n <= h.len(),
        forall|i: int|
            out.len() <= i < out.len() + n ==> #[trigger] h[i] == ReplyView::Received(
                Ok(out[i - out.len()]),
            ),
    ensures
        receives_from(test_id, on, out, h, k) == receives_from(test_id, on, out, h, n),
    decreases n - k,
{
    if k < n {
        assert(h[out.len() + k] == ReplyView::Received(Ok(out[k])));
        lemma_receives_up_to(test_id, on, out, h, k + 1, n);
    }
}

/// The label is read on the test's own side, and one that differs is reported beside the one
/// expected. A test that there is no exchange for fails by its id.
pub proof fn law_wrong_labels_and_ids_are_reported(
    test_id: Seq<char>,
    config: TestConfigView,
    on: Side,
    h: Seq<ReplyView>,
)
    ensures
        test_id == "label-round-trip"@ && h.len() == 0 ==> exchange_script(test_id, config, on, h)
            == TrialView::Ask(RequestView::ReadLabel { on }),
        test_id == "label-round-trip"@ && h.len() > 0 ==> (h[0] matches ReplyView::Label(label)
            ==> label != "conformance"@ ==> exchange_script(test_id, config, on, h) == (
        TrialView::Over {
            verdict: Err(
                "label was "@ + debug_quoted(label) + ", expected "@ + debug_quoted(
                    "conformance"@,
                ),
            ),
            heard: 1,
        })),
        test_id != "label-round-trip"@ && !is_sequence_test(test_id) && outgoing(
            test_id,
            config.message_size,
        ) is None ==> exchange_script(test_id, config, on, h) == (TrialView::Over {
            verdict: Err("unhandled test id "@ + debug_quoted(test_id)),
            heard: 0,
        }),
{
}

/// A sequence that could not be sent fails by what the sending says, and one that was sent
/// but not received by what the receiving says.
pub proof fn law_broken_sequences_fail(
    test_id: Seq<char>,
    config: TestConfigView,
    on: Side,
    h: Seq<ReplyView>,
    detail: Seq<char>,
)
    requires
        is_sequence_test(test_id),
        h.len() > 0,
    ensures
        (h[0] matches ReplyView::Exchanged { sent: Err(why), .. } && why == detail)
            ==> exchange_script(test_id, config, on, h) == (TrialView::Over {
            verdict: Err(detail),
            heard: 1,
        }),
        (h[0] matches ReplyView::Exchanged { sent: Ok(_), received: Err(why) } && why == detail)
            ==> exchange_script(test_id, config, on, h) == (TrialView::Over {
            verdict: Err(detail),
            heard: 1,
        }),
{
    lemma_sequence_ids(test_id);
}

/// What each peer sends at the end, and the only message that the other takes for the end.
pub proof fn law_the_sentinel_is_its_own_name(
    received: Seq<Result<PayloadView, ErrorView>>,
    message: PayloadView,
    error: ErrorView,
)
    ensures
        sentinel() == vstd::utf8::encode_utf8("__conformance_barrier__"@),
        received.len() == 1 && received[0] == Ok::<PayloadView, ErrorView>(message) ==> (
        barrier_received(received, 0) is Some <==> message == PayloadView::Binary(
            vstd::utf8::encode_utf8("__conformance_barrier__"@),
        )),
        error != ErrorView::Closed ==> barrier_sent(Err(error)) == Err::<(), Seq<char>>(
            "send"@ + ": "@ + error.described(),
        ),
        received.len() > 0 && received[0] == Err::<PayloadView, ErrorView>(error) && error
            != ErrorView::Closed ==> barrier_received(received, 0) == Some(
            Err::<(), Seq<char>>("receive"@ + ": "@ + error.described()),
        ),
{
    reveal_with_fuel(barrier_received, 2);
}

/// Where both halves fail, the sending, or the first half, is the one that is reported; a
/// message that was lost on either way is no error but no success.
pub proof fn law_the_first_failure_is_reported(
    sent: Result<(), Seq<char>>,
    received: Result<(), Seq<char>>,
    a: Result<bool, Seq<char>>,
    b: Result<bool, Seq<char>>,
)
    ensures
        sent is Err ==> met(sent, received) == sent,
        sent is Ok ==> met(sent, received) == received,
        a is Err ==> both_halves(a, b) == a,
        a == Ok::<bool, Seq<char>>(true) ==> both_halves(a, b) == b,
        a == Ok::<bool, Seq<char>>(false) ==> both_halves(a, b) == Ok::<bool, Seq<char>>(false),
{
}

} // verus!
