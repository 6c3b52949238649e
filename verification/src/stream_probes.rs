//! The probes of the streaming forms of send and receive.

use vstd::prelude::*;

use crate::error::{describe, Error, ErrorView};
use crate::inproc::{connected_then, inproc_connect, rest, wind_up, wound_up, Connecting};
use crate::json::utf8_text;
use crate::payload::{byte_lists, integrity_problem, make_payload, payload, verify_all};
use crate::probes::{all_done, all_received, at_least, got_instead, instead};
use crate::script::{
    fail, failure, replies_view, Message, Next, NextView, PayloadView, Reply, ReplyView, Request, RequestView,
    Side, StreamedMessage, StreamedView,
};
use crate::sequence::{
    receiving_from, recv_sequence, send_sequence, sending_from, Receiving, ReceivingView, Sending,
    SendingView,
};
use crate::suite::TestConfig;
use crate::text::{concat2, concat4, decimal, to_decimal};

verus! {

// ----- sending through a stream -------------------------------------------------------------------------

/// What the feeder of a stream of messages writes next.
#[derive(Debug)]
pub enum Feed {
    /// The head of a binary message of this length, which carries a stream for its
    /// payload.
    Head(u32),
    /// The payload of the message whose head was written last.
    Payload(Vec<u8>),
    /// Everything was written.
    Fed,
    /// A reader went away too soon.
    Fail(String),
}

/// The contents of a [`Feed`].
pub enum FeedView {
    Head(nat),
    Payload(Seq<u8>),
    Fed,
    Fail(Seq<char>),
}

impl View for Feed {
    type V = FeedView;

    open spec fn view(&self) -> FeedView {
        match self {
            Feed::Head(length) => FeedView::Head(*length as nat),
            Feed::Payload(bytes) => FeedView::Payload(bytes@),
            Feed::Fed => FeedView::Fed,
            Feed::Fail(detail) => FeedView::Fail(detail@),
        }
    }
}

/// The feeding of `count` indexed payloads from the `i`-th write on, each in a head and a
/// payload. `written` says of every write so far whether all of it was taken.
pub open spec fn feeding_from(count: u32, size: u32, written: Seq<bool>, i: int) -> FeedView
    decreases 2 * count - i,
{
    if i < 0 || i >= 2 * count {
        FeedView::Fed
    } else if i >= written.len() {
        if i % 2 == 0 {
            FeedView::Head(payload((i / 2) as u32, size).len())
        } else {
            FeedView::Payload(payload((i / 2) as u32, size))
        }
    } else if written[i] {
        feeding_from(count, size, written, i + 1)
    } else if i % 2 == 0 {
        FeedView::Fail("stream-message writer closed early"@)
    } else {
        FeedView::Fail("payload writer closed early"@)
    }
}

/// Feed `count` indexed payloads of `size` bytes into a stream of messages.
pub fn feed(count: u32, size: u32, written: &[bool]) -> (r: Feed)
    ensures
        r@ == feeding_from(count, size, written@, 0),
{
    let total: u64 = count as u64 * 2;
    let mut i: u64 = 0;
    while i < total
        invariant
            total == 2 * count,
            i <= total,
            i <= written@.len(),
            feeding_from(count, size, written@, 0) == feeding_from(count, size, written@, i as int),
        decreases total - i,
    {
        let head = i % 2 == 0;
        if i >= written.len() as u64 {
            let bytes = make_payload((i / 2) as u32, size);
            if head {
                return Feed::Head(bytes.len() as u32);
            }
            return Feed::Payload(bytes);
        }
        if !written[i as usize] {
            if head {
                return Feed::Fail("stream-message writer closed early".to_string());
            }
            return Feed::Fail("payload writer closed early".to_string());
        }
        i = i + 1;
    }
    Feed::Fed
}

/// A sequence that was received: it is verified, then both peers are closed.
pub open spec fn verified_then_closed(
    t: Seq<ReplyView>,
    got: Seq<Seq<u8>>,
    count: u32,
    at: int,
) -> NextView {
    match integrity_problem(got, count) {
        Some(detail) => NextView::Fail(detail),
        None => wound_up(t, at),
    }
}

/// What follows the connecting: the stream is sent, then the other side receives.
pub open spec fn send_via_stream_tail(t: Seq<ReplyView>, count: u32, size: u32) -> NextView {
    if t.len() == 0 {
        NextView::Ask(RequestView::SendViaStream { on: Side::Offerer, count, size })
    } else {
        match t[0] {
            ReplyView::Streamed { fed: Err(detail), .. } => NextView::Fail(detail),
            ReplyView::Streamed { fed: Ok(()), streamed: Err(e) } => NextView::Fail(
                "send-via-stream: "@ + e.0.described() + " after "@ + decimal(e.1 as nat)
                    + " message(s)"@,
            ),
            ReplyView::Streamed { fed: Ok(()), streamed: Ok(()) } => match receiving_from(
                Side::Answerer,
                count,
                t,
                1,
                seq![],
            ) {
                ReceivingView::Ask(request) => NextView::Ask(request),
                ReceivingView::Fail(detail) => NextView::Fail(detail),
                ReceivingView::OutOfStep => NextView::OutOfStep,
                ReceivingView::Received { payloads, heard } => verified_then_closed(
                    t,
                    payloads,
                    count,
                    heard as int,
                ),
            },
            _ => NextView::OutOfStep,
        }
    }
}

fn verify_then_close(n: usize, got: &Vec<Vec<u8>>, count: u32, at: usize) -> (r: Next)
    ensures
        forall|t: Seq<ReplyView>|
            t.len() == n ==> r@ == #[trigger] verified_then_closed(
                t,
                byte_lists(got@),
                count,
                at as int,
            ),
{
    match verify_all(got.as_slice(), count) {
        Err(detail) => Next::Fail(detail),
        Ok(()) => wind_up(n, at),
    }
}

fn clamp_up(n: u32, least: u32) -> (r: u32)
    ensures
        r == at_least(n, least),
{
    if n < least {
        least
    } else {
        n
    }
}

/// Round-trip `message-count` indexed payloads through `send-via-stream` on one side and
/// plain `receive` on the other, verifying payload integrity.
pub fn send_via_stream_round_trip(config: &TestConfig, replies: &[Reply]) -> (r: Next)
    ensures
        r@ == connected_then(
            "send-via-stream"@,
            replies_view(replies@),
            |t: Seq<ReplyView>|
                send_via_stream_tail(
                    t,
                    at_least(config@.message_count, 1),
                    at_least(config@.message_size, 16),
                ),
        ),
{
    let n = match inproc_connect("send-via-stream", replies) {
        Connecting::Next(next) => {
            return next;
        },
        Connecting::Ready(n) => n,
    };
    let count = clamp_up(config.message_count, 1);
    let size = clamp_up(config.message_size, 16);
    let tail = rest(replies, n);
    if tail.len() == 0 {
        return Next::Ask(Request::SendViaStream { on: Side::Offerer, count, size });
    }
    match &tail[0] {
        Reply::Streamed { fed: Err(detail), .. } => {
            return Next::Fail(detail.clone());
        },
        Reply::Streamed { fed: Ok(()), streamed: Err(e) } => {
            let mut text = concat4(
                "send-via-stream: ",
                describe(&e.error).as_str(),
                " after ",
                to_decimal(e.sent as u64).as_str(),
            );
            text.append(" message(s)");
            return Next::Fail(text);
        },
        Reply::Streamed { fed: Ok(()), streamed: Ok(()) } => {},
        _ => {
            return Next::OutOfStep;
        },
    }
    match recv_sequence(Side::Answerer, count, tail, 1) {
        Receiving::Ask(request) => Next::Ask(request),
        Receiving::Fail(detail) => Next::Fail(detail),
        Receiving::OutOfStep => Next::OutOfStep,
        Receiving::Received { payloads, heard } => verify_then_close(
            tail.len(),
            &payloads,
            count,
            heard,
        ),
    }
}

// ----- receiving through a stream ---------------------------------------------------------------------------

/// What is wrong with a message of a claimed stream.
pub open spec fn streamed_problem(message: StreamedView) -> Option<Seq<char>> {
    if message.data.len() != message.declared {
        Some(
            "stream-message declared "@ + decimal(message.declared as nat) + " bytes but carried "@
                + decimal(message.data.len()),
        )
    } else if message.text && !vstd::utf8::valid_utf8(message.data) {
        Some("text stream-message payload is not UTF-8"@)
    } else {
        None
    }
}

/// What has arrived after a batch, from its `k`-th message on, or the problem of the
/// first message that has one.
pub open spec fn batch_from(messages: Seq<StreamedView>, k: int, got: Seq<Seq<u8>>) -> Result<
    Seq<Seq<u8>>,
    Seq<char>,
>
    decreases messages.len() - k,
{
    if k < 0 || k >= messages.len() {
        Ok(got)
    } else {
        match streamed_problem(messages[k]) {
            Some(detail) => Err(detail),
            None => batch_from(messages, k + 1, got.push(messages[k].data)),
        }
    }
}

/// The batches of a claimed stream from the `i`-th reply on, until `count` messages have
/// arrived.
pub open spec fn batches_from(t: Seq<ReplyView>, i: int, got: Seq<Seq<u8>>, count: u32) -> NextView
    decreases t.len() - i,
{
    if got.len() >= count {
        verified_then_closed(t, got, count, i)
    } else if i < 0 || i >= t.len() {
        NextView::Ask(RequestView::ReadStream { on: Side::Answerer })
    } else {
        match t[i] {
            ReplyView::Batch { messages, ended } => match batch_from(messages, 0, got) {
                Err(detail) => NextView::Fail(detail),
                Ok(more) => if ended && more.len() < count {
                    NextView::Fail(
                        "stream ended after "@ + decimal(more.len()) + " of "@ + decimal(
                            count as nat,
                        ) + " message(s)"@,
                    )
                } else {
                    batches_from(t, i + 1, more, count)
                },
            },
            _ => NextView::OutOfStep,
        }
    }
}

/// What follows the connecting: everything is sent, then the stream is claimed and read.
pub open spec fn receive_via_stream_tail(t: Seq<ReplyView>, count: u32, size: u32) -> NextView {
    match sending_from(Side::Offerer, count, size, t, 0, 0) {
        SendingView::Ask(request) => NextView::Ask(request),
        SendingView::Fail(detail) => NextView::Fail(detail),
        SendingView::OutOfStep => NextView::OutOfStep,
        SendingView::Sent(n) => if t.len() <= n {
            NextView::Ask(RequestView::ReceiveViaStream { on: Side::Answerer })
        } else {
            match t[n as int] {
                ReplyView::Done(Err(error)) => NextView::Fail(
                    failure("receive-via-stream"@, error),
                ),
                ReplyView::Done(Ok(())) => batches_from(t, n as int + 1, seq![], count),
                _ => NextView::OutOfStep,
            }
        },
    }
}

/// Judge one message of a claimed stream.
fn check_streamed(message: &StreamedMessage) -> (r: Option<String>)
    ensures
        match r {
            Some(detail) => streamed_problem(message@) == Some(detail@),
            None => streamed_problem(message@) is None,
        },
{
    if message.data.len() as u64 != message.declared as u64 {
        return Some(
            concat4(
                "stream-message declared ",
                to_decimal(message.declared as u64).as_str(),
                " bytes but carried ",
                to_decimal(message.data.len() as u64).as_str(),
            ),
        );
    }
    if message.text {
        if let Err(_) = utf8_text(message.data.as_slice()) {
            return Some("text stream-message payload is not UTF-8".to_string());
        }
    }
    None
}

fn take_batch(messages: &Vec<StreamedMessage>, got: &mut Vec<Vec<u8>>) -> (r: Result<(), String>)
    ensures
        match r {
            Ok(()) => batch_from(
                messages@.map_values(|m: StreamedMessage| m@),
                0,
                byte_lists(old(got)@),
            ) == Ok::<Seq<Seq<u8>>, Seq<char>>(byte_lists(final(got)@)),
            Err(detail) => batch_from(
                messages@.map_values(|m: StreamedMessage| m@),
                0,
                byte_lists(old(got)@),
            ) == Err::<Seq<Seq<u8>>, Seq<char>>(detail@),
        },
{
    let ghost list = messages@.map_values(|m: StreamedMessage| m@);
    let mut k: usize = 0;
    while k < messages.len()
        invariant
            k <= messages@.len(),
            list == messages@.map_values(|m: StreamedMessage| m@),
            batch_from(list, 0, byte_lists(old(got)@)) == batch_from(
                list,
                k as int,
                byte_lists(got@),
            ),
        decreases messages@.len() - k,
    {
        if let Some(detail) = check_streamed(&messages[k]) {
            return Err(detail);
        }
        let ghost before = byte_lists(got@);
        got.push(vstd::slice::slice_to_vec(messages[k].data.as_slice()));
        assert(byte_lists(got@) =~= before.push(list[k as int].data));
        k = k + 1;
    }
    Ok(())
}

/// Round-trip `message-count` indexed payloads through plain `send` on one side and
/// `receive-via-stream` on the other, verifying the `stream-message` kind/length
/// invariants and payload integrity.
pub fn receive_via_stream_round_trip(config: &TestConfig, replies: &[Reply]) -> (r: Next)
    ensures
        r@ == connected_then(
            "receive-via-stream"@,
            replies_view(replies@),
            |t: Seq<ReplyView>|
                receive_via_stream_tail(
                    t,
                    at_least(config@.message_count, 1),
                    at_least(config@.message_size, 16),
                ),
        ),
{
    let connected = match inproc_connect("receive-via-stream", replies) {
        Connecting::Next(next) => {
            return next;
        },
        Connecting::Ready(n) => n,
    };
    let count = clamp_up(config.message_count, 1);
    let size = clamp_up(config.message_size, 16);
    let tail = rest(replies, connected);
    let ghost t = replies_view(tail@);
    let n = match send_sequence(Side::Offerer, count, size, tail, 0) {
        Sending::Ask(request) => {
            return Next::Ask(request);
        },
        Sending::Fail(detail) => {
            return Next::Fail(detail);
        },
        Sending::OutOfStep => {
            return Next::OutOfStep;
        },
        Sending::Sent(n) => n,
    };
    if tail.len() <= n {
        return Next::Ask(Request::ReceiveViaStream { on: Side::Answerer });
    }
    match &tail[n] {
        Reply::Done(Ok(())) => {},
        Reply::Done(Err(error)) => {
            return Next::Fail(fail("receive-via-stream", error));
        },
        _ => {
            return Next::OutOfStep;
        },
    }
    let mut got: Vec<Vec<u8>> = Vec::new();
    assert(byte_lists(got@) =~= seq![]);
    let ghost goal = batches_from(t, n + 1, seq![], count);
    let mut i: usize = n + 1;
    while (got.len() as u64) < count as u64 && i < tail.len()
        invariant
            t == replies_view(tail@),
            0 <= i <= tail@.len(),
            goal == batches_from(t, i as int, byte_lists(got@), count),
            goal == connected_then(
                "receive-via-stream"@,
                replies_view(replies@),
                |t: Seq<ReplyView>|
                    receive_via_stream_tail(
                        t,
                        at_least(config@.message_count, 1),
                        at_least(config@.message_size, 16),
                    ),
            ),
        decreases tail@.len() - i,
    {
        match &tail[i] {
            Reply::Batch { messages, ended } => {
                if let Err(detail) = take_batch(messages, &mut got) {
                    return Next::Fail(detail);
                }
                if *ended && (got.len() as u64) < count as u64 {
                    let mut text = concat4(
                        "stream ended after ",
                        to_decimal(got.len() as u64).as_str(),
                        " of ",
                        to_decimal(count as u64).as_str(),
                    );
                    text.append(" message(s)");
                    return Next::Fail(text);
                }
                i = i + 1;
            },
            _ => {
                return Next::OutOfStep;
            },
        }
    }
    if (got.len() as u64) < count as u64 {
        Next::Ask(Request::ReadStream { on: Side::Answerer })
    } else {
        verify_then_close(tail.len(), &got, count, i)
    }
}

// ----- claiming once -------------------------------------------------------------------------------------------

/// Whether an outcome is the one that a claimed channel gives; else the detail to report.
/// `unexpected` is the detail of a success.
pub open spec fn claim_problem(what: Seq<char>, unexpected: Seq<char>, error: Option<ErrorView>) -> Option<
    Seq<char>,
> {
    match error {
        Some(ErrorView::ReceivingViaStream) => None,
        None => Some(unexpected),
        Some(other) => Some(got_instead(what + ": expected receiving-via-stream"@, other)),
    }
}

/// The error of an outcome, if it is one.
pub open spec fn error_of<T>(outcome: Result<T, ErrorView>) -> Option<ErrorView> {
    match outcome {
        Ok(_) => None,
        Err(error) => Some(error),
    }
}

/// What follows the connecting: a pending receive is resolved by the claim, a second
/// claim fails, and so does a later receive.
pub open spec fn claim_once_tail(t: Seq<ReplyView>) -> NextView {
    if t.len() == 0 {
        NextView::Ask(RequestView::ReceiveThenClaim { on: Side::Answerer })
    } else {
        match t[0] {
            ReplyView::Claimed { claim: Err(error), .. } => NextView::Fail(
                failure("first receive-via-stream"@, error),
            ),
            ReplyView::Claimed { claim: Ok(()), pending } => match claim_problem(
                "pending receive"@,
                "pending receive yielded a message"@,
                error_of(pending),
            ) {
                Some(detail) => NextView::Fail(detail),
                None => if t.len() == 1 {
                    NextView::Ask(RequestView::ReceiveViaStream { on: Side::Answerer })
                } else {
                    match t[1] {
                        ReplyView::Done(second) => match claim_problem(
                            "second receive-via-stream"@,
                            "second receive-via-stream succeeded"@,
                            error_of(second),
                        ) {
                            Some(detail) => NextView::Fail(detail),
                            None => if t.len() == 2 {
                                NextView::Ask(RequestView::Receive { on: Side::Answerer })
                            } else {
                                match t[2] {
                                    ReplyView::Received(later) => match claim_problem(
                                        "receive after claim"@,
                                        "receive after claim yielded a message"@,
                                        error_of(later),
                                    ) {
                                        Some(detail) => NextView::Fail(detail),
                                        None => wound_up(t, 3),
                                    },
                                    _ => NextView::OutOfStep,
                                }
                            },
                        },
                        _ => NextView::OutOfStep,
                    }
                },
            },
            _ => NextView::OutOfStep,
        }
    }
}

fn check_claim(what: &str, unexpected: &str, error: Option<&Error>) -> (r: Option<String>)
    ensures
        ({
            let seen = match error {
                Some(error) => Some(error@),
                None => None,
            };
            match r {
                Some(detail) => claim_problem(what@, unexpected@, seen) == Some(detail@),
                None => claim_problem(what@, unexpected@, seen) is None,
            }
        }),
{
    match error {
        Some(Error::ReceivingViaStream) => None,
        None => Some(unexpected.to_string()),
        Some(other) => Some(
            instead(concat2(what, ": expected receiving-via-stream").as_str(), other),
        ),
    }
}

fn done_error<'a>(outcome: &'a Result<(), Error>) -> (r: Option<&'a Error>)
    ensures
        match (r, outcome) {
            (Some(error), Err(e)) => error@ == e@,
            (None, Ok(_)) => true,
            _ => false,
        },
{
    match outcome {
        Ok(()) => None,
        Err(error) => Some(error),
    }
}

fn received_error<'a>(outcome: &'a Result<Message, Error>) -> (r: Option<&'a Error>)
    ensures
        match (r, outcome) {
            (Some(error), Err(e)) => error@ == e@,
            (None, Ok(_)) => true,
            _ => false,
        },
{
    match outcome {
        Ok(_) => None,
        Err(error) => Some(error),
    }
}

/// Assert `receive-via-stream`'s once-only semantics: the first call claims the inbound
/// messages (resolving any pending `receive` with `error.receiving-via-stream`), and
/// every later `receive-via-stream` or `receive` fails with the same variant.
pub fn receive_via_stream_once(replies: &[Reply]) -> (r: Next)
    ensures
        r@ == connected_then(
            "receive-via-stream-once"@,
            replies_view(replies@),
            |t: Seq<ReplyView>| claim_once_tail(t),
        ),
{
    let n = match inproc_connect("receive-via-stream-once", replies) {
        Connecting::Next(next) => {
            return next;
        },
        Connecting::Ready(n) => n,
    };
    let tail = rest(replies, n);
    if tail.len() == 0 {
        return Next::Ask(Request::ReceiveThenClaim { on: Side::Answerer });
    }
    let pending = match &tail[0] {
        Reply::Claimed { claim: Err(error), .. } => {
            return Next::Fail(fail("first receive-via-stream", error));
        },
        Reply::Claimed { claim: Ok(()), pending } => pending,
        _ => {
            return Next::OutOfStep;
        },
    };
    if let Some(detail) = check_claim(
        "pending receive",
        "pending receive yielded a message",
        received_error(pending),
    ) {
        return Next::Fail(detail);
    }
    if tail.len() == 1 {
        return Next::Ask(Request::ReceiveViaStream { on: Side::Answerer });
    }
    let second = match &tail[1] {
        Reply::Done(second) => second,
        _ => {
            return Next::OutOfStep;
        },
    };
    if let Some(detail) = check_claim(
        "second receive-via-stream",
        "second receive-via-stream succeeded",
        done_error(second),
    ) {
        return Next::Fail(detail);
    }
    if tail.len() == 2 {
        return Next::Ask(Request::Receive { on: Side::Answerer });
    }
    let later = match &tail[2] {
        Reply::Received(later) => later,
        _ => {
            return Next::OutOfStep;
        },
    };
    if let Some(detail) = check_claim(
        "receive after claim",
        "receive after claim yielded a message",
        received_error(later),
    ) {
        return Next::Fail(detail);
    }
    wind_up(tail.len(), 3)
}

// ----- what passing means ---------------------------------------------------------------------------------------------

/// Everything was fed exactly if every head and every payload was taken.
pub proof fn law_fed_only_if_everything_was_taken(count: u32, size: u32, written: Seq<bool>)
    ensures
        feeding_from(count, size, written, 0) is Fed <==> written.len() >= 2 * count && forall|i: int|
            0 <= i < 2 * count ==> #[trigger] written[i],
{
    lemma_fed(count, size, written, 0);
}

proof fn lemma_fed(count: u32, size: u32, written: Seq<bool>, i: int)
    requires
        0 <= i <= 2 * count,
    ensures
        feeding_from(count, size, written, i) is Fed <==> (i == 2 * count || written.len() >= 2
            * count) && forall|k: int| i <= k < 2 * count ==> #[trigger] written[k],
    decreases 2 * count - i,
{
    if i < 2 * count {
        lemma_fed(count, size, written, i + 1);
    }
}

/// The payloads of the `count` receives from the `from`-th reply on.
pub open spec fn received_payloads(t: Seq<ReplyView>, from: int, count: int) -> Seq<Seq<u8>> {
    Seq::new(
        count as nat,
        |k: int|
            match t[from + k] {
                ReplyView::Received(Ok(message)) => message.octets(),
                _ => seq![],
            },
    )
}

proof fn lemma_receiving(on: Side, count: u32, t: Seq<ReplyView>, from: int, n: int)
    requires
        0 <= from,
        0 <= n <= count,
    ensures
        ({
            let end = receiving_from(on, count, t, from + n, received_payloads(t, from, n));
            &&& end is Received <==> (n == count || from + count <= t.len()) && all_received(
                t,
                from + n,
                from + count,
            )
            &&& end matches ReceivingView::Received { payloads, heard } ==> heard == from + count
                && payloads == received_payloads(t, from, count as int)
        }),
    decreases count - n,
{
    let got = received_payloads(t, from, n);
    if n < count {
        if all_received(t, from + n, from + count) {
            assert(t[from + n] matches ReplyView::Received(Ok(_)));
        }
        if from + n < t.len() {
            if let ReplyView::Received(Ok(message)) = t[from + n] {
                assert(got.push(message.octets()) =~= received_payloads(t, from, n + 1));
                lemma_receiving(on, count, t, from, n + 1);
                if all_received(t, from + n + 1, from + count) {
                    assert forall|i: int| from + n <= i < from + count implies (
                    #[trigger] t[i] matches ReplyView::Received(Ok(_))) by {}
                }
            }
        }
    }
}

/// Sending through a stream passes exactly if the stream was fed and taken to its end, and
/// the other side received `count` messages, each an intact payload; both peers are
/// closed by then.
pub proof fn law_send_via_stream_passes_only_intact(t: Seq<ReplyView>, count: u32, size: u32)
    ensures
        send_via_stream_tail(t, count, size) is Pass <==> t.len() >= count + 3 && (t[0] matches
            ReplyView::Streamed { fed: Ok(_), streamed: Ok(_) }) && all_received(t, 1, 1 + count)
            && integrity_problem(received_payloads(t, 1, count as int), count) is None,
{
    assert(received_payloads(t, 1, 0) =~= seq![]);
    lemma_receiving(Side::Answerer, count, t, 1, 0);
}

/// The messages of the batches from the `from`-th reply up to the `to`-th.
pub open spec fn batched(t: Seq<ReplyView>, from: int, to: int) -> Seq<StreamedView>
    decreases to - from,
{
    if to <= from {
        seq![]
    } else {
        batched(t, from, to - 1) + match t[to - 1] {
            ReplyView::Batch { messages, .. } => messages,
            _ => seq![],
        }
    }
}

/// The payloads of messages of a stream.
pub open spec fn streamed_payloads(messages: Seq<StreamedView>) -> Seq<Seq<u8>> {
    messages.map_values(|message: StreamedView| message.data)
}

/// Every message is of the length it declares, and text is UTF-8.
pub open spec fn all_sound(messages: Seq<StreamedView>) -> bool {
    forall|i: int| 0 <= i < messages.len() ==> streamed_problem(#[trigger] messages[i]) is None
}

proof fn lemma_batch(messages: Seq<StreamedView>, k: int, got: Seq<Seq<u8>>)
    requires
        0 <= k <= messages.len(),
    ensures
        batch_from(messages, k, got) is Ok <==> all_sound(messages.skip(k)),
        batch_from(messages, k, got) matches Ok(more) ==> more == got + streamed_payloads(
            messages.skip(k),
        ),
    decreases messages.len() - k,
{
    if k < messages.len() {
        let rest = messages.skip(k + 1);
        assert(messages.skip(k) =~= seq![messages[k]] + rest);
        assert(all_sound(messages.skip(k)) <==> streamed_problem(messages[k]) is None && all_sound(
            rest,
        )) by {
            if all_sound(messages.skip(k)) {
                assert(streamed_problem(messages.skip(k)[0]) is None);
                assert forall|i: int| 0 <= i < rest.len() implies streamed_problem(
                    #[trigger] rest[i],
                ) is None by {
                    assert(rest[i] == messages.skip(k)[i + 1]);
                }
            }
        }
        lemma_batch(messages, k + 1, got.push(messages[k].data));
        assert(got.push(messages[k].data) + streamed_payloads(rest) =~= got + streamed_payloads(
            messages.skip(k),
        ));
    } else {
        assert(got + streamed_payloads(messages.skip(k)) =~= got);
    }
}

/// The `i`-th reply is a batch that is not the last of the stream, unless `count` messages
/// have arrived with it.
pub open spec fn in_time(t: Seq<ReplyView>, from: int, i: int, count: u32) -> bool {
    t[i] matches ReplyView::Batch { ended, .. } && (ended ==> batched(t, from, i + 1).len()
        >= count)
}

/// The stream was read up to the `to`-th reply: batches of sound messages, which make up
/// `count` intact payloads, and it did not end before that.
pub open spec fn read_intact(t: Seq<ReplyView>, from: int, to: int, count: u32) -> bool {
    &&& from <= to
    &&& to + 1 < t.len()
    &&& forall|i: int| from <= i < to ==> in_time(t, from, i, count)
    &&& all_sound(batched(t, from, to))
    &&& integrity_problem(streamed_payloads(batched(t, from, to)), count) is None
}

proof fn lemma_batches(t: Seq<ReplyView>, from: int, i: int, count: u32)
    requires
        0 <= from <= i,
        forall|k: int| from <= k < i ==> in_time(t, from, k, count),
        all_sound(batched(t, from, i)),
    ensures
        batches_from(t, i, streamed_payloads(batched(t, from, i)), count) is Pass ==> exists|to: int|
            #[trigger] read_intact(t, from, to, count),
    decreases t.len() - i,
{
    let so_far = batched(t, from, i);
    let got = streamed_payloads(so_far);
    if got.len() >= count {
        if batches_from(t, i, got, count) is Pass {
            assert(read_intact(t, from, i, count));
        }
    } else if i < t.len() {
        if let ReplyView::Batch { messages, ended } = t[i] {
            lemma_batch(messages, 0, got);
            assert(messages.skip(0) =~= messages);
            if let Ok(more) = batch_from(messages, 0, got) {
                assert(batched(t, from, i + 1) =~= so_far + messages);
                assert(more =~= streamed_payloads(batched(t, from, i + 1)));
                if !ended || more.len() >= count {
                    assert(in_time(t, from, i, count));
                    lemma_batches(t, from, i + 1, count);
                }
            }
        }
    }
}

proof fn lemma_batched_prefix(t: Seq<ReplyView>, from: int, i: int, to: int)
    requires
        from <= i <= to,
    ensures
        batched(t, from, i).len() <= batched(t, from, to).len(),
        batched(t, from, i) == batched(t, from, to).take(batched(t, from, i).len() as int),
    decreases to - i,
{
    let part = batched(t, from, i);
    if i < to {
        lemma_batched_prefix(t, from, i, to - 1);
        let most = batched(t, from, to - 1);
        assert(batched(t, from, to).take(part.len() as int) =~= most.take(part.len() as int));
    } else {
        assert(part.take(part.len() as int) =~= part);
    }
}

proof fn lemma_intact_reads_pass(t: Seq<ReplyView>, from: int, i: int, to: int, count: u32)
    requires
        0 <= from <= i <= to,
        read_intact(t, from, to, count),
    ensures
        batches_from(t, i, streamed_payloads(batched(t, from, i)), count) is Pass,
    decreases to - i,
{
    let all = batched(t, from, to);
    let so_far = batched(t, from, i);
    let got = streamed_payloads(so_far);
    lemma_batched_prefix(t, from, i, to);
    if got.len() >= count {
        assert(so_far =~= all);
    } else {
        assert(in_time(t, from, i, count));
        if let ReplyView::Batch { messages, ended } = t[i] {
            let next = batched(t, from, i + 1);
            lemma_batched_prefix(t, from, i + 1, to);
            assert(next =~= so_far + messages);
            assert(messages.skip(0) =~= messages);
            assert forall|k: int| 0 <= k < messages.len() implies streamed_problem(
                #[trigger] messages[k],
            ) is None by {
                assert(messages[k] == next[so_far.len() + k]);
                assert(next[so_far.len() + k] == all[so_far.len() + k]);
            }
            lemma_batch(messages, 0, got);
            assert(got + streamed_payloads(messages) =~= streamed_payloads(next));
            lemma_intact_reads_pass(t, from, i + 1, to, count);
        }
    }
}

proof fn lemma_sending(on: Side, count: u32, size: u32, t: Seq<ReplyView>, index: int)
    requires
        0 <= index <= count,
    ensures
        sending_from(on, count, size, t, 0, index) is Sent <==> (index == count || count
            <= t.len()) && all_done(t, index, count as int),
        sending_from(on, count, size, t, 0, index) matches SendingView::Sent(n) ==> n == count,
    decreases count - index,
{
    if index < count {
        lemma_sending(on, count, size, t, index + 1);
        if all_done(t, index, count as int) {
            assert(t[index] matches ReplyView::Done(Ok(_)));
        }
        if (t[index] matches ReplyView::Done(Ok(_))) && all_done(t, index + 1, count as int) {
            assert forall|i: int| index <= i < count implies (#[trigger] t[i] matches
                ReplyView::Done(Ok(_))) by {}
        }
    }
}

/// Receiving through a stream passes exactly if every send succeeded, the stream was claimed,
/// and what it carried were `count` intact payloads, each message of the length it
/// declares and text only if it is UTF-8; both peers are closed by then.
pub proof fn law_receive_via_stream_passes_only_intact(t: Seq<ReplyView>, count: u32, size: u32)
    ensures
        receive_via_stream_tail(t, count, size) is Pass <==> all_done(t, 0, count as int + 1)
            && exists|to: int| #[trigger] read_intact(t, count as int + 1, to, count),
{
    lemma_sending(Side::Offerer, count, size, t, 0);
    let from = count as int + 1;
    assert(batched(t, from, from) =~= seq![]);
    assert(streamed_payloads(batched(t, from, from)) =~= seq![]);
    lemma_batches(t, from, from, count);
    if all_done(t, 0, count as int) && (t[count as int] matches ReplyView::Done(Ok(_))) {
        assert forall|i: int| 0 <= i < count + 1 implies (#[trigger] t[i] matches ReplyView::Done(
            Ok(_),
        )) by {}
    }
    if all_done(t, 0, from) && exists|to: int| #[trigger] read_intact(t, from, to, count) {
        let to = choose|to: int| #[trigger] read_intact(t, from, to, count);
        assert(t[count as int] matches ReplyView::Done(Ok(_)));
        lemma_intact_reads_pass(t, from, from, to, count);
    }
}

/// Claiming once passes exactly if the first claim succeeded and the pending receive, the
/// second claim and the later receive all gave `receiving-via-stream`; both peers are
/// closed by then.
pub proof fn law_claim_once_passes_only_once(t: Seq<ReplyView>)
    ensures
        claim_once_tail(t) is Pass <==> t.len() >= 5 && (t[0] matches ReplyView::Claimed {
            claim: Ok(_),
            pending: Err(ErrorView::ReceivingViaStream),
        }) && t[1] == ReplyView::Done(Err(ErrorView::ReceivingViaStream)) && t[2]
            == ReplyView::Received(Err(ErrorView::ReceivingViaStream)),
{
}

/// What is wrong with a message of a stream: it carries more or less than it declares, or it
/// is text and not UTF-8. Nothing else is.
pub proof fn law_streamed_messages_are_what_they_declare(message: StreamedView)
    ensures
        streamed_problem(message) is None <==> message.data.len() == message.declared && (
        message.text ==> vstd::utf8::valid_utf8(message.data)),
        message.data.len() != message.declared ==> streamed_problem(message) == Some(
            "stream-message declared "@ + decimal(message.declared as nat) + " bytes but carried "@
                + decimal(message.data.len()),
        ),
        message.data.len() == message.declared && streamed_problem(message) is Some
            ==> streamed_problem(message) == Some("text stream-message payload is not UTF-8"@),
{
}

/// The heads and payloads of the messages are written in turn: after `n` writes that were
/// taken comes the head or the payload of the message they have reached, the head giving the
/// length of the payload. The first write that was not taken ends it.
pub proof fn law_heads_and_payloads_alternate(count: u32, size: u32, written: Seq<bool>)
    requires
        written.len() < 2 * count,
        forall|i: int| 0 <= i < written.len() - 1 ==> #[trigger] written[i],
    ensures
        ({
            let n = written.len();
            let next = feeding_from(count, size, written, 0);
            let taken = n == 0 || written[n - 1];
            &&& taken && n % 2 == 0 ==> next == FeedView::Head(payload((n / 2) as u32, size).len())
            &&& taken && n % 2 == 1 ==> next == FeedView::Payload(payload((n / 2) as u32, size))
            &&& !taken && n % 2 == 1 ==> next == FeedView::Fail(
                "stream-message writer closed early"@,
            )
            &&& !taken && n % 2 == 0 ==> next == FeedView::Fail("payload writer closed early"@)
        }),
{
    lemma_feeding_reaches(count, size, written, 0);
}

proof fn lemma_feeding_reaches(count: u32, size: u32, written: Seq<bool>, i: int)
    requires
        0 <= i <= written.len(),
        written.len() < 2 * count,
        forall|k: int| 0 <= k < written.len() - 1 ==> #[trigger] written[k],
    ensures
        written.len() == 0 || written[written.len() - 1] ==> feeding_from(count, size, written, i)
            == feeding_from(count, size, written, written.len() as int),
        i < written.len() && !written[written.len() - 1] ==> feeding_from(count, size, written, i)
            == feeding_from(count, size, written, written.len() - 1),
    decreases written.len() - i,
{
    if i < written.len() {
        lemma_feeding_reaches(count, size, written, i + 1);
    }
}

/// A stream is sent by the offerer, as a stream of as many messages of the size asked for;
/// where it could not be fed or not sent the test fails, saying how many messages went.
/// What arrives is received by the answerer, one message after the other.
pub proof fn law_streams_are_sent_to_the_answerer(t: Seq<ReplyView>, count: u32, size: u32)
    ensures
        t.len() == 0 ==> send_via_stream_tail(t, count, size) == NextView::Ask(
            RequestView::SendViaStream { on: Side::Offerer, count, size },
        ),
        t.len() > 0 ==> (t[0] matches ReplyView::Streamed { fed, streamed } ==> {
            &&& (fed matches Err(detail) ==> send_via_stream_tail(t, count, size) == NextView::Fail(
                detail,
            ))
            &&& fed is Ok ==> (streamed matches Err(e) ==> send_via_stream_tail(t, count, size)
                == NextView::Fail(
                "send-via-stream: "@ + e.0.described() + " after "@ + decimal(e.1 as nat)
                    + " message(s)"@,
            ))
            &&& fed is Ok && streamed is Ok && 0 < t.len() <= count && all_received(
                t,
                1,
                t.len() as int,
            ) ==> send_via_stream_tail(t, count, size) == NextView::Ask(
                RequestView::Receive { on: Side::Answerer },
            )
        }),
{
    if t.len() > 0 && t.len() <= count && all_received(t, 1, t.len() as int) {
        lemma_receiving_asks(Side::Answerer, count, t, 1, seq![]);
    }
}

proof fn lemma_receiving_asks(
    on: Side,
    count: u32,
    t: Seq<ReplyView>,
    from: int,
    got: Seq<Seq<u8>>,
)
    requires
        1 <= from <= t.len() <= count,
        got.len() == from - 1,
        all_received(t, from, t.len() as int),
    ensures
        receiving_from(on, count, t, from, got) == ReceivingView::Ask(RequestView::Receive { on }),
    decreases t.len() - from,
{
    if from < t.len() {
        assert(t[from] matches ReplyView::Received(Ok(_)));
        lemma_receiving_asks(on, count, t, from + 1, got.push(t[from]->Received_0->Ok_0.octets()));
    }
}

/// The inbound messages are claimed by the answerer once everything was sent, and then read
/// until there are enough; a claim that is refused fails the test.
pub proof fn law_the_stream_is_claimed_and_read(t: Seq<ReplyView>, count: u32, size: u32)
    requires
        count <= t.len(),
        all_done(t, 0, count as int),
    ensures
        t.len() == count ==> receive_via_stream_tail(t, count, size) == NextView::Ask(
            RequestView::ReceiveViaStream { on: Side::Answerer },
        ),
        t.len() > count ==> (t[count as int] matches ReplyView::Done(Err(error))
            ==> receive_via_stream_tail(t, count, size) == NextView::Fail(
            "receive-via-stream"@ + ": "@ + error.described(),
        )),
        t.len() == count + 1 && count > 0 && (t[count as int] matches ReplyView::Done(Ok(_)))
            ==> receive_via_stream_tail(t, count, size) == NextView::Ask(
            RequestView::ReadStream { on: Side::Answerer },
        ),
{
    lemma_sending(Side::Offerer, count, size, t, 0);
}

/// A stream that ends before enough messages have arrived fails the test, and so does the
/// first message of a batch that is not what it declares.
pub proof fn law_short_streams_fail(
    t: Seq<ReplyView>,
    i: int,
    got: Seq<Seq<u8>>,
    count: u32,
    messages: Seq<StreamedView>,
    ended: bool,
)
    requires
        0 <= i < t.len(),
        t[i] == (ReplyView::Batch { messages, ended }),
        got.len() < count,
    ensures
        all_sound(messages) && ended && got.len() + messages.len() < count ==> batches_from(
            t,
            i,
            got,
            count,
        ) == NextView::Fail(
            "stream ended after "@ + decimal(got.len() + messages.len()) + " of "@ + decimal(
                count as nat,
            ) + " message(s)"@,
        ),
        !all_sound(messages) ==> batches_from(t, i, got, count) is Fail,
{
    lemma_batch(messages, 0, got);
    assert(messages.skip(0) =~= messages);
}

/// A receive that waits is claimed over, then the stream is claimed again and received from,
/// all on the answerer's side. What only `receiving-via-stream` may answer fails the test
/// with any other answer, a success too.
pub proof fn law_claims_are_tried_in_turn(t: Seq<ReplyView>, what: Seq<char>, unexpected: Seq<char>)
    ensures
        t.len() == 0 ==> claim_once_tail(t) == NextView::Ask(
            RequestView::ReceiveThenClaim { on: Side::Answerer },
        ),
        t.len() > 0 ==> (t[0] matches ReplyView::Claimed { claim: Err(error), .. }
            ==> claim_once_tail(t) == NextView::Fail(
            "first receive-via-stream"@ + ": "@ + error.described(),
        )),
        t.len() == 1 && (t[0] matches ReplyView::Claimed {
            claim: Ok(_),
            pending: Err(ErrorView::ReceivingViaStream),
        }) ==> claim_once_tail(t) == NextView::Ask(
            RequestView::ReceiveViaStream { on: Side::Answerer },
        ),
        t.len() == 2 && (t[0] matches ReplyView::Claimed {
            claim: Ok(_),
            pending: Err(ErrorView::ReceivingViaStream),
        }) && t[1] == ReplyView::Done(Err(ErrorView::ReceivingViaStream)) ==> claim_once_tail(t)
            == NextView::Ask(RequestView::Receive { on: Side::Answerer }),
        claim_problem(what, unexpected, None) == Some(unexpected),
        forall|error: ErrorView|
            error != ErrorView::ReceivingViaStream ==> #[trigger] claim_problem(
                what,
                unexpected,
                Some(error),
            ) == Some(
                what + ": expected receiving-via-stream"@ + ", got "@ + error.described(),
            ),
        claim_problem(what, unexpected, Some(ErrorView::ReceivingViaStream)) is None,
{
}

/// How each of the three refusals is named when it does not come.
pub proof fn law_missing_refusals_are_named(t: Seq<ReplyView>, other: ErrorView)
    requires
        t.len() > 0,
        t[0] is Claimed,
        t[0]->claim is Ok,
        other != ErrorView::ReceivingViaStream,
    ensures
        t[0]->pending is Ok ==> claim_once_tail(t) == NextView::Fail(
            "pending receive yielded a message"@,
        ),
        t[0]->pending == Err::<PayloadView, ErrorView>(other) ==> claim_once_tail(t)
            == NextView::Fail(
            "pending receive"@ + ": expected receiving-via-stream"@ + ", got "@
                + other.described(),
        ),
        t[0]->pending == Err::<PayloadView, ErrorView>(ErrorView::ReceivingViaStream) && t.len() > 1
            ==> {
            &&& t[1] == ReplyView::Done(Ok(())) ==> claim_once_tail(t) == NextView::Fail(
                "second receive-via-stream succeeded"@,
            )
            &&& t[1] == ReplyView::Done(Err(other)) ==> claim_once_tail(t) == NextView::Fail(
                "second receive-via-stream"@ + ": expected receiving-via-stream"@ + ", got "@
                    + other.described(),
            )
            &&& t.len() > 2 && t[1] == ReplyView::Done(Err(ErrorView::ReceivingViaStream)) ==> {
                &&& (t[2] matches ReplyView::Received(Ok(_))) ==> claim_once_tail(t)
                    == NextView::Fail("receive after claim yielded a message"@)
                &&& t[2] == ReplyView::Received(Err(other)) ==> claim_once_tail(t)
                    == NextView::Fail(
                    "receive after claim"@ + ": expected receiving-via-stream"@ + ", got "@
                        + other.described(),
                )
            }
        },
{
}

} // verus!
