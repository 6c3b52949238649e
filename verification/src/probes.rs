//! The probes of the conformance guest: one property of the data-channel surface each.

use vstd::prelude::*;

use crate::error::{describe, Error, ErrorView};
use crate::inproc::{
    connected_then, inproc_connect, labelled_options, rest, wind_up, wound_up, Connecting,
    CHANNEL_LABEL,
};
use crate::negotiation::described;
use crate::script::{
    fail, failure, labelled, replies_view, same_description, ChannelOptions, Message, Next,
    NextView, OptionsView, PayloadView, Reply, ReplyView, Request, RequestView, Side,
};
use crate::signal::{make_sdp, CandidateView, DescriptionView, IceCandidate, SdpType};
use crate::suite::TestConfig;
use crate::text::{concat2, concat3, decimal, to_decimal};

verus! {

/// The detail of an error other than the expected one.
pub open spec fn got_instead(expected: Seq<char>, error: ErrorView) -> Seq<char> {
    expected + ", got "@ + error.described()
}

/// The detail of an error other than the expected one.
pub fn instead(expected: &str, error: &Error) -> (r: String)
    ensures
        r@ == got_instead(expected@, error@),
{
    concat3(expected, ", got ", describe(error).as_str())
}

// ----- malformed signaling --------------------------------------------------------------------------

/// Whether a malformed description is refused as `invalid-signaling`.
pub open spec fn invalid_sdp_script(h: Seq<ReplyView>) -> NextView {
    if h.len() == 0 {
        NextView::Ask(
            RequestView::SetRemote {
                on: Side::Offerer,
                description: DescriptionView {
                    kind: SdpType::Offer,
                    sdp: "this is not valid sdp"@,
                },
            },
        )
    } else {
        match h[0] {
            ReplyView::Done(Ok(())) => NextView::Fail("malformed SDP was accepted"@),
            ReplyView::Done(Err(ErrorView::InvalidSignaling(_))) => NextView::Pass,
            ReplyView::Done(Err(other)) => NextView::Fail(
                got_instead("expected invalid-signaling"@, other),
            ),
            _ => NextView::OutOfStep,
        }
    }
}

/// Feed a malformed SDP into a fresh peer connection and require an error classified as
/// `invalid-signaling`.
pub fn invalid_sdp(replies: &[Reply]) -> (r: Next)
    ensures
        r@ == invalid_sdp_script(replies_view(replies@)),
{
    if replies.len() == 0 {
        Next::Ask(
            Request::SetRemote {
                on: Side::Offerer,
                description: make_sdp(SdpType::Offer, "this is not valid sdp".to_string()),
            },
        )
    } else {
        match &replies[0] {
            Reply::Done(Ok(())) => Next::Fail("malformed SDP was accepted".to_string()),
            Reply::Done(Err(Error::InvalidSignaling(_))) => Next::Pass,
            Reply::Done(Err(other)) => Next::Fail(instead("expected invalid-signaling", other)),
            _ => Next::OutOfStep,
        }
    }
}

// ----- the bounded inbound buffer -------------------------------------------------------------------------

/// The message of a flood.
pub open spec fn flood_message(size: u32) -> PayloadView {
    PayloadView::Binary(
        Seq::new(
            if size < 1 {
                1
            } else {
                size as nat
            },
            |k: int| 0xABu8,
        ),
    )
}

fn make_flood_message(size: u32) -> (r: Message)
    ensures
        r@ == flood_message(size),
{
    let n: usize = if size < 1 {
        1
    } else {
        size as usize
    };
    let mut bytes: Vec<u8> = Vec::new();
    let mut i: usize = 0;
    while i < n
        invariant
            i <= n,
            bytes@ == Seq::new(i as nat, |k: int| 0xABu8),
        decreases n - i,
    {
        bytes.push(0xAB);
        i = i + 1;
        assert(bytes@ =~= Seq::new(i as nat, |k: int| 0xABu8));
    }
    Message::Binary(bytes)
}

/// The receiving side is drained: what was buffered stays deliverable, and then a
/// receive fails with `receive-buffer-overflow`.
pub open spec fn overflow_drain(t: Seq<ReplyView>, i: int) -> NextView
    decreases t.len() - i,
{
    if 0 <= i < t.len() {
        match t[i] {
            ReplyView::Received(Ok(_)) => overflow_drain(t, i + 1),
            ReplyView::Received(Err(ErrorView::ReceiveBufferOverflow)) => wound_up(t, i + 1),
            ReplyView::Received(Err(other)) => NextView::Fail(
                got_instead("expected receive-buffer-overflow"@, other),
            ),
            _ => NextView::OutOfStep,
        }
    } else {
        NextView::Ask(RequestView::Receive { on: Side::Answerer })
    }
}

/// The close caused by the overflow reaches the flooding side.
pub open spec fn overflow_close(t: Seq<ReplyView>, i: int) -> NextView {
    if 0 <= i < t.len() {
        match t[i] {
            ReplyView::Received(Ok(_)) => NextView::Fail(
                "unexpected message on the flooding side"@,
            ),
            ReplyView::Received(Err(ErrorView::Closed)) => overflow_drain(t, i + 1),
            ReplyView::Received(Err(ErrorView::ReceiveBufferOverflow)) => overflow_drain(t, i + 1),
            ReplyView::Received(Err(other)) => NextView::Fail(failure("flood-side receive"@, other)),
            _ => NextView::OutOfStep,
        }
    } else {
        NextView::Ask(RequestView::Receive { on: Side::Offerer })
    }
}

/// The flood: as many messages as configured, fewer if a send fails.
pub open spec fn overflow_flood(t: Seq<ReplyView>, i: int, count: u32, size: u32) -> NextView
    decreases count - i,
{
    if i < 0 || i >= count {
        overflow_close(t, i)
    } else if i >= t.len() {
        NextView::Ask(RequestView::Send { on: Side::Offerer, message: flood_message(size) })
    } else {
        match t[i] {
            ReplyView::Done(Ok(())) => overflow_flood(t, i + 1, count, size),
            ReplyView::Done(Err(_)) => overflow_close(t, i + 1),
            _ => NextView::OutOfStep,
        }
    }
}

/// The larger of two numbers.
pub open spec fn at_least(n: u32, least: u32) -> u32 {
    if n < least {
        least
    } else {
        n
    }
}

/// Assert the bounded-inbound-buffer contract: flood one side of a channel while the
/// other side never receives, and require that the receiving side's buffer overflow
/// closes the channel and surfaces `error.receive-buffer-overflow`.
pub fn receive_overflow(config: &TestConfig, replies: &[Reply]) -> (r: Next)
    ensures
        r@ == connected_then(
            "receive-buffer-overflow"@,
            replies_view(replies@),
            |t: Seq<ReplyView>|
                overflow_flood(t, 0, at_least(config@.message_count, 1), config@.message_size),
        ),
{
    let n = match inproc_connect("receive-buffer-overflow", replies) {
        Connecting::Next(next) => {
            return next;
        },
        Connecting::Ready(n) => n,
    };
    let tail = rest(replies, n);
    let ghost t = replies_view(tail@);
    let count: u32 = if config.message_count < 1 {
        1
    } else {
        config.message_count
    };
    let size = config.message_size;
    let ghost goal = overflow_flood(t, 0, count, size);
    let mut i: usize = 0;
    let mut flooding = true;
    while flooding
        invariant
            t == replies_view(tail@),
            flooding ==> 0 <= i <= count && i <= t.len(),
            goal == if flooding {
                overflow_flood(t, i as int, count, size)
            } else {
                overflow_close(t, i as int)
            },
            goal == connected_then(
                "receive-buffer-overflow"@,
                replies_view(replies@),
                |t: Seq<ReplyView>|
                    overflow_flood(t, 0, at_least(config@.message_count, 1), config@.message_size),
            ),
        decreases
                if flooding {
                    count - i + 1
                } else {
                    0
                },
    {
        if i >= count as usize {
            flooding = false;
        } else if i >= tail.len() {
            return Next::Ask(
                Request::Send { on: Side::Offerer, message: make_flood_message(size) },
            );
        } else {
            match &tail[i] {
                Reply::Done(Ok(())) => {
                    i = i + 1;
                },
                Reply::Done(Err(_)) => {
                    i = i + 1;
                    flooding = false;
                },
                _ => {
                    return Next::OutOfStep;
                },
            }
        }
    }
    if i >= tail.len() {
        return Next::Ask(Request::Receive { on: Side::Offerer });
    }
    match &tail[i] {
        Reply::Received(Ok(_)) => {
            return Next::Fail("unexpected message on the flooding side".to_string());
        },
        Reply::Received(Err(Error::Closed)) | Reply::Received(Err(Error::ReceiveBufferOverflow)) => {
        },
        Reply::Received(Err(other)) => {
            return Next::Fail(fail("flood-side receive", other));
        },
        _ => {
            return Next::OutOfStep;
        },
    }
    i = i + 1;
    while i < tail.len()
        invariant
            t == replies_view(tail@),
            i <= t.len(),
            goal == overflow_drain(t, i as int),
            goal == connected_then(
                "receive-buffer-overflow"@,
                replies_view(replies@),
                |t: Seq<ReplyView>|
                    overflow_flood(t, 0, at_least(config@.message_count, 1), config@.message_size),
            ),
        decreases t.len() - i,
    {
        match &tail[i] {
            Reply::Received(Ok(_)) => {
                i = i + 1;
            },
            Reply::Received(Err(Error::ReceiveBufferOverflow)) => {
                return wind_up(tail.len(), i + 1);
            },
            Reply::Received(Err(other)) => {
                return Next::Fail(instead("expected receive-buffer-overflow", other));
            },
            _ => {
                return Next::OutOfStep;
            },
        }
    }
    Next::Ask(Request::Receive { on: Side::Answerer })
}

// ----- closed channels ----------------------------------------------------------------------------------------

/// A verdict that is given once the answerer is closed too.
pub open spec fn after_close(t: Seq<ReplyView>, at: int, verdict: NextView) -> NextView {
    if t.len() <= at {
        NextView::Ask(RequestView::Close { on: Side::Answerer })
    } else {
        verdict
    }
}

/// The receives on a locally closed channel, until the close surfaces.
pub open spec fn closed_receives(t: Seq<ReplyView>, i: int) -> NextView
    decreases t.len() - i,
{
    if 0 <= i < t.len() {
        match t[i] {
            ReplyView::Received(Ok(_)) => closed_receives(t, i + 1),
            ReplyView::Received(Err(ErrorView::Closed)) => after_close(t, i + 1, NextView::Pass),
            ReplyView::Received(Err(other)) => NextView::Fail(got_instead("expected closed"@, other)),
            _ => NextView::OutOfStep,
        }
    } else {
        NextView::Ask(RequestView::Receive { on: Side::Offerer })
    }
}

/// What follows the connecting: the offerer closes, then receives.
pub open spec fn error_closed_tail(t: Seq<ReplyView>) -> NextView {
    if t.len() == 0 {
        NextView::Ask(RequestView::Close { on: Side::Offerer })
    } else {
        closed_receives(t, 1)
    }
}

/// Assert that a `receive` on a locally closed channel yields `error.closed`.
pub fn error_closed(replies: &[Reply]) -> (r: Next)
    ensures
        r@ == connected_then(
            "error-closed"@,
            replies_view(replies@),
            |t: Seq<ReplyView>| error_closed_tail(t),
        ),
{
    let n = match inproc_connect("error-closed", replies) {
        Connecting::Next(next) => {
            return next;
        },
        Connecting::Ready(n) => n,
    };
    let tail = rest(replies, n);
    let ghost t = replies_view(tail@);
    if tail.len() == 0 {
        return Next::Ask(Request::Close { on: Side::Offerer });
    }
    let ghost goal = closed_receives(t, 1);
    let mut i: usize = 1;
    while i < tail.len()
        invariant
            t == replies_view(tail@),
            1 <= i <= t.len(),
            goal == closed_receives(t, i as int),
            goal == connected_then(
                "error-closed"@,
                replies_view(replies@),
                |t: Seq<ReplyView>| error_closed_tail(t),
            ),
        decreases t.len() - i,
    {
        match &tail[i] {
            Reply::Received(Ok(_)) => {
                i = i + 1;
            },
            Reply::Received(Err(Error::Closed)) => {
                if tail.len() - i == 1 {
                    return Next::Ask(Request::Close { on: Side::Answerer });
                }
                return Next::Pass;
            },
            Reply::Received(Err(other)) => {
                return Next::Fail(instead("expected closed", other));
            },
            _ => {
                return Next::OutOfStep;
            },
        }
    }
    Next::Ask(Request::Receive { on: Side::Offerer })
}

/// The message that is sent until the close surfaces.
pub open spec fn probe_message() -> PayloadView {
    PayloadView::Binary(seq![7u8, 7u8, 7u8, 7u8, 7u8, 7u8, 7u8, 7u8])
}

fn make_probe_message() -> (r: Message)
    ensures
        r@ == probe_message(),
{
    let bytes = vec![7u8, 7u8, 7u8, 7u8, 7u8, 7u8, 7u8, 7u8];
    assert(bytes@ =~= seq![7u8, 7u8, 7u8, 7u8, 7u8, 7u8, 7u8, 7u8]);
    Message::Binary(bytes)
}

/// How many sends may succeed after a close.
pub const MAX_SENDS: usize = 1000;

/// The sends on a closed connection, until the close surfaces; `i` counts them.
pub open spec fn closed_sends(t: Seq<ReplyView>, i: int) -> NextView
    decreases t.len() - i,
{
    if 0 <= i < t.len() {
        match t[i] {
            ReplyView::Done(Ok(())) => if i > MAX_SENDS {
                after_close(t, i + 1, NextView::Fail("send never failed after close"@))
            } else {
                closed_sends(t, i + 1)
            },
            ReplyView::Done(Err(ErrorView::Closed)) => after_close(t, i + 1, NextView::Pass),
            ReplyView::Done(Err(other)) => after_close(
                t,
                i + 1,
                NextView::Fail(got_instead("expected closed"@, other)),
            ),
            _ => NextView::OutOfStep,
        }
    } else {
        NextView::Ask(RequestView::Send { on: Side::Offerer, message: probe_message() })
    }
}

/// What follows the connecting: the offerer closes, then sends.
pub open spec fn post_close_send_tail(t: Seq<ReplyView>) -> NextView {
    if t.len() == 0 {
        NextView::Ask(RequestView::Close { on: Side::Offerer })
    } else {
        closed_sends(t, 1)
    }
}

fn close_then(n: usize, i: usize, verdict: Next) -> (r: Next)
    requires
        i < n,
    ensures
        forall|t: Seq<ReplyView>|
            t.len() == n ==> r@ == #[trigger] after_close(t, i + 1, verdict@),
{
    if n - i == 1 {
        Next::Ask(Request::Close { on: Side::Answerer })
    } else {
        verdict
    }
}

/// Assert that a `send` after the peer connection closes yields `error.closed`.
pub fn post_close_send(replies: &[Reply]) -> (r: Next)
    ensures
        r@ == connected_then(
            "post-close-send"@,
            replies_view(replies@),
            |t: Seq<ReplyView>| post_close_send_tail(t),
        ),
{
    let n = match inproc_connect("post-close-send", replies) {
        Connecting::Next(next) => {
            return next;
        },
        Connecting::Ready(n) => n,
    };
    let tail = rest(replies, n);
    let ghost t = replies_view(tail@);
    if tail.len() == 0 {
        return Next::Ask(Request::Close { on: Side::Offerer });
    }
    let ghost goal = closed_sends(t, 1);
    let mut i: usize = 1;
    while i < tail.len()
        invariant
            t == replies_view(tail@),
            1 <= i <= t.len(),
            goal == closed_sends(t, i as int),
            goal == connected_then(
                "post-close-send"@,
                replies_view(replies@),
                |t: Seq<ReplyView>| post_close_send_tail(t),
            ),
        decreases t.len() - i,
    {
        match &tail[i] {
            Reply::Done(Ok(())) => {
                if i > MAX_SENDS {
                    return close_then(
                        tail.len(),
                        i,
                        Next::Fail("send never failed after close".to_string()),
                    );
                }
                i = i + 1;
            },
            Reply::Done(Err(Error::Closed)) => {
                return close_then(tail.len(), i, Next::Pass);
            },
            Reply::Done(Err(other)) => {
                return close_then(tail.len(), i, Next::Fail(instead("expected closed", other)));
            },
            _ => {
                return Next::OutOfStep;
            },
        }
    }
    Next::Ask(Request::Send { on: Side::Offerer, message: make_probe_message() })
}

// ----- a handshake that cannot complete --------------------------------------------------------------------------

/// The outcome of a call that only has to succeed: the failure to report, if any.
pub open spec fn refused(reply: ReplyView, label: Seq<char>) -> Option<NextView> {
    match reply {
        ReplyView::Done(Ok(())) => None,
        ReplyView::Done(Err(error)) => Some(NextView::Fail(failure(label, error))),
        _ => Some(NextView::OutOfStep),
    }
}

fn find_refusal(reply: &Reply, label: &str) -> (r: Option<Next>)
    ensures
        match r {
            Some(next) => refused(reply@, label@) == Some(next@),
            None => refused(reply@, label@) is None,
        },
{
    match reply {
        Reply::Done(Ok(())) => None,
        Reply::Done(Err(error)) => Some(Next::Fail(fail(label, error))),
        _ => Some(Next::OutOfStep),
    }
}

/// Whether waiting for a connection that nobody answers times out. The peer is closed
/// before the verdict is given.
pub open spec fn error_timed_out_script(h: Seq<ReplyView>) -> NextView {
    if h.len() == 0 {
        NextView::Ask(
            RequestView::CreateDataChannel {
                on: Side::Offerer,
                options: labelled(CHANNEL_LABEL@),
            },
        )
    } else if refused(h[0], "create-data-channel"@) is Some {
        refused(h[0], "create-data-channel"@)->0
    } else if h.len() == 1 {
        NextView::Ask(RequestView::CreateOffer { on: Side::Offerer })
    } else {
        match h[1] {
            ReplyView::Described(Err(error)) => NextView::Fail(failure("create-offer"@, error)),
            ReplyView::Described(Ok(offer)) => {
                if h.len() == 2 {
                    NextView::Ask(
                        RequestView::SetLocal { on: Side::Offerer, description: offer },
                    )
                } else if refused(h[2], "set-local-description"@) is Some {
                    refused(h[2], "set-local-description"@)->0
                } else if h.len() == 3 {
                    NextView::Ask(RequestView::WaitConnected { on: Side::Offerer })
                } else {
                    let verdict = match h[3] {
                        ReplyView::Done(Ok(())) => NextView::Fail(
                            "wait-connected resolved without a remote peer"@,
                        ),
                        ReplyView::Done(Err(ErrorView::TimedOut)) => NextView::Pass,
                        ReplyView::Done(Err(other)) => NextView::Fail(
                            got_instead("expected timed-out"@, other),
                        ),
                        _ => NextView::OutOfStep,
                    };
                    if h.len() == 4 && verdict !is OutOfStep {
                        NextView::Ask(RequestView::Close { on: Side::Offerer })
                    } else {
                        verdict
                    }
                }
            },
            _ => NextView::OutOfStep,
        }
    }
}

/// Assert that a handshake that can never complete (no remote peer) surfaces
/// `error.timed-out` from `wait-connected` rather than hanging or failing with another
/// variant.
pub fn error_timed_out(replies: &[Reply]) -> (r: Next)
    ensures
        r@ == error_timed_out_script(replies_view(replies@)),
{
    if replies.len() == 0 {
        return Next::Ask(
            Request::CreateDataChannel { on: Side::Offerer, options: labelled_options() },
        );
    }
    if let Some(next) = find_refusal(&replies[0], "create-data-channel") {
        return next;
    }
    if replies.len() == 1 {
        return Next::Ask(Request::CreateOffer { on: Side::Offerer });
    }
    let offer = match &replies[1] {
        Reply::Described(Ok(offer)) => offer,
        Reply::Described(Err(error)) => {
            return Next::Fail(fail("create-offer", error));
        },
        _ => {
            return Next::OutOfStep;
        },
    };
    if replies.len() == 2 {
        return Next::Ask(
            Request::SetLocal { on: Side::Offerer, description: same_description(offer) },
        );
    }
    if let Some(next) = find_refusal(&replies[2], "set-local-description") {
        return next;
    }
    if replies.len() == 3 {
        return Next::Ask(Request::WaitConnected { on: Side::Offerer });
    }
    let verdict = match &replies[3] {
        Reply::Done(Ok(())) => Next::Fail(
            "wait-connected resolved without a remote peer".to_string(),
        ),
        Reply::Done(Err(Error::TimedOut)) => Next::Pass,
        Reply::Done(Err(other)) => Next::Fail(instead("expected timed-out", other)),
        _ => {
            return Next::OutOfStep;
        },
    };
    if replies.len() == 4 {
        Next::Ask(Request::Close { on: Side::Offerer })
    } else {
        verdict
    }
}

// ----- calls after a close ------------------------------------------------------------------------------------------

/// What a call after the close says: only `closed` will do.
pub open spec fn not_closed(what: Seq<char>, outcome: Result<(), ErrorView>) -> Option<Seq<char>> {
    match outcome {
        Err(ErrorView::Closed) => None,
        Ok(()) => Some(what + " succeeded after close"@),
        Err(other) => Some(got_instead(what + " after close: expected closed"@, other)),
    }
}

/// The outcome of a call, whatever it would have handed back.
pub open spec fn bare_outcome(reply: ReplyView) -> Option<Result<(), ErrorView>> {
    match reply {
        ReplyView::Done(outcome) => Some(outcome),
        ReplyView::Described(Ok(_)) => Some(Ok(())),
        ReplyView::Described(Err(error)) => Some(Err(error)),
        _ => None,
    }
}

/// What each of the calls after the close is called.
pub open spec fn closed_call_name(k: int) -> Seq<char> {
    if k == 0 {
        "create-offer"@
    } else if k == 1 {
        "create-answer"@
    } else if k == 2 {
        "set-local-description"@
    } else if k == 3 {
        "set-remote-description"@
    } else if k == 4 {
        "add-ice-candidate"@
    } else {
        "create-data-channel"@
    }
}

/// Each of the calls after the close.
pub open spec fn closed_call(k: int) -> RequestView {
    let bogus = DescriptionView { kind: SdpType::Offer, sdp: "not sdp"@ };
    if k == 0 {
        RequestView::CreateOffer { on: Side::Offerer }
    } else if k == 1 {
        RequestView::CreateAnswer { on: Side::Offerer }
    } else if k == 2 {
        RequestView::SetLocal { on: Side::Offerer, description: bogus }
    } else if k == 3 {
        RequestView::SetRemote { on: Side::Offerer, description: bogus }
    } else if k == 4 {
        RequestView::AddCandidate {
            on: Side::Offerer,
            candidate: CandidateView {
                candidate: "not a candidate"@,
                sdp_mid: None,
                sdp_mline_index: None,
            },
        }
    } else {
        RequestView::CreateDataChannel {
            on: Side::Offerer,
            options: OptionsView { label: None, ordered: None, max_retransmits: None },
        }
    }
}

/// How many calls are made after the close.
pub const CLOSED_CALLS: usize = 6;

/// The calls after the close from the `k`-th on: each must fail with `closed`.
pub open spec fn closed_calls(h: Seq<ReplyView>, k: int) -> NextView
    decreases CLOSED_CALLS - k,
{
    if k < 0 || k >= CLOSED_CALLS {
        NextView::Pass
    } else if h.len() <= k + 1 {
        NextView::Ask(closed_call(k))
    } else {
        match bare_outcome(h[k + 1]) {
            None => NextView::OutOfStep,
            Some(outcome) => match not_closed(closed_call_name(k), outcome) {
                Some(detail) => NextView::Fail(detail),
                None => closed_calls(h, k + 1),
            },
        }
    }
}

/// Whether the methods of a closed connection fail with `closed`.
pub open spec fn post_close_signaling_script(h: Seq<ReplyView>) -> NextView {
    if h.len() == 0 {
        NextView::Ask(RequestView::Close { on: Side::Offerer })
    } else {
        closed_calls(h, 0)
    }
}

fn name_closed_call(k: usize) -> (r: &'static str)
    ensures
        r@ == closed_call_name(k as int),
{
    if k == 0 {
        "create-offer"
    } else if k == 1 {
        "create-answer"
    } else if k == 2 {
        "set-local-description"
    } else if k == 3 {
        "set-remote-description"
    } else if k == 4 {
        "add-ice-candidate"
    } else {
        "create-data-channel"
    }
}

fn make_closed_call(k: usize) -> (r: Request)
    ensures
        r@ == closed_call(k as int),
{
    if k == 0 {
        Request::CreateOffer { on: Side::Offerer }
    } else if k == 1 {
        Request::CreateAnswer { on: Side::Offerer }
    } else if k == 2 {
        Request::SetLocal {
            on: Side::Offerer,
            description: make_sdp(SdpType::Offer, "not sdp".to_string()),
        }
    } else if k == 3 {
        Request::SetRemote {
            on: Side::Offerer,
            description: make_sdp(SdpType::Offer, "not sdp".to_string()),
        }
    } else if k == 4 {
        Request::AddCandidate {
            on: Side::Offerer,
            candidate: IceCandidate {
                candidate: "not a candidate".to_string(),
                sdp_mid: None,
                sdp_mline_index: None,
            },
        }
    } else {
        Request::CreateDataChannel {
            on: Side::Offerer,
            options: ChannelOptions { label: None, ordered: None, max_retransmits: None },
        }
    }
}

fn expect_closed(what: &str, error: Option<&Error>) -> (r: Option<String>)
    ensures
        match (r, error) {
            (Some(detail), Some(error)) => not_closed(what@, Err(error@)) == Some(detail@),
            (None, Some(error)) => not_closed(what@, Err(error@)) is None,
            (Some(detail), None) => not_closed(what@, Ok(())) == Some(detail@),
            (None, None) => false,
        },
{
    match error {
        Some(Error::Closed) => None,
        None => Some(concat2(what, " succeeded after close")),
        Some(other) => Some(
            instead(concat2(what, " after close: expected closed").as_str(), other),
        ),
    }
}

/// Assert that peer-connection methods called after `close` fail with `error.closed`, even
/// on input that would be refused before it: a malformed description after close is
/// `closed`, not `invalid-signaling`.
pub fn post_close_signaling(replies: &[Reply]) -> (r: Next)
    ensures
        r@ == post_close_signaling_script(replies_view(replies@)),
{
    let ghost h = replies_view(replies@);
    if replies.len() == 0 {
        return Next::Ask(Request::Close { on: Side::Offerer });
    }
    let mut k: usize = 0;
    while k < CLOSED_CALLS
        invariant
            k <= CLOSED_CALLS,
            h == replies_view(replies@),
            h.len() > 0,
            k + 1 <= h.len(),
            post_close_signaling_script(h) == closed_calls(h, k as int),
        decreases CLOSED_CALLS - k,
    {
        if replies.len() <= k + 1 {
            return Next::Ask(make_closed_call(k));
        }
        let detail = match &replies[k + 1] {
            Reply::Done(Ok(())) => expect_closed(name_closed_call(k), None),
            Reply::Done(Err(error)) => expect_closed(name_closed_call(k), Some(error)),
            Reply::Described(Ok(_)) => expect_closed(name_closed_call(k), None),
            Reply::Described(Err(error)) => expect_closed(name_closed_call(k), Some(error)),
            _ => {
                return Next::OutOfStep;
            },
        };
        if let Some(detail) = detail {
            return Next::Fail(detail);
        }
        k = k + 1;
    }
    Next::Pass
}

// ----- streams that are taken once ---------------------------------------------------------------------------------

/// The detail of a stream that yielded something although it was taken before.
pub open spec fn taken_twice(stream: Seq<char>, n: nat, what: Seq<char>) -> Seq<char> {
    "second "@ + stream + " call yielded "@ + decimal(n) + " "@ + what
        + "(s); expected an immediately-ended empty stream"@
}

fn describe_taken_twice(stream: &str, n: usize, what: &str) -> (r: String)
    ensures
        r@ == taken_twice(stream@, n as nat, what@),
{
    let mut r = concat3("second ", stream, " call yielded ");
    r.append(to_decimal(n as u64).as_str());
    r.append(" ");
    r.append(what);
    r.append("(s); expected an immediately-ended empty stream");
    r
}

/// What follows the connecting: both streams are asked for again, and end at once.
pub open spec fn streams_once_tail(t: Seq<ReplyView>) -> NextView {
    if t.len() == 0 {
        NextView::Ask(RequestView::LocalCandidates { on: Side::Offerer })
    } else {
        match t[0] {
            ReplyView::Gathered(list) => {
                if list.len() > 0 {
                    NextView::Fail(
                        taken_twice("local-ice-candidates"@, list.len(), "candidate"@),
                    )
                } else if t.len() == 1 {
                    NextView::Ask(RequestView::ReadIncoming { on: Side::Answerer })
                } else {
                    match t[1] {
                        ReplyView::Incoming(n) => if n > 0 {
                            NextView::Fail(
                                taken_twice("incoming-data-channels"@, n as nat, "channel"@),
                            )
                        } else {
                            wound_up(t, 2)
                        },
                        _ => NextView::OutOfStep,
                    }
                }
            },
            _ => NextView::OutOfStep,
        }
    }
}

/// Assert the take-once stream contract: connecting consumed both peers'
/// `local-ice-candidates` and the answerer's `incoming-data-channels`, so second calls
/// must return streams that end immediately without yielding anything.
pub fn streams_once(replies: &[Reply]) -> (r: Next)
    ensures
        r@ == connected_then(
            "peer-streams-once"@,
            replies_view(replies@),
            |t: Seq<ReplyView>| streams_once_tail(t),
        ),
{
    let n = match inproc_connect("peer-streams-once", replies) {
        Connecting::Next(next) => {
            return next;
        },
        Connecting::Ready(n) => n,
    };
    let tail = rest(replies, n);
    if tail.len() == 0 {
        return Next::Ask(Request::LocalCandidates { on: Side::Offerer });
    }
    match &tail[0] {
        Reply::Gathered(list) => {
            if list.len() > 0 {
                return Next::Fail(
                    describe_taken_twice("local-ice-candidates", list.len(), "candidate"),
                );
            }
        },
        _ => {
            return Next::OutOfStep;
        },
    }
    if tail.len() == 1 {
        return Next::Ask(Request::ReadIncoming { on: Side::Answerer });
    }
    match &tail[1] {
        Reply::Incoming(n) => {
            if *n > 0 {
                Next::Fail(describe_taken_twice("incoming-data-channels", *n, "channel"))
            } else {
                wind_up(tail.len(), 2)
            }
        },
        _ => Next::OutOfStep,
    }
}

// ----- the connected latch --------------------------------------------------------------------------------------------

/// What follows the connecting: the wait resolves again, also after a close.
pub open spec fn latch_tail(t: Seq<ReplyView>) -> NextView {
    if t.len() == 0 {
        NextView::Ask(RequestView::WaitConnected { on: Side::Offerer })
    } else {
        match t[0] {
            ReplyView::Done(Err(error)) => NextView::Fail(failure("re-await after connect"@, error)),
            ReplyView::Done(Ok(())) => {
                if t.len() == 1 {
                    NextView::Ask(RequestView::Close { on: Side::Offerer })
                } else if t.len() == 2 {
                    NextView::Ask(RequestView::WaitConnected { on: Side::Offerer })
                } else {
                    match t[2] {
                        ReplyView::Done(Err(error)) => NextView::Fail(
                            got_instead(
                                "wait-connected after close: expected ok (connected is latched)"@,
                                error,
                            ),
                        ),
                        ReplyView::Done(Ok(())) => after_close(t, 3, NextView::Pass),
                        _ => NextView::OutOfStep,
                    }
                }
            },
            _ => NextView::OutOfStep,
        }
    }
}

/// Assert `wait-connected`'s latch semantics: once the connection has ever connected it
/// may be re-awaited any number of times — including after `close` — and keeps resolving
/// `ok`.
pub fn wait_connected_latch(replies: &[Reply]) -> (r: Next)
    ensures
        r@ == connected_then(
            "peer-wait-connected-latch"@,
            replies_view(replies@),
            |t: Seq<ReplyView>| latch_tail(t),
        ),
{
    let n = match inproc_connect("peer-wait-connected-latch", replies) {
        Connecting::Next(next) => {
            return next;
        },
        Connecting::Ready(n) => n,
    };
    let tail = rest(replies, n);
    if tail.len() == 0 {
        return Next::Ask(Request::WaitConnected { on: Side::Offerer });
    }
    match &tail[0] {
        Reply::Done(Ok(())) => {},
        Reply::Done(Err(error)) => {
            return Next::Fail(fail("re-await after connect", error));
        },
        _ => {
            return Next::OutOfStep;
        },
    }
    if tail.len() == 1 {
        return Next::Ask(Request::Close { on: Side::Offerer });
    }
    if tail.len() == 2 {
        return Next::Ask(Request::WaitConnected { on: Side::Offerer });
    }
    match &tail[2] {
        Reply::Done(Ok(())) => close_then(tail.len(), 2, Next::Pass),
        Reply::Done(Err(error)) => Next::Fail(
            instead("wait-connected after close: expected ok (connected is latched)", error),
        ),
        _ => Next::OutOfStep,
    }
}

// ----- what passing means ---------------------------------------------------------------------------------------------

/// A malformed description passes exactly if it was refused as `invalid-signaling`.
pub proof fn law_invalid_sdp_passes_only_refused(h: Seq<ReplyView>)
    ensures
        invalid_sdp_script(h) is Pass <==> h.len() > 0 && (h[0] matches ReplyView::Done(
            Err(ErrorView::InvalidSignaling(_)),
        )),
{
}

/// The replies from the `from`-th up to the `to`-th are messages received.
pub open spec fn all_received(t: Seq<ReplyView>, from: int, to: int) -> bool {
    forall|i: int| from <= i < to ==> (#[trigger] t[i] matches ReplyView::Received(Ok(_)))
}

/// The replies from the `from`-th up to the `to`-th are calls that succeeded.
pub open spec fn all_done(t: Seq<ReplyView>, from: int, to: int) -> bool {
    forall|i: int| from <= i < to ==> (#[trigger] t[i] matches ReplyView::Done(Ok(_)))
}

/// The flood of `count` messages ends with the `n`-th reply: they were all taken, or the
/// last send failed.
pub open spec fn flood_ends(t: Seq<ReplyView>, count: u32, n: int) -> bool {
    if all_done(t, 0, n) {
        n == count
    } else {
        0 < n <= count && all_done(t, 0, n - 1) && (t[n - 1] matches ReplyView::Done(Err(_)))
    }
}

/// The overflow shows: the flood ends with the `n`-th reply, the flooding side is told of
/// the close, and the other side, after what was buffered, of the overflow in the `j`-th.
pub open spec fn overflow_shows(t: Seq<ReplyView>, count: u32, n: int, j: int) -> bool {
    &&& 0 <= n < j
    &&& j + 2 < t.len()
    &&& flood_ends(t, count, n)
    &&& t[n] == ReplyView::Received(Err(ErrorView::Closed)) || t[n] == ReplyView::Received(
        Err(ErrorView::ReceiveBufferOverflow),
    )
    &&& all_received(t, n + 1, j)
    &&& t[j] == ReplyView::Received(Err(ErrorView::ReceiveBufferOverflow))
}

/// A flooded channel passes exactly if the close reached the flooding side, what was
/// buffered stayed deliverable, and then the receiving side saw
/// `receive-buffer-overflow`; both peers are closed by then.
pub proof fn law_overflow_passes_only_surfaced(t: Seq<ReplyView>, count: u32, size: u32)
    ensures
        overflow_flood(t, 0, count, size) is Pass <==> exists|n: int, j: int| #[trigger]
            overflow_shows(t, count, n, j),
{
    lemma_flood(t, 0, count, size);
    if overflow_flood(t, 0, count, size) is Pass {
        let n = choose|n: int| #[trigger] flood_ends(t, count, n) && 0 <= n && overflow_close(t, n) is Pass;
        lemma_drain(t, n + 1);
        let j = choose|j: int|
            n + 1 <= j && j + 2 < t.len() && #[trigger] all_received(t, n + 1, j) && t[j]
                == ReplyView::Received(Err(ErrorView::ReceiveBufferOverflow));
        assert(overflow_shows(t, count, n, j));
    }
    if exists|n: int, j: int| #[trigger] overflow_shows(t, count, n, j) {
        let (n, j) = choose|n: int, j: int| #[trigger] overflow_shows(t, count, n, j);
        lemma_drain(t, n + 1);
        assert(all_received(t, n + 1, j));
        assert(overflow_close(t, n) is Pass);
    }
}

proof fn lemma_drain(t: Seq<ReplyView>, i: int)
    requires
        0 <= i,
    ensures
        overflow_drain(t, i) is Pass <==> exists|j: int|
            i <= j && j + 2 < t.len() && #[trigger] all_received(t, i, j) && t[j]
                == ReplyView::Received(Err(ErrorView::ReceiveBufferOverflow)),
    decreases t.len() - i,
{
    if i < t.len() {
        if let ReplyView::Received(Ok(_)) = t[i] {
            lemma_drain(t, i + 1);
            assert forall|j: int| i + 1 <= j implies (#[trigger] all_received(t, i, j)
                <==> all_received(t, i + 1, j)) by {
                if all_received(t, i + 1, j) {
                    assert forall|k: int| i <= k < j implies (#[trigger] t[k] matches
                        ReplyView::Received(Ok(_))) by {}
                }
            }
            if overflow_drain(t, i) is Pass {
                let j = choose|j: int|
                    i + 1 <= j && j + 2 < t.len() && #[trigger] all_received(t, i + 1, j) && t[j]
                        == ReplyView::Received(Err(ErrorView::ReceiveBufferOverflow));
                assert(all_received(t, i, j));
            }
        } else {
            assert(all_received(t, i, i));
            assert forall|j: int| i < j && #[trigger] all_received(t, i, j) implies false by {
                assert(t[i] matches ReplyView::Received(Ok(_)));
            }
        }
    }
}

proof fn lemma_flood(t: Seq<ReplyView>, i: int, count: u32, size: u32)
    requires
        0 <= i <= count,
        all_done(t, 0, i),
        i <= t.len(),
    ensures
        overflow_flood(t, i, count, size) is Pass <==> exists|n: int| #[trigger]
            flood_ends(t, count, n) && 0 <= n && overflow_close(t, n) is Pass,
    decreases count - i,
{
    if i == count {
        assert(flood_ends(t, count, i));
        assert forall|n: int| #[trigger] flood_ends(t, count, n) && 0 <= n implies n == i by {
            if n <= i {
                assert(all_done(t, 0, n));
            }
        }
    } else if i >= t.len() {
        assert forall|n: int| #[trigger]
            flood_ends(t, count, n) && 0 <= n && overflow_close(t, n) is Pass implies false by {
            if n <= i {
                assert(all_done(t, 0, n));
            }
        }
    } else {
        match t[i] {
            ReplyView::Done(Ok(_)) => {
                lemma_flood(t, i + 1, count, size);
            },
            ReplyView::Done(Err(_)) => {
                assert(!all_done(t, 0, i + 1)) by {
                    assert(!(t[i] matches ReplyView::Done(Ok(_))));
                }
                assert(flood_ends(t, count, i + 1));
                assert forall|n: int| #[trigger] flood_ends(t, count, n) && 0 <= n implies n == i + 1 by {
                    lemma_flood_stops(t, count, i, n);
                }
            },
            _ => {
                assert forall|n: int| #[trigger] flood_ends(t, count, n) && 0 <= n implies false by {
                    lemma_flood_stops(t, count, i, n);
                }
            },
        }
    }
}

/// A flood in which the send of the `i`-th reply is the first not to succeed ends there.
proof fn lemma_flood_stops(t: Seq<ReplyView>, count: u32, i: int, n: int)
    requires
        0 <= i < count,
        all_done(t, 0, i),
        !(t[i] matches ReplyView::Done(Ok(_))),
        0 <= n,
        flood_ends(t, count, n),
    ensures
        n == i + 1,
        t[i] matches ReplyView::Done(Err(_)),
{
    if n <= i {
        assert(all_done(t, 0, n));
    } else if all_done(t, 0, n) {
        assert(t[i] matches ReplyView::Done(Ok(_)));
    } else if n - 1 > i {
        assert(t[i] matches ReplyView::Done(Ok(_)));
    }
}

/// Receiving on a closed channel passes exactly if, after what had still arrived, a
/// receive was answered `closed`, and the answerer was closed too.
pub proof fn law_error_closed_passes_only_closed(t: Seq<ReplyView>)
    ensures
        error_closed_tail(t) is Pass <==> exists|j: int|
            1 <= j && j + 1 < t.len() && #[trigger] all_received(t, 1, j) && t[j]
                == ReplyView::Received(Err(ErrorView::Closed)),
{
    lemma_closed_receives(t, 1);
}

proof fn lemma_closed_receives(t: Seq<ReplyView>, i: int)
    requires
        0 <= i,
    ensures
        closed_receives(t, i) is Pass <==> exists|j: int|
            i <= j && j + 1 < t.len() && #[trigger] all_received(t, i, j) && t[j]
                == ReplyView::Received(Err(ErrorView::Closed)),
    decreases t.len() - i,
{
    if i < t.len() {
        if let ReplyView::Received(Ok(_)) = t[i] {
            lemma_closed_receives(t, i + 1);
            assert forall|j: int| i + 1 <= j implies (#[trigger] all_received(t, i, j)
                <==> all_received(t, i + 1, j)) by {
                if all_received(t, i + 1, j) {
                    assert forall|k: int| i <= k < j implies (#[trigger] t[k] matches
                        ReplyView::Received(Ok(_))) by {}
                }
            }
            if closed_receives(t, i) is Pass {
                let j = choose|j: int|
                    i + 1 <= j && j + 1 < t.len() && #[trigger] all_received(t, i + 1, j) && t[j]
                        == ReplyView::Received(Err(ErrorView::Closed));
                assert(all_received(t, i, j));
            }
        } else {
            assert(all_received(t, i, i));
            assert forall|j: int| i < j && #[trigger] all_received(t, i, j) implies false by {
                assert(t[i] matches ReplyView::Received(Ok(_)));
            }
        }
    }
}

/// Sending on a closed connection passes exactly if some send was answered `closed`, with
/// no more than the allowed number of sends taken before it and no other answer; the
/// answerer is closed by then.
pub proof fn law_post_close_send_passes_only_closed(t: Seq<ReplyView>)
    ensures
        post_close_send_tail(t) is Pass <==> exists|j: int|
            1 <= j <= MAX_SENDS + 1 && j + 1 < t.len() && #[trigger] all_done(t, 1, j) && t[j]
                == ReplyView::Done(Err(ErrorView::Closed)),
{
    lemma_closed_sends(t, 1);
}

proof fn lemma_closed_sends(t: Seq<ReplyView>, i: int)
    requires
        0 <= i <= MAX_SENDS + 1,
    ensures
        closed_sends(t, i) is Pass <==> exists|j: int|
            i <= j <= MAX_SENDS + 1 && j + 1 < t.len() && #[trigger] all_done(t, i, j) && t[j]
                == ReplyView::Done(Err(ErrorView::Closed)),
    decreases t.len() - i,
{
    if i < t.len() {
        if let ReplyView::Done(Ok(_)) = t[i] {
            if i <= MAX_SENDS {
                lemma_closed_sends(t, i + 1);
                assert forall|j: int| i + 1 <= j implies (#[trigger] all_done(t, i, j)
                    <==> all_done(t, i + 1, j)) by {
                    if all_done(t, i + 1, j) {
                        assert forall|k: int| i <= k < j implies (#[trigger] t[k] matches
                            ReplyView::Done(Ok(_))) by {}
                    }
                }
                if closed_sends(t, i) is Pass {
                    let j = choose|j: int|
                        i + 1 <= j <= MAX_SENDS + 1 && j + 1 < t.len() && #[trigger] all_done(
                            t,
                            i + 1,
                            j,
                        ) && t[j] == ReplyView::Done(Err(ErrorView::Closed));
                    assert(all_done(t, i, j));
                }
            }
        } else {
            assert(all_done(t, i, i));
            assert forall|j: int| i < j && #[trigger] all_done(t, i, j) implies false by {
                assert(t[i] matches ReplyView::Done(Ok(_)));
            }
        }
    }
}

/// Waiting for a connection that nobody answers passes exactly if the peer made its offer
/// and the wait was answered `timed-out`; the peer is closed by then.
pub proof fn law_error_timed_out_passes_only_timed_out(h: Seq<ReplyView>)
    ensures
        error_timed_out_script(h) is Pass <==> h.len() >= 5 && (h[0] matches ReplyView::Done(Ok(_)))
            && (h[1] matches ReplyView::Described(Ok(_))) && (h[2] matches ReplyView::Done(Ok(_)))
            && h[3] == ReplyView::Done(Err(ErrorView::TimedOut)),
{
}

/// The methods of a closed connection pass exactly if every one of them failed with
/// `closed`.
pub proof fn law_post_close_signaling_passes_only_closed(h: Seq<ReplyView>)
    ensures
        post_close_signaling_script(h) is Pass <==> h.len() > CLOSED_CALLS && forall|k: int|
            0 <= k < CLOSED_CALLS ==> bare_outcome(#[trigger] h[k + 1]) == Some(
                Err::<(), ErrorView>(ErrorView::Closed),
            ),
{
    lemma_closed_calls(h, 0);
}

proof fn lemma_closed_calls(h: Seq<ReplyView>, k: int)
    requires
        0 <= k <= CLOSED_CALLS,
    ensures
        closed_calls(h, k) is Pass <==> (k == CLOSED_CALLS || h.len() > CLOSED_CALLS) && forall|i: int|
            k <= i < CLOSED_CALLS ==> bare_outcome(#[trigger] h[i + 1]) == Some(
                Err::<(), ErrorView>(ErrorView::Closed),
            ),
    decreases CLOSED_CALLS - k,
{
    if k < CLOSED_CALLS {
        lemma_closed_calls(h, k + 1);
        if h.len() > k + 1 {
            assert(closed_calls(h, k) is Pass <==> bare_outcome(h[k + 1]) == Some(
                Err::<(), ErrorView>(ErrorView::Closed),
            ) && closed_calls(h, k + 1) is Pass);
        }
    }
}

/// Streams that are taken once pass exactly if neither yielded anything the second time
/// and both peers were closed.
pub proof fn law_streams_once_passes_only_empty(t: Seq<ReplyView>)
    ensures
        streams_once_tail(t) is Pass <==> t.len() >= 4 && (t[0] matches ReplyView::Gathered(list)
            && list.len() == 0) && t[1] == ReplyView::Incoming(0),
{
}

/// The latch passes exactly if the wait resolved again after connecting and once more
/// after the close; the answerer is closed by then.
pub proof fn law_latch_passes_only_latched(t: Seq<ReplyView>)
    ensures
        latch_tail(t) is Pass <==> t.len() >= 4 && (t[0] matches ReplyView::Done(Ok(_))) && (
        t[2] matches ReplyView::Done(Ok(_))),
{
}

// ----- what the probes ask --------------------------------------------------------------------------------------------

/// An error other than the expected one is reported behind what was expected.
pub proof fn law_unexpected_errors_are_named(expected: Seq<char>, error: ErrorView)
    ensures
        got_instead(expected, error) == expected + ", got "@ + error.described(),
{
}

/// What is fed to a fresh peer is an offer that is no SDP; accepting it fails, and so does an
/// error of another kind.
pub proof fn law_malformed_offers_are_fed_in(h: Seq<ReplyView>)
    ensures
        h.len() == 0 <==> invalid_sdp_script(h) is Ask,
        invalid_sdp_script(h) matches NextView::Ask(request) ==> request == (RequestView::SetRemote {
            on: Side::Offerer,
            description: DescriptionView { kind: SdpType::Offer, sdp: "this is not valid sdp"@ },
        }),
        h.len() > 0 && (h[0] matches ReplyView::Done(Ok(_))) ==> invalid_sdp_script(h)
            == NextView::Fail("malformed SDP was accepted"@),
        h.len() > 0 ==> (h[0] matches ReplyView::Done(Err(error)) ==> !(error is InvalidSignaling)
            ==> invalid_sdp_script(h) == NextView::Fail(
            "expected invalid-signaling"@ + ", got "@ + error.described(),
        )),
{
}

/// The messages of a flood have the size asked for, but hold at least one byte; all bytes
/// are alike.
pub proof fn law_flood_messages_are_never_empty(size: u32, n: u32, least: u32)
    ensures
        flood_message(size) matches PayloadView::Binary(bytes) && bytes.len() > 0 && (size > 0
            ==> bytes.len() == size) && (size == 0 ==> bytes.len() == 1) && forall|i: int|
            0 <= i < bytes.len() ==> #[trigger] bytes[i] == 0xABu8,
        at_least(n, least) >= n,
        at_least(n, least) >= least,
        at_least(n, least) == n || at_least(n, least) == least,
{
}

/// The offerer floods until everything is sent or a send fails, with nobody receiving; then
/// the offerer receives, to be told of the close.
pub proof fn law_the_flood_goes_on_unread(t: Seq<ReplyView>, count: u32, size: u32)
    ensures
        t.len() < count && all_done(t, 0, t.len() as int) ==> overflow_flood(t, 0, count, size)
            == NextView::Ask(RequestView::Send { on: Side::Offerer, message: flood_message(size) }),
        flood_ends(t, count, t.len() as int) ==> overflow_flood(t, 0, count, size)
            == NextView::Ask(RequestView::Receive { on: Side::Offerer }),
{
    if t.len() <= count && all_done(t, 0, t.len() as int) {
        lemma_flood_goes_on(t, 0, t.len() as int, count, size);
    } else if flood_ends(t, count, t.len() as int) {
        lemma_flood_goes_on(t, 0, t.len() - 1, count, size);
    }
}

proof fn lemma_flood_goes_on(t: Seq<ReplyView>, i: int, to: int, count: u32, size: u32)
    requires
        0 <= i <= to <= t.len(),
        to <= count,
        all_done(t, 0, to),
    ensures
        overflow_flood(t, i, count, size) == overflow_flood(t, to, count, size),
    decreases to - i,
{
    if i < to {
        assert(t[i] matches ReplyView::Done(Ok(_)));
        lemma_flood_goes_on(t, i + 1, to, count, size);
    }
}

/// Once the close has reached the flooding side the answerer receives until the overflow
/// shows: a message is passed over, another error fails the test. On the flooding side a
/// message fails it, and an error other than the close or the overflow.
pub proof fn law_the_backlog_is_drained(t: Seq<ReplyView>, i: int, j: int)
    requires
        0 <= i <= j <= t.len(),
        all_received(t, i, j),
    ensures
        j == t.len() ==> overflow_drain(t, i) == NextView::Ask(
            RequestView::Receive { on: Side::Answerer },
        ),
        j < t.len() ==> (t[j] matches ReplyView::Received(Err(error)) ==> !(
        error is ReceiveBufferOverflow) ==> overflow_drain(t, i) == NextView::Fail(
            "expected receive-buffer-overflow"@ + ", got "@ + error.described(),
        )),
        j < t.len() && (t[j] matches ReplyView::Received(Ok(_))) ==> overflow_close(t, j)
            == NextView::Fail("unexpected message on the flooding side"@),
        j < t.len() ==> (t[j] matches ReplyView::Received(Err(error)) ==> !(error is Closed) && !(
        error is ReceiveBufferOverflow) ==> overflow_close(t, j) == NextView::Fail(
            "flood-side receive"@ + ": "@ + error.described(),
        )),
        j < t.len() && (t[j] matches ReplyView::Received(Err(ErrorView::Closed)))
            ==> overflow_close(t, j) == overflow_drain(t, j + 1),
        j < t.len() && (t[j] matches ReplyView::Received(Err(ErrorView::ReceiveBufferOverflow)))
            ==> overflow_close(t, j) == overflow_drain(t, j + 1),
    decreases j - i,
{
    if i < j {
        assert(t[i] matches ReplyView::Received(Ok(_)));
        law_the_backlog_is_drained(t, i + 1, j);
    }
}

/// The offerer closes and then receives until the close shows; a message that had still
/// arrived is passed over, another error fails the test. The answerer is closed before the
/// test passes.
pub proof fn law_closed_channels_are_received_from(t: Seq<ReplyView>)
    ensures
        t.len() == 0 ==> error_closed_tail(t) == NextView::Ask(
            RequestView::Close { on: Side::Offerer },
        ),
        t.len() > 0 && all_received(t, 1, t.len() as int) ==> error_closed_tail(t) == NextView::Ask(
            RequestView::Receive { on: Side::Offerer },
        ),
        t.len() > 1 && all_received(t, 1, t.len() - 1) && (t.last() matches ReplyView::Received(
            Err(ErrorView::Closed),
        )) ==> error_closed_tail(t) == NextView::Ask(RequestView::Close { on: Side::Answerer }),
        t.len() > 1 && all_received(t, 1, t.len() - 1) ==> (t.last() matches ReplyView::Received(
            Err(error),
        ) ==> !(error is Closed) ==> error_closed_tail(t) == NextView::Fail(
            "expected closed"@ + ", got "@ + error.described(),
        )),
{
    if t.len() > 0 {
        if all_received(t, 1, t.len() as int) {
            lemma_closed_receives_go_on(t, 1, t.len() as int);
        }
        if t.len() > 1 && all_received(t, 1, t.len() - 1) {
            lemma_closed_receives_go_on(t, 1, t.len() - 1);
        }
    }
}

proof fn lemma_closed_receives_go_on(t: Seq<ReplyView>, i: int, to: int)
    requires
        1 <= i <= to <= t.len(),
        all_received(t, 1, to),
    ensures
        closed_receives(t, i) == closed_receives(t, to),
    decreases to - i,
{
    if i < to {
        assert(t[i] matches ReplyView::Received(Ok(_)));
        lemma_closed_receives_go_on(t, i + 1, to);
    }
}

/// The offerer closes and then sends the same eight bytes until the close shows, but no more
/// often than a thousand and one times; then, and on another error, the test fails. The
/// answerer is closed before any of that is said.
pub proof fn law_closed_connections_are_sent_to(t: Seq<ReplyView>)
    ensures
        MAX_SENDS == 1000,
        probe_message() matches PayloadView::Binary(bytes) && bytes.len() == 8 && forall|i: int|
            0 <= i < 8 ==> #[trigger] bytes[i] == 7u8,
        t.len() == 0 ==> post_close_send_tail(t) == NextView::Ask(
            RequestView::Close { on: Side::Offerer },
        ),
        0 < t.len() <= 1001 && all_done(t, 1, t.len() as int) ==> post_close_send_tail(t)
            == NextView::Ask(RequestView::Send { on: Side::Offerer, message: probe_message() }),
        1 < t.len() <= 1002 && all_done(t, 1, t.len() - 1) && (t.last() matches ReplyView::Done(
            Err(_),
        )) ==> post_close_send_tail(t) == NextView::Ask(RequestView::Close { on: Side::Answerer }),
        t.len() == 1002 && all_done(t, 1, 1002) ==> post_close_send_tail(t) == NextView::Ask(
            RequestView::Close { on: Side::Answerer },
        ),
        t.len() == 1003 && all_done(t, 1, 1002) ==> post_close_send_tail(t) == NextView::Fail(
            "send never failed after close"@,
        ),
        2 < t.len() <= 1003 && all_done(t, 1, t.len() - 2) ==> (t[t.len() - 2] matches
            ReplyView::Done(Err(error)) ==> !(error is Closed) ==> post_close_send_tail(t)
            == NextView::Fail("expected closed"@ + ", got "@ + error.described())),
{
    if 0 < t.len() <= 1001 && all_done(t, 1, t.len() as int) {
        lemma_closed_sends_go_on(t, 1, t.len() as int);
    }
    if 1 < t.len() <= 1002 && all_done(t, 1, t.len() - 1) {
        lemma_closed_sends_go_on(t, 1, t.len() - 1);
    }
    if 2 < t.len() <= 1003 && all_done(t, 1, t.len() - 2) {
        lemma_closed_sends_go_on(t, 1, t.len() - 2);
    }
    if t.len() >= 1002 && all_done(t, 1, 1002) {
        assert(t[1001] matches ReplyView::Done(Ok(_)));
        lemma_closed_sends_go_on(t, 1, 1001);
    }
}

proof fn lemma_closed_sends_go_on(t: Seq<ReplyView>, i: int, to: int)
    requires
        1 <= i <= to <= t.len(),
        to <= MAX_SENDS + 1,
        all_done(t, 1, to),
    ensures
        closed_sends(t, i) == closed_sends(t, to),
    decreases to - i,
{
    if i < to {
        assert(t[i] matches ReplyView::Done(Ok(_)));
        lemma_closed_sends_go_on(t, i + 1, to);
    }
}

/// A call that only has to succeed is refused exactly if it did not, by its label and the
/// error.
pub proof fn law_refusals_name_the_call(reply: ReplyView, label: Seq<char>)
    ensures
        refused(reply, label) is None <==> (reply matches ReplyView::Done(Ok(_))),
        reply matches ReplyView::Done(Err(error)) ==> refused(reply, label) == Some(
            NextView::Fail(label + ": "@ + error.described()),
        ),
{
}

/// The peer that nobody answers makes a channel and an offer, sets the very offer it made,
/// and waits; whatever the wait says, the peer is closed before the verdict. A wait that
/// resolves fails the test, and so does an error other than the timeout.
pub proof fn law_the_lone_peer_offers_and_waits(h: Seq<ReplyView>, offer: DescriptionView)
    requires
        h.len() > 0 ==> (h[0] matches ReplyView::Done(Ok(_))),
        h.len() > 1 ==> h[1] == ReplyView::Described(Ok(offer)),
        h.len() > 2 ==> (h[2] matches ReplyView::Done(Ok(_))),
        h.len() > 3 ==> h[3] is Done,
    ensures
        h.len() == 0 ==> error_timed_out_script(h) == NextView::Ask(
            RequestView::CreateDataChannel {
                on: Side::Offerer,
                options: labelled("conformance"@),
            },
        ),
        h.len() == 1 ==> error_timed_out_script(h) == NextView::Ask(
            RequestView::CreateOffer { on: Side::Offerer },
        ),
        h.len() == 2 ==> error_timed_out_script(h) == NextView::Ask(
            RequestView::SetLocal { on: Side::Offerer, description: offer },
        ),
        h.len() == 3 ==> error_timed_out_script(h) == NextView::Ask(
            RequestView::WaitConnected { on: Side::Offerer },
        ),
        h.len() == 4 ==> error_timed_out_script(h) == NextView::Ask(
            RequestView::Close { on: Side::Offerer },
        ),
        h.len() > 4 && (h[3] matches ReplyView::Done(Ok(_))) ==> error_timed_out_script(h)
            == NextView::Fail("wait-connected resolved without a remote peer"@),
        h.len() > 4 ==> (h[3] matches ReplyView::Done(Err(error)) ==> !(error is TimedOut)
            ==> error_timed_out_script(h) == NextView::Fail(
            "expected timed-out"@ + ", got "@ + error.described(),
        )),
{
}

/// The name of the method that a request calls; empty for one that is no method of a
/// connection's signaling.
pub open spec fn signaling_method(request: RequestView) -> Seq<char> {
    match request {
        RequestView::CreateOffer { .. } => "create-offer"@,
        RequestView::CreateAnswer { .. } => "create-answer"@,
        RequestView::SetLocal { .. } => "set-local-description"@,
        RequestView::SetRemote { .. } => "set-remote-description"@,
        RequestView::AddCandidate { .. } => "add-ice-candidate"@,
        RequestView::CreateDataChannel { .. } => "create-data-channel"@,
        _ => seq![],
    }
}

/// A signaling method is called on the offerer.
pub open spec fn called_on_the_closed_peer(request: RequestView) -> bool {
    match request {
        RequestView::CreateOffer { on } => on == Side::Offerer,
        RequestView::CreateAnswer { on } => on == Side::Offerer,
        RequestView::SetLocal { on, .. } => on == Side::Offerer,
        RequestView::SetRemote { on, .. } => on == Side::Offerer,
        RequestView::AddCandidate { on, .. } => on == Side::Offerer,
        RequestView::CreateDataChannel { on, .. } => on == Side::Offerer,
        _ => false,
    }
}

/// The offerer is closed first. Then every signaling method is called, no method twice, with
/// descriptions and candidates that are none, and each is reported under its own name.
pub proof fn law_every_method_is_called_after_the_close(h: Seq<ReplyView>, j: int, k: int)
    requires
        0 <= j < k < CLOSED_CALLS,
    ensures
        CLOSED_CALLS == 6,
        h.len() == 0 ==> post_close_signaling_script(h) == NextView::Ask(
            RequestView::Close { on: Side::Offerer },
        ),
        signaling_method(closed_call(j)) == closed_call_name(j),
        signaling_method(closed_call(k)) == closed_call_name(k),
        signaling_method(closed_call(j)) != signaling_method(closed_call(k)),
        signaling_method(closed_call(k)).len() > 0,
        called_on_the_closed_peer(closed_call(j)) && called_on_the_closed_peer(closed_call(k)),
        closed_call(k) matches RequestView::SetLocal { description, .. } ==> description.sdp
            == "not sdp"@,
        closed_call(k) matches RequestView::SetRemote { description, .. } ==> description.sdp
            == "not sdp"@,
        closed_call(k) matches RequestView::AddCandidate { candidate, .. } ==> candidate.candidate
            == "not a candidate"@,
{
    reveal_strlit("create-offer");
    reveal_strlit("create-answer");
    reveal_strlit("set-local-description");
    reveal_strlit("set-remote-description");
    reveal_strlit("add-ice-candidate");
    reveal_strlit("create-data-channel");
    assert("create-offer"@.len() == 12);
    assert("create-answer"@.len() == 13);
    assert("set-local-description"@.len() == 21);
    assert("set-remote-description"@.len() == 22);
    assert("add-ice-candidate"@.len() == 17);
    assert("create-data-channel"@.len() == 19);
}

/// As long as every call failed with `closed` the next one is made; the first that did not
/// fails the test by its name.
pub proof fn law_calls_are_made_until_one_is_not_refused(h: Seq<ReplyView>, k: int)
    requires
        0 <= k < CLOSED_CALLS,
        h.len() > k,
        forall|i: int|
            0 <= i < k ==> bare_outcome(#[trigger] h[i + 1]) == Some(
                Err::<(), ErrorView>(ErrorView::Closed),
            ),
    ensures
        h.len() == k + 1 ==> post_close_signaling_script(h) == NextView::Ask(closed_call(k)),
        h.len() > k + 1 && bare_outcome(h[k + 1]) == Some(Ok::<(), ErrorView>(()))
            ==> post_close_signaling_script(h) == NextView::Fail(
            closed_call_name(k) + " succeeded after close"@,
        ),
        h.len() > k + 1 ==> (bare_outcome(h[k + 1]) matches Some(Err(error)) ==> !(error is Closed)
            ==> post_close_signaling_script(h) == NextView::Fail(
            closed_call_name(k) + " after close: expected closed"@ + ", got "@
                + error.described(),
        )),
{
    lemma_closed_calls_go_on(h, 0, k);
}

proof fn lemma_closed_calls_go_on(h: Seq<ReplyView>, i: int, k: int)
    requires
        0 <= i <= k < CLOSED_CALLS,
        h.len() > k,
        forall|n: int|
            0 <= n < k ==> bare_outcome(#[trigger] h[n + 1]) == Some(
                Err::<(), ErrorView>(ErrorView::Closed),
            ),
    ensures
        closed_calls(h, i) == closed_calls(h, k),
    decreases k - i,
{
    if i < k {
        assert(bare_outcome(h[i + 1]) == Some(Err::<(), ErrorView>(ErrorView::Closed)));
        lemma_closed_calls_go_on(h, i + 1, k);
    }
}

/// What counts of a call's outcome is whether it failed and how, not what it handed back.
pub proof fn law_outcomes_are_bared(description: DescriptionView, error: ErrorView)
    ensures
        bare_outcome(ReplyView::Done(Ok(()))) == Some(Ok::<(), ErrorView>(())),
        bare_outcome(ReplyView::Described(Ok(description))) == Some(Ok::<(), ErrorView>(())),
        bare_outcome(ReplyView::Done(Err(error))) == Some(Err::<(), ErrorView>(error)),
        bare_outcome(ReplyView::Described(Err(error))) == Some(Err::<(), ErrorView>(error)),
{
}

/// The offerer's candidates are asked for again, then the answerer's channels; what either
/// yields is counted in the failure.
pub proof fn law_both_streams_are_taken_again(t: Seq<ReplyView>)
    ensures
        t.len() == 0 ==> streams_once_tail(t) == NextView::Ask(
            RequestView::LocalCandidates { on: Side::Offerer },
        ),
        t.len() > 0 ==> (t[0] matches ReplyView::Gathered(list) ==> list.len() > 0
            ==> streams_once_tail(t) == NextView::Fail(
            "second "@ + "local-ice-candidates"@ + " call yielded "@ + decimal(list.len()) + " "@
                + "candidate"@ + "(s); expected an immediately-ended empty stream"@,
        )),
        t.len() == 1 ==> (t[0] matches ReplyView::Gathered(list) ==> list.len() == 0
            ==> streams_once_tail(t) == NextView::Ask(
            RequestView::ReadIncoming { on: Side::Answerer },
        )),
        t.len() > 1 ==> (t[0] matches ReplyView::Gathered(list) ==> list.len() == 0 ==> (
        t[1] matches ReplyView::Incoming(n) ==> n > 0 ==> streams_once_tail(t) == NextView::Fail(
            "second "@ + "incoming-data-channels"@ + " call yielded "@ + decimal(n as nat) + " "@
                + "channel"@ + "(s); expected an immediately-ended empty stream"@,
        ))),
{
}

/// The offerer waits again once connected, closes, and waits once more; a wait that fails
/// fails the test, and the answerer is closed before it passes.
pub proof fn law_the_latch_is_waited_on_again(t: Seq<ReplyView>)
    requires
        t.len() > 1 ==> (t[0] matches ReplyView::Done(Ok(_))),
    ensures
        t.len() == 0 || t.len() == 2 ==> latch_tail(t) == NextView::Ask(
            RequestView::WaitConnected { on: Side::Offerer },
        ),
        t.len() == 1 ==> (t[0] matches ReplyView::Done(Err(error)) ==> latch_tail(t)
            == NextView::Fail("re-await after connect"@ + ": "@ + error.described())),
        t.len() == 1 && (t[0] matches ReplyView::Done(Ok(_))) ==> latch_tail(t) == NextView::Ask(
            RequestView::Close { on: Side::Offerer },
        ),
        t.len() > 2 ==> (t[2] matches ReplyView::Done(Err(error)) ==> latch_tail(t)
            == NextView::Fail(
            "wait-connected after close: expected ok (connected is latched)"@ + ", got "@
                + error.described(),
        )),
        t.len() == 3 && (t[2] matches ReplyView::Done(Ok(_))) ==> latch_tail(t) == NextView::Ask(
            RequestView::Close { on: Side::Answerer },
        ),
{
}

} // verus!
