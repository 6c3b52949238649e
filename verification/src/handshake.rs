//! The handshake of the two-peer tests: each peer is an instance of its own, and offer,
//! answer and candidates travel through the mailbox.

use vstd::prelude::*;

use crate::inproc::{Connecting, ConnectingView, CHANNEL_LABEL};
use crate::script::{
    candidates_view, fail, failure, replies_view, same_candidate, same_description, ChannelOptions,
    MailboxProblem, Next, NextView, OptionsView, ProblemText, Reply, ReplyView, Request,
    RequestView, Side,
};
use crate::signal::{
    make_sdp, CandidateView, DescriptionView, GuestSignal, GuestSignalView, SdpType,
};
use crate::text::{concat2, concat3, concat4, debug_quoted, decimal, quoted, same, to_decimal};

verus! {

/// The options of a test's channel: its label, plus test-specific knobs.
pub open spec fn options_for(test_id: Seq<char>) -> OptionsView {
    OptionsView {
        label: Some(CHANNEL_LABEL@),
        ordered: None,
        max_retransmits: if test_id == "max-retransmits-accepted"@ {
            Some(0u16)
        } else {
            None
        },
    }
}

/// The data-channel options for a test (label, plus test-specific knobs).
pub fn channel_options(test_id: &str) -> (r: ChannelOptions)
    ensures
        r@ == options_for(test_id@),
{
    ChannelOptions {
        label: Some(CHANNEL_LABEL.to_string()),
        ordered: None,
        max_retransmits: if same(test_id, "max-retransmits-accepted") {
            Some(0)
        } else {
            None
        },
    }
}

// ----- what goes wrong at the mailbox ---------------------------------------------------------------------

/// The detail of a signal that was not published.
pub open spec fn publish_failure(problem: ProblemText) -> Seq<char> {
    match problem {
        ProblemText::Mailbox(error) => failure("mailbox send"@, error),
        ProblemText::Codec(text) => "encode signal: "@ + text,
    }
}

/// The detail of a signal that was not fetched.
pub open spec fn fetch_failure(problem: ProblemText) -> Seq<char> {
    match problem {
        ProblemText::Mailbox(error) => failure("mailbox recv"@, error),
        ProblemText::Codec(text) => "decode signal: "@ + text,
    }
}

fn describe_publish(problem: &MailboxProblem) -> (r: String)
    ensures
        r@ == publish_failure(problem@),
{
    match problem {
        MailboxProblem::Mailbox(error) => fail("mailbox send", error),
        MailboxProblem::Codec(text) => concat2("encode signal: ", text.as_str()),
    }
}

fn describe_fetch(problem: &MailboxProblem) -> (r: String)
    ensures
        r@ == fetch_failure(problem@),
{
    match problem {
        MailboxProblem::Mailbox(error) => fail("mailbox recv", error),
        MailboxProblem::Codec(text) => concat2("decode signal: ", text.as_str()),
    }
}

/// An optional text in a detail.
pub open spec fn shown_text(text: Option<Seq<char>>) -> Seq<char> {
    match text {
        Some(text) => "Some("@ + debug_quoted(text) + ")"@,
        None => "None"@,
    }
}

/// An optional index in a detail.
pub open spec fn shown_index(index: Option<u16>) -> Seq<char> {
    match index {
        Some(index) => "Some("@ + decimal(index as nat) + ")"@,
        None => "None"@,
    }
}

/// A signal in a detail.
pub open spec fn shown_signal(signal: Option<GuestSignalView>) -> Seq<char> {
    match signal {
        None => "None"@,
        Some(GuestSignalView::Offer { sdp }) => "Some(Offer { sdp: "@ + debug_quoted(sdp) + " })"@,
        Some(GuestSignalView::Answer { sdp }) => "Some(Answer { sdp: "@ + debug_quoted(sdp)
            + " })"@,
        Some(GuestSignalView::Candidate(c)) => "Some(Candidate { candidate: "@ + debug_quoted(
            c.candidate,
        ) + ", sdp_mid: "@ + shown_text(c.sdp_mid) + ", sdp_mline_index: "@ + shown_index(
            c.sdp_mline_index,
        ) + " })"@,
        Some(GuestSignalView::EndOfCandidates) => "Some(EndOfCandidates)"@,
    }
}

fn show_signal(signal: &Option<GuestSignal>) -> (r: String)
    ensures
        r@ == shown_signal(
            match signal {
                Some(signal) => Some(signal@),
                None => None,
            },
        ),
{
    match signal {
        None => "None".to_string(),
        Some(GuestSignal::Offer { sdp }) => concat3(
            "Some(Offer { sdp: ",
            quoted(sdp.as_str()).as_str(),
            " })",
        ),
        Some(GuestSignal::Answer { sdp }) => concat3(
            "Some(Answer { sdp: ",
            quoted(sdp.as_str()).as_str(),
            " })",
        ),
        Some(GuestSignal::Candidate(c)) => {
            let mid = match &c.sdp_mid {
                Some(mid) => concat3("Some(", quoted(mid.as_str()).as_str(), ")"),
                None => "None".to_string(),
            };
            let index = match c.sdp_mline_index {
                Some(index) => concat3("Some(", to_decimal(index as u64).as_str(), ")"),
                None => "None".to_string(),
            };
            let mut r = concat4(
                "Some(Candidate { candidate: ",
                quoted(c.candidate.as_str()).as_str(),
                ", sdp_mid: ",
                mid.as_str(),
            );
            r.append(", sdp_mline_index: ");
            r.append(index.as_str());
            r.append(" })");
            r
        },
        Some(GuestSignal::EndOfCandidates) => "Some(EndOfCandidates)".to_string(),
    }
}

// ----- the common part --------------------------------------------------------------------------------------

/// A step that only has to succeed: what to say if it did not.
pub open spec fn stops(reply: ReplyView, label: Seq<char>) -> Option<ConnectingView> {
    match reply {
        ReplyView::Done(Ok(())) => None,
        ReplyView::Done(Err(error)) => Some(
            ConnectingView::Next(NextView::Fail(failure(label, error))),
        ),
        _ => Some(ConnectingView::Next(NextView::OutOfStep)),
    }
}

fn find_stop(reply: &Reply, label: &str) -> (r: Option<Connecting>)
    ensures
        match r {
            Some(c) => stops(reply@, label@) == Some(c@),
            None => stops(reply@, label@) is None,
        },
{
    match reply {
        Reply::Done(Ok(())) => None,
        Reply::Done(Err(error)) => Some(Connecting::Next(Next::Fail(fail(label, error)))),
        _ => Some(Connecting::Next(Next::OutOfStep)),
    }
}

/// A request, as the next thing in a handshake.
pub open spec fn ask(request: RequestView) -> ConnectingView {
    ConnectingView::Next(NextView::Ask(request))
}

/// A failure, as the end of a handshake.
pub open spec fn give_up(detail: Seq<char>) -> ConnectingView {
    ConnectingView::Next(NextView::Fail(detail))
}

/// The last part: the connection is awaited, and the answerer adopts the channel that the
/// offerer opened.
pub open spec fn awaiting(h: Seq<ReplyView>, on: Side, i: int) -> ConnectingView {
    if i < 0 || i >= h.len() {
        ask(RequestView::WaitConnected { on })
    } else {
        match stops(h[i], "wait-connected"@) {
            Some(stop) => stop,
            None => match on {
                Side::Offerer => ConnectingView::Ready((i + 1) as nat),
                Side::Answerer => if h.len() <= i + 1 {
                    ask(RequestView::ReadIncoming { on })
                } else {
                    match h[i + 1] {
                        ReplyView::Incoming(n) => if n == 0 {
                            give_up("no incoming data channel"@)
                        } else {
                            ConnectingView::Ready((i + 2) as nat)
                        },
                        _ => ConnectingView::Next(NextView::OutOfStep),
                    }
                },
            },
        }
    }
}

/// What a fetched signal asks for, and what that is called.
pub open spec fn application(on: Side, signal: GuestSignalView) -> Option<(RequestView, Seq<char>)> {
    match signal {
        GuestSignalView::Answer { sdp } => Some(
            (
                RequestView::SetRemote {
                    on,
                    description: DescriptionView { kind: SdpType::Answer, sdp },
                },
                "set-remote-description answer"@,
            ),
        ),
        GuestSignalView::Candidate(candidate) => Some(
            (RequestView::AddCandidate { on, candidate }, "add-ice-candidate"@),
        ),
        _ => None,
    }
}

/// The peer's signals from the `i`-th reply on: an answer and each candidate are applied,
/// until the peer's mailbox is done.
pub open spec fn consuming(h: Seq<ReplyView>, on: Side, i: int) -> ConnectingView
    decreases h.len() - i,
{
    if i < 0 || i >= h.len() {
        ask(RequestView::FetchSignal)
    } else {
        match h[i] {
            ReplyView::Fetched(Err(problem)) => give_up(fetch_failure(problem)),
            ReplyView::Fetched(Ok(None)) => awaiting(h, on, i + 1),
            ReplyView::Fetched(Ok(Some(GuestSignalView::Offer { .. }))) => give_up(
                "unexpected second offer"@,
            ),
            ReplyView::Fetched(Ok(Some(signal))) => match application(on, signal) {
                None => consuming(h, on, i + 1),
                Some((request, label)) => if h.len() <= i + 1 {
                    ask(request)
                } else {
                    match stops(h[i + 1], label) {
                        Some(stop) => stop,
                        None => consuming(h, on, i + 2),
                    }
                },
            },
            _ => ConnectingView::Next(NextView::OutOfStep),
        }
    }
}

/// The own mailbox is marked done; then the peer's signals are consumed.
pub open spec fn marking(h: Seq<ReplyView>, on: Side, i: int) -> ConnectingView {
    if i < 0 || i >= h.len() {
        ask(RequestView::MarkDone)
    } else {
        match stops(h[i], "mailbox done"@) {
            Some(stop) => stop,
            None => consuming(h, on, i + 1),
        }
    }
}

/// The `k`-th signal that tells the peer of the local candidates: each of them in order,
/// then that there are no more.
pub open spec fn trickled(candidates: Seq<CandidateView>, k: int) -> GuestSignalView {
    if k < candidates.len() {
        GuestSignalView::Candidate(candidates[k])
    } else {
        GuestSignalView::EndOfCandidates
    }
}

/// The publishing of the local candidates from the `k`-th on, heard of from the `at`-th
/// reply on.
pub open spec fn publishing(
    h: Seq<ReplyView>,
    on: Side,
    candidates: Seq<CandidateView>,
    at: int,
    k: int,
) -> ConnectingView
    decreases candidates.len() + 1 - k,
{
    if k < 0 || k > candidates.len() {
        marking(h, on, at + k)
    } else if at + k >= h.len() {
        ask(RequestView::Publish { signal: trickled(candidates, k) })
    } else {
        match h[at + k] {
            ReplyView::Published(Ok(())) => publishing(h, on, candidates, at, k + 1),
            ReplyView::Published(Err(problem)) => give_up(publish_failure(problem)),
            _ => ConnectingView::Next(NextView::OutOfStep),
        }
    }
}

/// What follows the publishing of the own description: the local candidates are gathered
/// and published, the own mailbox is marked done, and the peer's signals are consumed.
pub open spec fn trickling(h: Seq<ReplyView>, on: Side, at: int) -> ConnectingView {
    if at < 0 || at >= h.len() {
        ask(RequestView::LocalCandidates { on })
    } else {
        match h[at] {
            ReplyView::Gathered(candidates) => publishing(h, on, candidates, at + 1, 0),
            _ => ConnectingView::Next(NextView::OutOfStep),
        }
    }
}

fn await_connected(replies: &[Reply], on: Side, i: usize) -> (r: Connecting)
    requires
        i <= replies@.len(),
    ensures
        r@ == awaiting(replies_view(replies@), on, i as int),
        r matches Connecting::Ready(n) ==> n <= replies@.len(),
{
    if i >= replies.len() {
        return Connecting::Next(Next::Ask(Request::WaitConnected { on }));
    }
    if let Some(stop) = find_stop(&replies[i], "wait-connected") {
        return stop;
    }
    match on {
        Side::Offerer => Connecting::Ready(i + 1),
        Side::Answerer => {
            if replies.len() - i == 1 {
                return Connecting::Next(Next::Ask(Request::ReadIncoming { on }));
            }
            match &replies[i + 1] {
                Reply::Incoming(n) => if *n == 0 {
                    Connecting::Next(Next::Fail("no incoming data channel".to_string()))
                } else {
                    Connecting::Ready(i + 2)
                },
                _ => Connecting::Next(Next::OutOfStep),
            }
        },
    }
}

/// Consume the peer's signaling blobs, applying an answer (if any) and each trickled
/// candidate, until the peer's mailbox is done; then await the connection.
fn consume_signaling(replies: &[Reply], on: Side, start: usize) -> (r: Connecting)
    requires
        start <= replies@.len(),
    ensures
        r@ == consuming(replies_view(replies@), on, start as int),
        r matches Connecting::Ready(n) ==> n <= replies@.len(),
{
    let ghost h = replies_view(replies@);
    let mut i: usize = start;
    while i < replies.len()
        invariant
            i <= replies@.len(),
            h == replies_view(replies@),
            consuming(h, on, start as int) == consuming(h, on, i as int),
        decreases replies@.len() - i,
    {
        let signal = match &replies[i] {
            Reply::Fetched(Err(problem)) => {
                return Connecting::Next(Next::Fail(describe_fetch(problem)));
            },
            Reply::Fetched(Ok(None)) => {
                return await_connected(replies, on, i + 1);
            },
            Reply::Fetched(Ok(Some(signal))) => signal,
            _ => {
                return Connecting::Next(Next::OutOfStep);
            },
        };
        let more = replies.len() - i > 1;
        match signal {
            GuestSignal::Offer { sdp: _ } => {
                return Connecting::Next(Next::Fail("unexpected second offer".to_string()));
            },
            GuestSignal::EndOfCandidates => {
                i = i + 1;
            },
            GuestSignal::Answer { sdp } => {
                if !more {
                    return Connecting::Next(
                        Next::Ask(
                            Request::SetRemote {
                                on,
                                description: make_sdp(SdpType::Answer, sdp.clone()),
                            },
                        ),
                    );
                }
                if let Some(stop) = find_stop(&replies[i + 1], "set-remote-description answer") {
                    return stop;
                }
                i = i + 2;
            },
            GuestSignal::Candidate(candidate) => {
                if !more {
                    return Connecting::Next(
                        Next::Ask(
                            Request::AddCandidate { on, candidate: same_candidate(candidate) },
                        ),
                    );
                }
                if let Some(stop) = find_stop(&replies[i + 1], "add-ice-candidate") {
                    return stop;
                }
                i = i + 2;
            },
        }
    }
    Connecting::Next(Next::Ask(Request::FetchSignal))
}

/// Drain a peer's local ICE candidates, publishing each and then an explicit
/// end-of-candidates marker; then mark the mailbox done and consume the peer's signals.
fn publish_candidates(replies: &[Reply], on: Side, at: usize) -> (r: Connecting)
    requires
        at <= replies@.len(),
    ensures
        r@ == trickling(replies_view(replies@), on, at as int),
        r matches Connecting::Ready(n) ==> n <= replies@.len(),
{
    let ghost h = replies_view(replies@);
    if at >= replies.len() {
        return Connecting::Next(Next::Ask(Request::LocalCandidates { on }));
    }
    let candidates = match &replies[at] {
        Reply::Gathered(candidates) => candidates,
        _ => {
            return Connecting::Next(Next::OutOfStep);
        },
    };
    let ghost list = candidates_view(candidates@);
    let n = candidates.len();
    let mut k: usize = 0;
    let mut i: usize = at + 1;
    let mut more = true;
    while more
        invariant
            at < replies@.len(),
            n == candidates@.len(),
            h == replies_view(replies@),
            list == candidates_view(candidates@),
            i <= replies@.len(),
            more ==> k <= n && i == at + 1 + k,
            !more ==> i == at + 2 + n,
            trickling(h, on, at as int) == if more {
                publishing(h, on, list, at + 1, k as int)
            } else {
                marking(h, on, i as int)
            },
        decreases
                if more {
                    n - k + 1
                } else {
                    0
                },
    {
        if i >= replies.len() {
            let signal = if k < n {
                GuestSignal::Candidate(same_candidate(&candidates[k]))
            } else {
                GuestSignal::EndOfCandidates
            };
            return Connecting::Next(Next::Ask(Request::Publish { signal }));
        }
        match &replies[i] {
            Reply::Published(Ok(())) => {},
            Reply::Published(Err(problem)) => {
                return Connecting::Next(Next::Fail(describe_publish(problem)));
            },
            _ => {
                return Connecting::Next(Next::OutOfStep);
            },
        }
        i = i + 1;
        if k < n {
            k = k + 1;
        } else {
            assert(publishing(h, on, list, at + 1, n + 1) == marking(h, on, at + 2 + n));
            more = false;
        }
    }
    if i >= replies.len() {
        return Connecting::Next(Next::Ask(Request::MarkDone));
    }
    if let Some(stop) = find_stop(&replies[i], "mailbox done") {
        return stop;
    }
    consume_signaling(replies, on, i + 1)
}

// ----- the two halves -----------------------------------------------------------------------------------------

/// The offerer's half of the handshake.
pub open spec fn offering(test_id: Seq<char>, h: Seq<ReplyView>) -> ConnectingView {
    let on = Side::Offerer;
    if h.len() == 0 {
        ask(RequestView::CreateDataChannel { on, options: options_for(test_id) })
    } else if stops(h[0], "create-data-channel"@) is Some {
        stops(h[0], "create-data-channel"@)->0
    } else if h.len() == 1 {
        ask(RequestView::CreateOffer { on })
    } else {
        match h[1] {
            ReplyView::Described(Err(error)) => give_up(failure("create-offer"@, error)),
            ReplyView::Described(Ok(offer)) => {
                if h.len() == 2 {
                    ask(RequestView::SetLocal { on, description: offer })
                } else if stops(h[2], "set-local-description"@) is Some {
                    stops(h[2], "set-local-description"@)->0
                } else if h.len() == 3 {
                    ask(RequestView::Publish { signal: GuestSignalView::Offer { sdp: offer.sdp } })
                } else {
                    match h[3] {
                        ReplyView::Published(Err(problem)) => give_up(publish_failure(problem)),
                        ReplyView::Published(Ok(())) => trickling(h, on, 4),
                        _ => ConnectingView::Next(NextView::OutOfStep),
                    }
                }
            },
            _ => ConnectingView::Next(NextView::OutOfStep),
        }
    }
}

/// The answerer's half of the handshake.
pub open spec fn answering(h: Seq<ReplyView>) -> ConnectingView {
    let on = Side::Answerer;
    if h.len() == 0 {
        ask(RequestView::FetchSignal)
    } else {
        match h[0] {
            ReplyView::Fetched(Err(problem)) => give_up(fetch_failure(problem)),
            ReplyView::Fetched(Ok(Some(GuestSignalView::Offer { sdp }))) => {
                if h.len() == 1 {
                    ask(
                        RequestView::SetRemote {
                            on,
                            description: DescriptionView { kind: SdpType::Offer, sdp },
                        },
                    )
                } else if stops(h[1], "set-remote-description offer"@) is Some {
                    stops(h[1], "set-remote-description offer"@)->0
                } else if h.len() == 2 {
                    ask(RequestView::CreateAnswer { on })
                } else {
                    match h[2] {
                        ReplyView::Described(Err(error)) => give_up(
                            failure("create-answer"@, error),
                        ),
                        ReplyView::Described(Ok(answer)) => {
                            if h.len() == 3 {
                                ask(RequestView::SetLocal { on, description: answer })
                            } else if stops(h[3], "set-local-description"@) is Some {
                                stops(h[3], "set-local-description"@)->0
                            } else if h.len() == 4 {
                                ask(
                                    RequestView::Publish {
                                        signal: GuestSignalView::Answer { sdp: answer.sdp },
                                    },
                                )
                            } else {
                                match h[4] {
                                    ReplyView::Published(Err(problem)) => give_up(
                                        publish_failure(problem),
                                    ),
                                    ReplyView::Published(Ok(())) => trickling(h, on, 5),
                                    _ => ConnectingView::Next(NextView::OutOfStep),
                                }
                            }
                        },
                        _ => ConnectingView::Next(NextView::OutOfStep),
                    }
                }
            },
            ReplyView::Fetched(Ok(other)) => give_up(
                "expected offer, got "@ + shown_signal(other),
            ),
            _ => ConnectingView::Next(NextView::OutOfStep),
        }
    }
}

/// Drive the offerer half of the handshake over the mailbox.
pub fn handshake_offerer(test_id: &str, replies: &[Reply]) -> (r: Connecting)
    ensures
        r@ == offering(test_id@, replies_view(replies@)),
        r matches Connecting::Ready(n) ==> n <= replies@.len(),
{
    let on = Side::Offerer;
    if replies.len() == 0 {
        return Connecting::Next(
            Next::Ask(Request::CreateDataChannel { on, options: channel_options(test_id) }),
        );
    }
    if let Some(stop) = find_stop(&replies[0], "create-data-channel") {
        return stop;
    }
    if replies.len() == 1 {
        return Connecting::Next(Next::Ask(Request::CreateOffer { on }));
    }
    let offer = match &replies[1] {
        Reply::Described(Ok(offer)) => offer,
        Reply::Described(Err(error)) => {
            return Connecting::Next(Next::Fail(fail("create-offer", error)));
        },
        _ => {
            return Connecting::Next(Next::OutOfStep);
        },
    };
    if replies.len() == 2 {
        return Connecting::Next(
            Next::Ask(Request::SetLocal { on, description: same_description(offer) }),
        );
    }
    if let Some(stop) = find_stop(&replies[2], "set-local-description") {
        return stop;
    }
    if replies.len() == 3 {
        return Connecting::Next(
            Next::Ask(
                Request::Publish { signal: GuestSignal::Offer { sdp: offer.sdp.clone() } },
            ),
        );
    }
    match &replies[3] {
        Reply::Published(Ok(())) => publish_candidates(replies, on, 4),
        Reply::Published(Err(problem)) => Connecting::Next(Next::Fail(describe_publish(problem))),
        _ => Connecting::Next(Next::OutOfStep),
    }
}

/// Drive the answerer half of the handshake over the mailbox. The offerer publishes its
/// offer first.
pub fn handshake_answerer(replies: &[Reply]) -> (r: Connecting)
    ensures
        r@ == answering(replies_view(replies@)),
        r matches Connecting::Ready(n) ==> n <= replies@.len(),
{
    let on = Side::Answerer;
    if replies.len() == 0 {
        return Connecting::Next(Next::Ask(Request::FetchSignal));
    }
    let offer = match &replies[0] {
        Reply::Fetched(Err(problem)) => {
            return Connecting::Next(Next::Fail(describe_fetch(problem)));
        },
        Reply::Fetched(Ok(Some(GuestSignal::Offer { sdp }))) => sdp,
        Reply::Fetched(Ok(other)) => {
            return Connecting::Next(
                Next::Fail(concat2("expected offer, got ", show_signal(other).as_str())),
            );
        },
        _ => {
            return Connecting::Next(Next::OutOfStep);
        },
    };
    if replies.len() == 1 {
        return Connecting::Next(
            Next::Ask(
                Request::SetRemote { on, description: make_sdp(SdpType::Offer, offer.clone()) },
            ),
        );
    }
    if let Some(stop) = find_stop(&replies[1], "set-remote-description offer") {
        return stop;
    }
    if replies.len() == 2 {
        return Connecting::Next(Next::Ask(Request::CreateAnswer { on }));
    }
    let answer = match &replies[2] {
        Reply::Described(Ok(answer)) => answer,
        Reply::Described(Err(error)) => {
            return Connecting::Next(Next::Fail(fail("create-answer", error)));
        },
        _ => {
            return Connecting::Next(Next::OutOfStep);
        },
    };
    if replies.len() == 3 {
        return Connecting::Next(
            Next::Ask(Request::SetLocal { on, description: same_description(answer) }),
        );
    }
    if let Some(stop) = find_stop(&replies[3], "set-local-description") {
        return stop;
    }
    if replies.len() == 4 {
        return Connecting::Next(
            Next::Ask(
                Request::Publish { signal: GuestSignal::Answer { sdp: answer.sdp.clone() } },
            ),
        );
    }
    match &replies[4] {
        Reply::Published(Ok(())) => publish_candidates(replies, on, 5),
        Reply::Published(Err(problem)) => Connecting::Next(Next::Fail(describe_publish(problem))),
        _ => Connecting::Next(Next::OutOfStep),
    }
}

// ----- laws -----------------------------------------------------------------------------------------------------

/// What one peer publishes is what the other applies: the offer and the answer become the
/// other side's remote description, and every candidate is added, all unchanged.
pub proof fn law_signals_arrive_unchanged(
    test_id: Seq<char>,
    made: DescriptionView,
    remote: Seq<char>,
    candidate: CandidateView,
    on: Side,
    h: Seq<ReplyView>,
)
    ensures
        offering(
            test_id,
            seq![
                ReplyView::Done(Ok(())),
                ReplyView::Described(Ok(made)),
                ReplyView::Done(Ok(())),
            ],
        ) == ask(RequestView::Publish { signal: GuestSignalView::Offer { sdp: made.sdp } }),
        answering(
            seq![ReplyView::Fetched(Ok(Some(GuestSignalView::Offer { sdp: made.sdp })))],
        ) == ask(
            RequestView::SetRemote {
                on: Side::Answerer,
                description: DescriptionView { kind: SdpType::Offer, sdp: made.sdp },
            },
        ),
        answering(
            seq![
                ReplyView::Fetched(Ok(Some(GuestSignalView::Offer { sdp: remote }))),
                ReplyView::Done(Ok(())),
                ReplyView::Described(Ok(made)),
                ReplyView::Done(Ok(())),
            ],
        ) == ask(RequestView::Publish { signal: GuestSignalView::Answer { sdp: made.sdp } }),
        consuming(
            h.push(ReplyView::Fetched(Ok(Some(GuestSignalView::Answer { sdp: made.sdp })))),
            on,
            h.len() as int,
        ) == ask(
            RequestView::SetRemote {
                on,
                description: DescriptionView { kind: SdpType::Answer, sdp: made.sdp },
            },
        ),
        consuming(
            h.push(ReplyView::Fetched(Ok(Some(GuestSignalView::Candidate(candidate))))),
            on,
            h.len() as int,
        ) == ask(RequestView::AddCandidate { on, candidate }),
{
}

proof fn lemma_publishing(
    h: Seq<ReplyView>,
    on: Side,
    candidates: Seq<CandidateView>,
    at: int,
    k: int,
    n: int,
)
    requires
        0 <= k <= n <= candidates.len(),
        0 <= at,
        h.len() == at + n,
        forall|j: int| at <= j < at + n ==> (#[trigger] h[j]) == ReplyView::Published(Ok(())),
    ensures
        publishing(h, on, candidates, at, k) == ask(
            RequestView::Publish { signal: trickled(candidates, n) },
        ),
    decreases n - k,
{
    if k < n {
        assert(h[at + k] == ReplyView::Published(Ok(())));
        lemma_publishing(h, on, candidates, at, k + 1, n);
    }
}

/// The gathered candidates are published one by one in their order, and behind the last
/// of them that there are no more.
pub proof fn law_candidates_are_published_in_order(
    before: Seq<ReplyView>,
    on: Side,
    candidates: Seq<CandidateView>,
    n: nat,
)
    requires
        n <= candidates.len(),
    ensures
        trickling(
            before.push(ReplyView::Gathered(candidates)) + Seq::new(
                n,
                |j: int| ReplyView::Published(Ok(())),
            ),
            on,
            before.len() as int,
        ) == ask(RequestView::Publish { signal: trickled(candidates, n as int) }),
{
    let h = before.push(ReplyView::Gathered(candidates)) + Seq::new(
        n,
        |j: int| ReplyView::Published(Ok(())),
    );
    lemma_publishing(h, on, candidates, before.len() as int + 1, 0, n as int);
}

/// The replies end in a connection: the wait went well and, for the answerer, the channel
/// was seen.
pub open spec fn ends_connected(h: Seq<ReplyView>, on: Side, n: nat) -> bool {
    &&& 2 <= n <= h.len()
    &&& match on {
        Side::Offerer => h[n - 1] matches ReplyView::Done(Ok(_)),
        Side::Answerer => h[n - 2] matches ReplyView::Done(Ok(_)) && (
        h[n - 1] matches ReplyView::Incoming(channels) && channels > 0),
    }
}

proof fn lemma_consuming_ends_connected(h: Seq<ReplyView>, on: Side, i: int, n: nat)
    requires
        1 <= i,
        consuming(h, on, i) == ConnectingView::Ready(n),
    ensures
        ends_connected(h, on, n),
    decreases h.len() - i,
{
    if i < h.len() {
        match h[i] {
            ReplyView::Fetched(Ok(Some(signal))) => {
                if signal !is Offer {
                    match application(on, signal) {
                        None => {
                            lemma_consuming_ends_connected(h, on, i + 1, n);
                        },
                        Some((request, label)) => {
                            if i + 1 < h.len() && stops(h[i + 1], label) is None {
                                lemma_consuming_ends_connected(h, on, i + 2, n);
                            }
                        },
                    }
                }
            },
            _ => {},
        }
    }
}

proof fn lemma_publishing_ends_connected(
    h: Seq<ReplyView>,
    on: Side,
    candidates: Seq<CandidateView>,
    at: int,
    k: int,
    n: nat,
)
    requires
        1 <= at,
        0 <= k,
        publishing(h, on, candidates, at, k) == ConnectingView::Ready(n),
    ensures
        ends_connected(h, on, n),
    decreases candidates.len() + 1 - k,
{
    if k > candidates.len() {
        if at + k < h.len() && stops(h[at + k], "mailbox done"@) is None {
            lemma_consuming_ends_connected(h, on, at + k + 1, n);
        }
    } else if at + k < h.len() && h[at + k] is Published {
        match h[at + k] {
            ReplyView::Published(Ok(())) => {
                lemma_publishing_ends_connected(h, on, candidates, at, k + 1, n);
            },
            _ => {},
        }
    }
}

/// Neither half of the handshake is ready before its connection is: the wait for it went
/// well, and the answerer has seen the channel.
pub proof fn law_handshakes_end_connected(test_id: Seq<char>, h: Seq<ReplyView>, n: nat)
    ensures
        offering(test_id, h) == ConnectingView::Ready(n) ==> ends_connected(h, Side::Offerer, n),
        answering(h) == ConnectingView::Ready(n) ==> ends_connected(h, Side::Answerer, n),
{
    if offering(test_id, h) == ConnectingView::Ready(n) {
        let candidates = h[4]->Gathered_0;
        lemma_publishing_ends_connected(h, Side::Offerer, candidates, 5, 0, n);
    }
    if answering(h) == ConnectingView::Ready(n) {
        let candidates = h[5]->Gathered_0;
        lemma_publishing_ends_connected(h, Side::Answerer, candidates, 6, 0, n);
    }
}

proof fn lemma_consuming_does_not_pass(h: Seq<ReplyView>, on: Side, i: int)
    ensures
        consuming(h, on, i) != ConnectingView::Next(NextView::Pass),
    decreases h.len() - i,
{
    if 0 <= i < h.len() {
        match h[i] {
            ReplyView::Fetched(Ok(Some(signal))) => {
                lemma_consuming_does_not_pass(h, on, i + 1);
                if i + 1 < h.len() {
                    lemma_consuming_does_not_pass(h, on, i + 2);
                }
            },
            _ => {},
        }
    }
}

proof fn lemma_publishing_does_not_pass(
    h: Seq<ReplyView>,
    on: Side,
    candidates: Seq<CandidateView>,
    at: int,
    k: int,
)
    ensures
        publishing(h, on, candidates, at, k) != ConnectingView::Next(NextView::Pass),
    decreases candidates.len() + 1 - k,
{
    if k < 0 || k > candidates.len() {
        lemma_consuming_does_not_pass(h, on, at + k + 1);
    } else {
        lemma_publishing_does_not_pass(h, on, candidates, at, k + 1);
    }
}

/// A handshake alone passes no test.
pub proof fn lemma_handshakes_do_not_pass(test_id: Seq<char>, h: Seq<ReplyView>)
    ensures
        offering(test_id, h) != ConnectingView::Next(NextView::Pass),
        answering(h) != ConnectingView::Next(NextView::Pass),
{
    if h.len() > 4 {
        if let ReplyView::Gathered(candidates) = h[4] {
            lemma_publishing_does_not_pass(h, Side::Offerer, candidates, 5, 0);
        }
    }
    if h.len() > 5 {
        if let ReplyView::Gathered(candidates) = h[5] {
            lemma_publishing_does_not_pass(h, Side::Answerer, candidates, 6, 0);
        }
    }
}

/// The channel of a test is labelled `conformance`; only the test about retransmits
/// chooses anything else, namely that there be none.
pub proof fn law_only_the_retransmit_test_limits_them(test_id: Seq<char>)
    ensures
        options_for(test_id).label == Some("conformance"@),
        options_for(test_id).ordered is None,
        options_for(test_id).max_retransmits == (if test_id == "max-retransmits-accepted"@ {
            Some(0u16)
        } else {
            None
        }),
{
}

/// A step of a handshake goes on exactly if it ended well; an error ends the handshake by
/// the name of the step and the error.
pub proof fn law_only_good_steps_go_on(reply: ReplyView, label: Seq<char>)
    ensures
        stops(reply, label) is None <==> (reply matches ReplyView::Done(Ok(_))),
        reply matches ReplyView::Done(Err(error)) ==> stops(reply, label) == Some(
            ConnectingView::Next(NextView::Fail(label + ": "@ + error.described())),
        ),
        !(reply is Done) ==> stops(reply, label) == Some(ConnectingView::Next(NextView::OutOfStep)),
{
}

/// The details of the mailbox tell sending from receiving and a refusal from a signal
/// that cannot be read.
pub proof fn law_mailbox_failures_say_where(error: crate::error::ErrorView, text: Seq<char>)
    ensures
        publish_failure(ProblemText::Mailbox(error)) == "mailbox send"@ + ": "@ + error.described(),
        fetch_failure(ProblemText::Mailbox(error)) == "mailbox recv"@ + ": "@ + error.described(),
        publish_failure(ProblemText::Codec(text)) == "encode signal: "@ + text,
        fetch_failure(ProblemText::Codec(text)) == "decode signal: "@ + text,
{
}

/// What the offerer asks for while everything goes well: its channel, its offer, the offer
/// set, the offer published, then its candidates.
pub proof fn law_the_offerer_publishes_its_offer(test_id: Seq<char>, offer: DescriptionView)
    ensures
        ({
            let on = Side::Offerer;
            let done = ReplyView::Done(Ok(()));
            let made = ReplyView::Described(Ok(offer));
            let published = ReplyView::Published(Ok(()));
            &&& offering(test_id, seq![]) == ask(
                RequestView::CreateDataChannel { on, options: options_for(test_id) },
            )
            &&& offering(test_id, seq![done]) == ask(RequestView::CreateOffer { on })
            &&& offering(test_id, seq![done, made]) == ask(
                RequestView::SetLocal { on, description: offer },
            )
            &&& offering(test_id, seq![done, made, done]) == ask(
                RequestView::Publish { signal: GuestSignalView::Offer { sdp: offer.sdp } },
            )
            &&& offering(test_id, seq![done, made, done, published]) == ask(
                RequestView::LocalCandidates { on },
            )
        }),
{
}

/// What the answerer asks for while everything goes well: the peer's offer, which it sets,
/// its answer, which it sets and publishes, then its candidates.
pub proof fn law_the_answerer_publishes_its_answer(sdp: Seq<char>, answer: DescriptionView)
    ensures
        ({
            let on = Side::Answerer;
            let done = ReplyView::Done(Ok(()));
            let offered = ReplyView::Fetched(Ok(Some(GuestSignalView::Offer { sdp })));
            let made = ReplyView::Described(Ok(answer));
            let published = ReplyView::Published(Ok(()));
            &&& answering(seq![]) == ask(RequestView::FetchSignal)
            &&& answering(seq![offered]) == ask(
                RequestView::SetRemote {
                    on,
                    description: DescriptionView { kind: SdpType::Offer, sdp },
                },
            )
            &&& answering(seq![offered, done]) == ask(RequestView::CreateAnswer { on })
            &&& answering(seq![offered, done, made]) == ask(
                RequestView::SetLocal { on, description: answer },
            )
            &&& answering(seq![offered, done, made, done]) == ask(
                RequestView::Publish { signal: GuestSignalView::Answer { sdp: answer.sdp } },
            )
            &&& answering(seq![offered, done, made, done, published]) == ask(
                RequestView::LocalCandidates { on },
            )
        }),
{
}

/// Neither half goes past a step that failed: it fails by the name of that step.
pub proof fn law_failed_steps_end_the_handshake(
    test_id: Seq<char>,
    h: Seq<ReplyView>,
    error: crate::error::ErrorView,
)
    ensures
        h.len() > 0 && h[0] == ReplyView::Done(Err(error)) ==> offering(test_id, h) == give_up(
            "create-data-channel"@ + ": "@ + error.described(),
        ),
        h.len() > 1 && (h[0] matches ReplyView::Done(Ok(_))) && h[1] == ReplyView::Described(
            Err(error),
        ) ==> offering(test_id, h) == give_up("create-offer"@ + ": "@ + error.described()),
        h.len() > 2 && (h[0] matches ReplyView::Done(Ok(_))) && (h[1] matches ReplyView::Described(
            Ok(_),
        )) && h[2] == ReplyView::Done(Err(error)) ==> offering(test_id, h) == give_up(
            "set-local-description"@ + ": "@ + error.described(),
        ),
        h.len() > 1 && (h[0] matches ReplyView::Fetched(Ok(Some(GuestSignalView::Offer { .. }))))
            && h[1] == ReplyView::Done(Err(error)) ==> answering(h) == give_up(
            "set-remote-description offer"@ + ": "@ + error.described(),
        ),
        h.len() > 2 && (h[0] matches ReplyView::Fetched(Ok(Some(GuestSignalView::Offer { .. }))))
            && (h[1] matches ReplyView::Done(Ok(_))) && h[2] == ReplyView::Described(Err(error))
            ==> answering(h) == give_up("create-answer"@ + ": "@ + error.described()),
{
}

/// The answerer takes an offer and nothing else as the peer's first signal.
pub proof fn law_the_first_signal_has_to_be_an_offer(h: Seq<ReplyView>, other: GuestSignalView)
    requires
        h.len() > 0,
        !(other is Offer),
    ensures
        h[0] == ReplyView::Fetched(Ok(Some(other))) ==> answering(h) == give_up(
            "expected offer, got "@ + shown_signal(Some(other)),
        ),
        h[0] == ReplyView::Fetched(Ok(None)) ==> answering(h) == give_up(
            "expected offer, got "@ + "None"@,
        ),
{
}

/// The peer's signals are consumed until its mailbox is done: one more is asked for after
/// each that was applied and after the end of its candidates, a second offer is refused,
/// and only the end of the mailbox leads to the wait for the connection.
pub proof fn law_signals_are_consumed_to_the_end(
    h: Seq<ReplyView>,
    on: Side,
    sdp: Seq<char>,
    candidate: CandidateView,
    error: crate::error::ErrorView,
)
    ensures
        ({
            let i = h.len() as int;
            let ended = ReplyView::Fetched(Ok(None));
            let last = ReplyView::Fetched(Ok(Some(GuestSignalView::EndOfCandidates)));
            let offer = ReplyView::Fetched(Ok(Some(GuestSignalView::Offer { sdp })));
            let answer = ReplyView::Fetched(Ok(Some(GuestSignalView::Answer { sdp })));
            let one = ReplyView::Fetched(Ok(Some(GuestSignalView::Candidate(candidate))));
            let done = ReplyView::Done(Ok(()));
            let failed = ReplyView::Done(Err(error));
            &&& consuming(h, on, i) == ask(RequestView::FetchSignal)
            &&& consuming(h.push(ended), on, i) == ask(RequestView::WaitConnected { on })
            &&& consuming(h.push(last), on, i) == ask(RequestView::FetchSignal)
            &&& consuming(h.push(offer), on, i) == give_up("unexpected second offer"@)
            &&& consuming(h.push(answer).push(done), on, i) == ask(RequestView::FetchSignal)
            &&& consuming(h.push(one).push(done), on, i) == ask(RequestView::FetchSignal)
            &&& consuming(h.push(answer).push(failed), on, i) == give_up(
                "set-remote-description answer"@ + ": "@ + error.described(),
            )
            &&& consuming(h.push(one).push(failed), on, i) == give_up(
                "add-ice-candidate"@ + ": "@ + error.described(),
            )
        }),
{
    reveal_with_fuel(consuming, 3);
}

/// The connection is awaited, and the answerer then looks for the channel; the offerer,
/// which made the channel, is ready at once.
pub proof fn law_the_answerer_looks_for_the_channel(h: Seq<ReplyView>, n: usize)
    ensures
        ({
            let i = h.len() as int;
            let done = ReplyView::Done(Ok(()));
            let seen = ReplyView::Incoming(n);
            &&& awaiting(h.push(done), Side::Offerer, i) == ConnectingView::Ready((i + 1) as nat)
            &&& awaiting(h.push(done), Side::Answerer, i) == ask(
                RequestView::ReadIncoming { on: Side::Answerer },
            )
            &&& n > 0 ==> awaiting(h.push(done).push(seen), Side::Answerer, i)
                == ConnectingView::Ready((i + 2) as nat)
            &&& n == 0 ==> awaiting(h.push(done).push(seen), Side::Answerer, i) == give_up(
                "no incoming data channel"@,
            )
        }),
{
}

/// The signals that tell of the candidates: each candidate in its place, and behind them
/// all that there are no more.
pub proof fn law_every_candidate_is_told_of(candidates: Seq<CandidateView>, k: int)
    requires
        0 <= k <= candidates.len(),
    ensures
        trickled(candidates, k) is EndOfCandidates <==> k == candidates.len(),
        k < candidates.len() ==> trickled(candidates, k) == GuestSignalView::Candidate(candidates[k]),
{
}

proof fn lemma_all_published(
    h: Seq<ReplyView>,
    on: Side,
    candidates: Seq<CandidateView>,
    at: int,
    k: int,
)
    requires
        0 <= k <= candidates.len() + 1,
        0 <= at,
        h.len() >= at + candidates.len() + 1,
        forall|j: int|
            at <= j < at + candidates.len() + 1 ==> (#[trigger] h[j]) == ReplyView::Published(Ok(())),
    ensures
        publishing(h, on, candidates, at, k) == marking(h, on, at + candidates.len() + 1),
    decreases candidates.len() + 1 - k,
{
    if k <= candidates.len() {
        assert(h[at + k] == ReplyView::Published(Ok(())));
        lemma_all_published(h, on, candidates, at, k + 1);
    }
}

/// Once every candidate and the end of them is published, the own mailbox is marked done,
/// and then the peer's is read.
pub proof fn law_the_mailbox_is_marked_done(
    before: Seq<ReplyView>,
    on: Side,
    candidates: Seq<CandidateView>,
)
    ensures
        ({
            let published = before.push(ReplyView::Gathered(candidates)) + Seq::new(
                candidates.len() + 1,
                |j: int| ReplyView::Published(Ok(())),
            );
            let at = before.len() as int;
            &&& trickling(published, on, at) == ask(RequestView::MarkDone)
            &&& trickling(published.push(ReplyView::Done(Ok(()))), on, at) == ask(
                RequestView::FetchSignal,
            )
        }),
{
    let published = before.push(ReplyView::Gathered(candidates)) + Seq::new(
        candidates.len() + 1,
        |j: int| ReplyView::Published(Ok(())),
    );
    let at = before.len() as int;
    lemma_all_published(published, on, candidates, at + 1, 0);
    lemma_all_published(published.push(ReplyView::Done(Ok(()))), on, candidates, at + 1, 0);
}

/// How a signal reads in a detail: by its kind and, between quotes, what it holds.
pub proof fn law_shown_signals_name_their_kind(sdp: Seq<char>, c: CandidateView, index: u16)
    ensures
        shown_signal(None) == "None"@,
        shown_signal(Some(GuestSignalView::Offer { sdp })) == "Some(Offer { sdp: "@ + debug_quoted(
            sdp,
        ) + " })"@,
        shown_signal(Some(GuestSignalView::Answer { sdp })) == "Some(Answer { sdp: "@ + debug_quoted(
            sdp,
        ) + " })"@,
        shown_signal(Some(GuestSignalView::EndOfCandidates)) == "Some(EndOfCandidates)"@,
        c.sdp_mid is None && c.sdp_mline_index == Some(index) ==> shown_signal(
            Some(GuestSignalView::Candidate(c)),
        ) == "Some(Candidate { candidate: "@ + debug_quoted(c.candidate) + ", sdp_mid: "@ + "None"@
            + ", sdp_mline_index: "@ + ("Some("@ + decimal(index as nat) + ")"@) + " })"@,
        c.sdp_mid == Some(sdp) && c.sdp_mline_index is None ==> shown_signal(
            Some(GuestSignalView::Candidate(c)),
        ) == "Some(Candidate { candidate: "@ + debug_quoted(c.candidate) + ", sdp_mid: "@ + (
        "Some("@ + debug_quoted(sdp) + ")"@) + ", sdp_mline_index: "@ + "None"@ + " })"@,
{
}

/// A mailbox that cannot be marked done fails the handshake by that step.
pub proof fn law_an_unmarked_mailbox_fails(
    h: Seq<ReplyView>,
    on: Side,
    error: crate::error::ErrorView,
)
    ensures
        marking(h, on, h.len() as int) == ask(RequestView::MarkDone),
        marking(h.push(ReplyView::Done(Err(error))), on, h.len() as int) == give_up(
            "mailbox done"@ + ": "@ + error.described(),
        ),
        marking(h.push(ReplyView::Done(Ok(()))), on, h.len() as int) == ask(
            RequestView::FetchSignal,
        ),
{
}

} // verus!
