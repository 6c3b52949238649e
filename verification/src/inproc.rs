//! The in-process tests of the conformance guest: two peers of one instance, connected
//! to each other without external signaling.

use vstd::prelude::*;
use vstd::slice::slice_subrange;

use crate::negotiation::{
    answerer_candidates, connect, label_of, label_of_wait, offerer_candidates, progress,
    stage_label, wait_label, Problem, ProblemView, Progress, ProgressView, Style,
};
use crate::script::{
    fail, failure, labelled, replies_view, ChannelOptions, Next, NextView, Reply, ReplyView,
    Request, RequestView, Side,
};
use crate::signal::CandidateView;
use crate::text::same;

verus! {

/// The negotiated data-channel label used by every behavioral test. Both peers observe
/// it identically.
pub const CHANNEL_LABEL: &'static str = "conformance";

/// Options of which only the label is chosen.
pub fn labelled_options() -> (r: ChannelOptions)
    ensures
        r@ == labelled(CHANNEL_LABEL@),
{
    ChannelOptions { label: Some(CHANNEL_LABEL.to_string()), ordered: None, max_retransmits: None }
}

/// How the in-process tests connect their peers.
pub open spec fn inproc_style() -> Style {
    Style { set_local: true, trickle_at_once: false }
}

/// How far the connecting of a test's peers has come.
#[derive(Debug)]
pub enum Connecting {
    /// What comes next.
    Next(Next),
    /// The peers are connected after so many replies.
    Ready(usize),
}

/// The contents of a [`Connecting`].
pub enum ConnectingView {
    Next(NextView),
    Ready(nat),
}

impl View for Connecting {
    type V = ConnectingView;

    open spec fn view(&self) -> ConnectingView {
        match self {
            Connecting::Next(next) => ConnectingView::Next(next@),
            Connecting::Ready(n) => ConnectingView::Ready(*n as nat),
        }
    }
}

/// What a test reports of a problem.
pub open spec fn reported(problem: ProblemView) -> NextView {
    match problem {
        ProblemView::Failed { stage, error } => NextView::Fail(failure(stage_label(stage), error)),
        ProblemView::NotConnected { on, error } => NextView::Fail(failure(wait_label(on), error)),
        ProblemView::NoChannel => NextView::Fail("no incoming data channel"@),
        ProblemView::OutOfStep => NextView::OutOfStep,
    }
}

/// How many replies it takes until both sides have gathered their candidates.
pub const GATHERED: usize = 9;

/// Whether a test whose local candidates must not be missing misses them: both sides
/// have gathered, nothing went wrong before, and one side has none.
pub open spec fn misses_candidates(test_id: Seq<char>, h: Seq<ReplyView>) -> bool {
    &&& test_id == "peer-local-ice-candidates"@
    &&& h.len() >= GATHERED
    &&& progress(inproc_style(), labelled(CHANNEL_LABEL@), h.take(GATHERED as int)) is Ask
    &&& offerer_candidates(inproc_style(), h).len() == 0 || answerer_candidates(
        inproc_style(),
        h,
    ).len() == 0
}

/// How far the connecting of the peers of `test_id` has come.
pub open spec fn inproc(test_id: Seq<char>, h: Seq<ReplyView>) -> ConnectingView {
    if misses_candidates(test_id, h) {
        ConnectingView::Next(NextView::Fail("no local ICE candidates were gathered"@))
    } else {
        match progress(inproc_style(), labelled(CHANNEL_LABEL@), h) {
            ProgressView::Ask(request) => ConnectingView::Next(NextView::Ask(request)),
            ProgressView::Stuck(problem) => ConnectingView::Next(reported(problem)),
            ProgressView::Ready(n) => ConnectingView::Ready(n),
        }
    }
}

fn report(problem: &Problem) -> (r: Next)
    ensures
        r@ == reported(problem@),
{
    match problem {
        Problem::Failed { stage, error } => Next::Fail(fail(label_of(*stage), error)),
        Problem::NotConnected { on, error } => Next::Fail(fail(label_of_wait(*on), error)),
        Problem::NoChannel => Next::Fail("no incoming data channel".to_string()),
        Problem::OutOfStep => Next::OutOfStep,
    }
}

fn is_bare(reply: &Reply) -> (r: bool)
    ensures
        r == match reply@ {
            ReplyView::Gathered(list) => list.len() == 0,
            _ => true,
        },
{
    match reply {
        Reply::Gathered(list) => list.len() == 0,
        _ => true,
    }
}

/// The replies from the `n`-th on.
pub fn rest<'a>(replies: &'a [Reply], n: usize) -> (r: &'a [Reply])
    requires
        n <= replies@.len(),
    ensures
        replies_view(r@) == replies_view(replies@).skip(n as int),
{
    let r = slice_subrange(replies, n, replies.len());
    assert(replies_view(r@) =~= replies_view(replies@).skip(n as int));
    r
}

/// Stand up two in-process peers (no external signaling) and connect them over a data
/// channel that the offerer creates.
pub fn inproc_connect(test_id: &str, replies: &[Reply]) -> (r: Connecting)
    ensures
        r@ == inproc(test_id@, replies_view(replies@)),
        r matches Connecting::Ready(n) ==> n <= replies@.len(),
{
    let ghost h = replies_view(replies@);
    let style = Style { set_local: true, trickle_at_once: false };
    let options = labelled_options();
    if same(test_id, "peer-local-ice-candidates") && replies.len() >= GATHERED {
        let first = slice_subrange(replies, 0, GATHERED);
        assert(replies_view(first@) =~= h.take(GATHERED as int));
        if let Progress::Ask(_) = connect(style, &options, first) {
            if is_bare(&replies[GATHERED - 2]) || is_bare(&replies[GATHERED - 1]) {
                return Connecting::Next(
                    Next::Fail("no local ICE candidates were gathered".to_string()),
                );
            }
        }
    }
    match connect(style, &options, replies) {
        Progress::Ask(request) => Connecting::Next(Next::Ask(request)),
        Progress::Stuck(problem) => Connecting::Next(report(&problem)),
        Progress::Ready(n) => {
            proof {
                crate::negotiation::law_connected_only_if_every_step_went_well(
                    style,
                    options@,
                    h,
                    n as nat,
                );
            }
            Connecting::Ready(n)
        },
    }
}

/// A test that connects its peers first and goes on with `tail`.
pub open spec fn connected_then(
    test_id: Seq<char>,
    h: Seq<ReplyView>,
    tail: spec_fn(Seq<ReplyView>) -> NextView,
) -> NextView {
    match inproc(test_id, h) {
        ConnectingView::Next(next) => next,
        ConnectingView::Ready(n) => tail(h.skip(n as int)),
    }
}

/// Both peers are closed, the offerer first, from the `at`-th reply on; then the test
/// has passed.
pub open spec fn wound_up(t: Seq<ReplyView>, at: int) -> NextView {
    if t.len() <= at {
        NextView::Ask(RequestView::Close { on: Side::Offerer })
    } else if t.len() == at + 1 {
        NextView::Ask(RequestView::Close { on: Side::Answerer })
    } else {
        NextView::Pass
    }
}

/// Both peers are closed, the offerer first; then the test has passed.
pub fn wind_up(n: usize, at: usize) -> (r: Next)
    ensures
        forall|t: Seq<ReplyView>| t.len() == n ==> r@ == #[trigger] wound_up(t, at as int),
{
    if n <= at {
        Next::Ask(Request::Close { on: Side::Offerer })
    } else if n - at == 1 {
        Next::Ask(Request::Close { on: Side::Answerer })
    } else {
        Next::Pass
    }
}

/// What an in-process round trip does once connected: a message each way proves the
/// channel usable.
pub open spec fn round_trip_tail(t: Seq<ReplyView>) -> NextView {
    if t.len() == 0 {
        NextView::Ask(RequestView::ExchangeOnce)
    } else {
        match t[0] {
            ReplyView::Judged(Err(detail)) => NextView::Fail(detail),
            ReplyView::Judged(Ok(intact)) => if intact {
                wound_up(t, 1)
            } else {
                NextView::Fail("data channel round trip failed"@)
            },
            _ => NextView::OutOfStep,
        }
    }
}

/// Stand up two in-process peers, connect them, and exercise `test_id`'s peer-connection
/// surface over the connection.
pub fn inproc_round_trip(test_id: &str, replies: &[Reply]) -> (r: Next)
    ensures
        r@ == connected_then(
            test_id@,
            replies_view(replies@),
            |t: Seq<ReplyView>| round_trip_tail(t),
        ),
{
    match inproc_connect(test_id, replies) {
        Connecting::Next(next) => next,
        Connecting::Ready(n) => {
            let tail = rest(replies, n);
            if tail.len() == 0 {
                Next::Ask(Request::ExchangeOnce)
            } else {
                match &tail[0] {
                    Reply::Judged(Err(detail)) => Next::Fail(detail.clone()),
                    Reply::Judged(Ok(intact)) => if *intact {
                        wind_up(tail.len(), 1)
                    } else {
                        Next::Fail("data channel round trip failed".to_string())
                    },
                    _ => Next::OutOfStep,
                }
            }
        },
    }
}

// ----- laws ---------------------------------------------------------------------------------------------

/// A test that connects its peers first passes exactly if they connected and what follows
/// passes: no problem of the connecting is taken for a pass.
pub proof fn law_connected_tests_pass_only_connected(
    test_id: Seq<char>,
    h: Seq<ReplyView>,
    tail: spec_fn(Seq<ReplyView>) -> NextView,
)
    ensures
        connected_then(test_id, h, tail) is Pass <==> (inproc(test_id, h) matches
            ConnectingView::Ready(n) && tail(h.skip(n as int)) is Pass),
{
}

/// An in-process round trip passes exactly if a message went each way intact and both
/// peers were closed.
pub proof fn law_round_trips_pass_only_intact(t: Seq<ReplyView>)
    ensures
        round_trip_tail(t) is Pass <==> t.len() >= 3 && t[0] == ReplyView::Judged(Ok(true)),
{
}

/// What the peers of a test are connected over: a channel labelled `conformance`, both
/// descriptions set on both sides, candidates handed over once both sides have gathered.
pub proof fn law_how_the_peers_are_connected(test_id: Seq<char>, h: Seq<ReplyView>)
    ensures
        inproc(test_id, seq![]) == ConnectingView::Next(
            NextView::Ask(
                RequestView::CreateDataChannel {
                    on: Side::Offerer,
                    options: labelled("conformance"@),
                },
            ),
        ),
        inproc_style().set_local,
        !inproc_style().trickle_at_once,
        test_id != "peer-local-ice-candidates"@ ==> (inproc(test_id, h) matches ConnectingView::Ready(n)
            <==> progress(inproc_style(), labelled("conformance"@), h) is Ready),
{
}

/// A problem of the connecting fails the test by the name of the step and the error.
pub proof fn law_problems_fail_the_test(problem: ProblemView)
    ensures
        reported(problem) is Fail <==> !(problem is OutOfStep),
        problem matches ProblemView::Failed { stage, error } ==> reported(problem) == NextView::Fail(
            stage_label(stage) + ": "@ + error.described(),
        ),
        problem matches ProblemView::NotConnected { on, error } ==> reported(problem)
            == NextView::Fail(wait_label(on) + ": "@ + error.described()),
        problem is NoChannel ==> reported(problem) == NextView::Fail("no incoming data channel"@),
{
}

/// Only the test of the local candidates minds missing ones, and it minds them on either
/// side: once both sides have gathered and one has nothing, it fails.
pub proof fn law_missing_candidates_fail_their_test(
    test_id: Seq<char>,
    h: Seq<ReplyView>,
    offerer: Seq<CandidateView>,
    answerer: Seq<CandidateView>,
)
    requires
        h.len() == 9,
        h[7] == ReplyView::Gathered(offerer),
        h[8] == ReplyView::Gathered(answerer),
        progress(inproc_style(), labelled("conformance"@), h) is Ask,
    ensures
        inproc(test_id, h) is Next,
        inproc(test_id, h)->Next_0 is Fail <==> test_id == "peer-local-ice-candidates"@ && (
        offerer.len() == 0 || answerer.len() == 0),
        !(inproc(test_id, h)->Next_0 is Fail) ==> inproc(test_id, h)->Next_0 is Ask,
{
    assert(h.take(9) =~= h);
}

/// Both peers are closed before a test passes, the offerer first: a pass takes two more
/// replies than there were, and until then a close is asked for.
pub proof fn law_both_peers_are_closed(t: Seq<ReplyView>, at: nat)
    requires
        t.len() >= at,
    ensures
        t.len() == at <==> wound_up(t, at as int) == NextView::Ask(
            RequestView::Close { on: Side::Offerer },
        ),
        t.len() == at + 1 <==> wound_up(t, at as int) == NextView::Ask(
            RequestView::Close { on: Side::Answerer },
        ),
        t.len() >= at + 2 <==> wound_up(t, at as int) is Pass,
{
}

/// A round trip is asked for once; where a message was lost or changed the test fails, by
/// the detail where there is one.
pub proof fn law_lost_messages_fail_the_round_trip(t: Seq<ReplyView>)
    ensures
        t.len() == 0 ==> round_trip_tail(t) == NextView::Ask(RequestView::ExchangeOnce),
        t.len() > 0 && t[0] == ReplyView::Judged(Ok(false)) ==> round_trip_tail(t) == NextView::Fail(
            "data channel round trip failed"@,
        ),
        t.len() > 0 ==> (t[0] matches ReplyView::Judged(Err(detail)) ==> round_trip_tail(t)
            == NextView::Fail(detail)),
        t.len() == 1 && t[0] == ReplyView::Judged(Ok(true)) ==> round_trip_tail(t) == NextView::Ask(
            RequestView::Close { on: Side::Offerer },
        ),
{
}

/// How the test of the local candidates reports that a side has none.
pub proof fn law_missing_candidates_are_reported(
    h: Seq<ReplyView>,
    offerer: Seq<CandidateView>,
    answerer: Seq<CandidateView>,
)
    requires
        h.len() == 9,
        h[7] == ReplyView::Gathered(offerer),
        h[8] == ReplyView::Gathered(answerer),
        offerer.len() == 0 || answerer.len() == 0,
        progress(inproc_style(), labelled("conformance"@), h) is Ask,
    ensures
        inproc("peer-local-ice-candidates"@, h) == ConnectingView::Next(
            NextView::Fail("no local ICE candidates were gathered"@),
        ),
{
    assert(h.take(9) =~= h);
}

} // verus!
