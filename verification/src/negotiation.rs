//! Connecting two peers that live side by side: descriptions and candidates are handed
//! from one to the other directly, without external signaling.

use vstd::prelude::*;

use crate::error::{Error, ErrorView};
use crate::script::{
    replies_view, same_candidate, same_description, same_error, ChannelOptions, OptionsView, Reply,
    ReplyView, Request, RequestView, Side,
};
use crate::signal::{CandidateView, DescriptionView, IceCandidate, SessionDescription};

verus! {

/// How two peers are connected.
#[derive(Debug, Clone, Copy, PartialEq, Eq, Structural)]
pub struct Style {
    /// Whether a created description is set as local description.
    pub set_local: bool,
    /// Whether one side's candidates are handed over before the other side's are
    /// gathered.
    pub trickle_at_once: bool,
}

/// A step of a negotiation.
#[derive(Debug, Clone, Copy, PartialEq, Eq, Structural)]
pub enum Stage {
    CreateDataChannel,
    CreateOffer,
    OffererSetLocal,
    AnswererSetRemote,
    CreateAnswer,
    AnswererSetLocal,
    OffererSetRemote,
    OffererGather,
    AnswererGather,
    OffererAdd,
    AnswererAdd,
    WaitBoth,
    ReadIncoming,
}

/// How many steps it takes to exchange the descriptions.
pub open spec fn described_steps(style: Style) -> int {
    if style.set_local {
        7
    } else {
        5
    }
}

/// The candidates in the `i`-th reply.
pub open spec fn gathered(h: Seq<ReplyView>, i: int) -> Seq<CandidateView> {
    if 0 <= i < h.len() {
        match h[i] {
            ReplyView::Gathered(list) => list,
            _ => seq![],
        }
    } else {
        seq![]
    }
}

/// The description in the `i`-th reply.
pub open spec fn described(h: Seq<ReplyView>, i: int) -> DescriptionView {
    match h[i] {
        ReplyView::Described(Ok(description)) => description,
        _ => arbitrary(),
    }
}

/// The candidates of the offerer.
pub open spec fn offerer_candidates(style: Style, h: Seq<ReplyView>) -> Seq<CandidateView> {
    gathered(h, described_steps(style))
}

/// The candidates of the answerer.
pub open spec fn answerer_candidates(style: Style, h: Seq<ReplyView>) -> Seq<CandidateView> {
    if style.trickle_at_once {
        gathered(h, described_steps(style) + 1 + offerer_candidates(style, h).len())
    } else {
        gathered(h, described_steps(style) + 1)
    }
}

/// The steps that exchange the descriptions.
pub open spec fn description_stage(style: Style, i: int) -> Stage {
    if i == 0 {
        Stage::CreateDataChannel
    } else if i == 1 {
        Stage::CreateOffer
    } else if style.set_local {
        if i == 2 {
            Stage::OffererSetLocal
        } else if i == 3 {
            Stage::AnswererSetRemote
        } else if i == 4 {
            Stage::CreateAnswer
        } else if i == 5 {
            Stage::AnswererSetLocal
        } else {
            Stage::OffererSetRemote
        }
    } else {
        if i == 2 {
            Stage::AnswererSetRemote
        } else if i == 3 {
            Stage::CreateAnswer
        } else {
            Stage::OffererSetRemote
        }
    }
}

fn find_stage(style: Style, i: usize) -> (r: Stage)
    ensures
        r == description_stage(style, i as int),
{
    if i == 0 {
        Stage::CreateDataChannel
    } else if i == 1 {
        Stage::CreateOffer
    } else if style.set_local {
        if i == 2 {
            Stage::OffererSetLocal
        } else if i == 3 {
            Stage::AnswererSetRemote
        } else if i == 4 {
            Stage::CreateAnswer
        } else if i == 5 {
            Stage::AnswererSetLocal
        } else {
            Stage::OffererSetRemote
        }
    } else {
        if i == 2 {
            Stage::AnswererSetRemote
        } else if i == 3 {
            Stage::CreateAnswer
        } else {
            Stage::OffererSetRemote
        }
    }
}

/// What the `i`-th step is, and which candidate it hands over if it is the handing over
/// of one. There is none once the peers are connected.
pub open spec fn step_at(style: Style, h: Seq<ReplyView>, i: int) -> Option<(Stage, int)> {
    let d = described_steps(style);
    let n = offerer_candidates(style, h).len() as int;
    let m = answerer_candidates(style, h).len() as int;
    if i < d {
        Some((description_stage(style, i), 0))
    } else if i == d {
        Some((Stage::OffererGather, 0))
    } else if i < d + 2 + n + m {
        if style.trickle_at_once {
            if i < d + 1 + n {
                Some((Stage::AnswererAdd, i - d - 1))
            } else if i == d + 1 + n {
                Some((Stage::AnswererGather, 0))
            } else {
                Some((Stage::OffererAdd, i - d - 2 - n))
            }
        } else {
            if i == d + 1 {
                Some((Stage::AnswererGather, 0))
            } else if i < d + 2 + m {
                Some((Stage::OffererAdd, i - d - 2))
            } else {
                Some((Stage::AnswererAdd, i - d - 2 - m))
            }
        }
    } else if i == d + 2 + n + m {
        Some((Stage::WaitBoth, 0))
    } else if i == d + 3 + n + m {
        Some((Stage::ReadIncoming, 0))
    } else {
        None
    }
}

/// What a step asks for. The created descriptions go to the other side as they are, and
/// so do the candidates, in their order.
pub open spec fn request_for(
    style: Style,
    options: OptionsView,
    h: Seq<ReplyView>,
    step: (Stage, int),
) -> RequestView {
    let answer_at = if style.set_local {
        4int
    } else {
        3
    };
    match step.0 {
        Stage::CreateDataChannel => RequestView::CreateDataChannel { on: Side::Offerer, options },
        Stage::CreateOffer => RequestView::CreateOffer { on: Side::Offerer },
        Stage::OffererSetLocal => RequestView::SetLocal {
            on: Side::Offerer,
            description: described(h, 1),
        },
        Stage::AnswererSetRemote => RequestView::SetRemote {
            on: Side::Answerer,
            description: described(h, 1),
        },
        Stage::CreateAnswer => RequestView::CreateAnswer { on: Side::Answerer },
        Stage::AnswererSetLocal => RequestView::SetLocal {
            on: Side::Answerer,
            description: described(h, answer_at),
        },
        Stage::OffererSetRemote => RequestView::SetRemote {
            on: Side::Offerer,
            description: described(h, answer_at),
        },
        Stage::OffererGather => RequestView::LocalCandidates { on: Side::Offerer },
        Stage::AnswererGather => RequestView::LocalCandidates { on: Side::Answerer },
        Stage::OffererAdd => RequestView::AddCandidate {
            on: Side::Offerer,
            candidate: answerer_candidates(style, h)[step.1],
        },
        Stage::AnswererAdd => RequestView::AddCandidate {
            on: Side::Answerer,
            candidate: offerer_candidates(style, h)[step.1],
        },
        Stage::WaitBoth => RequestView::WaitBothConnected,
        Stage::ReadIncoming => RequestView::ReadIncoming { on: Side::Answerer },
    }
}

/// What went wrong in a negotiation.
#[derive(Debug)]
pub enum Problem {
    /// A call failed.
    Failed { stage: Stage, error: Error },
    /// One of the waits for the connection failed.
    NotConnected { on: Side, error: Error },
    /// The answerer saw no data channel.
    NoChannel,
    /// A reply does not answer its request.
    OutOfStep,
}

/// The contents of a [`Problem`].
pub enum ProblemView {
    Failed { stage: Stage, error: ErrorView },
    NotConnected { on: Side, error: ErrorView },
    NoChannel,
    OutOfStep,
}

impl View for Problem {
    type V = ProblemView;

    open spec fn view(&self) -> ProblemView {
        match self {
            Problem::Failed { stage, error } => ProblemView::Failed { stage: *stage, error: error@ },
            Problem::NotConnected { on, error } => ProblemView::NotConnected {
                on: *on,
                error: error@,
            },
            Problem::NoChannel => ProblemView::NoChannel,
            Problem::OutOfStep => ProblemView::OutOfStep,
        }
    }
}

/// What the reply to a step says against going on.
pub open spec fn problem_of(stage: Stage, reply: ReplyView) -> Option<ProblemView> {
    match (stage, reply) {
        (Stage::CreateOffer, ReplyView::Described(Ok(_))) => None,
        (Stage::CreateOffer, ReplyView::Described(Err(error))) => Some(
            ProblemView::Failed { stage, error },
        ),
        (Stage::CreateAnswer, ReplyView::Described(Ok(_))) => None,
        (Stage::CreateAnswer, ReplyView::Described(Err(error))) => Some(
            ProblemView::Failed { stage, error },
        ),
        (Stage::OffererGather, ReplyView::Gathered(_)) => None,
        (Stage::AnswererGather, ReplyView::Gathered(_)) => None,
        (Stage::WaitBoth, ReplyView::Connected { offerer, answerer }) => match (offerer, answerer) {
            (Err(error), _) => Some(ProblemView::NotConnected { on: Side::Offerer, error }),
            (Ok(()), Err(error)) => Some(ProblemView::NotConnected { on: Side::Answerer, error }),
            (Ok(()), Ok(())) => None,
        },
        (Stage::ReadIncoming, ReplyView::Incoming(n)) => if n == 0 {
            Some(ProblemView::NoChannel)
        } else {
            None
        },
        (
            Stage::CreateOffer
            | Stage::CreateAnswer
            | Stage::OffererGather
            | Stage::AnswererGather
            | Stage::WaitBoth
            | Stage::ReadIncoming,
            _,
        ) => Some(ProblemView::OutOfStep),
        (_, ReplyView::Done(Ok(()))) => None,
        (_, ReplyView::Done(Err(error))) => Some(ProblemView::Failed { stage, error }),
        _ => Some(ProblemView::OutOfStep),
    }
}

/// What a step is called in the details of a failure.
pub open spec fn stage_label(stage: Stage) -> Seq<char> {
    match stage {
        Stage::CreateDataChannel => "create-data-channel"@,
        Stage::CreateOffer => "create-offer"@,
        Stage::OffererSetLocal => "offerer set-local"@,
        Stage::AnswererSetRemote => "answerer set-remote offer"@,
        Stage::CreateAnswer => "create-answer"@,
        Stage::AnswererSetLocal => "answerer set-local"@,
        Stage::OffererSetRemote => "offerer set-remote answer"@,
        Stage::OffererGather => "offerer local-ice-candidates"@,
        Stage::AnswererGather => "answerer local-ice-candidates"@,
        Stage::OffererAdd => "offerer add-ice-candidate"@,
        Stage::AnswererAdd => "answerer add-ice-candidate"@,
        Stage::WaitBoth => "wait-connected"@,
        Stage::ReadIncoming => "incoming-data-channels"@,
    }
}

/// What a step is called in the details of a failure.
pub fn label_of(stage: Stage) -> (r: &'static str)
    ensures
        r@ == stage_label(stage),
{
    match stage {
        Stage::CreateDataChannel => "create-data-channel",
        Stage::CreateOffer => "create-offer",
        Stage::OffererSetLocal => "offerer set-local",
        Stage::AnswererSetRemote => "answerer set-remote offer",
        Stage::CreateAnswer => "create-answer",
        Stage::AnswererSetLocal => "answerer set-local",
        Stage::OffererSetRemote => "offerer set-remote answer",
        Stage::OffererGather => "offerer local-ice-candidates",
        Stage::AnswererGather => "answerer local-ice-candidates",
        Stage::OffererAdd => "offerer add-ice-candidate",
        Stage::AnswererAdd => "answerer add-ice-candidate",
        Stage::WaitBoth => "wait-connected",
        Stage::ReadIncoming => "incoming-data-channels",
    }
}

/// What the wait of one side is called in the details of a failure.
pub open spec fn wait_label(on: Side) -> Seq<char> {
    match on {
        Side::Offerer => "offerer wait-connected"@,
        Side::Answerer => "answerer wait-connected"@,
    }
}

/// What the wait of one side is called in the details of a failure.
pub fn label_of_wait(on: Side) -> (r: &'static str)
    ensures
        r@ == wait_label(on),
{
    match on {
        Side::Offerer => "offerer wait-connected",
        Side::Answerer => "answerer wait-connected",
    }
}

/// How far a negotiation has come.
#[derive(Debug)]
pub enum Progress {
    /// Perform this request.
    Ask(Request),
    /// The negotiation has failed.
    Stuck(Problem),
    /// The peers are connected after so many replies.
    Ready(usize),
}

/// The contents of a [`Progress`].
pub enum ProgressView {
    Ask(RequestView),
    Stuck(ProblemView),
    Ready(nat),
}

impl View for Progress {
    type V = ProgressView;

    open spec fn view(&self) -> ProgressView {
        match self {
            Progress::Ask(request) => ProgressView::Ask(request@),
            Progress::Stuck(problem) => ProgressView::Stuck(problem@),
            Progress::Ready(n) => ProgressView::Ready(*n as nat),
        }
    }
}

/// The negotiation from its `i`-th step on: the first problem decides; while there is
/// none, the steps are asked for one by one.
pub open spec fn progress_from(
    style: Style,
    options: OptionsView,
    h: Seq<ReplyView>,
    i: int,
) -> ProgressView
    decreases h.len() - i,
{
    match step_at(style, h, i) {
        None => ProgressView::Ready(i as nat),
        Some(step) => if 0 <= i < h.len() {
            match problem_of(step.0, h[i]) {
                Some(problem) => ProgressView::Stuck(problem),
                None => progress_from(style, options, h, i + 1),
            }
        } else {
            ProgressView::Ask(request_for(style, options, h, step))
        },
    }
}

/// How far the negotiation with these replies has come.
pub open spec fn progress(style: Style, options: OptionsView, h: Seq<ReplyView>) -> ProgressView {
    progress_from(style, options, h, 0)
}

fn count_at(replies: &[Reply], i: usize) -> (r: usize)
    ensures
        r == gathered(replies_view(replies@), i as int).len(),
{
    if i < replies.len() {
        match &replies[i] {
            Reply::Gathered(list) => list.len(),
            _ => 0,
        }
    } else {
        0
    }
}

fn candidate_at(replies: &[Reply], i: usize, k: usize) -> (r: Option<IceCandidate>)
    ensures
        match r {
            Some(c) => k < gathered(replies_view(replies@), i as int).len() && c@ == gathered(
                replies_view(replies@),
                i as int,
            )[k as int],
            None => k >= gathered(replies_view(replies@), i as int).len(),
        },
{
    if i < replies.len() {
        match &replies[i] {
            Reply::Gathered(list) => if k < list.len() {
                Some(same_candidate(&list[k]))
            } else {
                None
            },
            _ => None,
        }
    } else {
        None
    }
}

fn description_at(replies: &[Reply], i: usize) -> (r: Option<SessionDescription>)
    ensures
        match r {
            Some(d) => i < replies@.len() && d@ == described(replies_view(replies@), i as int),
            None => i >= replies@.len() || !(replies_view(
                replies@,
            )[i as int] matches ReplyView::Described(Ok(_))),
        },
{
    if i < replies.len() {
        match &replies[i] {
            Reply::Described(Ok(d)) => Some(same_description(d)),
            _ => None,
        }
    } else {
        None
    }
}

/// Where the candidates of each side stand among the replies.
fn gather_places(style: Style, replies: &[Reply]) -> (r: (usize, Option<usize>))
    ensures
        r.0 == described_steps(style),
        gathered(replies_view(replies@), r.0 as int) == offerer_candidates(style, replies_view(replies@)),
        match r.1 {
            Some(at) => gathered(replies_view(replies@), at as int) == answerer_candidates(
                style,
                replies_view(replies@),
            ),
            None => answerer_candidates(style, replies_view(replies@)).len() == 0,
        },
{
    let d: usize = if style.set_local {
        7
    } else {
        5
    };
    if style.trickle_at_once {
        let n = count_at(replies, d);
        let len = replies.len();
        if n > usize::MAX - d - 1 {
            assert(replies_view(replies@).len() == len);
            (d, None)
        } else {
            (d, Some(d + 1 + n))
        }
    } else {
        (d, Some(d + 1))
    }
}

fn place(style: Style, replies: &[Reply], i: usize) -> (r: Option<(Stage, usize)>)
    ensures
        match r {
            Some((stage, k)) => step_at(style, replies_view(replies@), i as int) == Some(
                (stage, k as int),
            ),
            None => step_at(style, replies_view(replies@), i as int) is None,
        },
{
    let (d, at) = gather_places(style, replies);
    let n = count_at(replies, d);
    let m = match at {
        Some(at) => count_at(replies, at),
        None => 0,
    };
    if i < d {
        return Some((find_stage(style, i), 0));
    }
    if i == d {
        return Some((Stage::OffererGather, 0));
    }
    let mut k: usize = i - d - 1;
    if style.trickle_at_once {
        if k < n {
            return Some((Stage::AnswererAdd, k));
        }
        k = k - n;
        if k == 0 {
            return Some((Stage::AnswererGather, 0));
        }
        k = k - 1;
        if k < m {
            return Some((Stage::OffererAdd, k));
        }
        k = k - m;
    } else {
        if k == 0 {
            return Some((Stage::AnswererGather, 0));
        }
        k = k - 1;
        if k < m {
            return Some((Stage::OffererAdd, k));
        }
        k = k - m;
        if k < n {
            return Some((Stage::AnswererAdd, k));
        }
        k = k - n;
    }
    if k == 0 {
        Some((Stage::WaitBoth, 0))
    } else if k == 1 {
        Some((Stage::ReadIncoming, 0))
    } else {
        None
    }
}

fn find_problem(stage: Stage, reply: &Reply) -> (r: Option<Problem>)
    ensures
        match r {
            Some(problem) => problem_of(stage, reply@) == Some(problem@),
            None => problem_of(stage, reply@) is None,
        },
{
    match (stage, reply) {
        (Stage::CreateOffer | Stage::CreateAnswer, Reply::Described(Ok(_))) => None,
        (Stage::CreateOffer | Stage::CreateAnswer, Reply::Described(Err(error))) => Some(
            Problem::Failed { stage, error: same_error(error) },
        ),
        (Stage::OffererGather | Stage::AnswererGather, Reply::Gathered(_)) => None,
        (Stage::WaitBoth, Reply::Connected { offerer, answerer }) => match (offerer, answerer) {
            (Err(error), _) => Some(
                Problem::NotConnected { on: Side::Offerer, error: same_error(error) },
            ),
            (Ok(()), Err(error)) => Some(
                Problem::NotConnected { on: Side::Answerer, error: same_error(error) },
            ),
            (Ok(()), Ok(())) => None,
        },
        (Stage::ReadIncoming, Reply::Incoming(n)) => if *n == 0 {
            Some(Problem::NoChannel)
        } else {
            None
        },
        (
            Stage::CreateOffer
            | Stage::CreateAnswer
            | Stage::OffererGather
            | Stage::AnswererGather
            | Stage::WaitBoth
            | Stage::ReadIncoming,
            _,
        ) => Some(Problem::OutOfStep),
        (_, Reply::Done(Ok(()))) => None,
        (_, Reply::Done(Err(error))) => Some(Problem::Failed { stage, error: same_error(error) }),
        _ => Some(Problem::OutOfStep),
    }
}

/// Every reply before the `i`-th lets the negotiation go on.
pub open spec fn smooth(style: Style, h: Seq<ReplyView>, i: int) -> bool {
    forall|j: int|
        #![trigger step_at(style, h, j)]
        0 <= j < i && j < h.len() ==> match step_at(style, h, j) {
            Some(step) => problem_of(step.0, h[j]) is None,
            None => false,
        }
}

fn make_request(
    style: Style,
    options: &ChannelOptions,
    replies: &[Reply],
    stage: Stage,
    k: usize,
) -> (r: Option<Request>)
    requires
        step_at(style, replies_view(replies@), replies@.len() as int) == Some((stage, k as int)),
        smooth(style, replies_view(replies@), replies@.len() as int),
    ensures
        match r {
            Some(request) => request@ == request_for(
                style,
                options@,
                replies_view(replies@),
                (stage, k as int),
            ),
            None => false,
        },
{
    let ghost h = replies_view(replies@);
    let answer_at: usize = if style.set_local {
        4
    } else {
        3
    };
    let (d, at) = gather_places(style, replies);
    proof {
        assert(step_at(style, h, 1) == Some((Stage::CreateOffer, 0int)));
        assert(step_at(style, h, answer_at as int) == Some((Stage::CreateAnswer, 0int)));
    }
    match stage {
        Stage::CreateDataChannel => Some(
            Request::CreateDataChannel {
                on: Side::Offerer,
                options: ChannelOptions {
                    label: match &options.label {
                        Some(label) => Some(label.clone()),
                        None => None,
                    },
                    ordered: options.ordered,
                    max_retransmits: options.max_retransmits,
                },
            },
        ),
        Stage::CreateOffer => Some(Request::CreateOffer { on: Side::Offerer }),
        Stage::OffererSetLocal => match description_at(replies, 1) {
            Some(description) => Some(Request::SetLocal { on: Side::Offerer, description }),
            None => None,
        },
        Stage::AnswererSetRemote => match description_at(replies, 1) {
            Some(description) => Some(Request::SetRemote { on: Side::Answerer, description }),
            None => None,
        },
        Stage::CreateAnswer => Some(Request::CreateAnswer { on: Side::Answerer }),
        Stage::AnswererSetLocal => match description_at(replies, answer_at) {
            Some(description) => Some(Request::SetLocal { on: Side::Answerer, description }),
            None => None,
        },
        Stage::OffererSetRemote => match description_at(replies, answer_at) {
            Some(description) => Some(Request::SetRemote { on: Side::Offerer, description }),
            None => None,
        },
        Stage::OffererGather => Some(Request::LocalCandidates { on: Side::Offerer }),
        Stage::AnswererGather => Some(Request::LocalCandidates { on: Side::Answerer }),
        Stage::OffererAdd => match at {
            Some(at) => match candidate_at(replies, at, k) {
                Some(candidate) => Some(Request::AddCandidate { on: Side::Offerer, candidate }),
                None => None,
            },
            None => None,
        },
        Stage::AnswererAdd => match candidate_at(replies, d, k) {
            Some(candidate) => Some(Request::AddCandidate { on: Side::Answerer, candidate }),
            None => None,
        },
        Stage::WaitBoth => Some(Request::WaitBothConnected),
        Stage::ReadIncoming => Some(Request::ReadIncoming { on: Side::Answerer }),
    }
}

/// Connect two peers that live side by side, over a data channel with `options` that the
/// offerer creates: from the replies so far to what comes next.
pub fn connect(style: Style, options: &ChannelOptions, replies: &[Reply]) -> (r: Progress)
    ensures
        r@ == progress(style, options@, replies_view(replies@)),
{
    let ghost h = replies_view(replies@);
    let mut i: usize = 0;
    loop
        invariant
            i <= replies@.len(),
            h == replies_view(replies@),
            smooth(style, h, i as int),
            progress(style, options@, h) == progress_from(style, options@, h, i as int),
        decreases replies@.len() - i,
    {
        match place(style, replies, i) {
            None => {
                return Progress::Ready(i);
            },
            Some((stage, k)) => {
                if i < replies.len() {
                    if let Some(problem) = find_problem(stage, &replies[i]) {
                        return Progress::Stuck(problem);
                    }
                    i = i + 1;
                } else {
                    match make_request(style, options, replies, stage, k) {
                        Some(request) => {
                            return Progress::Ask(request);
                        },
                        None => {
                            return Progress::Stuck(Problem::OutOfStep);
                        },
                    }
                }
            },
        }
    }
}

proof fn lemma_progress_at(style: Style, options: OptionsView, h: Seq<ReplyView>, i: int)
    requires
        0 <= i <= h.len(),
        smooth(style, h, i),
    ensures
        progress(style, options, h) == progress_from(style, options, h, i),
    decreases i,
{
    if i > 0 {
        assert forall|j: int|
            #![trigger step_at(style, h, j)]
            0 <= j < i - 1 && j < h.len() implies match step_at(style, h, j) {
            Some(step) => problem_of(step.0, h[j]) is None,
            None => false,
        } by {}
        lemma_progress_at(style, options, h, i - 1);
        assert(step_at(style, h, i - 1) is Some);
    }
}

/// The first problem decides: where every reply before the `i`-th lets the negotiation
/// go on and the `i`-th does not, that problem is what the negotiation ends in, whatever
/// is said afterwards.
pub proof fn law_first_problem_decides(
    style: Style,
    options: OptionsView,
    h: Seq<ReplyView>,
    i: int,
    step: (Stage, int),
    problem: ProblemView,
)
    requires
        0 <= i < h.len(),
        smooth(style, h, i),
        step_at(style, h, i) == Some(step),
        problem_of(step.0, h[i]) == Some(problem),
    ensures
        progress(style, options, h) == ProgressView::Stuck(problem),
{
    lemma_progress_at(style, options, h, i);
}

proof fn lemma_ready(style: Style, options: OptionsView, h: Seq<ReplyView>, i: int, n: nat)
    requires
        0 <= i <= h.len(),
        smooth(style, h, i),
        progress_from(style, options, h, i) == ProgressView::Ready(n),
    ensures
        i <= n <= h.len(),
        smooth(style, h, n as int),
        step_at(style, h, n as int) is None,
    decreases h.len() - i,
{
    if let Some(step) = step_at(style, h, i) {
        if i < h.len() {
            lemma_ready(style, options, h, i + 1, n);
        }
    }
}

/// The peers count as connected only after every step went well: both descriptions were
/// created and set, every gathered candidate of either side was handed over, both waits
/// ended well, and the answerer saw the channel. That takes as many replies as there are
/// steps.
pub proof fn law_connected_only_if_every_step_went_well(
    style: Style,
    options: OptionsView,
    h: Seq<ReplyView>,
    n: nat,
)
    requires
        progress(style, options, h) == ProgressView::Ready(n),
    ensures
        n <= h.len(),
        n == described_steps(style) + 4 + offerer_candidates(style, h).len() + answerer_candidates(
            style,
            h,
        ).len(),
        smooth(style, h, n as int),
        h[n - 2] matches ReplyView::Connected { offerer: Ok(_), answerer: Ok(_) },
        h[n - 1] matches ReplyView::Incoming(channels) && channels > 0,
{
    lemma_ready(style, options, h, 0, n);
    let total = described_steps(style) + 4 + offerer_candidates(style, h).len()
        + answerer_candidates(style, h).len();
    if n > total {
        assert(step_at(style, h, total) is None);
    }
    assert(step_at(style, h, n - 2) == Some((Stage::WaitBoth, 0int)));
    assert(step_at(style, h, n - 1) == Some((Stage::ReadIncoming, 0int)));
}

/// Every candidate of the offerer goes to the answerer and every one of the answerer to
/// the offerer, unchanged and in the order in which they were gathered.
pub proof fn law_candidates_go_to_the_other_side(
    style: Style,
    options: OptionsView,
    h: Seq<ReplyView>,
    k: int,
)
    ensures
        0 <= k < offerer_candidates(style, h).len() ==> {
            let at = described_steps(style) + 1 + k + (if style.trickle_at_once {
                0
            } else {
                1 + answerer_candidates(style, h).len()
            });
            &&& step_at(style, h, at) == Some((Stage::AnswererAdd, k))
            &&& request_for(style, options, h, (Stage::AnswererAdd, k)) == (
            RequestView::AddCandidate {
                on: Side::Answerer,
                candidate: offerer_candidates(style, h)[k],
            })
        },
        0 <= k < answerer_candidates(style, h).len() ==> {
            let at = described_steps(style) + 2 + k + (if style.trickle_at_once {
                offerer_candidates(style, h).len() as int
            } else {
                0
            });
            &&& step_at(style, h, at) == Some((Stage::OffererAdd, k))
            &&& request_for(style, options, h, (Stage::OffererAdd, k)) == (
            RequestView::AddCandidate {
                on: Side::Offerer,
                candidate: answerer_candidates(style, h)[k],
            })
        },
{
}

/// The labels tell the steps apart: a detail names one step and no other.
pub proof fn law_labels_tell_the_steps_apart(a: Stage, on: Side)
    ensures
        stage_label(a) == "create-data-channel"@ <==> a == Stage::CreateDataChannel,
        stage_label(a) == "create-offer"@ <==> a == Stage::CreateOffer,
        stage_label(a) == "offerer set-local"@ <==> a == Stage::OffererSetLocal,
        stage_label(a) == "answerer set-remote offer"@ <==> a == Stage::AnswererSetRemote,
        stage_label(a) == "create-answer"@ <==> a == Stage::CreateAnswer,
        stage_label(a) == "answerer set-local"@ <==> a == Stage::AnswererSetLocal,
        stage_label(a) == "offerer set-remote answer"@ <==> a == Stage::OffererSetRemote,
        stage_label(a) == "offerer local-ice-candidates"@ <==> a == Stage::OffererGather,
        stage_label(a) == "answerer local-ice-candidates"@ <==> a == Stage::AnswererGather,
        stage_label(a) == "offerer add-ice-candidate"@ <==> a == Stage::OffererAdd,
        stage_label(a) == "answerer add-ice-candidate"@ <==> a == Stage::AnswererAdd,
        stage_label(a) == "wait-connected"@ <==> a == Stage::WaitBoth,
        stage_label(a) == "incoming-data-channels"@ <==> a == Stage::ReadIncoming,
        wait_label(on) == "offerer wait-connected"@ <==> on == Side::Offerer,
        wait_label(on) == "answerer wait-connected"@ <==> on == Side::Answerer,
{
    reveal_strlit("create-data-channel");
    reveal_strlit("create-offer");
    reveal_strlit("offerer set-local");
    reveal_strlit("answerer set-remote offer");
    reveal_strlit("create-answer");
    reveal_strlit("answerer set-local");
    reveal_strlit("offerer set-remote answer");
    reveal_strlit("offerer local-ice-candidates");
    reveal_strlit("answerer local-ice-candidates");
    reveal_strlit("offerer add-ice-candidate");
    reveal_strlit("answerer add-ice-candidate");
    reveal_strlit("wait-connected");
    reveal_strlit("incoming-data-channels");
    reveal_strlit("offerer wait-connected");
    reveal_strlit("answerer wait-connected");
    assert("create-data-channel"@.len() == 19);
    assert("create-offer"@.len() == 12);
    assert("offerer set-local"@.len() == 17);
    assert("answerer set-remote offer"@.len() == 25);
    assert("create-answer"@.len() == 13);
    assert("answerer set-local"@.len() == 18);
    assert("offerer set-remote answer"@.len() == 25);
    assert("offerer local-ice-candidates"@.len() == 28);
    assert("answerer local-ice-candidates"@.len() == 29);
    assert("offerer add-ice-candidate"@.len() == 25);
    assert("answerer add-ice-candidate"@.len() == 26);
    assert("wait-connected"@.len() == 14);
    assert("incoming-data-channels"@.len() == 22);
    assert("answerer set-remote offer"@[0] == 'a');
    assert("offerer set-remote answer"@[8] == 's' && "offerer add-ice-candidate"@[8] == 'a');
    assert("offerer set-remote answer"@[0] == 'o' && "offerer add-ice-candidate"@[0] == 'o');
    assert("offerer wait-connected"@.len() != "answerer wait-connected"@.len());
}

/// The descriptions cross over: the offer that the offerer made is what the answerer is
/// given, and the answer that the answerer made is what the offerer is given; each side
/// sets its own as well where the style says so. The answer is asked for only once the
/// answerer has the offer.
pub proof fn law_descriptions_cross_over(
    style: Style,
    options: OptionsView,
    h: Seq<ReplyView>,
    offer: DescriptionView,
    answer: DescriptionView,
)
    requires
        h.len() >= 5,
        h[1] == ReplyView::Described(Ok(offer)),
        h[if style.set_local { 4 } else { 3 }] == ReplyView::Described(Ok(answer)),
    ensures
        ({
            let asked = |i: int| request_for(style, options, h, step_at(style, h, i)->0);
            &&& asked(0) == RequestView::CreateDataChannel { on: Side::Offerer, options }
            &&& asked(1) == RequestView::CreateOffer { on: Side::Offerer }
            &&& style.set_local ==> {
                &&& asked(2) == RequestView::SetLocal { on: Side::Offerer, description: offer }
                &&& asked(3) == RequestView::SetRemote { on: Side::Answerer, description: offer }
                &&& asked(4) == RequestView::CreateAnswer { on: Side::Answerer }
                &&& asked(5) == RequestView::SetLocal { on: Side::Answerer, description: answer }
                &&& asked(6) == RequestView::SetRemote { on: Side::Offerer, description: answer }
                &&& asked(7) == RequestView::LocalCandidates { on: Side::Offerer }
            }
            &&& !style.set_local ==> {
                &&& asked(2) == RequestView::SetRemote { on: Side::Answerer, description: offer }
                &&& asked(3) == RequestView::CreateAnswer { on: Side::Answerer }
                &&& asked(4) == RequestView::SetRemote { on: Side::Offerer, description: answer }
                &&& asked(5) == RequestView::LocalCandidates { on: Side::Offerer }
            }
        }),
{
}

/// Both sides gather: the offerer right after the descriptions, the answerer before any
/// of its candidates is handed over. Handed over at once, the offerer's candidates reach
/// the answerer before it gathers; otherwise both gather first.
pub proof fn law_both_sides_gather(style: Style, options: OptionsView, h: Seq<ReplyView>)
    ensures
        ({
            let d = if style.set_local {
                7int
            } else {
                5
            };
            let at = if style.trickle_at_once {
                d + 1 + offerer_candidates(style, h).len()
            } else {
                d + 1
            };
            &&& step_at(style, h, d) matches Some(step) && request_for(style, options, h, step)
                == (RequestView::LocalCandidates { on: Side::Offerer })
            &&& step_at(style, h, at) matches Some(step) && request_for(style, options, h, step)
                == (RequestView::LocalCandidates { on: Side::Answerer })
            &&& d < h.len() && h[d] is Gathered ==> h[d] == ReplyView::Gathered(
                offerer_candidates(style, h),
            )
            &&& at < h.len() && h[at] is Gathered ==> h[at] == ReplyView::Gathered(
                answerer_candidates(style, h),
            )
        }),
{
}

/// The last two steps are the wait for both sides and the look at the answerer's channels.
pub proof fn law_the_channel_is_looked_for_last(
    style: Style,
    options: OptionsView,
    h: Seq<ReplyView>,
)
    ensures
        ({
            let n = described_steps(style) + 2 + offerer_candidates(style, h).len()
                + answerer_candidates(style, h).len();
            &&& step_at(style, h, n) matches Some(step) && request_for(style, options, h, step)
                == RequestView::WaitBothConnected
            &&& step_at(style, h, n + 1) matches Some(step) && request_for(style, options, h, step)
                == (RequestView::ReadIncoming { on: Side::Answerer })
            &&& step_at(style, h, n + 2) is None
        }),
{
}

/// A negotiation whose replies all let it go on asks for its next step.
pub proof fn law_the_next_step_is_asked_for(
    style: Style,
    options: OptionsView,
    h: Seq<ReplyView>,
    step: (Stage, int),
)
    requires
        smooth(style, h, h.len() as int),
        step_at(style, h, h.len() as int) == Some(step),
    ensures
        progress(style, options, h) == ProgressView::Ask(request_for(style, options, h, step)),
{
    lemma_progress_at(style, options, h, h.len() as int);
}

/// A reply lets the negotiation go on exactly if it reports success of what was asked: a
/// description where one was to be created, candidates where they were to be gathered,
/// two good waits, at least one channel, and otherwise a call that ended well.
pub proof fn law_only_success_goes_on(stage: Stage, reply: ReplyView)
    ensures
        problem_of(stage, reply) is None <==> match stage {
            Stage::CreateOffer | Stage::CreateAnswer => reply matches ReplyView::Described(Ok(_)),
            Stage::OffererGather | Stage::AnswererGather => reply is Gathered,
            Stage::WaitBoth => reply matches ReplyView::Connected {
                offerer: Ok(_),
                answerer: Ok(_),
            },
            Stage::ReadIncoming => reply matches ReplyView::Incoming(n) && n > 0,
            _ => reply matches ReplyView::Done(Ok(_)),
        },
{
}

/// A problem says what went wrong: the error that the call ended with, at the step that
/// made it; the side whose wait failed, with its error, the offerer's before the
/// answerer's; or that there is no channel.
pub proof fn law_problems_say_what_went_wrong(stage: Stage, reply: ReplyView)
    ensures
        problem_of(stage, reply) matches Some(ProblemView::Failed { stage: at, error }) ==> at
            == stage && (reply == ReplyView::Done(Err(error)) || reply == ReplyView::Described(
            Err(error),
        )),
        problem_of(stage, reply) matches Some(ProblemView::NotConnected { on, error }) ==> (
        reply matches ReplyView::Connected { offerer, answerer } && match on {
            Side::Offerer => offerer == Err::<(), ErrorView>(error),
            Side::Answerer => offerer is Ok && answerer == Err::<(), ErrorView>(error),
        }),
        problem_of(stage, reply) matches Some(ProblemView::NoChannel) ==> stage == Stage::ReadIncoming
            && reply == ReplyView::Incoming(0),
        (stage == Stage::CreateOffer || stage == Stage::CreateAnswer) && (
        reply matches ReplyView::Described(Err(_))) ==> (problem_of(stage, reply) matches Some(
            ProblemView::Failed { .. },
        )),
        stage == Stage::ReadIncoming && reply is Incoming ==> !(problem_of(stage, reply) matches Some(
            ProblemView::OutOfStep,
        )),
        stage == Stage::WaitBoth && reply is Connected ==> !(problem_of(stage, reply) matches Some(
            ProblemView::OutOfStep,
        )),
{
}

} // verus!
