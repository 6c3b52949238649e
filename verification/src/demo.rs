//! The demos: an echo over two in-component peers, the tallies of what came back, and a
//! consumer that retries its connection.

use vstd::prelude::*;

use crate::error::{Error, ErrorView};
use crate::exchange::same_message;
use crate::negotiation::{
    connect, label_of, label_of_wait, progress, stage_label, wait_label, Problem, ProblemView,
    Progress, ProgressView, Stage, Style,
};
use crate::payload::{make_message, message};
use crate::script::{
    labelled, replies_view, same_error, ChannelOptions, Message, OptionsView, PayloadView, Reply,
    ReplyView, Request, RequestView, Side,
};
use crate::text::{
    concat3, concat4, contains, decimal, has_substring, lemma_has_substring, lossy_reading, lossy_text, number,
    parse_number, to_decimal,
};

verus! {

/// How far the connecting of two peers has come.
#[derive(Debug)]
pub enum Link {
    Ask(Request),
    Failed(Error),
    /// The peers are connected after so many replies.
    Ready(usize),
    OutOfStep,
}

/// The contents of a [`Link`].
pub enum LinkView {
    Ask(RequestView),
    Failed(ErrorView),
    Ready(nat),
    OutOfStep,
}

impl View for Link {
    type V = LinkView;

    open spec fn view(&self) -> LinkView {
        match self {
            Link::Ask(request) => LinkView::Ask(request@),
            Link::Failed(error) => LinkView::Failed(error@),
            Link::Ready(n) => LinkView::Ready(*n as nat),
            Link::OutOfStep => LinkView::OutOfStep,
        }
    }
}

// ----- the echo demo ------------------------------------------------------------------------------------

/// The options of the echo channel.
pub open spec fn echo_options() -> OptionsView {
    OptionsView { label: Some("echo"@), ordered: Some(true), max_retransmits: None }
}

/// How the echo demo connects its peers.
pub open spec fn echo_style() -> Style {
    Style { set_local: true, trickle_at_once: true }
}

/// How far the echo demo has come in connecting its peers: a failed call ends it with
/// the call's own error.
pub open spec fn pairing(h: Seq<ReplyView>) -> LinkView {
    match progress(echo_style(), echo_options(), h) {
        ProgressView::Ask(request) => LinkView::Ask(request),
        ProgressView::Ready(n) => LinkView::Ready(n),
        ProgressView::Stuck(ProblemView::Failed { error, .. }) => LinkView::Failed(error),
        ProgressView::Stuck(ProblemView::NotConnected { error, .. }) => LinkView::Failed(error),
        ProgressView::Stuck(ProblemView::NoChannel) => LinkView::Failed(
            ErrorView::Other("no incoming data channel"@),
        ),
        ProgressView::Stuck(ProblemView::OutOfStep) => LinkView::OutOfStep,
    }
}

/// Stand up the offerer and the in-component echo answerer: an SDP offer/answer exchange
/// plus trickled ICE.
pub fn connect_pair(replies: &[Reply]) -> (r: Link)
    ensures
        r@ == pairing(replies_view(replies@)),
{
    let style = Style { set_local: true, trickle_at_once: true };
    let options = ChannelOptions {
        label: Some("echo".to_string()),
        ordered: Some(true),
        max_retransmits: None,
    };
    match connect(style, &options, replies) {
        Progress::Ask(request) => Link::Ask(request),
        Progress::Ready(n) => Link::Ready(n),
        Progress::Stuck(Problem::Failed { stage: _, error }) => Link::Failed(error),
        Progress::Stuck(Problem::NotConnected { on: _, error }) => Link::Failed(error),
        Progress::Stuck(Problem::NoChannel) => Link::Failed(
            Error::Other("no incoming data channel".to_string()),
        ),
        Progress::Stuck(Problem::OutOfStep) => Link::OutOfStep,
    }
}

/// What one of the loops of the echo demo does next.
#[derive(Debug)]
pub enum EchoLoop {
    Ask(Request),
    Over(Result<(), Error>),
    OutOfStep,
}

/// The contents of an [`EchoLoop`].
pub enum EchoLoopView {
    Ask(RequestView),
    Over(Result<(), ErrorView>),
    OutOfStep,
}

impl View for EchoLoop {
    type V = EchoLoopView;

    open spec fn view(&self) -> EchoLoopView {
        match self {
            EchoLoop::Ask(request) => EchoLoopView::Ask(request@),
            EchoLoop::Over(Ok(())) => EchoLoopView::Over(Ok(())),
            EchoLoop::Over(Err(error)) => EchoLoopView::Over(Err(error@)),
            EchoLoop::OutOfStep => EchoLoopView::OutOfStep,
        }
    }
}

/// The sends of the echo demo from the `i`-th message on.
pub open spec fn echo_sends(count: u32, size: u32, h: Seq<ReplyView>, i: int) -> EchoLoopView
    decreases count - i,
{
    if i < 0 || i >= count {
        EchoLoopView::Over(Ok(()))
    } else if i >= h.len() {
        EchoLoopView::Ask(
            RequestView::Send {
                on: Side::Offerer,
                message: PayloadView::Binary(message(size as nat, i as u32)),
            },
        )
    } else {
        match h[i] {
            ReplyView::Done(Ok(())) => echo_sends(count, size, h, i + 1),
            ReplyView::Done(Err(error)) => EchoLoopView::Over(Err(error)),
            _ => EchoLoopView::OutOfStep,
        }
    }
}

/// Send `count` messages of `size` bytes on the near end; the first failed send ends it.
pub fn send_all(count: u32, size: u32, replies: &[Reply]) -> (r: EchoLoop)
    ensures
        r@ == echo_sends(count, size, replies_view(replies@), 0),
{
    let ghost h = replies_view(replies@);
    let mut i: u32 = 0;
    let mut at: usize = 0;
    while i < count
        invariant
            i <= count,
            at == i,
            at <= replies@.len(),
            h == replies_view(replies@),
            echo_sends(count, size, h, 0) == echo_sends(count, size, h, i as int),
        decreases count - i,
    {
        if at >= replies.len() {
            return EchoLoop::Ask(
                Request::Send {
                    on: Side::Offerer,
                    message: Message::Binary(make_message(size as usize, i)),
                },
            );
        }
        match &replies[at] {
            Reply::Done(Ok(())) => {
                i = i + 1;
                at = at + 1;
            },
            Reply::Done(Err(error)) => {
                return EchoLoop::Over(Err(same_error(error)));
            },
            _ => {
                return EchoLoop::OutOfStep;
            },
        }
    }
    EchoLoop::Over(Ok(()))
}

/// The echoes of the far end from the `i`-th message on, each of which takes a receive
/// and a send. A failed receive means that the channel closed, and ends the loop well; a
/// failed send ends it with its error.
pub open spec fn echo_echoes(count: u32, h: Seq<ReplyView>, i: int) -> EchoLoopView
    decreases count - i,
{
    if i < 0 || i >= count {
        EchoLoopView::Over(Ok(()))
    } else if 2 * i >= h.len() {
        EchoLoopView::Ask(RequestView::Receive { on: Side::Answerer })
    } else {
        match h[2 * i] {
            ReplyView::Received(Err(_)) => EchoLoopView::Over(Ok(())),
            ReplyView::Received(Ok(payload)) => if 2 * i + 1 >= h.len() {
                EchoLoopView::Ask(RequestView::Send { on: Side::Answerer, message: payload })
            } else {
                match h[2 * i + 1] {
                    ReplyView::Done(Ok(())) => echo_echoes(count, h, i + 1),
                    ReplyView::Done(Err(error)) => EchoLoopView::Over(Err(error)),
                    _ => EchoLoopView::OutOfStep,
                }
            },
            _ => EchoLoopView::OutOfStep,
        }
    }
}

/// Echo every message back from the far end, `count` at most.
pub fn echo_all(count: u32, replies: &[Reply]) -> (r: EchoLoop)
    ensures
        r@ == echo_echoes(count, replies_view(replies@), 0),
{
    let ghost h = replies_view(replies@);
    let mut i: u32 = 0;
    let mut at: usize = 0;
    while i < count
        invariant
            i <= count,
            at == 2 * i,
            at <= replies@.len(),
            h == replies_view(replies@),
            echo_echoes(count, h, 0) == echo_echoes(count, h, i as int),
        decreases count - i,
    {
        if at >= replies.len() {
            return EchoLoop::Ask(Request::Receive { on: Side::Answerer });
        }
        let payload = match &replies[at] {
            Reply::Received(Err(_)) => {
                return EchoLoop::Over(Ok(()));
            },
            Reply::Received(Ok(payload)) => payload,
            _ => {
                return EchoLoop::OutOfStep;
            },
        };
        if replies.len() - at == 1 {
            return EchoLoop::Ask(
                Request::Send { on: Side::Answerer, message: same_message(payload) },
            );
        }
        match &replies[at + 1] {
            Reply::Done(Ok(())) => {
                i = i + 1;
                at = at + 2;
            },
            Reply::Done(Err(error)) => {
                return EchoLoop::Over(Err(same_error(error)));
            },
            _ => {
                return EchoLoop::OutOfStep;
            },
        }
    }
    EchoLoop::Over(Ok(()))
}

/// Every message that arrives at the far end is sent back as it is: the request that
/// follows the `i`-th receive is the send of what it brought.
pub proof fn law_echo_returns_what_arrives(count: u32, h: Seq<ReplyView>, payload: PayloadView)
    requires
        h.len() % 2 == 0,
        h.len() < 2 * count,
        forall|j: int| 0 <= j < h.len() && j % 2 == 0 ==> (#[trigger] h[j]) matches ReplyView::Received(
            Ok(_),
        ),
        forall|j: int| 0 <= j < h.len() && j % 2 == 1 ==> (#[trigger] h[j]) matches ReplyView::Done(
            Ok(_),
        ),
    ensures
        echo_echoes(count, h.push(ReplyView::Received(Ok(payload))), 0) == EchoLoopView::Ask(
            RequestView::Send { on: Side::Answerer, message: payload },
        ),
{
    lemma_echo_walk(count, h, payload, 0);
}

proof fn lemma_echo_walk(count: u32, h: Seq<ReplyView>, payload: PayloadView, i: int)
    requires
        h.len() % 2 == 0,
        h.len() < 2 * count,
        0 <= 2 * i <= h.len(),
        forall|j: int| 0 <= j < h.len() && j % 2 == 0 ==> (#[trigger] h[j]) matches ReplyView::Received(
            Ok(_),
        ),
        forall|j: int| 0 <= j < h.len() && j % 2 == 1 ==> (#[trigger] h[j]) matches ReplyView::Done(
            Ok(_),
        ),
    ensures
        echo_echoes(count, h.push(ReplyView::Received(Ok(payload))), i) == EchoLoopView::Ask(
            RequestView::Send { on: Side::Answerer, message: payload },
        ),
    decreases h.len() - 2 * i,
{
    let all = h.push(ReplyView::Received(Ok(payload)));
    if 2 * i < h.len() {
        assert(all[2 * i] == h[2 * i]);
        assert(all[2 * i + 1] == h[2 * i + 1]);
        lemma_echo_walk(count, h, payload, i + 1);
    }
}

// ----- tallies ----------------------------------------------------------------------------------------------

/// What a demo counted.
#[derive(Debug, Clone, Copy, PartialEq, Eq, Structural)]
pub struct Tally {
    pub messages: u32,
    pub total: u64,
}

/// A batch read from a stream of messages: the length of each, and whether the stream has
/// ended.
#[derive(Debug, Clone)]
pub struct StreamBatch {
    pub lengths: Vec<usize>,
    pub ended: bool,
}

/// The contents of a [`StreamBatch`].
#[verifier::ext_equal]
pub struct BatchView {
    pub lengths: Seq<usize>,
    pub ended: bool,
}

impl View for StreamBatch {
    type V = BatchView;

    open spec fn view(&self) -> BatchView {
        BatchView { lengths: self.lengths@, ended: self.ended }
    }
}

/// The contents of a list of batches.
pub open spec fn batches_view(list: Seq<StreamBatch>) -> Seq<BatchView> {
    list.map_values(|b: StreamBatch| b@)
}

/// The sum of some lengths.
pub open spec fn total_length(lengths: Seq<usize>) -> nat
    decreases lengths.len(),
{
    if lengths.len() == 0 {
        0
    } else {
        total_length(lengths.drop_last()) + lengths.last() as nat
    }
}

/// How many messages some batches hold.
pub open spec fn batch_messages(batches: Seq<BatchView>) -> nat
    decreases batches.len(),
{
    if batches.len() == 0 {
        0
    } else {
        batch_messages(batches.drop_last()) + batches.last().lengths.len()
    }
}

/// How many bytes some batches hold.
pub open spec fn batch_bytes(batches: Seq<BatchView>) -> nat
    decreases batches.len(),
{
    if batches.len() == 0 {
        0
    } else {
        batch_bytes(batches.drop_last()) + total_length(batches.last().lengths)
    }
}

/// How many of the batches are read: no further one once `count` messages have come, or
/// behind the one that ends the stream.
pub open spec fn read_batches(count: u32, batches: Seq<BatchView>) -> nat
    decreases batches.len(),
{
    if batches.len() == 0 {
        0
    } else {
        let before = batches.drop_last();
        let read = read_batches(count, before);
        if read < before.len() || batch_messages(before) >= count || (before.len() > 0
            && before.last().ended) {
            read
        } else {
            batches.len()
        }
    }
}

/// What a demo has counted, and whether it reads on.
pub struct ReadBack {
    pub tally: Tally,
    pub more: bool,
}

proof fn lemma_batches_grow(batches: Seq<BatchView>, n: int)
    requires
        0 <= n <= batches.len(),
    ensures
        batch_messages(batches.take(n)) <= batch_messages(batches),
        batch_bytes(batches.take(n)) <= batch_bytes(batches),
    decreases batches.len() - n,
{
    if n < batches.len() {
        lemma_batches_grow(batches, n + 1);
        assert(batches.take(n + 1).drop_last() =~= batches.take(n));
    } else {
        assert(batches.take(n) =~= batches);
    }
}

proof fn lemma_lengths_grow(lengths: Seq<usize>, n: int)
    requires
        0 <= n <= lengths.len(),
    ensures
        total_length(lengths.take(n)) <= total_length(lengths),
    decreases lengths.len() - n,
{
    if n < lengths.len() {
        lemma_lengths_grow(lengths, n + 1);
        assert(lengths.take(n + 1).drop_last() =~= lengths.take(n));
    } else {
        assert(lengths.take(n) =~= lengths);
    }
}

fn sum_lengths(lengths: &Vec<usize>) -> (r: u64)
    requires
        total_length(lengths@) <= u64::MAX,
    ensures
        r == total_length(lengths@),
{
    let mut sum: u64 = 0;
    let mut i: usize = 0;
    assert(lengths@.take(0) =~= seq![]);
    while i < lengths.len()
        invariant
            i <= lengths@.len(),
            sum == total_length(lengths@.take(i as int)),
            total_length(lengths@) <= u64::MAX,
        decreases lengths@.len() - i,
    {
        proof {
            lemma_lengths_grow(lengths@, i + 1);
            assert(lengths@.take(i + 1).drop_last() =~= lengths@.take(i as int));
        }
        sum = sum + lengths[i] as u64;
        i = i + 1;
    }
    assert(lengths@.take(i as int) =~= lengths@);
    sum
}

/// Whether a further batch is read after these.
pub open spec fn reads_on(count: u32, batches: Seq<BatchView>) -> bool {
    batch_messages(batches) < count && !(batches.len() > 0 && batches.last().ended)
}

proof fn lemma_read_all(count: u32, batches: Seq<BatchView>, n: int)
    requires
        0 <= n <= batches.len(),
        read_batches(count, batches.take(n)) == n,
        n < batches.len() ==> !reads_on(count, batches.take(n)),
    ensures
        read_batches(count, batches) == n,
    decreases batches.len() - n,
{
    if n < batches.len() {
        lemma_stays_unread(count, batches, n, batches.len() as int);
        assert(batches.take(batches.len() as int) =~= batches);
    } else {
        assert(batches.take(n) =~= batches);
    }
}

proof fn lemma_stays_unread(count: u32, batches: Seq<BatchView>, n: int, k: int)
    requires
        0 <= n < k <= batches.len(),
        read_batches(count, batches.take(n)) == n,
        !reads_on(count, batches.take(n)),
    ensures
        read_batches(count, batches.take(k)) == n,
    decreases k,
{
    assert(batches.take(k).drop_last() =~= batches.take(k - 1));
    if k > n + 1 {
        lemma_stays_unread(count, batches, n, k - 1);
    }
}

/// Count the messages and bytes of what comes back, until `count` messages have come or
/// the stream has ended.
pub fn read_back(count: u32, batches: &[StreamBatch]) -> (r: ReadBack)
    requires
        batch_messages(batches_view(batches@)) <= u32::MAX,
        batch_bytes(batches_view(batches@)) <= u64::MAX,
    ensures
        ({
            let all = batches_view(batches@);
            let read = all.take(read_batches(count, all) as int);
            &&& r.tally.messages == batch_messages(read)
            &&& r.tally.total == batch_bytes(read)
            &&& r.more == reads_on(count, read)
        }),
{
    let ghost all = batches_view(batches@);
    let mut tally = Tally { messages: 0, total: 0 };
    let mut ended = false;
    let mut i: usize = 0;
    assert(all.take(0) =~= seq![]);
    while i < batches.len() && tally.messages < count && !ended
        invariant
            i <= batches@.len(),
            all == batches_view(batches@),
            batch_messages(all) <= u32::MAX,
            batch_bytes(all) <= u64::MAX,
            tally.messages == batch_messages(all.take(i as int)),
            tally.total == batch_bytes(all.take(i as int)),
            ended == (i > 0 && all[i - 1].ended),
            read_batches(count, all.take(i as int)) == i,
        decreases batches@.len() - i,
    {
        proof {
            lemma_batches_grow(all, i + 1);
            assert(all.take(i + 1).drop_last() =~= all.take(i as int));
            assert(all.take(i + 1).last() == all[i as int]);
            if i > 0 {
                assert(all.take(i as int).last() == all[i - 1]);
            }
        }
        tally.total = tally.total + sum_lengths(&batches[i].lengths);
        tally.messages = tally.messages + batches[i].lengths.len() as u32;
        ended = batches[i].ended;
        i = i + 1;
    }
    proof {
        if i > 0 {
            assert(all.take(i as int).last() == all[i - 1]);
        }
        lemma_read_all(count, all, i as int);
    }
    ReadBack { tally, more: tally.messages < count && !ended }
}

/// Reading stops at the right batch: before the last one that was read, fewer than
/// `count` messages had come and the stream had not ended.
pub proof fn law_reading_stops_in_time(count: u32, batches: Seq<BatchView>)
    ensures
        read_batches(count, batches) <= batches.len(),
        read_batches(count, batches) < batches.len() ==> !reads_on(
            count,
            batches.take(read_batches(count, batches) as int),
        ),
    decreases batches.len(),
{
    if batches.len() > 0 {
        let before = batches.drop_last();
        law_reading_stops_in_time(count, before);
        let n = read_batches(count, before) as int;
        assert(before.take(before.len() as int) =~= before);
        if read_batches(count, batches) < batches.len() {
            assert(batches.take(n) =~= before.take(n));
        }
    }
}

/// How many messages of a batch are echoed: up to and including the first whose echo was
/// not taken.
pub open spec fn echoed_count(written: Seq<bool>, n: nat) -> nat
    decreases written.len(),
{
    if written.len() == 0 || n == 0 {
        n
    } else if !written[0] {
        1
    } else {
        1 + echoed_count(written.skip(1), (n - 1) as nat)
    }
}

/// How many messages of a batch of `n` are echoed, given of each echo whether all of it
/// was taken.
pub fn echo_batch(written: &[bool], n: usize) -> (r: usize)
    ensures
        r == echoed_count(written@, n as nat),
        r <= n,
{
    let mut i: usize = 0;
    assert(written@.skip(0) =~= written@);
    while i < n && i < written.len()
        invariant
            i <= n,
            i <= written@.len(),
            echoed_count(written@, n as nat) == i + echoed_count(
                written@.skip(i as int),
                (n - i) as nat,
            ),
        decreases n - i,
    {
        assert(written@.skip(i as int)[0] == written@[i as int]);
        assert(written@.skip(i as int).skip(1) =~= written@.skip(i + 1));
        if !written[i] {
            return i + 1;
        }
        i = i + 1;
    }
    n
}

// ----- what a demo reports ---------------------------------------------------------------------------------

/// What the echo demo reports.
#[derive(Debug, Clone, Copy, PartialEq, Eq, Structural)]
pub struct DemoStats {
    pub messages_sent: u32,
    pub messages_received: u32,
    pub bytes_echoed: u64,
}

/// What the signaling demo reports.
#[derive(Debug, Clone, Copy, PartialEq, Eq, Structural)]
pub struct SignalingStats {
    pub connected: bool,
    pub messages_sent: u32,
    pub messages_received: u32,
    pub bytes_echoed: u64,
}

/// The outcome of the echo demo: the error of the sending loop, else that of the echoing
/// loop, else what was counted.
pub fn echo_stats(sent: Result<(), Error>, echoed: Result<(), Error>, count: u32, tally: Tally) -> (r:
    Result<DemoStats, Error>)
    ensures
        match (sent, echoed, r) {
            (Err(error), _, Err(e)) => e == error,
            (Ok(()), Err(error), Err(e)) => e == error,
            (Ok(()), Ok(()), Ok(stats)) => stats == (DemoStats {
                messages_sent: count,
                messages_received: tally.messages,
                bytes_echoed: tally.total,
            }),
            _ => false,
        },
{
    match sent {
        Err(error) => Err(error),
        Ok(()) => match echoed {
            Err(error) => Err(error),
            Ok(()) => Ok(
                DemoStats {
                    messages_sent: count,
                    messages_received: tally.messages,
                    bytes_echoed: tally.total,
                },
            ),
        },
    }
}

/// The outcome of the signaling demo for one role: the offerer sent `count` messages, the
/// answerer as many as it echoed.
pub fn signaling_stats(role: Side, sent: Result<(), Error>, count: u32, tally: Tally) -> (r: Result<
    SignalingStats,
    Error,
>)
    ensures
        match (sent, r) {
            (Err(error), Err(e)) => e == error,
            (Ok(()), Ok(stats)) => stats == (SignalingStats {
                connected: true,
                messages_sent: match role {
                    Side::Offerer => count,
                    Side::Answerer => tally.messages,
                },
                messages_received: tally.messages,
                bytes_echoed: tally.total,
            }),
            _ => false,
        },
{
    match sent {
        Err(error) => Err(error),
        Ok(()) => Ok(
            SignalingStats {
                connected: true,
                messages_sent: match role {
                    Side::Offerer => count,
                    Side::Answerer => tally.messages,
                },
                messages_received: tally.messages,
                bytes_echoed: tally.total,
            },
        ),
    }
}

/// Whether every message of a demo came back; else the message to fail with.
pub fn check_stats(stats: &DemoStats, message_count: u32) -> (r: Result<(), String>)
    ensures
        match r {
            Ok(()) => stats.messages_received == message_count,
            Err(text) => stats.messages_received != message_count && text@ == "expected "@
                + decimal(message_count as nat) + " messages, got "@ + decimal(
                stats.messages_received as nat,
            ),
        },
{
    if stats.messages_received == message_count {
        Ok(())
    } else {
        Err(
            concat4(
                "expected ",
                to_decimal(message_count as u64).as_str(),
                " messages, got ",
                to_decimal(stats.messages_received as u64).as_str(),
            ),
        )
    }
}

/// How many messages a demo sends unless told otherwise.
pub const DEFAULT_MESSAGE_COUNT: u32 = 1000;

/// How large a demo's messages are unless told otherwise.
pub const DEFAULT_MESSAGE_SIZE: u32 = 4096;

/// A numeric argument: what is missing or no number leaves the default.
pub fn numeric_arg(arg: Option<&str>, default: u32) -> (r: u32)
    ensures
        r == (match arg {
            Some(text) => match number(text@, u32::MAX as nat) {
                Ok(n) => n as u32,
                Err(_) => default,
            },
            None => default,
        }),
{
    match arg {
        Some(text) => match parse_number(text, u32::MAX as u64) {
            Ok(n) => n as u32,
            Err(_) => default,
        },
        None => default,
    }
}

// ----- the consumer ------------------------------------------------------------------------------------------

/// The label of the consumer's data channel.
pub const CONSUMER_LABEL: &'static str = "webrtc-consumer-demo";

/// How the consumer connects its peers.
pub open spec fn consumer_style() -> Style {
    Style { set_local: false, trickle_at_once: false }
}

/// Stand up an offerer and an answerer, exchange their signaling directly, and connect.
pub fn connect_once(replies: &[Reply]) -> (r: Progress)
    ensures
        r@ == progress(consumer_style(), labelled(CONSUMER_LABEL@), replies_view(replies@)),
{
    let style = Style { set_local: false, trickle_at_once: false };
    let options = ChannelOptions {
        label: Some(CONSUMER_LABEL.to_string()),
        ordered: None,
        max_retransmits: None,
    };
    connect(style, &options, replies)
}

/// The message of a failed connection attempt.
pub open spec fn attempt_failure(problem: ProblemView, shown: Seq<char>) -> Seq<char> {
    match problem {
        ProblemView::Failed { stage, .. } => stage_label(stage) + ": "@ + shown,
        ProblemView::NotConnected { on, .. } => wait_label(on) + ": "@ + shown,
        _ => "no incoming data channel"@,
    }
}

/// The message of a failed connection attempt, whose error reads `shown`.
pub fn describe_attempt(problem: &Problem, shown: &str) -> (r: String)
    ensures
        r@ == attempt_failure(problem@, shown@),
{
    match problem {
        Problem::Failed { stage, error: _ } => concat3(label_of(*stage), ": ", shown),
        Problem::NotConnected { on, error: _ } => concat3(label_of_wait(*on), ": ", shown),
        _ => "no incoming data channel".to_string(),
    }
}

/// What a message that the consumer receives reads as.
pub open spec fn received_text(message: PayloadView) -> Seq<char> {
    match message {
        PayloadView::Text(text) => text,
        PayloadView::Binary(data) => lossy_reading(data),
    }
}

/// What a message that the consumer receives reads as.
pub fn read_message(message: &Message) -> (r: String)
    ensures
        r@ == received_text(message@),
{
    match message {
        Message::Text(text) => text.clone(),
        Message::Binary(data) => lossy_text(data.as_slice()),
    }
}

/// How many connection attempts the consumer makes before giving up.
pub const MAX_ATTEMPTS: u32 = 5;

/// A failure that is tried again: the wait for the connection timed out.
pub open spec fn timed_out(text: Seq<char>) -> bool {
    has_substring(text, "wait-connected"@) && has_substring(text, "TimedOut"@)
}

/// Whether a failure is a `wait-connected` timeout (the only retryable failure).
pub fn is_timeout(text: &str) -> (r: bool)
    ensures
        r == timed_out(text@),
{
    contains(text, "wait-connected") && contains(text, "TimedOut")
}

/// What the consumer does after an attempt.
#[derive(Debug)]
pub enum Retry {
    /// Tell the user, and try again with fresh peers.
    Again(String),
    /// Report the failure.
    GiveUp,
}

/// Decide what to do about the failure of the `attempt`-th attempt.
pub fn after_failure(attempt: u32, failure: &str) -> (r: Retry)
    ensures
        match r {
            Retry::Again(notice) => {
                &&& timed_out(failure@) && attempt < MAX_ATTEMPTS
                &&& notice@ == "attempt "@ + decimal(attempt as nat)
                    + " timed out before connecting; retrying…\n"@
            },
            Retry::GiveUp => !(timed_out(failure@) && attempt < MAX_ATTEMPTS),
        },
{
    if is_timeout(failure) && attempt < MAX_ATTEMPTS {
        Retry::Again(
            concat3(
                "attempt ",
                to_decimal(attempt as u64).as_str(),
                " timed out before connecting; retrying…\n",
            ),
        )
    } else {
        Retry::GiveUp
    }
}

// ----- laws ---------------------------------------------------------------------------------------------------

/// The echo demo connects over an ordered, reliable channel labelled `echo`, setting both
/// descriptions and handing candidates over as they come.
pub proof fn law_what_the_echo_demo_opens(h: Seq<ReplyView>)
    ensures
        pairing(seq![]) == LinkView::Ask(
            RequestView::CreateDataChannel {
                on: Side::Offerer,
                options: OptionsView {
                    label: Some("echo"@),
                    ordered: Some(true),
                    max_retransmits: None,
                },
            },
        ),
        pairing(h) is Ready <==> progress(
            Style { set_local: true, trickle_at_once: true },
            echo_options(),
            h,
        ) is Ready,
{
}

/// The demo's connecting fails with the error that the failed call or wait ended with, and
/// a missing channel is an error of its own.
pub proof fn law_pairing_fails_with_the_error(h: Seq<ReplyView>)
    ensures
        progress(echo_style(), echo_options(), h) matches ProgressView::Stuck(problem) ==> {
            &&& problem matches ProblemView::Failed { error, .. } ==> pairing(h) == LinkView::Failed(
                error,
            )
            &&& problem matches ProblemView::NotConnected { error, .. } ==> pairing(h)
                == LinkView::Failed(error)
            &&& problem is NoChannel ==> pairing(h) == LinkView::Failed(
                ErrorView::Other("no incoming data channel"@),
            )
            &&& problem is OutOfStep ==> pairing(h) is OutOfStep
        },
        progress(echo_style(), echo_options(), h) matches ProgressView::Ask(request) ==> pairing(h)
            == LinkView::Ask(request),
{
}

proof fn lemma_sends_go_on(count: u32, size: u32, h: Seq<ReplyView>, i: int, k: int)
    requires
        0 <= i <= k <= h.len(),
        k <= count,
        forall|j: int| 0 <= j < k ==> (#[trigger] h[j]) == ReplyView::Done(Ok(())),
    ensures
        echo_sends(count, size, h, i) == echo_sends(count, size, h, k),
    decreases k - i,
{
    if i < k {
        assert(h[i] == ReplyView::Done(Ok(())));
        lemma_sends_go_on(count, size, h, i + 1, k);
    }
}

/// The near end sends its messages one after the other, each with its own number, and is
/// through after as many as it was told to send; a send that fails ends it with its error.
pub proof fn law_messages_are_sent_by_number(count: u32, size: u32, h: Seq<ReplyView>, k: int)
    requires
        0 <= k <= h.len(),
        k <= count,
        forall|j: int| 0 <= j < k ==> (#[trigger] h[j]) == ReplyView::Done(Ok(())),
    ensures
        k == h.len() && k < count ==> echo_sends(count, size, h, 0) == EchoLoopView::Ask(
            RequestView::Send {
                on: Side::Offerer,
                message: PayloadView::Binary(message(size as nat, k as u32)),
            },
        ),
        k == count ==> echo_sends(count, size, h, 0) == EchoLoopView::Over(Ok(())),
        k < h.len() && k < count ==> (h[k] matches ReplyView::Done(Err(error)) ==> echo_sends(
            count,
            size,
            h,
            0,
        ) == EchoLoopView::Over(Err(error))),
{
    lemma_sends_go_on(count, size, h, 0, k);
}

/// The far end waits for a message before it sends any; a channel that closes ends it well,
/// an echo that is not taken ends it with its error.
pub proof fn law_the_far_end_waits_first(count: u32, h: Seq<ReplyView>, error: ErrorView)
    requires
        count > 0,
    ensures
        h.len() == 0 ==> echo_echoes(count, h, 0) == EchoLoopView::Ask(
            RequestView::Receive { on: Side::Answerer },
        ),
        h.len() > 0 && h[0] == ReplyView::Received(Err(error)) ==> echo_echoes(count, h, 0)
            == EchoLoopView::Over(Ok(())),
        h.len() > 1 && (h[0] matches ReplyView::Received(Ok(_))) && h[1] == ReplyView::Done(
            Err(error),
        ) ==> echo_echoes(count, h, 0) == EchoLoopView::Over(Err(error)),
        h.len() == 2 && (h[0] matches ReplyView::Received(Ok(_))) && h[1] == ReplyView::Done(Ok(()))
            ==> echo_echoes(count, h, 0) == (if count == 1 {
            EchoLoopView::Over(Ok(()))
        } else {
            EchoLoopView::Ask(RequestView::Receive { on: Side::Answerer })
        }),
        echo_echoes(0, h, 0) == EchoLoopView::Over(Ok(())),
{
    reveal_with_fuel(echo_echoes, 2);
}

/// What is counted adds up: one batch more counts its messages and its bytes, and one
/// message more its length; nothing counts as nothing.
pub proof fn law_tallies_add_up(batches: Seq<BatchView>, batch: BatchView, length: usize)
    ensures
        batch_messages(batches.push(batch)) == batch_messages(batches) + batch.lengths.len(),
        batch_bytes(batches.push(batch)) == batch_bytes(batches) + total_length(batch.lengths),
        total_length(batch.lengths.push(length)) == total_length(batch.lengths) + length,
        batch_messages(seq![]) == 0,
        batch_bytes(seq![]) == 0,
        total_length(seq![]) == 0,
{
    assert(batches.push(batch).drop_last() =~= batches);
    assert(batch.lengths.push(length).drop_last() =~= batch.lengths);
}

/// No batch is read in vain: before each batch that was read, fewer messages than wanted
/// had come and the stream had not ended.
pub proof fn law_batches_are_read_while_wanted(count: u32, batches: Seq<BatchView>, n: int)
    requires
        0 <= n < read_batches(count, batches),
    ensures
        batch_messages(batches.take(n)) < count,
        n > 0 ==> !batches[n - 1].ended,
    decreases batches.len(),
{
    if batches.len() > 0 {
        let before = batches.drop_last();
        law_reading_stops_in_time(count, before);
        if n < read_batches(count, before) {
            law_batches_are_read_while_wanted(count, before, n);
            assert(before.take(n) =~= batches.take(n));
        } else {
            assert(before =~= batches.take(n));
        }
    }
}

/// A batch is echoed up to and including the first message whose echo was not taken, and
/// whole if every echo was.
pub proof fn law_echoes_stop_at_the_first_refused(written: Seq<bool>, n: nat, k: int)
    requires
        0 <= k,
        forall|j: int| 0 <= j < k && j < written.len() ==> #[trigger] written[j],
    ensures
        k < written.len() && k < n && !written[k] ==> echoed_count(written, n) == k + 1,
        k >= n || k >= written.len() ==> echoed_count(written, n) == n,
    decreases written.len(),
{
    if written.len() > 0 && n > 0 && k > 0 {
        let rest = written.skip(1);
        assert forall|j: int| 0 <= j < k - 1 && j < rest.len() implies #[trigger] rest[j] by {
            assert(written[j + 1]);
        }
        assert(written[0]);
        law_echoes_stop_at_the_first_refused(rest, (n - 1) as nat, k - 1);
        if k < written.len() {
            assert(rest[k - 1] == written[k]);
        }
    }
}

/// Unless told otherwise a demo sends a thousand messages of four kibibytes, and the
/// consumer tries five times.
pub proof fn law_what_demos_default_to()
    ensures
        DEFAULT_MESSAGE_COUNT == 1000,
        DEFAULT_MESSAGE_SIZE == 4096,
        MAX_ATTEMPTS == 5,
        CONSUMER_LABEL@ == "webrtc-consumer-demo"@,
        !consumer_style().set_local,
        !consumer_style().trickle_at_once,
{
}

/// A failed attempt of the consumer names the step and the error; a wait for the connection
/// that timed out is tried again, on whichever side, and nothing is that names no wait or
/// no timeout.
pub proof fn law_only_stalled_waits_are_tried_again(
    on: Side,
    stage: Stage,
    error: ErrorView,
    text: Seq<char>,
    rest: Seq<char>,
)
    ensures
        attempt_failure(ProblemView::NotConnected { on, error }, text) == wait_label(on) + ": "@
            + text,
        attempt_failure(ProblemView::Failed { stage, error }, text) == stage_label(stage) + ": "@
            + text,
        attempt_failure(ProblemView::NoChannel, text) == "no incoming data channel"@,
        timed_out(
            attempt_failure(ProblemView::NotConnected { on, error }, "TimedOut"@ + rest),
        ),
        timed_out(text) <==> has_substring(text, "wait-connected"@) && has_substring(
            text,
            "TimedOut"@,
        ),
{
    reveal_strlit("wait-connected");
    reveal_strlit("offerer wait-connected");
    reveal_strlit("answerer wait-connected");
    let wait = "wait-connected"@;
    let timeout = "TimedOut"@;
    let whole = wait_label(on);
    let cut = whole.len() - 14;
    assert(whole =~= whole.take(cut) + wait);
    let told = attempt_failure(ProblemView::NotConnected { on, error }, timeout + rest);
    assert(told =~= whole.take(cut) + wait + (": "@ + timeout + rest));
    lemma_has_substring(whole.take(cut), wait, ": "@ + timeout + rest);
    assert(told =~= (whole + ": "@) + timeout + rest);
    lemma_has_substring(whole + ": "@, timeout, rest);
}

/// The consumer reads a text as it is, and bytes as the text they spell.
pub proof fn law_received_texts_are_kept(text: Seq<char>, data: Seq<u8>)
    ensures
        received_text(PayloadView::Text(text)) == text,
        received_text(PayloadView::Binary(data)) == lossy_reading(data),
{
}

} // verus!
