//! Sequences of indexed payloads over a data channel.

use vstd::prelude::*;
use vstd::slice::slice_to_vec;

use crate::payload::{byte_lists, make_payload, payload, sent_payloads};
use crate::script::{
    fail, failure, replies_view, Message, PayloadView, Reply, ReplyView, Request, RequestView,
    Side,
};

verus! {

/// How far the sending of a sequence has come.
#[derive(Debug)]
pub enum Sending {
    Ask(Request),
    /// All of it was sent; so many replies were heard by then.
    Sent(usize),
    Fail(String),
    OutOfStep,
}

/// The contents of a [`Sending`].
pub enum SendingView {
    Ask(RequestView),
    Sent(nat),
    Fail(Seq<char>),
    OutOfStep,
}

impl View for Sending {
    type V = SendingView;

    open spec fn view(&self) -> SendingView {
        match self {
            Sending::Ask(request) => SendingView::Ask(request@),
            Sending::Sent(n) => SendingView::Sent(*n as nat),
            Sending::Fail(detail) => SendingView::Fail(detail@),
            Sending::OutOfStep => SendingView::OutOfStep,
        }
    }
}

/// The sending of `count` indexed payloads from the one with `index` on, heard of from
/// the `start`-th reply on. The first send that fails ends it.
pub open spec fn sending_from(
    on: Side,
    count: u32,
    size: u32,
    t: Seq<ReplyView>,
    start: int,
    index: int,
) -> SendingView
    decreases count - index,
{
    if index < 0 || index >= count {
        SendingView::Sent((start + index) as nat)
    } else if start + index >= t.len() {
        SendingView::Ask(
            RequestView::Send { on, message: PayloadView::Binary(payload(index as u32, size)) },
        )
    } else {
        match t[start + index] {
            ReplyView::Done(Ok(())) => sending_from(on, count, size, t, start, index + 1),
            ReplyView::Done(Err(error)) => SendingView::Fail(failure("send"@, error)),
            _ => SendingView::OutOfStep,
        }
    }
}

/// Send `count` indexed, checksummable payloads of `size` bytes each.
pub fn send_sequence(on: Side, count: u32, size: u32, replies: &[Reply], start: usize) -> (r: Sending)
    requires
        start <= replies@.len(),
    ensures
        r@ == sending_from(on, count, size, replies_view(replies@), start as int, 0),
        r matches Sending::Sent(n) ==> start <= n <= replies@.len(),
{
    let ghost t = replies_view(replies@);
    let mut at: usize = start;
    let mut index: u32 = 0;
    while index < count
        invariant
            index <= count,
            at == start + index,
            at <= replies@.len(),
            t == replies_view(replies@),
            sending_from(on, count, size, t, start as int, 0) == sending_from(
                on,
                count,
                size,
                t,
                start as int,
                index as int,
            ),
        decreases count - index,
    {
        if at >= replies.len() {
            return Sending::Ask(
                Request::Send { on, message: Message::Binary(make_payload(index, size)) },
            );
        }
        match &replies[at] {
            Reply::Done(Ok(())) => {
                at = at + 1;
                index = index + 1;
            },
            Reply::Done(Err(error)) => {
                return Sending::Fail(fail("send", error));
            },
            _ => {
                return Sending::OutOfStep;
            },
        }
    }
    Sending::Sent(at)
}

/// How far the receiving of a sequence has come.
#[derive(Debug)]
pub enum Receiving {
    Ask(Request),
    /// All of it was received; so many replies were heard by then.
    Received { payloads: Vec<Vec<u8>>, heard: usize },
    Fail(String),
    OutOfStep,
}

/// The contents of a [`Receiving`].
#[verifier::ext_equal]
pub enum ReceivingView {
    Ask(RequestView),
    Received { payloads: Seq<Seq<u8>>, heard: nat },
    Fail(Seq<char>),
    OutOfStep,
}

impl View for Receiving {
    type V = ReceivingView;

    open spec fn view(&self) -> ReceivingView {
        match self {
            Receiving::Ask(request) => ReceivingView::Ask(request@),
            Receiving::Received { payloads, heard } => ReceivingView::Received {
                payloads: byte_lists(payloads@),
                heard: *heard as nat,
            },
            Receiving::Fail(detail) => ReceivingView::Fail(detail@),
            Receiving::OutOfStep => ReceivingView::OutOfStep,
        }
    }
}

/// The receiving of `count` messages, of which `got` have arrived, from the `i`-th reply
/// on. The first receive that fails ends it.
pub open spec fn receiving_from(
    on: Side,
    count: u32,
    t: Seq<ReplyView>,
    i: int,
    got: Seq<Seq<u8>>,
) -> ReceivingView
    decreases count - got.len(),
{
    if got.len() >= count {
        ReceivingView::Received { payloads: got, heard: i as nat }
    } else if i < 0 || i >= t.len() {
        ReceivingView::Ask(RequestView::Receive { on })
    } else {
        match t[i] {
            ReplyView::Received(Ok(message)) => receiving_from(
                on,
                count,
                t,
                i + 1,
                got.push(message.octets()),
            ),
            ReplyView::Received(Err(error)) => ReceivingView::Fail(failure("receive"@, error)),
            _ => ReceivingView::OutOfStep,
        }
    }
}

/// The bytes of a message, regardless of kind.
pub fn message_bytes(message: &Message) -> (r: Vec<u8>)
    ensures
        r@ == message@.octets(),
{
    match message {
        Message::Binary(bytes) => slice_to_vec(bytes.as_slice()),
        Message::Text(text) => slice_to_vec(text.as_str().as_bytes()),
    }
}

/// Receive `count` messages, handing back their raw bytes.
pub fn recv_sequence(on: Side, count: u32, replies: &[Reply], start: usize) -> (r: Receiving)
    requires
        start <= replies@.len(),
    ensures
        r@ == receiving_from(on, count, replies_view(replies@), start as int, seq![]),
        r matches Receiving::Received { heard, .. } ==> start <= heard <= replies@.len(),
{
    let ghost t = replies_view(replies@);
    let mut at: usize = start;
    let mut payloads: Vec<Vec<u8>> = Vec::new();
    let mut n: u32 = 0;
    assert(byte_lists(payloads@) =~= seq![]);
    while n < count
        invariant
            n <= count,
            n == payloads@.len(),
            start <= at <= replies@.len(),
            t == replies_view(replies@),
            receiving_from(on, count, t, start as int, seq![]) == receiving_from(
                on,
                count,
                t,
                at as int,
                byte_lists(payloads@),
            ),
        decreases count - n,
    {
        if at >= replies.len() {
            return Receiving::Ask(Request::Receive { on });
        }
        match &replies[at] {
            Reply::Received(Ok(message)) => {
                let ghost before = byte_lists(payloads@);
                payloads.push(message_bytes(message));
                assert(byte_lists(payloads@) =~= before.push(message@.octets()));
                at = at + 1;
                n = n + 1;
            },
            Reply::Received(Err(error)) => {
                return Receiving::Fail(fail("receive", error));
            },
            _ => {
                return Receiving::OutOfStep;
            },
        }
    }
    Receiving::Received { payloads, heard: at }
}

// ----- laws ---------------------------------------------------------------------------------------------

proof fn lemma_sends_on(on: Side, count: u32, size: u32, t: Seq<ReplyView>, k: int)
    requires
        0 <= k <= t.len() <= count,
        forall|j: int| 0 <= j < t.len() ==> (#[trigger] t[j]) == ReplyView::Done(Ok(())),
    ensures
        sending_from(on, count, size, t, 0, k) == sending_from(on, count, size, t, 0, t.len() as int),
    decreases t.len() - k,
{
    if k < t.len() {
        assert(t[k] == ReplyView::Done(Ok(())));
        lemma_sends_on(on, count, size, t, k + 1);
    }
}

/// A sender whose sends succeed sends the indexed payloads one after the other, and is
/// through once the last has gone out.
pub proof fn law_payloads_are_sent_in_order(on: Side, count: u32, size: u32, sent: nat)
    requires
        sent <= count,
    ensures
        ({
            let t = Seq::new(sent, |j: int| ReplyView::Done(Ok(())));
            sending_from(on, count, size, t, 0, 0) == if sent < count {
                SendingView::Ask(
                    RequestView::Send {
                        on,
                        message: PayloadView::Binary(sent_payloads(count, size)[sent as int]),
                    },
                )
            } else {
                SendingView::Sent(sent)
            }
        }),
{
    let t = Seq::new(sent, |j: int| ReplyView::Done(Ok(())));
    lemma_sends_on(on, count, size, t, 0);
}

proof fn lemma_receives_on(on: Side, count: u32, size: u32, t: Seq<ReplyView>, k: int)
    requires
        0 <= k <= count,
        t.len() == count,
        forall|j: int|
            0 <= j < t.len() ==> (#[trigger] t[j]) == ReplyView::Received(
                Ok(PayloadView::Binary(sent_payloads(count, size)[j])),
            ),
    ensures
        receiving_from(on, count, t, k, sent_payloads(count, size).take(k))
            == (ReceivingView::Received {
            payloads: sent_payloads(count, size),
            heard: count as nat,
        }),
    decreases count - k,
{
    let sent = sent_payloads(count, size);
    if k < count {
        assert(t[k] == ReplyView::Received(Ok(PayloadView::Binary(sent[k]))));
        assert(sent.take(k).push(sent[k]) =~= sent.take(k + 1));
        lemma_receives_on(on, count, size, t, k + 1);
    } else {
        assert(sent.take(k) =~= sent);
    }
}

/// A receiver over a channel that hands on what a sender sends, in order, ends up with
/// exactly that.
pub proof fn law_sequences_arrive_as_sent(on: Side, count: u32, size: u32)
    ensures
        receiving_from(
            on,
            count,
            Seq::new(
                count as nat,
                |j: int|
                    ReplyView::Received(Ok(PayloadView::Binary(sent_payloads(count, size)[j]))),
            ),
            0,
            seq![],
        ) == (ReceivingView::Received {
            payloads: sent_payloads(count, size),
            heard: count as nat,
        }),
{
    let t = Seq::new(
        count as nat,
        |j: int| ReplyView::Received(Ok(PayloadView::Binary(sent_payloads(count, size)[j]))),
    );
    assert(sent_payloads(count, size).take(0) =~= seq![]);
    lemma_receives_on(on, count, size, t, 0);
}

/// The first send that fails ends the sequence with its error; one that is answered out of
/// turn is noticed.
pub proof fn law_a_failed_send_ends_the_sequence(
    on: Side,
    count: u32,
    size: u32,
    t: Seq<ReplyView>,
    k: int,
)
    requires
        0 <= k < t.len(),
        k < count,
        forall|j: int| 0 <= j < k ==> (#[trigger] t[j]) == ReplyView::Done(Ok(())),
    ensures
        t[k] matches ReplyView::Done(Err(error)) ==> sending_from(on, count, size, t, 0, 0)
            == SendingView::Fail("send"@ + ": "@ + error.described()),
        !(t[k] is Done) ==> sending_from(on, count, size, t, 0, 0) is OutOfStep,
{
    lemma_sends_until(on, count, size, t, 0, k);
}

proof fn lemma_sends_until(on: Side, count: u32, size: u32, t: Seq<ReplyView>, i: int, k: int)
    requires
        0 <= i <= k < t.len(),
        k < count,
        forall|j: int| 0 <= j < k ==> (#[trigger] t[j]) == ReplyView::Done(Ok(())),
    ensures
        sending_from(on, count, size, t, 0, i) == sending_from(on, count, size, t, 0, k),
    decreases k - i,
{
    if i < k {
        assert(t[i] == ReplyView::Done(Ok(())));
        lemma_sends_until(on, count, size, t, i + 1, k);
    }
}

/// A receiver keeps asking until it has as many messages as it was told to wait for; it
/// keeps the bytes of each, in the order of their arrival, and the first receive that
/// fails ends it with its error.
pub proof fn law_receivers_keep_what_arrives(
    on: Side,
    count: u32,
    t: Seq<ReplyView>,
    i: int,
    got: Seq<Seq<u8>>,
)
    requires
        0 <= i,
    ensures
        got.len() >= count ==> receiving_from(on, count, t, i, got) == (ReceivingView::Received {
            payloads: got,
            heard: i as nat,
        }),
        got.len() < count && i >= t.len() ==> receiving_from(on, count, t, i, got)
            == ReceivingView::Ask(RequestView::Receive { on }),
        got.len() < count && i < t.len() ==> {
            &&& t[i] matches ReplyView::Received(Ok(PayloadView::Binary(bytes))) ==> receiving_from(
                on,
                count,
                t,
                i,
                got,
            ) == receiving_from(on, count, t, i + 1, got + seq![bytes])
            &&& t[i] matches ReplyView::Received(Ok(PayloadView::Text(text))) ==> receiving_from(
                on,
                count,
                t,
                i,
                got,
            ) == receiving_from(on, count, t, i + 1, got + seq![vstd::utf8::encode_utf8(text)])
            &&& t[i] matches ReplyView::Received(Err(error)) ==> receiving_from(
                on,
                count,
                t,
                i,
                got,
            ) == ReceivingView::Fail("receive"@ + ": "@ + error.described())
        },
{
    if got.len() < count && i < t.len() {
        if let ReplyView::Received(Ok(message)) = t[i] {
            assert(got.push(message.octets()) =~= got + seq![message.octets()]);
        }
    }
}

} // verus!
