//! The vocabulary of scripts: what a script asks of the connections it drives, and what
//! it hears back.
//!
//! A script is a function from the replies so far to what comes next. Whoever runs it
//! performs the request, appends the reply and asks again.

use vstd::prelude::*;

use crate::error::{describe, Error, ErrorView};
use crate::payload::byte_lists;
use crate::signal::{
    CandidateView, DescriptionView, GuestSignal, GuestSignalView, IceCandidate, SessionDescription,
};
use crate::text::{concat3, opt_text};

verus! {

/// One of the two peers of a connection.
#[derive(Debug, Clone, Copy, PartialEq, Eq, Structural)]
pub enum Side {
    Offerer,
    Answerer,
}

/// The options of a data channel. What is `None` is left at its default.
#[derive(Debug, Clone)]
pub struct ChannelOptions {
    pub label: Option<String>,
    pub ordered: Option<bool>,
    pub max_retransmits: Option<u16>,
}

/// The contents of [`ChannelOptions`].
#[verifier::ext_equal]
pub struct OptionsView {
    pub label: Option<Seq<char>>,
    pub ordered: Option<bool>,
    pub max_retransmits: Option<u16>,
}

impl View for ChannelOptions {
    type V = OptionsView;

    open spec fn view(&self) -> OptionsView {
        OptionsView {
            label: opt_text(self.label),
            ordered: self.ordered,
            max_retransmits: self.max_retransmits,
        }
    }
}

/// The options of a channel of which only the label is chosen.
pub open spec fn labelled(label: Seq<char>) -> OptionsView {
    OptionsView { label: Some(label), ordered: None, max_retransmits: None }
}

/// A data-channel message.
#[derive(Debug, Clone)]
pub enum Message {
    Binary(Vec<u8>),
    Text(String),
}

/// The contents of a [`Message`].
#[verifier::ext_equal]
pub enum PayloadView {
    Binary(Seq<u8>),
    Text(Seq<char>),
}

impl View for Message {
    type V = PayloadView;

    open spec fn view(&self) -> PayloadView {
        match self {
            Message::Binary(bytes) => PayloadView::Binary(bytes@),
            Message::Text(text) => PayloadView::Text(text@),
        }
    }
}

impl PayloadView {
    /// The bytes of a message, regardless of kind.
    pub open spec fn octets(self) -> Seq<u8> {
        match self {
            PayloadView::Binary(bytes) => bytes,
            PayloadView::Text(text) => vstd::utf8::encode_utf8(text),
        }
    }
}

/// The byte length of a received message, regardless of kind.
pub fn message_len(message: &Message) -> (r: usize)
    ensures
        r == message@.octets().len(),
{
    match message {
        Message::Binary(bytes) => bytes.len(),
        Message::Text(text) => text.as_str().as_bytes().len(),
    }
}

/// The contents of the outcome of a call that returns nothing.
pub open spec fn done_view(r: Result<(), Error>) -> Result<(), ErrorView> {
    match r {
        Ok(()) => Ok(()),
        Err(e) => Err(e@),
    }
}

/// What a script asks for.
#[derive(Debug, Clone)]
pub enum Request {
    CreateDataChannel { on: Side, options: ChannelOptions },
    CreateOffer { on: Side },
    CreateAnswer { on: Side },
    SetLocal { on: Side, description: SessionDescription },
    SetRemote { on: Side, description: SessionDescription },
    /// Drain the stream of local candidates to its end.
    LocalCandidates { on: Side },
    AddCandidate { on: Side, candidate: IceCandidate },
    WaitConnected { on: Side },
    /// Wait for both peers to connect, side by side.
    WaitBothConnected,
    /// Read one batch, of at most one channel, of the stream of incoming channels.
    ReadIncoming { on: Side },
    /// Wait for the channel to open.
    WaitOpen { on: Side },
    Send { on: Side, message: Message },
    Receive { on: Side },
    /// Read the label of the channel.
    ReadLabel { on: Side },
    /// Meet the other peer: send the sentinel and wait for the peer's, side by side.
    Barrier { on: Side },
    /// Join a room of the mailbox server.
    OpenMailbox { server: String, room: String, role: Side },
    /// Publish a signal to the own mailbox.
    Publish { signal: GuestSignal },
    /// Mark the own mailbox as done.
    MarkDone,
    /// Fetch the next signal from the peer's mailbox.
    FetchSignal,
    /// Send a signaling blob to the peer.
    SendBlob { blob: Vec<u8> },
    /// Receive a signaling blob of the peer.
    RecvBlob,
    /// Forward local candidates and consume the peer's signals until connected.
    AwaitConnected { on: Side },
    /// Send one message each way, side by side, and judge what arrives.
    ExchangeOnce,
    /// Send `count` indexed payloads of `size` bytes and receive as many messages, side by
    /// side.
    SendAndReceive { on: Side, count: u32, size: u32 },
    /// Send `count` indexed payloads of `size` bytes through one stream of messages.
    SendViaStream { on: Side, count: u32, size: u32 },
    /// Claim a channel's inbound messages for a stream.
    ReceiveViaStream { on: Side },
    /// Start a receive, then claim the channel's inbound messages while it is pending.
    ReceiveThenClaim { on: Side },
    /// Read one batch, of at most one message, of the claimed stream.
    ReadStream { on: Side },
    Close { on: Side },
}

/// The contents of a [`Request`].
#[verifier::ext_equal]
pub enum RequestView {
    CreateDataChannel { on: Side, options: OptionsView },
    CreateOffer { on: Side },
    CreateAnswer { on: Side },
    SetLocal { on: Side, description: DescriptionView },
    SetRemote { on: Side, description: DescriptionView },
    LocalCandidates { on: Side },
    AddCandidate { on: Side, candidate: CandidateView },
    WaitConnected { on: Side },
    WaitBothConnected,
    ReadIncoming { on: Side },
    WaitOpen { on: Side },
    Send { on: Side, message: PayloadView },
    Receive { on: Side },
    ReadLabel { on: Side },
    Barrier { on: Side },
    OpenMailbox { server: Seq<char>, room: Seq<char>, role: Side },
    Publish { signal: GuestSignalView },
    MarkDone,
    FetchSignal,
    SendBlob { blob: Seq<u8> },
    RecvBlob,
    AwaitConnected { on: Side },
    ExchangeOnce,
    SendAndReceive { on: Side, count: u32, size: u32 },
    SendViaStream { on: Side, count: u32, size: u32 },
    ReceiveViaStream { on: Side },
    ReceiveThenClaim { on: Side },
    ReadStream { on: Side },
    Close { on: Side },
}

impl View for Request {
    type V = RequestView;

    open spec fn view(&self) -> RequestView {
        match self {
            Request::CreateDataChannel { on, options } => RequestView::CreateDataChannel {
                on: *on,
                options: options@,
            },
            Request::CreateOffer { on } => RequestView::CreateOffer { on: *on },
            Request::CreateAnswer { on } => RequestView::CreateAnswer { on: *on },
            Request::SetLocal { on, description } => RequestView::SetLocal {
                on: *on,
                description: description@,
            },
            Request::SetRemote { on, description } => RequestView::SetRemote {
                on: *on,
                description: description@,
            },
            Request::LocalCandidates { on } => RequestView::LocalCandidates { on: *on },
            Request::AddCandidate { on, candidate } => RequestView::AddCandidate {
                on: *on,
                candidate: candidate@,
            },
            Request::WaitConnected { on } => RequestView::WaitConnected { on: *on },
            Request::WaitBothConnected => RequestView::WaitBothConnected,
            Request::ReadIncoming { on } => RequestView::ReadIncoming { on: *on },
            Request::WaitOpen { on } => RequestView::WaitOpen { on: *on },
            Request::Send { on, message } => RequestView::Send { on: *on, message: message@ },
            Request::Receive { on } => RequestView::Receive { on: *on },
            Request::ReadLabel { on } => RequestView::ReadLabel { on: *on },
            Request::Barrier { on } => RequestView::Barrier { on: *on },
            Request::OpenMailbox { server, room, role } => RequestView::OpenMailbox {
                server: server@,
                room: room@,
                role: *role,
            },
            Request::Publish { signal } => RequestView::Publish { signal: signal@ },
            Request::MarkDone => RequestView::MarkDone,
            Request::FetchSignal => RequestView::FetchSignal,
            Request::SendBlob { blob } => RequestView::SendBlob { blob: blob@ },
            Request::RecvBlob => RequestView::RecvBlob,
            Request::AwaitConnected { on } => RequestView::AwaitConnected { on: *on },
            Request::ExchangeOnce => RequestView::ExchangeOnce,
            Request::SendAndReceive { on, count, size } => RequestView::SendAndReceive {
                on: *on,
                count: *count,
                size: *size,
            },
            Request::SendViaStream { on, count, size } => RequestView::SendViaStream {
                on: *on,
                count: *count,
                size: *size,
            },
            Request::ReceiveViaStream { on } => RequestView::ReceiveViaStream { on: *on },
            Request::ReceiveThenClaim { on } => RequestView::ReceiveThenClaim { on: *on },
            Request::ReadStream { on } => RequestView::ReadStream { on: *on },
            Request::Close { on } => RequestView::Close { on: *on },
        }
    }
}

/// What a script hears back.
#[derive(Debug)]
pub enum Reply {
    /// A call that returns nothing ended.
    Done(Result<(), Error>),
    /// A description was created, or not.
    Described(Result<SessionDescription, Error>),
    /// The local candidates, in the order of their stream.
    Gathered(Vec<IceCandidate>),
    /// Both waits ended.
    Connected { offerer: Result<(), Error>, answerer: Result<(), Error> },
    /// How many incoming channels the batch held.
    Incoming(usize),
    /// A message arrived, or none ever will.
    Received(Result<Message, Error>),
    /// The label of the channel.
    Label(String),
    /// The rendezvous is over.
    Met(Result<(), String>),
    /// A signal was published, or not.
    Published(Result<(), MailboxProblem>),
    /// A signal was fetched, or the peer's mailbox is done.
    Fetched(Result<Option<GuestSignal>, MailboxProblem>),
    /// A signaling blob arrived, or the peer has none left.
    Blob(Result<Option<Vec<u8>>, Error>),
    /// Whether both messages of an exchange arrived intact.
    Judged(Result<bool, String>),
    /// A sequence was sent and another received.
    Exchanged { sent: Result<(), String>, received: Result<Vec<Vec<u8>>, String> },
    /// A stream of messages was fed and sent.
    Streamed { fed: Result<(), String>, streamed: Result<(), StreamError> },
    /// A pending receive ended, and so did the claim made meanwhile.
    Claimed { pending: Result<Message, Error>, claim: Result<(), Error> },
    /// A batch of a claimed stream, and whether the stream has ended.
    Batch { messages: Vec<StreamedMessage>, ended: bool },
}

/// Why a signal did not go through the mailbox.
#[derive(Debug, Clone)]
pub enum MailboxProblem {
    /// The mailbox refused it.
    Mailbox(Error),
    /// The signal could not be encoded or decoded; the text says why.
    Codec(String),
}

/// The contents of a [`MailboxProblem`].
pub enum ProblemText {
    Mailbox(ErrorView),
    Codec(Seq<char>),
}

impl View for MailboxProblem {
    type V = ProblemText;

    open spec fn view(&self) -> ProblemText {
        match self {
            MailboxProblem::Mailbox(error) => ProblemText::Mailbox(error@),
            MailboxProblem::Codec(text) => ProblemText::Codec(text@),
        }
    }
}

/// Why a stream of messages could not be sent, and how many were.
#[derive(Debug, Clone)]
pub struct StreamError {
    pub error: Error,
    pub sent: u32,
}

/// A message read from a claimed stream: its kind, its declared length and the bytes it
/// carried.
#[derive(Debug, Clone)]
pub struct StreamedMessage {
    pub text: bool,
    pub declared: u32,
    pub data: Vec<u8>,
}

/// The contents of a [`StreamedMessage`].
#[verifier::ext_equal]
pub struct StreamedView {
    pub text: bool,
    pub declared: u32,
    pub data: Seq<u8>,
}

impl View for StreamedMessage {
    type V = StreamedView;

    open spec fn view(&self) -> StreamedView {
        StreamedView { text: self.text, declared: self.declared, data: self.data@ }
    }
}

/// The contents of a [`Reply`].
#[verifier::ext_equal]
pub enum ReplyView {
    Done(Result<(), ErrorView>),
    Described(Result<DescriptionView, ErrorView>),
    Gathered(Seq<CandidateView>),
    Connected { offerer: Result<(), ErrorView>, answerer: Result<(), ErrorView> },
    Incoming(usize),
    Received(Result<PayloadView, ErrorView>),
    Label(Seq<char>),
    Met(Result<(), Seq<char>>),
    Published(Result<(), ProblemText>),
    Fetched(Result<Option<GuestSignalView>, ProblemText>),
    Blob(Result<Option<Seq<u8>>, ErrorView>),
    Judged(Result<bool, Seq<char>>),
    Exchanged { sent: Result<(), Seq<char>>, received: Result<Seq<Seq<u8>>, Seq<char>> },
    Streamed { fed: Result<(), Seq<char>>, streamed: Result<(), (ErrorView, u32)> },
    Claimed { pending: Result<PayloadView, ErrorView>, claim: Result<(), ErrorView> },
    Batch { messages: Seq<StreamedView>, ended: bool },
}

/// The contents of the outcome of a receive.
pub open spec fn received_view(r: Result<Message, Error>) -> Result<PayloadView, ErrorView> {
    match r {
        Ok(m) => Ok(m@),
        Err(e) => Err(e@),
    }
}

/// The contents of a list of candidates.
pub open spec fn candidates_view(list: Seq<IceCandidate>) -> Seq<CandidateView> {
    list.map_values(|c: IceCandidate| c@)
}

impl View for Reply {
    type V = ReplyView;

    open spec fn view(&self) -> ReplyView {
        match self {
            Reply::Done(r) => ReplyView::Done(done_view(*r)),
            Reply::Described(Ok(d)) => ReplyView::Described(Ok(d@)),
            Reply::Described(Err(e)) => ReplyView::Described(Err(e@)),
            Reply::Gathered(list) => ReplyView::Gathered(candidates_view(list@)),
            Reply::Connected { offerer, answerer } => ReplyView::Connected {
                offerer: done_view(*offerer),
                answerer: done_view(*answerer),
            },
            Reply::Incoming(n) => ReplyView::Incoming(*n),
            Reply::Received(r) => ReplyView::Received(received_view(*r)),
            Reply::Label(label) => ReplyView::Label(label@),
            Reply::Met(Ok(())) => ReplyView::Met(Ok(())),
            Reply::Met(Err(detail)) => ReplyView::Met(Err(detail@)),
            Reply::Published(Ok(())) => ReplyView::Published(Ok(())),
            Reply::Published(Err(problem)) => ReplyView::Published(Err(problem@)),
            Reply::Fetched(Ok(Some(signal))) => ReplyView::Fetched(Ok(Some(signal@))),
            Reply::Fetched(Ok(None)) => ReplyView::Fetched(Ok(None)),
            Reply::Fetched(Err(problem)) => ReplyView::Fetched(Err(problem@)),
            Reply::Blob(Ok(Some(blob))) => ReplyView::Blob(Ok(Some(blob@))),
            Reply::Blob(Ok(None)) => ReplyView::Blob(Ok(None)),
            Reply::Blob(Err(error)) => ReplyView::Blob(Err(error@)),
            Reply::Judged(Ok(intact)) => ReplyView::Judged(Ok(*intact)),
            Reply::Judged(Err(detail)) => ReplyView::Judged(Err(detail@)),
            Reply::Exchanged { sent, received } => ReplyView::Exchanged {
                sent: match sent {
                    Ok(()) => Ok(()),
                    Err(detail) => Err(detail@),
                },
                received: match received {
                    Ok(list) => Ok(byte_lists(list@)),
                    Err(detail) => Err(detail@),
                },
            },
            Reply::Streamed { fed, streamed } => ReplyView::Streamed {
                fed: match fed {
                    Ok(()) => Ok(()),
                    Err(detail) => Err(detail@),
                },
                streamed: match streamed {
                    Ok(()) => Ok(()),
                    Err(e) => Err((e.error@, e.sent)),
                },
            },
            Reply::Claimed { pending, claim } => ReplyView::Claimed {
                pending: received_view(*pending),
                claim: done_view(*claim),
            },
            Reply::Batch { messages, ended } => ReplyView::Batch {
                messages: messages@.map_values(|m: StreamedMessage| m@),
                ended: *ended,
            },
        }
    }
}

/// The contents of a list of replies.
pub open spec fn replies_view(list: Seq<Reply>) -> Seq<ReplyView> {
    list.map_values(|r: Reply| r@)
}

/// What comes next in a script.
#[derive(Debug, Clone)]
pub enum Next {
    /// Perform this request.
    Ask(Request),
    /// The script has passed.
    Pass,
    /// The script has failed, and why.
    Fail(String),
    /// The last reply does not answer the last request.
    OutOfStep,
}

/// The contents of a [`Next`].
#[verifier::ext_equal]
pub enum NextView {
    Ask(RequestView),
    Pass,
    Fail(Seq<char>),
    OutOfStep,
}

impl View for Next {
    type V = NextView;

    open spec fn view(&self) -> NextView {
        match self {
            Next::Ask(request) => NextView::Ask(request@),
            Next::Pass => NextView::Pass,
            Next::Fail(detail) => NextView::Fail(detail@),
            Next::OutOfStep => NextView::OutOfStep,
        }
    }
}

/// The detail of a failed step.
pub open spec fn failure(label: Seq<char>, error: ErrorView) -> Seq<char> {
    label + ": "@ + error.described()
}

/// The detail of a failed step.
pub fn fail(label: &str, error: &Error) -> (r: String)
    ensures
        r@ == failure(label@, error@),
{
    concat3(label, ": ", describe(error).as_str())
}

/// A copy of a description.
pub fn same_description(d: &SessionDescription) -> (r: SessionDescription)
    ensures
        r@ == d@,
{
    SessionDescription { kind: d.kind, sdp: d.sdp.clone() }
}

/// A copy of a candidate.
pub fn same_candidate(c: &IceCandidate) -> (r: IceCandidate)
    ensures
        r@ == c@,
{
    IceCandidate {
        candidate: c.candidate.clone(),
        sdp_mid: match &c.sdp_mid {
            Some(mid) => Some(mid.clone()),
            None => None,
        },
        sdp_mline_index: c.sdp_mline_index,
    }
}

/// A copy of an error.
pub fn same_error(e: &Error) -> (r: Error)
    ensures
        r@ == e@,
{
    match e {
        Error::Closed => Error::Closed,
        Error::TimedOut => Error::TimedOut,
        Error::InvalidSignaling(detail) => Error::InvalidSignaling(detail.clone()),
        Error::ReceivingViaStream => Error::ReceivingViaStream,
        Error::ReceiveBufferOverflow => Error::ReceiveBufferOverflow,
        Error::Other(detail) => Error::Other(detail.clone()),
    }
}

// ----- laws -----------------------------------------------------------------------------------------

/// The detail of a failed step names the step and then the error, whatever either is.
pub proof fn law_failures_name_step_and_error(label: Seq<char>, error: ErrorView)
    ensures
        failure(label, error).len() == label.len() + 2 + error.described().len(),
        failure(label, error).take(label.len() as int) == label,
        failure(label, error)[label.len() as int] == ':',
        failure(label, error)[label.len() as int + 1] == ' ',
        failure(label, error).skip(label.len() as int + 2) == error.described(),
{
    reveal_strlit(": ");
    assert(failure(label, error).take(label.len() as int) =~= label);
    assert(failure(label, error).skip(label.len() as int + 2) =~= error.described());
}

/// The bytes of a message are what was sent: those of a binary message are its own, and
/// those of a text read back as the text.
pub proof fn law_octets_are_what_was_sent(message: PayloadView)
    ensures
        message matches PayloadView::Binary(bytes) ==> message.octets() == bytes,
        message matches PayloadView::Text(text) ==> vstd::utf8::valid_utf8(message.octets())
            && vstd::utf8::decode_utf8(message.octets()) == text,
{
    if let PayloadView::Text(text) = message {
        vstd::utf8::encode_utf8_valid_utf8(text);
        vstd::utf8::encode_utf8_decode_utf8(text);
    }
}

/// Options of which only the label is chosen leave everything else at its default.
pub proof fn law_only_the_label_is_chosen(label: Seq<char>)
    ensures
        labelled(label).label == Some(label),
        labelled(label).ordered is None,
        labelled(label).max_retransmits is None,
{
}

} // verus!
