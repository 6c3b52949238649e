//! The driver of one in-guest peer connection: the state that its exported resources
//! observe, and the event loop that feeds it from a sans-I/O core.
//!
//! Times are nanoseconds on a monotonic clock.

use std::collections::VecDeque;

use vstd::prelude::*;

use crate::error::{Error, ErrorView};
use crate::peer_event::{events_view, messages_view, EventView, InboundMessage, MessageView, PeerEvent};
use crate::state_watch::{notified, StateWatch, WatchView};
use crate::text::{decimal, law_number_round_trip, number, parse_number};

verus! {

/// The interval of the pump's timer tick. Deadlines of the stack are serviced on the
/// next tick rather than at their exact instant.
pub const MAX_WAIT_NANOS: u64 = 50_000_000;

/// How long the pump keeps draining after a local close that the core has not yet
/// reported complete.
pub const CLOSE_DRAIN_NANOS: u64 = 1_000_000_000;

/// The default bound on inbound payload bytes buffered per channel while waiting for
/// the guest to receive them.
pub const DEFAULT_MAX_INBOUND_BUFFER_BYTES: usize = 8_388_608;

/// The environment variable overriding [`DEFAULT_MAX_INBOUND_BUFFER_BYTES`] (a byte
/// count).
pub const MAX_INBOUND_BUFFER_ENV: &'static str = "WEBRTC_MAX_INBOUND_BUFFER_BYTES";

/// The bound that a value of the environment variable sets.
pub open spec fn inbound_bound(value: Option<Seq<char>>) -> nat {
    match value {
        Some(text) => match number(text, usize::MAX as nat) {
            Ok(bytes) => if bytes > 0 {
                bytes
            } else {
                DEFAULT_MAX_INBOUND_BUFFER_BYTES as nat
            },
            Err(_) => DEFAULT_MAX_INBOUND_BUFFER_BYTES as nat,
        },
        None => DEFAULT_MAX_INBOUND_BUFFER_BYTES as nat,
    }
}

/// The configured inbound buffer bound: the value of [`MAX_INBOUND_BUFFER_ENV`] when it
/// is a positive integer, else [`DEFAULT_MAX_INBOUND_BUFFER_BYTES`].
pub fn max_inbound_buffer_bytes(value: Option<&str>) -> (r: usize)
    ensures
        r == inbound_bound(
            match value {
                Some(text) => Some(text@),
                None => None,
            },
        ),
{
    match value {
        Some(text) => match parse_number(text, usize::MAX as u64) {
            Ok(bytes) => if bytes > 0 {
                bytes as usize
            } else {
                DEFAULT_MAX_INBOUND_BUFFER_BYTES
            },
            Err(_) => DEFAULT_MAX_INBOUND_BUFFER_BYTES,
        },
        None => DEFAULT_MAX_INBOUND_BUFFER_BYTES,
    }
}

// ----- channels -----------------------------------------------------------------------------------------

/// A data channel observed by the peer connection: its id plus the label and an
/// inbound-message queue that the exported `data-channel` drains.
pub struct Channel {
    /// The channel's id in the core.
    pub id: u16,
    /// The negotiated channel label.
    pub label: String,
    /// Messages received on this channel, oldest first.
    pub inbox: VecDeque<InboundMessage>,
    /// Payload bytes currently held in `inbox`.
    pub inbox_bytes: usize,
    /// True once an inbound message overflowed the buffer bound. The channel is closed;
    /// the `inbox` backlog stays deliverable.
    pub overflowed: bool,
    /// True once `receive-via-stream` has claimed this channel's inbound messages.
    pub stream_claimed: bool,
    /// True once the channel (or its connection) has closed.
    pub closed: bool,
}

/// The contents of a [`Channel`].
#[verifier::ext_equal]
pub struct ChannelView {
    pub id: u16,
    pub label: Seq<char>,
    pub inbox: Seq<MessageView>,
    pub overflowed: bool,
    pub stream_claimed: bool,
    pub closed: bool,
}

/// The payload bytes of a list of messages.
pub open spec fn payload_bytes(messages: Seq<MessageView>) -> nat
    decreases messages.len(),
{
    if messages.len() == 0 {
        0
    } else {
        messages[0].data.len() + payload_bytes(messages.skip(1))
    }
}

proof fn lemma_payload_bytes_push(messages: Seq<MessageView>, message: MessageView)
    ensures
        payload_bytes(messages.push(message)) == payload_bytes(messages) + message.data.len(),
    decreases messages.len(),
{
    let more = messages.push(message);
    if messages.len() == 0 {
        reveal_with_fuel(payload_bytes, 2);
        assert(more.skip(1) =~= seq![]);
        assert(more[0] == message);
    } else {
        assert(more[0] == messages[0]);
        assert(more.skip(1) =~= messages.skip(1).push(message));
        lemma_payload_bytes_push(messages.skip(1), message);
    }
}

impl View for Channel {
    type V = ChannelView;

    open spec fn view(&self) -> ChannelView {
        ChannelView {
            id: self.id,
            label: self.label@,
            inbox: messages_view(self.inbox@),
            overflowed: self.overflowed,
            stream_claimed: self.stream_claimed,
            closed: self.closed,
        }
    }
}

/// A channel as it opens.
pub open spec fn opened(id: u16, label: Seq<char>) -> ChannelView {
    ChannelView {
        id,
        label,
        inbox: seq![],
        overflowed: false,
        stream_claimed: false,
        closed: false,
    }
}

impl Channel {
    /// `inbox_bytes` counts the payload bytes of the inbox.
    pub open spec fn wf(&self) -> bool {
        self.inbox_bytes == payload_bytes(self@.inbox)
    }

    fn new(id: u16, label: String) -> (r: Self)
        ensures
            r.wf(),
            r@ == opened(id, label@),
    {
        let r = Channel {
            id,
            label,
            inbox: VecDeque::new(),
            inbox_bytes: 0,
            overflowed: false,
            stream_claimed: false,
            closed: false,
        };
        assert(r@.inbox =~= seq![]);
        r
    }

    /// Pop the oldest buffered message, releasing its bytes from the bound.
    pub fn pop(&mut self) -> (r: Option<InboundMessage>)
        requires
            old(self).wf(),
        ensures
            final(self).wf(),
            match r {
                Some(message) => {
                    &&& old(self)@.inbox.len() > 0
                    &&& message@ == old(self)@.inbox[0]
                    &&& final(self)@ == (ChannelView { inbox: old(self)@.inbox.skip(1), ..old(self)@ })
                    &&& final(self).inbox_bytes == old(self).inbox_bytes - message.data@.len()
                },
                None => old(self)@.inbox.len() == 0 && final(self)@ == old(self)@,
            },
    {
        let ghost before = self@.inbox;
        match self.inbox.pop_front() {
            Some(message) => {
                assert(self@.inbox =~= before.skip(1));
                self.inbox_bytes = self.inbox_bytes - message.data.len();
                Some(message)
            },
            None => None,
        }
    }

    /// Buffer a message.
    fn push(&mut self, message: InboundMessage)
        requires
            old(self).wf(),
            old(self).inbox_bytes + message.data@.len() <= usize::MAX,
        ensures
            final(self).wf(),
            final(self)@ == (ChannelView { inbox: old(self)@.inbox.push(message@), ..old(self)@ }),
    {
        let ghost before = self@.inbox;
        proof {
            lemma_payload_bytes_push(before, message@);
        }
        self.inbox_bytes = self.inbox_bytes + message.data.len();
        self.inbox.push_back(message);
        assert(self@.inbox =~= before.push(message@));
    }
}

// ----- receiving --------------------------------------------------------------------------------------------

/// What a receive finds: nothing yet if the caller has to wait, else a message, oldest
/// first, or why there will be none. A claimed channel hands its messages to the stream
/// alone; a backlog is delivered before an overflow or a close is told, and an overflow
/// before the close that it caused.
pub open spec fn received(channel: ChannelView) -> Option<Result<MessageView, ErrorView>> {
    if channel.stream_claimed {
        Some(Err(ErrorView::ReceivingViaStream))
    } else if channel.inbox.len() > 0 {
        Some(Ok(channel.inbox[0]))
    } else if channel.overflowed {
        Some(Err(ErrorView::ReceiveBufferOverflow))
    } else if channel.closed {
        Some(Err(ErrorView::Closed))
    } else {
        None
    }
}

/// The channel after its oldest message was taken, if it has one.
pub open spec fn taken(channel: ChannelView) -> ChannelView {
    if channel.inbox.len() > 0 {
        ChannelView { inbox: channel.inbox.skip(1), ..channel }
    } else {
        channel
    }
}

/// What a claimed stream yields.
#[derive(Debug)]
pub enum Streamed {
    /// The oldest message.
    Message(InboundMessage),
    /// The stream has ended.
    End,
    /// Nothing yet: the caller has to wait.
    Pending,
}

impl Channel {
    /// Receive the oldest message. `None` if the caller has to wait for one.
    pub fn receive(&mut self) -> (r: Option<Result<InboundMessage, Error>>)
        requires
            old(self).wf(),
        ensures
            final(self).wf(),
            match r {
                None => received(old(self)@) is None,
                Some(Ok(message)) => received(old(self)@)
                    == Some(Ok::<MessageView, ErrorView>(message@)),
                Some(Err(error)) => received(old(self)@)
                    == Some(Err::<MessageView, ErrorView>(error@)),
            },
            final(self)@ == (if old(self)@.stream_claimed {
                old(self)@
            } else {
                taken(old(self)@)
            }),
    {
        if self.stream_claimed {
            return Some(Err(Error::ReceivingViaStream));
        }
        match self.pop() {
            Some(message) => Some(Ok(message)),
            None => if self.overflowed {
                Some(Err(Error::ReceiveBufferOverflow))
            } else if self.closed {
                Some(Err(Error::Closed))
            } else {
                None
            },
        }
    }

    /// Claim the inbound messages for a stream. A channel can be claimed once.
    pub fn claim(&mut self) -> (r: Result<(), Error>)
        requires
            old(self).wf(),
        ensures
            final(self).wf(),
            final(self)@ == (ChannelView { stream_claimed: true, ..old(self)@ }),
            match r {
                Ok(()) => !old(self)@.stream_claimed,
                Err(error) => old(self)@.stream_claimed && error@ == ErrorView::ReceivingViaStream,
            },
    {
        if self.stream_claimed {
            return Err(Error::ReceivingViaStream);
        }
        self.stream_claimed = true;
        Ok(())
    }

    /// What the stream of a claimed channel yields next: the oldest message; once there is
    /// none and the channel has closed, the stream has ended.
    pub fn next_streamed(&mut self) -> (r: Streamed)
        requires
            old(self).wf(),
        ensures
            final(self).wf(),
            final(self)@ == taken(old(self)@),
            match r {
                Streamed::Message(message) => old(self)@.inbox.len() > 0 && message@
                    == old(self)@.inbox[0],
                Streamed::End => old(self)@.inbox.len() == 0 && old(self)@.closed,
                Streamed::Pending => old(self)@.inbox.len() == 0 && !old(self)@.closed,
            },
    {
        match self.pop() {
            Some(message) => Streamed::Message(message),
            None => if self.closed {
                Streamed::End
            } else {
                Streamed::Pending
            },
        }
    }
}

// ----- the shared state -----------------------------------------------------------------------------------

/// The connection-level state shared between the pump and the exported resources.
pub struct Shared {
    /// Every channel seen so far, in open order.
    pub channels: Vec<Channel>,
    /// Whether the connection reached `connected`.
    pub connected: bool,
    /// Whether the connection failed.
    pub failed: bool,
    /// Whether the connection closed.
    pub closed: bool,
    /// Set by [`begin_close`](Self::begin_close) and consumed by the pump, which flushes
    /// the core's pending transmits before it closes the core.
    pub close_requested: bool,
    /// Whether the core reported the close complete, as opposed to a local close that is
    /// still draining.
    pub shutdown_complete: bool,
    /// After a local close, how long the pump keeps draining before giving up on a peer
    /// that never acknowledges.
    pub drain_deadline: Option<u64>,
    /// Wakes the waiters of the exported resources when the state changes.
    pub watch: StateWatch,
}

/// The contents of a [`Shared`].
#[verifier::ext_equal]
pub struct SharedView {
    pub channels: Seq<ChannelView>,
    pub connected: bool,
    pub failed: bool,
    pub closed: bool,
    pub close_requested: bool,
    pub shutdown_complete: bool,
    pub drain_deadline: Option<u64>,
    pub watch: WatchView,
}

/// The contents of a list of channels.
pub open spec fn channels_view(channels: Seq<Channel>) -> Seq<ChannelView> {
    channels.map_values(|c: Channel| c@)
}

impl View for Shared {
    type V = SharedView;

    open spec fn view(&self) -> SharedView {
        SharedView {
            channels: channels_view(self.channels@),
            connected: self.connected,
            failed: self.failed,
            closed: self.closed,
            close_requested: self.close_requested,
            shutdown_complete: self.shutdown_complete,
            drain_deadline: self.drain_deadline,
            watch: self.watch@,
        }
    }
}

/// Where the channel with `id` stands at or behind `from`; the number of channels if
/// there is none.
pub open spec fn channel_from(channels: Seq<ChannelView>, id: u16, from: int) -> int
    decreases channels.len() - from,
{
    if 0 <= from < channels.len() {
        if channels[from].id == id {
            from
        } else {
            channel_from(channels, id, from + 1)
        }
    } else {
        channels.len() as int
    }
}

proof fn lemma_channel_from(channels: Seq<ChannelView>, id: u16, from: int)
    requires
        0 <= from <= channels.len(),
    ensures
        from <= channel_from(channels, id, from) <= channels.len(),
        channel_from(channels, id, from) < channels.len() ==> channels[channel_from(
            channels,
            id,
            from,
        )].id == id,
        forall|k: int| from <= k < channel_from(channels, id, from) ==> channels[k].id != id,
    decreases channels.len() - from,
{
    if from < channels.len() && channels[from].id != id {
        lemma_channel_from(channels, id, from + 1);
    }
}

/// A channel once it has closed.
pub open spec fn shut(channel: ChannelView) -> ChannelView {
    ChannelView { closed: true, ..channel }
}

/// The channels once all of them have closed.
pub open spec fn all_shut(channels: Seq<ChannelView>) -> Seq<ChannelView> {
    channels.map_values(|c: ChannelView| shut(c))
}

/// The state after a local close began at `now`.
pub open spec fn closing(s: SharedView, now: u64) -> SharedView {
    if s.closed || s.failed {
        s
    } else {
        SharedView {
            closed: true,
            close_requested: true,
            channels: all_shut(s.channels),
            drain_deadline: Some((now + CLOSE_DRAIN_NANOS) as u64),
            watch: notified(s.watch),
            ..s
        }
    }
}

/// What a message does to the channel it arrives on, under the bound `limit`: a message
/// that fits is buffered, one that does not closes the channel, and one that arrives on
/// a closed channel is dropped.
pub open spec fn delivered(channel: ChannelView, message: MessageView, limit: nat) -> ChannelView {
    if channel.overflowed || channel.closed {
        channel
    } else if payload_bytes(channel.inbox) + message.data.len() > limit {
        ChannelView { overflowed: true, closed: true, ..channel }
    } else {
        ChannelView { inbox: channel.inbox.push(message), ..channel }
    }
}

/// Whether a message overflows the channel it arrives on.
pub open spec fn overflows(channel: ChannelView, message: MessageView, limit: nat) -> bool {
    !channel.overflowed && !channel.closed && payload_bytes(channel.inbox) + message.data.len()
        > limit
}

/// The state after one core event.
pub open spec fn applied(s: SharedView, event: EventView, limit: nat) -> SharedView {
    match event {
        EventView::Connected => SharedView { connected: true, ..s },
        EventView::Failed => SharedView { failed: true, channels: all_shut(s.channels), ..s },
        EventView::Closed => SharedView {
            closed: true,
            shutdown_complete: true,
            channels: all_shut(s.channels),
            ..s
        },
        EventView::ChannelOpen { id, label } => {
            if channel_from(s.channels, id, 0) < s.channels.len() {
                s
            } else {
                SharedView { channels: s.channels.push(opened(id, label)), ..s }
            }
        },
        EventView::ChannelClosed { id } => {
            let at = channel_from(s.channels, id, 0);
            if at < s.channels.len() {
                SharedView { channels: s.channels.update(at, shut(s.channels[at])), ..s }
            } else {
                s
            }
        },
        EventView::Message { id, text, data } => {
            let at = channel_from(s.channels, id, 0);
            if at < s.channels.len() {
                let after = delivered(s.channels[at], MessageView { text, data }, limit);
                SharedView { channels: s.channels.update(at, after), ..s }
            } else {
                s
            }
        },
    }
}

/// The channel that the core has to close because of an event.
pub open spec fn channel_to_close(s: SharedView, event: EventView, limit: nat) -> Option<u16> {
    match event {
        EventView::Message { id, text, data } => {
            let at = channel_from(s.channels, id, 0);
            if at < s.channels.len() && overflows(s.channels[at], MessageView { text, data }, limit) {
                Some(id)
            } else {
                None
            }
        },
        _ => None,
    }
}

impl Shared {
    /// Every channel counts its buffered bytes.
    pub open spec fn wf(&self) -> bool {
        forall|i: int| 0 <= i < self.channels@.len() ==> (#[trigger] self.channels@[i]).wf()
    }

    /// The state of a fresh connection.
    pub fn new() -> (r: Self)
        ensures
            r.wf(),
            r@ == (SharedView {
                channels: seq![],
                connected: false,
                failed: false,
                closed: false,
                close_requested: false,
                shutdown_complete: false,
                drain_deadline: None,
                watch: WatchView { version: 0, waiters: seq![] },
            }),
    {
        let r = Shared {
            channels: Vec::new(),
            connected: false,
            failed: false,
            closed: false,
            close_requested: false,
            shutdown_complete: false,
            drain_deadline: None,
            watch: StateWatch::new(),
        };
        assert(r@.channels =~= seq![]);
        r
    }

    /// Where the channel with `id` stands, if there is one.
    fn find(&self, id: u16) -> (r: Option<usize>)
        ensures
            match r {
                Some(i) => i < self.channels@.len() && i == channel_from(self@.channels, id, 0),
                None => channel_from(self@.channels, id, 0) == self@.channels.len(),
            },
    {
        let mut i: usize = 0;
        while i < self.channels.len()
            invariant
                i <= self.channels@.len(),
                channel_from(self@.channels, id, 0) == channel_from(self@.channels, id, i as int),
            decreases self.channels@.len() - i,
        {
            if self.channels[i].id == id {
                return Some(i);
            }
            i = i + 1;
        }
        None
    }

    /// Find a channel by id.
    pub fn channel_mut(&mut self, id: u16) -> (r: Option<&mut Channel>)
        ensures
            match r {
                Some(channel) => {
                    let at = channel_from(old(self)@.channels, id, 0);
                    &&& at < old(self)@.channels.len()
                    &&& *channel == old(self).channels@[at]
                    &&& final(self).channels@ == old(self).channels@.update(at, *final(channel))
                    &&& final(self)@ == (SharedView {
                        channels: old(self)@.channels.update(at, final(channel)@),
                        ..old(self)@
                    })
                },
                None => channel_from(old(self)@.channels, id, 0) == old(self)@.channels.len()
                    && *final(self) == *old(self),
            },
    {
        proof {
            lemma_channel_from(self@.channels, id, 0);
        }
        match self.find(id) {
            Some(i) => {
                let channel = &mut self.channels[i];
                Some(channel)
            },
            None => None,
        }
    }

    /// Close every channel.
    fn shut_all(&mut self)
        requires
            old(self).wf(),
        ensures
            final(self).wf(),
            final(self)@ == (SharedView { channels: all_shut(old(self)@.channels), ..old(self)@ }),
    {
        let n = self.channels.len();
        let mut i: usize = 0;
        while i < n
            invariant
                i <= n,
                n == self.channels@.len(),
                n == old(self).channels@.len(),
                self.wf(),
                self@ == (SharedView { channels: self@.channels, ..old(self)@ }),
                forall|k: int|
                    #![trigger self.channels@[k]]
                    0 <= k < i ==> self.channels@[k]@ == shut(old(self).channels@[k]@),
                forall|k: int|
                    #![trigger self.channels@[k]]
                    i <= k < n ==> self.channels@[k] == old(self).channels@[k],
            decreases n - i,
        {
            self.channels[i].closed = true;
            i = i + 1;
        }
        assert(self@.channels =~= all_shut(old(self)@.channels));
    }

    /// Mark the connection locally closed and start the pump's bounded drain; the
    /// waiters to wake are handed back.
    ///
    /// The close of the core itself is deferred to the pump, so that a message queued
    /// immediately before the close still reaches the wire.
    pub fn begin_close(&mut self, now: u64) -> (woken: Vec<u64>)
        requires
            old(self).wf(),
            now + CLOSE_DRAIN_NANOS <= u64::MAX,
            old(self)@.watch.version < u64::MAX,
        ensures
            final(self).wf(),
            final(self)@ == closing(old(self)@, now),
            woken@ == (if old(self)@.closed || old(self)@.failed {
                seq![]
            } else {
                old(self)@.watch.waiters
            }),
    {
        if self.closed || self.failed {
            return Vec::new();
        }
        self.closed = true;
        self.close_requested = true;
        self.shut_all();
        self.drain_deadline = Some(now + CLOSE_DRAIN_NANOS);
        self.watch.notify()
    }

    /// Fold one drained core event into the state. The id of a channel that the event
    /// overflowed is handed back for the core to close.
    pub fn apply_event(&mut self, event: PeerEvent, limit: usize) -> (r: Option<u16>)
        requires
            old(self).wf(),
        ensures
            final(self).wf(),
            final(self)@ == applied(old(self)@, event@, limit as nat),
            r == channel_to_close(old(self)@, event@, limit as nat),
    {
        let ghost before = self@;
        match event {
            PeerEvent::Connected => {
                self.connected = true;
                None
            },
            PeerEvent::Failed => {
                self.failed = true;
                self.shut_all();
                None
            },
            PeerEvent::Closed => {
                self.closed = true;
                self.shutdown_complete = true;
                self.shut_all();
                None
            },
            PeerEvent::ChannelOpen { id, label } => {
                if self.find(id).is_none() {
                    self.channels.push(Channel::new(id, label));
                    assert(self@.channels =~= before.channels.push(opened(id, label@)));
                }
                None
            },
            PeerEvent::ChannelClosed { id } => {
                if let Some(i) = self.find(id) {
                    self.channels[i].closed = true;
                    assert(self@.channels =~= before.channels.update(
                        i as int,
                        shut(before.channels[i as int]),
                    ));
                }
                None
            },
            PeerEvent::Message { id, text, data } => {
                match self.find(id) {
                    Some(i) => {
                        let ghost after = delivered(
                            before.channels[i as int],
                            MessageView { text, data: data@ },
                            limit as nat,
                        );
                        assert(self.channels@[i as int].wf());
                        let held = self.channels[i].inbox_bytes;
                        if self.channels[i].overflowed || self.channels[i].closed {
                            assert(before.channels.update(i as int, after) =~= before.channels);
                            None
                        } else if held > limit || data.len() > limit - held {
                            self.channels[i].overflowed = true;
                            self.channels[i].closed = true;
                            assert(self@.channels =~= before.channels.update(i as int, after));
                            Some(id)
                        } else {
                            self.channels[i].push(InboundMessage { text, data });
                            assert(self@.channels =~= before.channels.update(i as int, after));
                            None
                        }
                    },
                    None => None,
                }
            },
        }
    }
}

// ----- the pump ---------------------------------------------------------------------------------------------

/// Where the event loop stands.
#[derive(Debug, Clone, Copy, PartialEq, Eq, Structural)]
pub enum PumpState {
    /// Queued datagrams go out before the core's events are drained.
    Flushing,
    /// The core's events are being drained.
    Draining,
    /// Queued datagrams go out again; then the pump stops (`done`) or parks.
    Settling { done: bool },
    /// The pump waits for a datagram, the tick or a wake.
    Parked,
    /// The pump has stopped.
    Stopped,
}

/// What happened since the pump's last step.
#[derive(Debug)]
pub enum PumpEvent {
    /// Every queued datagram went out.
    Flushed,
    /// The core's events were drained.
    Drained(Vec<PeerEvent>),
    /// The pending receive completed, with a datagram or with an error.
    Received { datagram: bool },
    /// The tick elapsed.
    Ticked,
    /// An exported method changed the core.
    Woken,
}

/// The contents of a [`PumpEvent`].
pub enum PumpEventView {
    Flushed,
    Drained(Seq<EventView>),
    Received { datagram: bool },
    Ticked,
    Woken,
}

impl View for PumpEvent {
    type V = PumpEventView;

    open spec fn view(&self) -> PumpEventView {
        match self {
            PumpEvent::Flushed => PumpEventView::Flushed,
            PumpEvent::Drained(events) => PumpEventView::Drained(events_view(events@)),
            PumpEvent::Received { datagram } => PumpEventView::Received { datagram: *datagram },
            PumpEvent::Ticked => PumpEventView::Ticked,
            PumpEvent::Woken => PumpEventView::Woken,
        }
    }
}

/// What the driver does next, in the order of the list it is given.
#[derive(Debug, Clone, Copy, PartialEq, Eq, Structural)]
pub enum PumpAction {
    /// Send every queued datagram.
    Flush,
    /// Close the core.
    CloseCore,
    /// Drain the core's events.
    Drain,
    /// Close one channel in the core.
    CloseChannel(u16),
    /// Wake one waiter.
    Wake(u64),
    /// Wait for the earliest of the pending receive, the tick and a wake; where several
    /// are ready, the receive comes before the tick, and the tick before the wake.
    Park,
    /// Hand the core the datagram just received.
    HandleInput,
    /// Start the next receive. The one in flight is never cancelled.
    StartReceive,
    /// Start the next tick. The one in flight is never cancelled.
    StartTick,
    /// Let the core service its due deadlines.
    HandleTimeout,
    /// End the loop.
    Stop,
}

/// The state after all of `events`, oldest first.
pub open spec fn applied_all(s: SharedView, events: Seq<EventView>, limit: nat) -> SharedView
    decreases events.len(),
{
    if events.len() == 0 {
        s
    } else {
        applied(applied_all(s, events.drop_last(), limit), events.last(), limit)
    }
}

/// The closes that the core is asked for while `events` are applied.
pub open spec fn closes(s: SharedView, events: Seq<EventView>, limit: nat) -> Seq<PumpAction>
    decreases events.len(),
{
    if events.len() == 0 {
        seq![]
    } else {
        let before = applied_all(s, events.drop_last(), limit);
        let earlier = closes(s, events.drop_last(), limit);
        match channel_to_close(before, events.last(), limit) {
            Some(id) => earlier.push(PumpAction::CloseChannel(id)),
            None => earlier,
        }
    }
}

/// The wakes of a list of waiters.
pub open spec fn wakes(waiters: Seq<u64>) -> Seq<PumpAction> {
    waiters.map_values(|w: u64| PumpAction::Wake(w))
}

/// Whether the pump is done at `now`: the connection failed, or it closed and the close
/// is complete or has been given its time.
pub open spec fn pump_done(s: SharedView, now: u64) -> bool {
    s.failed || (s.closed && (s.shutdown_complete || match s.drain_deadline {
        Some(deadline) => now >= deadline,
        None => true,
    }))
}

/// What a step of the pump leaves: the shared state, the pump's state and what to do.
#[verifier::ext_equal]
pub struct PumpStep {
    pub shared: SharedView,
    pub state: PumpState,
    pub actions: Seq<PumpAction>,
}

/// One step of the pump. An event that the state does not wait for changes nothing.
pub open spec fn pump_step(
    s: SharedView,
    state: PumpState,
    event: PumpEventView,
    now: u64,
    limit: nat,
) -> PumpStep {
    match (state, event) {
        (PumpState::Flushing, PumpEventView::Flushed) => PumpStep {
            shared: SharedView { close_requested: false, ..s },
            state: PumpState::Draining,
            actions: if s.close_requested {
                seq![PumpAction::CloseCore, PumpAction::Drain]
            } else {
                seq![PumpAction::Drain]
            },
        },
        (PumpState::Draining, PumpEventView::Drained(events)) => {
            let after = applied_all(s, events, limit);
            if events.len() == 0 {
                PumpStep {
                    shared: after,
                    state: PumpState::Settling { done: pump_done(after, now) },
                    actions: seq![PumpAction::Flush],
                }
            } else {
                PumpStep {
                    shared: SharedView { watch: notified(after.watch), ..after },
                    state: PumpState::Settling { done: pump_done(after, now) },
                    actions: (closes(s, events, limit) + wakes(after.watch.waiters)).push(
                        PumpAction::Flush,
                    ),
                }
            }
        },
        (PumpState::Settling { done }, PumpEventView::Flushed) => if done {
            PumpStep { shared: s, state: PumpState::Stopped, actions: seq![PumpAction::Stop] }
        } else {
            PumpStep { shared: s, state: PumpState::Parked, actions: seq![PumpAction::Park] }
        },
        (PumpState::Parked, PumpEventView::Received { datagram }) => PumpStep {
            shared: s,
            state: PumpState::Flushing,
            actions: if datagram {
                seq![PumpAction::HandleInput, PumpAction::StartReceive, PumpAction::Flush]
            } else {
                seq![PumpAction::StartReceive, PumpAction::Flush]
            },
        },
        (PumpState::Parked, PumpEventView::Ticked) => PumpStep {
            shared: s,
            state: PumpState::Flushing,
            actions: seq![PumpAction::StartTick, PumpAction::HandleTimeout, PumpAction::Flush],
        },
        (PumpState::Parked, PumpEventView::Woken) => PumpStep {
            shared: s,
            state: PumpState::Flushing,
            actions: seq![PumpAction::Flush],
        },
        _ => PumpStep { shared: s, state, actions: seq![] },
    }
}

proof fn lemma_applied_keeps_watch(s: SharedView, events: Seq<EventView>, limit: nat)
    ensures
        applied_all(s, events, limit).watch == s.watch,
    decreases events.len(),
{
    if events.len() > 0 {
        lemma_applied_keeps_watch(s, events.drop_last(), limit);
    }
}

/// The event loop of one peer connection.
pub struct Pump {
    pub state: PumpState,
}

impl Pump {
    /// A pump about to run, and the first things to do.
    pub fn start() -> (r: (Self, Vec<PumpAction>))
        ensures
            r.0.state == PumpState::Flushing,
            r.1@ == seq![PumpAction::StartReceive, PumpAction::StartTick, PumpAction::Flush],
    {
        let mut actions: Vec<PumpAction> = Vec::new();
        actions.push(PumpAction::StartReceive);
        actions.push(PumpAction::StartTick);
        actions.push(PumpAction::Flush);
        (Pump { state: PumpState::Flushing }, actions)
    }

    /// Run the event loop one step further: from what happened to what to do. The loop
    /// ends when the connection has failed, or has closed and drained.
    pub fn pump(&mut self, shared: &mut Shared, event: PumpEvent, now: u64, limit: usize) -> (r: Vec<
        PumpAction,
    >)
        requires
            old(shared).wf(),
            old(shared)@.watch.version < u64::MAX,
        ensures
            final(shared).wf(),
            (PumpStep { shared: final(shared)@, state: final(self).state, actions: r@ })
                == pump_step(old(shared)@, old(self).state, event@, now, limit as nat),
    {
        let mut actions: Vec<PumpAction> = Vec::new();
        match (self.state, event) {
            (PumpState::Flushing, PumpEvent::Flushed) => {
                if shared.close_requested {
                    shared.close_requested = false;
                    actions.push(PumpAction::CloseCore);
                }
                actions.push(PumpAction::Drain);
                self.state = PumpState::Draining;
            },
            (PumpState::Draining, PumpEvent::Drained(events)) => {
                let ghost all = events_view(events@);
                let ghost before = shared@;
                let had_events = events.len() > 0;
                for event in it: events
                    invariant
                        shared.wf(),
                        0 <= it.index() <= all.len(),
                        it.seq() == events@,
                        all == events_view(events@),
                        shared@ == applied_all(before, all.take(it.index() as int), limit as nat),
                        actions@ == closes(before, all.take(it.index() as int), limit as nat),
                {
                    let ghost n = it.index() as int;
                    proof {
                        assert(all.take(n + 1).drop_last() =~= all.take(n));
                        assert(all.take(n + 1).last() == all[n]);
                    }
                    if let Some(id) = shared.apply_event(event, limit) {
                        actions.push(PumpAction::CloseChannel(id));
                    }
                }
                assert(all.take(all.len() as int) =~= all);
                proof {
                    lemma_applied_keeps_watch(before, all, limit as nat);
                }
                let ghost after = shared@;
                let ghost closed = actions@;
                let done = shared.failed || (shared.closed && (shared.shutdown_complete
                    || match shared.drain_deadline {
                    Some(deadline) => now >= deadline,
                    None => true,
                }));
                if had_events {
                    let woken = shared.watch.notify();
                    let mut i: usize = 0;
                    while i < woken.len()
                        invariant
                            i <= woken@.len(),
                            actions@ == closed + wakes(woken@.take(i as int)),
                        decreases woken@.len() - i,
                    {
                        actions.push(PumpAction::Wake(woken[i]));
                        i = i + 1;
                        assert(actions@ =~= closed + wakes(woken@.take(i as int)));
                    }
                    assert(woken@.take(i as int) =~= woken@);
                }
                actions.push(PumpAction::Flush);
                self.state = PumpState::Settling { done };
            },
            (PumpState::Settling { done }, PumpEvent::Flushed) => {
                if done {
                    actions.push(PumpAction::Stop);
                    self.state = PumpState::Stopped;
                } else {
                    actions.push(PumpAction::Park);
                    self.state = PumpState::Parked;
                }
            },
            (PumpState::Parked, PumpEvent::Received { datagram }) => {
                if datagram {
                    actions.push(PumpAction::HandleInput);
                }
                actions.push(PumpAction::StartReceive);
                actions.push(PumpAction::Flush);
                self.state = PumpState::Flushing;
            },
            (PumpState::Parked, PumpEvent::Ticked) => {
                actions.push(PumpAction::StartTick);
                actions.push(PumpAction::HandleTimeout);
                actions.push(PumpAction::Flush);
                self.state = PumpState::Flushing;
            },
            (PumpState::Parked, PumpEvent::Woken) => {
                actions.push(PumpAction::Flush);
                self.state = PumpState::Flushing;
            },
            _ => {},
        }
        actions
    }
}

// ----- laws ---------------------------------------------------------------------------------------------------

/// Every channel buffers at most `limit` bytes.
pub open spec fn bounded(channels: Seq<ChannelView>, limit: nat) -> bool {
    forall|i: int| 0 <= i < channels.len() ==> payload_bytes((#[trigger] channels[i]).inbox) <= limit
}

/// No channel ever buffers more than the bound.
pub proof fn law_inbound_buffer_is_bounded(s: SharedView, event: EventView, limit: nat)
    requires
        bounded(s.channels, limit),
    ensures
        bounded(applied(s, event, limit).channels, limit),
{
    let after = applied(s, event, limit).channels;
    assert forall|i: int| 0 <= i < after.len() implies payload_bytes((#[trigger] after[i]).inbox)
        <= limit by {
        if i < s.channels.len() {
            assert(payload_bytes(s.channels[i].inbox) <= limit);
        }
        match event {
            EventView::Message { id, text, data } => {
                lemma_channel_from(s.channels, id, 0);
                if i == channel_from(s.channels, id, 0) {
                    lemma_payload_bytes_push(s.channels[i].inbox, MessageView { text, data });
                }
            },
            EventView::ChannelClosed { id } => {
                lemma_channel_from(s.channels, id, 0);
            },
            _ => {},
        }
    }
}

/// A message that overflows the bound closes its channel and is dropped, but what was
/// buffered before stays there to be received; so does it under any later message.
pub proof fn law_backlog_survives_overflow(
    channel: ChannelView,
    message: MessageView,
    later: MessageView,
    limit: nat,
)
    requires
        overflows(channel, message, limit),
    ensures
        delivered(channel, message, limit).overflowed,
        delivered(channel, message, limit).closed,
        delivered(channel, message, limit).inbox == channel.inbox,
        delivered(delivered(channel, message, limit), later, limit) == delivered(
            channel,
            message,
            limit,
        ),
{
}

/// The channel after several messages.
pub open spec fn delivered_all(channel: ChannelView, messages: Seq<MessageView>, limit: nat) -> ChannelView
    decreases messages.len(),
{
    if messages.len() == 0 {
        channel
    } else {
        delivered(delivered_all(channel, messages.drop_last(), limit), messages.last(), limit)
    }
}

proof fn lemma_payload_bytes_add(a: Seq<MessageView>, b: Seq<MessageView>)
    ensures
        payload_bytes(a + b) == payload_bytes(a) + payload_bytes(b),
    decreases b.len(),
{
    if b.len() == 0 {
        assert(a + b =~= a);
    } else {
        lemma_payload_bytes_add(a, b.drop_last());
        lemma_payload_bytes_push(a + b.drop_last(), b.last());
        lemma_payload_bytes_push(b.drop_last(), b.last());
        assert((a + b.drop_last()).push(b.last()) =~= a + b);
        assert(b.drop_last().push(b.last()) =~= b);
    }
}

/// Messages that fit the bound are all buffered, in the order in which they arrived,
/// behind what was buffered before.
pub proof fn law_messages_are_buffered_in_order(
    channel: ChannelView,
    messages: Seq<MessageView>,
    limit: nat,
)
    requires
        !channel.closed,
        !channel.overflowed,
        payload_bytes(channel.inbox) + payload_bytes(messages) <= limit,
    ensures
        delivered_all(channel, messages, limit) == (ChannelView {
            inbox: channel.inbox + messages,
            ..channel
        }),
    decreases messages.len(),
{
    if messages.len() == 0 {
        assert(channel.inbox + messages =~= channel.inbox);
    } else {
        let fewer = messages.drop_last();
        lemma_payload_bytes_push(fewer, messages.last());
        assert(fewer.push(messages.last()) =~= messages);
        law_messages_are_buffered_in_order(channel, fewer, limit);
        lemma_payload_bytes_add(channel.inbox, fewer);
        assert((channel.inbox + fewer).push(messages.last()) =~= channel.inbox + messages);
    }
}

/// An overflow is told only after the backlog: whatever was buffered is received first, in
/// order, then every receive fails with the overflow, never with the close that it caused.
pub proof fn law_overflow_is_told_after_the_backlog(
    channel: ChannelView,
    message: MessageView,
    limit: nat,
)
    requires
        overflows(channel, message, limit),
        !channel.stream_claimed,
    ensures
        ({
            let after = delivered(channel, message, limit);
            received(after) == if channel.inbox.len() > 0 {
                Some(Ok::<MessageView, ErrorView>(channel.inbox[0]))
            } else {
                Some(Err::<MessageView, ErrorView>(ErrorView::ReceiveBufferOverflow))
            }
        }),
        taken(delivered(channel, message, limit)).overflowed,
        taken(delivered(channel, message, limit)).inbox == taken(channel).inbox,
{
}

/// Whatever is delivered to a claimed channel, receiving and claiming it again fail.
pub proof fn law_a_stream_is_claimed_once(
    channel: ChannelView,
    messages: Seq<MessageView>,
    limit: nat,
)
    requires
        channel.stream_claimed,
    ensures
        delivered_all(channel, messages, limit).stream_claimed,
        received(delivered_all(channel, messages, limit)) == Some(
            Err::<MessageView, ErrorView>(ErrorView::ReceivingViaStream),
        ),
    decreases messages.len(),
{
    if messages.len() > 0 {
        law_a_stream_is_claimed_once(channel, messages.drop_last(), limit);
    }
}

/// No two channels have the same id.
pub open spec fn distinct_ids(channels: Seq<ChannelView>) -> bool {
    forall|i: int, j: int|
        0 <= i < j < channels.len() ==> (#[trigger] channels[i]).id != (#[trigger] channels[j]).id
}

/// Channel ids stay distinct, and the channels keep their order.
pub proof fn law_channels_stay_distinct(s: SharedView, event: EventView, limit: nat)
    requires
        distinct_ids(s.channels),
    ensures
        distinct_ids(applied(s, event, limit).channels),
        s.channels.len() <= applied(s, event, limit).channels.len(),
        forall|i: int|
            0 <= i < s.channels.len() ==> (#[trigger] applied(s, event, limit).channels[i]).id
                == s.channels[i].id,
{
    match event {
        EventView::ChannelOpen { id, label } => {
            lemma_channel_from(s.channels, id, 0);
        },
        EventView::ChannelClosed { id } => {
            lemma_channel_from(s.channels, id, 0);
        },
        EventView::Message { id, text, data } => {
            lemma_channel_from(s.channels, id, 0);
        },
        _ => {},
    }
}

/// Beginning to close twice is beginning to close once: the drain deadline of the first
/// stands.
pub proof fn law_closing_is_idempotent(s: SharedView, now: u64, later: u64)
    ensures
        closing(closing(s, now), later) == closing(s, now),
{
}

/// The core is closed only right after every queued datagram went out, so data queued
/// before a close reaches the wire first.
pub proof fn law_core_closes_after_a_flush(
    s: SharedView,
    state: PumpState,
    event: PumpEventView,
    now: u64,
    limit: nat,
)
    requires
        pump_step(s, state, event, now, limit).actions.contains(PumpAction::CloseCore),
    ensures
        state is Flushing,
        event is Flushed,
        s.close_requested,
        !pump_step(s, state, event, now, limit).shared.close_requested,
{
    match (state, event) {
        (PumpState::Draining, PumpEventView::Drained(events)) => {
            lemma_closes_channels_only(s, events, limit);
            let actions = pump_step(s, state, event, now, limit).actions;
            let k = actions.index_of(PumpAction::CloseCore);
            assert(actions[k] == PumpAction::CloseCore);
        },
        _ => {
            let actions = pump_step(s, state, event, now, limit).actions;
            let k = actions.index_of(PumpAction::CloseCore);
            assert(actions[k] == PumpAction::CloseCore);
        },
    }
}

proof fn lemma_closes_channels_only(s: SharedView, events: Seq<EventView>, limit: nat)
    ensures
        forall|k: int|
            0 <= k < closes(s, events, limit).len() ==> (#[trigger] closes(s, events, limit)[k]) is CloseChannel,
    decreases events.len(),
{
    if events.len() > 0 {
        lemma_closes_channels_only(s, events.drop_last(), limit);
    }
}

/// After a local close the pump keeps draining until the core reports the close
/// complete or the drain window lapses, and no longer.
pub proof fn law_local_close_drains_for_a_bounded_time(s: SharedView, began: u64, now: u64)
    requires
        !s.closed,
        !s.failed,
        !s.shutdown_complete,
        began + 1_000_000_000 <= u64::MAX,
    ensures
        pump_done(closing(s, began), now) == (now >= began + 1_000_000_000),
        pump_done(applied(closing(s, began), EventView::Closed, 0), now),
{
}

// ----- what the pump promises ---------------------------------------------------------------------------------

/// Every datagram that is received reaches the core, once, before the next receive starts;
/// nothing is handed to the core when the receive ended in an error. Either way exactly
/// one receive is started in place of the one that ended.
pub proof fn law_every_datagram_reaches_the_core(
    s: SharedView,
    datagram: bool,
    now: u64,
    limit: nat,
)
    ensures
        ({
            let step = pump_step(
                s,
                PumpState::Parked,
                PumpEventView::Received { datagram },
                now,
                limit,
            );
            &&& step.actions.contains(PumpAction::HandleInput) <==> datagram
            &&& step.actions.contains(PumpAction::StartReceive)
            &&& step.actions.no_duplicates()
            &&& forall|i: int, j: int|
                0 <= i < step.actions.len() && 0 <= j < step.actions.len()
                    && #[trigger] step.actions[i] == PumpAction::HandleInput
                    && #[trigger] step.actions[j] == PumpAction::StartReceive ==> i < j
            &&& step.shared == s
        }),
{
    let actions = pump_step(
        s,
        PumpState::Parked,
        PumpEventView::Received { datagram },
        now,
        limit,
    ).actions;
    if datagram {
        assert(actions[0] == PumpAction::HandleInput);
        assert(actions[1] == PumpAction::StartReceive);
    } else {
        assert(actions[0] == PumpAction::StartReceive);
    }
}

/// The core is given input only for a datagram, and its deadlines are serviced on every
/// tick and only then. A receive and a tick are started exactly when the one in flight has
/// ended, so that there is always one of each in flight.
pub proof fn law_receives_and_ticks_stay_in_flight(
    s: SharedView,
    state: PumpState,
    event: PumpEventView,
    now: u64,
    limit: nat,
)
    ensures
        ({
            let actions = pump_step(s, state, event, now, limit).actions;
            &&& actions.contains(PumpAction::HandleInput) <==> state is Parked && event
                == (PumpEventView::Received { datagram: true })
            &&& actions.contains(PumpAction::StartReceive) <==> state is Parked && event is Received
            &&& actions.contains(PumpAction::HandleTimeout) <==> state is Parked && event is Ticked
            &&& actions.contains(PumpAction::StartTick) <==> state is Parked && event is Ticked
        }),
{
    let actions = pump_step(s, state, event, now, limit).actions;
    match (state, event) {
        (PumpState::Parked, PumpEventView::Received { datagram }) => {
            law_every_datagram_reaches_the_core(s, datagram, now, limit);
        },
        (PumpState::Parked, PumpEventView::Ticked) => {
            assert(actions[0] == PumpAction::StartTick);
            assert(actions[1] == PumpAction::HandleTimeout);
        },
        (PumpState::Draining, PumpEventView::Drained(events)) => {
            lemma_closes_channels_only(s, events, limit);
        },
        _ => {},
    }
}

/// The action whose end a state of the pump waits for.
pub open spec fn awaited(state: PumpState) -> PumpAction {
    match state {
        PumpState::Flushing => PumpAction::Flush,
        PumpState::Draining => PumpAction::Drain,
        PumpState::Settling { .. } => PumpAction::Flush,
        PumpState::Parked => PumpAction::Park,
        PumpState::Stopped => PumpAction::Stop,
    }
}

/// An event that a state of the pump waits for.
pub open spec fn heeded(state: PumpState, event: PumpEventView) -> bool {
    match state {
        PumpState::Flushing => event is Flushed,
        PumpState::Draining => event is Drained,
        PumpState::Settling { .. } => event is Flushed,
        PumpState::Parked => event is Received || event is Ticked || event is Woken,
        PumpState::Stopped => false,
    }
}

/// The loop turns and never stalls: whatever it waited for, the last thing it asks for is
/// what it waits for next, and it asks for nothing to wait for before that. A turn is a
/// flush, a drain, a flush and the wait; whatever ends the wait starts the next turn. An
/// event that nobody waits for changes nothing.
pub proof fn law_the_pump_keeps_turning(
    s: SharedView,
    state: PumpState,
    event: PumpEventView,
    now: u64,
    limit: nat,
)
    ensures
        ({
            let step = pump_step(s, state, event, now, limit);
            if heeded(state, event) {
                &&& step.actions.len() > 0
                &&& step.actions.last() == awaited(step.state)
                &&& forall|i: int|
                    0 <= i < step.actions.len() - 1 ==> !(#[trigger] step.actions[i] is Flush)
                        && !(step.actions[i] is Drain) && !(step.actions[i] is Park)
                        && !(step.actions[i] is Stop)
                &&& state is Flushing <==> step.state is Draining
                &&& state is Draining <==> step.state is Settling
                &&& state is Settling <==> step.state is Parked || step.state is Stopped
                &&& state is Parked <==> step.state is Flushing
                &&& step.state is Stopped <==> state == (PumpState::Settling { done: true })
            } else {
                step == (PumpStep { shared: s, state, actions: seq![] })
            }
        }),
{
    match (state, event) {
        (PumpState::Draining, PumpEventView::Drained(events)) => {
            lemma_closes_channels_only(s, events, limit);
        },
        _ => {},
    }
}

/// Draining folds the events into the state, oldest first, and decides whether the loop
/// goes on: it ends once the connection has failed, or has closed and the core has
/// reported so or its time to drain has run out.
pub proof fn law_the_pump_ends_with_its_connection(
    s: SharedView,
    events: Seq<EventView>,
    now: u64,
    limit: nat,
)
    ensures
        ({
            let step = pump_step(
                s,
                PumpState::Draining,
                PumpEventView::Drained(events),
                now,
                limit,
            );
            let after = step.shared;
            &&& step.state matches PumpState::Settling { done } && (done <==> after.failed || (
            after.closed && (after.shutdown_complete || (after.drain_deadline matches Some(at)
                ==> at <= now))))
            &&& after.failed <==> s.failed || events.contains(EventView::Failed)
            &&& after.closed <==> s.closed || events.contains(EventView::Closed)
            &&& after.shutdown_complete <==> s.shutdown_complete || events.contains(
                EventView::Closed,
            )
            &&& after.connected <==> s.connected || events.contains(EventView::Connected)
            &&& after.drain_deadline == s.drain_deadline
            &&& after.close_requested == s.close_requested
        }),
{
    lemma_applied_flags(s, events, limit);
}

proof fn lemma_applied_flags(s: SharedView, events: Seq<EventView>, limit: nat)
    ensures
        ({
            let after = applied_all(s, events, limit);
            &&& after.failed <==> s.failed || events.contains(EventView::Failed)
            &&& after.closed <==> s.closed || events.contains(EventView::Closed)
            &&& after.shutdown_complete <==> s.shutdown_complete || events.contains(
                EventView::Closed,
            )
            &&& after.connected <==> s.connected || events.contains(EventView::Connected)
            &&& after.drain_deadline == s.drain_deadline
            &&& after.close_requested == s.close_requested
            &&& after.watch == s.watch
        }),
    decreases events.len(),
{
    if events.len() > 0 {
        let fewer = events.drop_last();
        lemma_applied_flags(s, fewer, limit);
        assert forall|e: EventView| #[trigger] events.contains(e) <==> fewer.contains(e) || e
            == events.last() by {
            if events.contains(e) {
                let k = events.index_of(e);
                assert(events[k] == e);
                if k < fewer.len() {
                    assert(fewer[k] == e);
                }
            }
            if fewer.contains(e) {
                assert(events[fewer.index_of(e)] == e);
            }
            assert(events[events.len() - 1] == events.last());
        }
    }
}

/// Whoever waits for a change is woken when events were drained, and nobody else is; the
/// change is recorded. Nobody is woken when there were none, or in any other step.
pub proof fn law_drained_events_wake_every_waiter(
    s: SharedView,
    state: PumpState,
    event: PumpEventView,
    now: u64,
    limit: nat,
    waiter: u64,
)
    requires
        s.watch.version < u64::MAX,
    ensures
        ({
            let step = pump_step(s, state, event, now, limit);
            let changed = state is Draining && (event matches PumpEventView::Drained(events)
                && events.len() > 0);
            &&& step.actions.contains(PumpAction::Wake(waiter)) <==> changed
                && s.watch.waiters.contains(waiter)
            &&& changed ==> step.shared.watch.version == s.watch.version + 1
                && step.shared.watch.waiters.len() == 0
            &&& !changed ==> step.shared.watch == s.watch
        }),
{
    let step = pump_step(s, state, event, now, limit);
    match (state, event) {
        (PumpState::Draining, PumpEventView::Drained(events)) => {
            lemma_closes_channels_only(s, events, limit);
            lemma_applied_keeps_watch(s, events, limit);
            if events.len() > 0 {
                let closed = closes(s, events, limit);
                if s.watch.waiters.contains(waiter) {
                    let k = s.watch.waiters.index_of(waiter);
                    assert(step.actions[closed.len() + k] == PumpAction::Wake(waiter));
                }
                if step.actions.contains(PumpAction::Wake(waiter)) {
                    let k = step.actions.index_of(PumpAction::Wake(waiter));
                    assert(step.actions[k] == PumpAction::Wake(waiter));
                    assert(s.watch.waiters[k - closed.len()] == waiter);
                }
            }
        },
        _ => {},
    }
}

/// The core is asked to close exactly the channels that overflowed while the events were
/// drained.
pub proof fn law_overflowed_channels_are_closed_in_the_core(
    s: SharedView,
    events: Seq<EventView>,
    now: u64,
    limit: nat,
    id: u16,
)
    ensures
        ({
            let step = pump_step(
                s,
                PumpState::Draining,
                PumpEventView::Drained(events),
                now,
                limit,
            );
            step.actions.contains(PumpAction::CloseChannel(id)) <==> exists|i: int|
                0 <= i < step.shared.channels.len() && (#[trigger] step.shared.channels[i]).id == id
                    && step.shared.channels[i].overflowed && !(i < s.channels.len()
                    && s.channels[i].overflowed)
        }),
{
    let step = pump_step(s, PumpState::Draining, PumpEventView::Drained(events), now, limit);
    let closed = closes(s, events, limit);
    let after = applied_all(s, events, limit);
    lemma_closes(s, events, limit, id);
    assert(step.shared.channels == after.channels);
    if closed.contains(PumpAction::CloseChannel(id)) {
        let k = closed.index_of(PumpAction::CloseChannel(id));
        assert(events.len() > 0);
        assert(step.actions[k] == PumpAction::CloseChannel(id));
    }
    if step.actions.contains(PumpAction::CloseChannel(id)) {
        let k = step.actions.index_of(PumpAction::CloseChannel(id));
        assert(step.actions[k] == PumpAction::CloseChannel(id));
        if events.len() > 0 {
            assert(closed[k] == PumpAction::CloseChannel(id));
        }
    }
    assert(step.actions.contains(PumpAction::CloseChannel(id)) <==> exists|i: int| #[trigger]
        newly_overflowed(s, after, id, i));
    if exists|i: int| #[trigger] newly_overflowed(s, after, id, i) {
        let i = choose|i: int| #[trigger] newly_overflowed(s, after, id, i);
        assert(step.shared.channels[i].id == id);
    }
    assert forall|i: int|
        0 <= i < step.shared.channels.len() && (#[trigger] step.shared.channels[i]).id == id
            && step.shared.channels[i].overflowed && !(i < s.channels.len()
            && s.channels[i].overflowed) implies newly_overflowed(s, after, id, i) by {}
}

/// The channel at `i` overflowed between two states.
pub open spec fn newly_overflowed(s: SharedView, after: SharedView, id: u16, i: int) -> bool {
    0 <= i < after.channels.len() && after.channels[i].id == id && after.channels[i].overflowed
        && !(i < s.channels.len() && s.channels[i].overflowed)
}

proof fn lemma_closes(s: SharedView, events: Seq<EventView>, limit: nat, id: u16)
    ensures
        ({
            let after = applied_all(s, events, limit);
            &&& s.channels.len() <= after.channels.len()
            &&& forall|i: int|
                0 <= i < s.channels.len() && s.channels[i].overflowed ==> (
                #[trigger] after.channels[i]).overflowed
            &&& closes(s, events, limit).contains(PumpAction::CloseChannel(id)) <==> exists|i: int|
                #[trigger] newly_overflowed(s, after, id, i)
            &&& (exists|i: int| #[trigger] newly_overflowed(s, after, id, i)) <==> exists|i: int|
                0 <= i < after.channels.len() && (#[trigger] after.channels[i]).id == id
                    && after.channels[i].overflowed && !(i < s.channels.len()
                    && s.channels[i].overflowed)
        }),
    decreases events.len(),
{
    let after = applied_all(s, events, limit);
    if events.len() > 0 {
        let fewer = events.drop_last();
        let event = events.last();
        let before = applied_all(s, fewer, limit);
        let earlier = closes(s, fewer, limit);
        let all = closes(s, events, limit);
        lemma_closes(s, fewer, limit, id);
        match event {
            EventView::Message { id, .. } => {
                lemma_channel_from(before.channels, id, 0);
            },
            EventView::ChannelClosed { id } => {
                lemma_channel_from(before.channels, id, 0);
            },
            _ => {},
        }
        assert forall|i: int| #[trigger] newly_overflowed(s, before, id, i) implies newly_overflowed(
            s,
            after,
            id,
            i,
        ) by {}
        if earlier.contains(PumpAction::CloseChannel(id)) {
            let k = earlier.index_of(PumpAction::CloseChannel(id));
            assert(all[k] == PumpAction::CloseChannel(id));
            let i = choose|i: int| #[trigger] newly_overflowed(s, before, id, i);
            assert(newly_overflowed(s, after, id, i));
        } else if channel_to_close(before, event, limit) == Some(id) {
            assert(all.last() == PumpAction::CloseChannel(id));
            let i = channel_from(before.channels, id, 0);
            assert(newly_overflowed(s, after, id, i)) by {
                if i < s.channels.len() && s.channels[i].overflowed {
                    assert(before.channels[i].overflowed);
                }
            }
        } else {
            assert forall|i: int| #[trigger] newly_overflowed(s, after, id, i) implies false by {
                assert(!newly_overflowed(s, before, id, i));
            }
            if all.contains(PumpAction::CloseChannel(id)) {
                let k = all.index_of(PumpAction::CloseChannel(id));
                assert(all[k] == PumpAction::CloseChannel(id));
                if k < earlier.len() {
                    assert(earlier[k] == PumpAction::CloseChannel(id));
                }
            }
        }
    } else {
        assert forall|i: int| #[trigger] newly_overflowed(s, after, id, i) implies false by {}
    }
    if exists|i: int| #[trigger] newly_overflowed(s, after, id, i) {
        let i = choose|i: int| #[trigger] newly_overflowed(s, after, id, i);
        assert(after.channels[i].id == id);
    }
    if exists|i: int|
        0 <= i < after.channels.len() && (#[trigger] after.channels[i]).id == id
            && after.channels[i].overflowed && !(i < s.channels.len() && s.channels[i].overflowed) {
        let i = choose|i: int|
            0 <= i < after.channels.len() && (#[trigger] after.channels[i]).id == id
                && after.channels[i].overflowed && !(i < s.channels.len()
                && s.channels[i].overflowed);
        assert(newly_overflowed(s, after, id, i));
    }
}

// ----- what the state promises ----------------------------------------------------------------------------------

/// A message that fits is the last of its channel's inbox, as the very text or binary
/// message that arrived, behind what was there before. Nothing else changes, and the core
/// is asked to close nothing.
pub proof fn law_a_message_reaches_its_channel(
    s: SharedView,
    i: int,
    text: bool,
    data: Seq<u8>,
    limit: nat,
)
    requires
        0 <= i < s.channels.len(),
        distinct_ids(s.channels),
        !s.channels[i].closed,
        !s.channels[i].overflowed,
        payload_bytes(s.channels[i].inbox) + data.len() <= limit,
    ensures
        ({
            let event = EventView::Message { id: s.channels[i].id, text, data };
            let after = applied(s, event, limit);
            let channel = after.channels[i];
            &&& channel.inbox.len() == s.channels[i].inbox.len() + 1
            &&& channel.inbox.last().text == text
            &&& channel.inbox.last().data == data
            &&& channel.inbox.drop_last() == s.channels[i].inbox
            &&& channel.id == s.channels[i].id
            &&& channel.label == s.channels[i].label
            &&& channel.stream_claimed == s.channels[i].stream_claimed
            &&& !channel.closed
            &&& !channel.overflowed
            &&& after.channels.len() == s.channels.len()
            &&& forall|k: int|
                0 <= k < s.channels.len() && k != i ==> #[trigger] after.channels[k]
                    == s.channels[k]
            &&& after == (SharedView { channels: after.channels, ..s })
            &&& channel_to_close(s, event, limit) is None
        }),
{
    let id = s.channels[i].id;
    lemma_channel_from(s.channels, id, 0);
    let after = applied(s, EventView::Message { id, text, data }, limit);
    assert(after.channels[i].inbox.drop_last() =~= s.channels[i].inbox);
}

/// A message received on an open channel with nothing before it is what the next receive
/// gives: text as text, binary as binary, byte for byte. The one after it waits.
pub proof fn law_messages_are_received_as_they_arrived(
    s: SharedView,
    i: int,
    text: bool,
    data: Seq<u8>,
    limit: nat,
)
    requires
        0 <= i < s.channels.len(),
        distinct_ids(s.channels),
        !s.channels[i].closed,
        !s.channels[i].overflowed,
        !s.channels[i].stream_claimed,
        s.channels[i].inbox.len() == 0,
        data.len() <= limit,
    ensures
        ({
            let event = EventView::Message { id: s.channels[i].id, text, data };
            let channel = applied(s, event, limit).channels[i];
            &&& received(s.channels[i]) is None
            &&& received(channel) matches Some(Ok(message)) && message.text == text && message.data
                == data
            &&& received(taken(channel)) is None
        }),
{
    law_a_message_reaches_its_channel(s, i, text, data, limit);
}

/// Receiving takes the oldest message and leaves the others as they were: what is received
/// and what is left are what was there. An error takes nothing.
pub proof fn law_the_oldest_message_is_received(channel: ChannelView)
    ensures
        received(channel) matches Some(Ok(message)) ==> channel.inbox == seq![message] + taken(
            channel,
        ).inbox,
        received(channel) is Some && received(channel)->0 is Err && !channel.stream_claimed
            ==> taken(channel) == channel,
        received(channel) is None ==> taken(channel) == channel && !channel.closed,
        taken(channel) == (ChannelView { inbox: taken(channel).inbox, ..channel }),
        channel.inbox.len() > 0 && !channel.stream_claimed ==> received(channel) is Some
            && received(channel)->0 is Ok,
        channel.inbox.len() == 0 && !channel.stream_claimed && channel.closed
            && !channel.overflowed ==> received(channel) == Some(
            Err::<MessageView, ErrorView>(ErrorView::Closed),
        ),
{
    if channel.inbox.len() > 0 {
        assert(channel.inbox =~= seq![channel.inbox[0]] + channel.inbox.skip(1));
    }
}

/// What an event of the core changes: a connection that connected, failed or closed is
/// marked so for good; a channel appears once, open and empty, under the label it came
/// with; a channel closes when it, or the connection, did, or when a message overflowed it.
/// No event touches the label, the claim or the buffered messages of a channel, except
/// that a message may be added.
pub proof fn law_events_change_only_what_they_tell(
    s: SharedView,
    event: EventView,
    limit: nat,
    i: int,
)
    requires
        distinct_ids(s.channels),
        0 <= i < s.channels.len(),
    ensures
        ({
            let after = applied(s, event, limit);
            let was = s.channels[i];
            let is = after.channels[i];
            let mine = match event {
                EventView::ChannelClosed { id } => id == was.id,
                EventView::Message { id, .. } => id == was.id,
                _ => false,
            };
            &&& after.connected <==> s.connected || event is Connected
            &&& after.failed <==> s.failed || event is Failed
            &&& after.closed <==> s.closed || event is Closed
            &&& after.shutdown_complete <==> s.shutdown_complete || event is Closed
            &&& after.close_requested == s.close_requested
            &&& after.drain_deadline == s.drain_deadline
            &&& after.watch == s.watch
            &&& is.id == was.id && is.label == was.label && is.stream_claimed == was.stream_claimed
            &&& was.inbox.is_prefix_of(is.inbox)
            &&& is.inbox.len() > was.inbox.len() ==> event is Message && mine && !was.closed
            &&& event is Failed || event is Closed ==> is.closed
            &&& event is ChannelClosed && mine ==> is.closed
            &&& event is Message && mine && !was.closed && !was.overflowed ==> (is.closed
                <==> is.overflowed)
            &&& was.closed ==> is.closed
            &&& !mine && !(event is Failed) && !(event is Closed) ==> is == was
        }),
{
    match event {
        EventView::ChannelClosed { id } => {
            lemma_channel_from(s.channels, id, 0);
        },
        EventView::Message { id, text, data } => {
            lemma_channel_from(s.channels, id, 0);
            assert(s.channels[i].inbox.is_prefix_of(s.channels[i].inbox.push(MessageView { text, data })));
        },
        _ => {},
    }
}

/// A channel that opens is known from then on, by its id and label, open and with nothing
/// received; one that is known already stays as it is.
pub proof fn law_a_channel_opens_once(s: SharedView, id: u16, label: Seq<char>, limit: nat)
    ensures
        ({
            let after = applied(s, EventView::ChannelOpen { id, label }, limit).channels;
            if exists|i: int| 0 <= i < s.channels.len() && (#[trigger] s.channels[i]).id == id {
                after == s.channels
            } else {
                &&& after.len() == s.channels.len() + 1
                &&& after.drop_last() == s.channels
                &&& after.last().id == id
                &&& after.last().label == label
                &&& after.last().inbox.len() == 0
                &&& !after.last().closed
                &&& !after.last().overflowed
                &&& !after.last().stream_claimed
            }
        }),
{
    lemma_channel_from(s.channels, id, 0);
    let after = applied(s, EventView::ChannelOpen { id, label }, limit).channels;
    if channel_from(s.channels, id, 0) == s.channels.len() {
        assert(after.drop_last() =~= s.channels);
    } else {
        assert(s.channels[channel_from(s.channels, id, 0)].id == id);
    }
}

/// A local close closes the connection and each of its channels at once, asks for the core
/// to be closed, and gives it one second to say goodbye. What was received stays there. A
/// connection that has ended before is left alone.
pub proof fn law_a_local_close_closes_every_channel(s: SharedView, now: u64, i: int)
    requires
        0 <= i < s.channels.len(),
        now + 1_000_000_000 <= u64::MAX,
        s.watch.version < u64::MAX,
    ensures
        ({
            let after = closing(s, now);
            if s.closed || s.failed {
                after == s
            } else {
                &&& after.closed
                &&& after.close_requested
                &&& after.drain_deadline == Some((now + 1_000_000_000) as u64)
                &&& after.channels.len() == s.channels.len()
                &&& after.channels[i].closed
                &&& after.channels[i] == (ChannelView { closed: true, ..s.channels[i] })
                &&& after.watch.version == s.watch.version + 1
                &&& after.watch.waiters.len() == 0
                &&& after.connected == s.connected
                &&& !after.failed
                &&& after.shutdown_complete == s.shutdown_complete
            }
        }),
{
}

/// The inbound buffer is bounded by the number that the environment gives, if that is a
/// positive number, and by 8 MiB otherwise.
pub proof fn law_the_environment_sets_the_bound(n: nat, text: Seq<char>)
    requires
        0 < n <= usize::MAX,
    ensures
        inbound_bound(Some(decimal(n))) == n,
        inbound_bound(None) == 8 * 1024 * 1024,
        number(text, usize::MAX as nat) is Err ==> inbound_bound(Some(text)) == 8 * 1024 * 1024,
        inbound_bound(Some(text)) > 0,
{
    law_number_round_trip(n, usize::MAX as nat);
}

/// A close that was requested reaches the core, once: right after the flush that comes first,
/// before the events are drained. Asking for it takes the request back, and nothing but a
/// request closes the core.
pub proof fn law_a_requested_close_reaches_the_core(
    s: SharedView,
    state: PumpState,
    event: PumpEventView,
    now: u64,
    limit: nat,
)
    ensures
        ({
            let step = pump_step(s, state, event, now, limit);
            let flushed = state is Flushing && event is Flushed;
            &&& step.actions.contains(PumpAction::CloseCore) <==> flushed && s.close_requested
            &&& flushed ==> step.actions.last() == PumpAction::Drain && step.shared == (SharedView {
                close_requested: false,
                ..s
            })
            &&& !flushed ==> step.shared.close_requested == s.close_requested
        }),
{
    let step = pump_step(s, state, event, now, limit);
    match (state, event) {
        (PumpState::Flushing, PumpEventView::Flushed) => {
            if s.close_requested {
                assert(step.actions[0] == PumpAction::CloseCore);
            }
        },
        (PumpState::Draining, PumpEventView::Drained(events)) => {
            lemma_closes_channels_only(s, events, limit);
            lemma_applied_flags(s, events, limit);
        },
        _ => {},
    }
}

} // verus!
