//! Drivers of a sans-I/O peer: what to do with its events, with the commands of its owner
//! and with the time.
//!
//! Times are nanoseconds on a monotonic clock.

use vstd::prelude::*;

use crate::peer_event::{messages_view, EventView, InboundMessage, MessageView, PeerEvent};
use crate::runtime::MAX_WAIT_NANOS;
use crate::text::{concat2, lossy_reading, lossy_text, opt_text};

verus! {

/// How long to sleep when the stack's next deadline is `deadline`: until then, but never
/// longer than the safety-net interval.
pub open spec fn delay(deadline: Option<u64>, now: u64) -> u64 {
    match deadline {
        Some(deadline) => if deadline <= now {
            0
        } else if deadline - now < MAX_WAIT_NANOS {
            (deadline - now) as u64
        } else {
            MAX_WAIT_NANOS
        },
        None => MAX_WAIT_NANOS,
    }
}

/// How long to sleep before the stack's timers are checked again.
pub fn wait_delay(deadline: Option<u64>, now: u64) -> (r: u64)
    ensures
        r == delay(deadline, now),
{
    match deadline {
        Some(deadline) => if deadline <= now {
            0
        } else if deadline - now < MAX_WAIT_NANOS {
            deadline - now
        } else {
            MAX_WAIT_NANOS
        },
        None => MAX_WAIT_NANOS,
    }
}

/// The sleep ends by the stack's deadline and within the safety-net interval.
pub proof fn law_deadlines_are_serviced_in_time(deadline: Option<u64>, now: u64)
    ensures
        delay(deadline, now) <= MAX_WAIT_NANOS,
        deadline matches Some(at) ==> (if at <= now {
            delay(deadline, now) == 0
        } else {
            now + delay(deadline, now) <= at
        }),
{
}

// ----- the background driver ---------------------------------------------------------------------------

/// The event loop of a peer that runs on a task of its own: messages go to the first data
/// channel, and are buffered until that channel opens.
pub struct Driver {
    primary: Option<u16>,
    pending: Vec<InboundMessage>,
    announced: bool,
}

/// The contents of a [`Driver`].
#[verifier::ext_equal]
pub struct DriverView {
    /// The peer's first data channel, once it is open.
    pub primary: Option<u16>,
    /// The messages that wait for it, oldest first.
    pub pending: Seq<MessageView>,
    /// Whether it was announced that the peer is connected.
    pub announced: bool,
}

impl View for Driver {
    type V = DriverView;

    closed spec fn view(&self) -> DriverView {
        DriverView {
            primary: self.primary,
            pending: messages_view(self.pending@),
            announced: self.announced,
        }
    }
}

/// What a driver does next.
#[derive(Debug)]
pub enum DriverAction {
    /// Tell the owner that the peer is connected.
    Announce,
    /// Hand a message to a channel; whether that works shows in later events.
    Send { channel: u16, message: InboundMessage },
    /// Hand a message to the owner. If nobody listens any more, the loop ends.
    Deliver(InboundMessage),
    /// Close the core, send what is queued, and end the loop.
    Close,
    /// End the loop.
    Stop,
}

/// The contents of a [`DriverAction`].
#[verifier::ext_equal]
pub enum ActionView {
    Announce,
    Send { channel: u16, message: MessageView },
    Deliver(MessageView),
    Close,
    Stop,
}

impl View for DriverAction {
    type V = ActionView;

    open spec fn view(&self) -> ActionView {
        match self {
            DriverAction::Announce => ActionView::Announce,
            DriverAction::Send { channel, message } => ActionView::Send {
                channel: *channel,
                message: message@,
            },
            DriverAction::Deliver(message) => ActionView::Deliver(message@),
            DriverAction::Close => ActionView::Close,
            DriverAction::Stop => ActionView::Stop,
        }
    }
}

/// The contents of a list of actions.
pub open spec fn actions_view(list: Seq<DriverAction>) -> Seq<ActionView> {
    list.map_values(|a: DriverAction| a@)
}

/// The sends of a list of messages.
pub open spec fn sends(channel: u16, messages: Seq<MessageView>) -> Seq<ActionView> {
    messages.map_values(|message: MessageView| ActionView::Send { channel, message })
}

/// The driver after an event, and what it does.
pub open spec fn on_event_step(d: DriverView, event: EventView) -> (DriverView, Seq<ActionView>) {
    match event {
        EventView::Connected => if d.announced {
            (d, seq![])
        } else {
            (DriverView { announced: true, ..d }, seq![ActionView::Announce])
        },
        EventView::ChannelOpen { id, .. } => if d.primary is Some {
            (d, seq![])
        } else {
            (DriverView { primary: Some(id), pending: seq![], ..d }, sends(id, d.pending))
        },
        EventView::ChannelClosed { .. } => (d, seq![]),
        EventView::Message { text, data, .. } => (
            d,
            seq![ActionView::Deliver(MessageView { text, data })],
        ),
        EventView::Failed => (d, seq![ActionView::Stop]),
        EventView::Closed => (d, seq![ActionView::Stop]),
    }
}

/// The driver after a command, and what it does. No command comes any more once the owner
/// has gone.
pub open spec fn on_command_step(d: DriverView, command: Option<MessageView>) -> (
    DriverView,
    Seq<ActionView>,
) {
    match command {
        None => (d, seq![ActionView::Close]),
        Some(message) => match d.primary {
            Some(channel) => (d, seq![ActionView::Send { channel, message }]),
            None => (DriverView { pending: d.pending.push(message), ..d }, seq![]),
        },
    }
}

impl Driver {
    /// A driver about to run.
    pub fn new() -> (r: Self)
        ensures
            r@ == (DriverView { primary: None, pending: seq![], announced: false }),
    {
        let r = Driver { primary: None, pending: Vec::new(), announced: false };
        assert(r@.pending =~= seq![]);
        r
    }

    /// React to an event of the core.
    pub fn on_event(&mut self, event: PeerEvent) -> (r: Vec<DriverAction>)
        ensures
            (final(self)@, actions_view(r@)) == on_event_step(old(self)@, event@),
    {
        let mut actions: Vec<DriverAction> = Vec::new();
        let ghost before = self@;
        match event {
            PeerEvent::Connected => {
                if !self.announced {
                    self.announced = true;
                    actions.push(DriverAction::Announce);
                }
            },
            PeerEvent::ChannelOpen { id, label: _ } => {
                if self.primary.is_none() {
                    self.primary = Some(id);
                    let mut pending: Vec<InboundMessage> = Vec::new();
                    std::mem::swap(&mut pending, &mut self.pending);
                    let ghost waiting = pending@;
                    assert(actions_view(actions@) =~= sends(id, messages_view(waiting).take(0)));
                    for message in it: pending
                        invariant
                            it.seq() == waiting,
                            actions_view(actions@) == sends(
                                id,
                                messages_view(waiting).take(it.index() as int),
                            ),
                    {
                        let ghost n = it.index() as int;
                        let ghost earlier = actions_view(actions@);
                        assert(message == waiting[n]);
                        actions.push(DriverAction::Send { channel: id, message });
                        assert(actions_view(actions@) =~= earlier.push(
                            ActionView::Send { channel: id, message: message@ },
                        ));
                        assert(messages_view(waiting).take(n + 1) =~= messages_view(waiting).take(
                            n,
                        ).push(message@));
                        assert(actions_view(actions@) =~= sends(
                            id,
                            messages_view(waiting).take(it.index() as int + 1),
                        ));
                    }
                    assert(messages_view(waiting).take(waiting.len() as int) =~= before.pending);
                    assert(self@.pending =~= seq![]);
                }
            },
            PeerEvent::ChannelClosed { id: _ } => {},
            PeerEvent::Message { id: _, text, data } => {
                actions.push(DriverAction::Deliver(InboundMessage { text, data }));
            },
            PeerEvent::Failed => {
                actions.push(DriverAction::Stop);
            },
            PeerEvent::Closed => {
                actions.push(DriverAction::Stop);
            },
        }
        assert(actions_view(actions@) =~= on_event_step(before, event@).1);
        actions
    }

    /// React to a message that the owner wants sent, or to the owner having gone.
    pub fn on_command(&mut self, command: Option<InboundMessage>) -> (r: Vec<DriverAction>)
        ensures
            (final(self)@, actions_view(r@)) == on_command_step(
                old(self)@,
                match command {
                    Some(message) => Some(message@),
                    None => None,
                },
            ),
    {
        let mut actions: Vec<DriverAction> = Vec::new();
        let ghost before = self@;
        match command {
            None => {
                actions.push(DriverAction::Close);
                assert(actions_view(actions@) =~= seq![ActionView::Close]);
            },
            Some(message) => match self.primary {
                Some(channel) => {
                    actions.push(DriverAction::Send { channel, message });
                    assert(actions_view(actions@) =~= seq![
                        ActionView::Send { channel, message: message@ },
                    ]);
                },
                None => {
                    self.pending.push(message);
                    assert(self@.pending =~= before.pending.push(message@));
                    assert(actions_view(actions@) =~= seq![]);
                },
            },
        }
        actions
    }
}

/// The driver after several messages that the owner wants sent.
pub open spec fn after_commands(d: DriverView, messages: Seq<MessageView>) -> DriverView
    decreases messages.len(),
{
    if messages.len() == 0 {
        d
    } else {
        on_command_step(after_commands(d, messages.drop_last()), Some(messages.last())).0
    }
}

/// Messages sent before the first channel opens are neither lost nor reordered: when it
/// opens, they all go out on it in the order in which they were sent.
pub proof fn law_early_messages_wait_for_the_channel(
    d: DriverView,
    messages: Seq<MessageView>,
    id: u16,
    label: Seq<char>,
)
    requires
        d.primary is None,
    ensures
        on_event_step(after_commands(d, messages), EventView::ChannelOpen { id, label }).1 == sends(
            id,
            d.pending + messages,
        ),
{
    lemma_after_commands(d, messages);
}

proof fn lemma_after_commands(d: DriverView, messages: Seq<MessageView>)
    requires
        d.primary is None,
    ensures
        after_commands(d, messages) == (DriverView { pending: d.pending + messages, ..d }),
    decreases messages.len(),
{
    if messages.len() == 0 {
        assert(d.pending + messages =~= d.pending);
    } else {
        lemma_after_commands(d, messages.drop_last());
        assert((d.pending + messages.drop_last()).push(messages.last()) =~= d.pending + messages);
    }
}

/// The first channel to open stays the one that messages go to, and the owner hears of
/// the connection once.
pub proof fn law_first_channel_is_kept(d: DriverView, event: EventView)
    ensures
        d.primary is Some ==> on_event_step(d, event).0.primary == d.primary,
        d.announced ==> !on_event_step(d, event).1.contains(ActionView::Announce),
{
    let actions = on_event_step(d, event).1;
    if d.announced && actions.contains(ActionView::Announce) {
        let k = actions.index_of(ActionView::Announce);
        assert(actions[k] == ActionView::Announce);
    }
}

/// The wait for the connection, which can be awaited once.
pub struct ConnectedOnce {
    pub awaited: bool,
}

impl ConnectedOnce {
    /// Begin the wait.
    pub fn begin(&mut self) -> (r: Result<(), String>)
        ensures
            final(self).awaited,
            match r {
                Ok(()) => !old(self).awaited,
                Err(message) => old(self).awaited && message@ == "wait_connected already awaited"@,
            },
    {
        if self.awaited {
            Err("wait_connected already awaited".to_string())
        } else {
            self.awaited = true;
            Ok(())
        }
    }
}

/// The message of a wait that ended because the peer's loop did.
pub const CLOSED_BEFORE_CONNECTING: &'static str = "peer closed before connecting";

/// The message of a send whose driver has stopped.
pub const DRIVER_STOPPED: &'static str = "driver task has stopped";

// ----- the round trip of a demo -----------------------------------------------------------------------------

/// A safety cap so a connection that never establishes fails instead of hanging.
pub const OVERALL_TIMEOUT_NANOS: u64 = 30_000_000_000;

/// One of two peers that greet each other once.
pub struct RoundTrip {
    pub role: String,
    pub deadline: u64,
    pub channel: Option<u16>,
    pub got: Option<String>,
}

/// The contents of a [`RoundTrip`].
#[verifier::ext_equal]
pub struct RoundTripView {
    pub role: Seq<char>,
    pub deadline: u64,
    /// The channel that the greeting was sent on.
    pub channel: Option<u16>,
    /// The first message of the other peer.
    pub got: Option<Seq<char>>,
}

impl View for RoundTrip {
    type V = RoundTripView;

    open spec fn view(&self) -> RoundTripView {
        RoundTripView {
            role: self.role@,
            deadline: self.deadline,
            channel: self.channel,
            got: opt_text(self.got),
        }
    }
}

/// What a peer of a round trip does upon an event.
#[derive(Debug)]
pub enum RoundTripStep {
    /// Nothing.
    Idle,
    /// Send the greeting on a channel.
    Greet { channel: u16, greeting: String },
    /// Count the other peer's message as received.
    Count,
    /// End, with the message received or with an error.
    Over(Result<String, String>),
}

/// The contents of a [`RoundTripStep`].
pub enum RoundTripStepView {
    Idle,
    Greet { channel: u16, greeting: Seq<char> },
    Count,
    Over(Result<Seq<char>, Seq<char>>),
}

impl View for RoundTripStep {
    type V = RoundTripStepView;

    open spec fn view(&self) -> RoundTripStepView {
        match self {
            RoundTripStep::Idle => RoundTripStepView::Idle,
            RoundTripStep::Greet { channel, greeting } => RoundTripStepView::Greet {
                channel: *channel,
                greeting: greeting@,
            },
            RoundTripStep::Count => RoundTripStepView::Count,
            RoundTripStep::Over(Ok(message)) => RoundTripStepView::Over(Ok(message@)),
            RoundTripStep::Over(Err(message)) => RoundTripStepView::Over(Err(message@)),
        }
    }
}

/// What a peer greets with.
pub open spec fn greeting(role: Seq<char>) -> Seq<char> {
    "hello from the "@ + role
}

/// A peer of a round trip after an event, and what it does.
pub open spec fn round_trip_step(s: RoundTripView, event: EventView) -> (
    RoundTripView,
    RoundTripStepView,
) {
    match event {
        EventView::ChannelOpen { id, .. } => if s.channel is Some {
            (s, RoundTripStepView::Idle)
        } else {
            (
                RoundTripView { channel: Some(id), ..s },
                RoundTripStepView::Greet { channel: id, greeting: greeting(s.role) },
            )
        },
        EventView::Message { data, .. } => if s.got is Some {
            (s, RoundTripStepView::Idle)
        } else {
            (RoundTripView { got: Some(lossy_reading(data)), ..s }, RoundTripStepView::Count)
        },
        EventView::Connected => (s, RoundTripStepView::Idle),
        EventView::ChannelClosed { .. } => (s, RoundTripStepView::Idle),
        EventView::Failed => (s, RoundTripStepView::Over(Err(s.role + " connection failed"@))),
        EventView::Closed => (
            s,
            RoundTripStepView::Over(
                match s.got {
                    Some(message) => Ok(message),
                    None => Err(s.role + " closed before exchanging a message"@),
                },
            ),
        ),
    }
}

/// What a peer of a round trip does once its events are dealt with.
#[derive(Debug)]
pub enum Settle {
    /// Close the connection, and end with the message received.
    Finish(String),
    /// End with an error.
    GiveUp(String),
    /// Wait for more.
    Wait,
}

/// The contents of a [`Settle`].
pub enum SettleView {
    Finish(Seq<char>),
    GiveUp(Seq<char>),
    Wait,
}

impl View for Settle {
    type V = SettleView;

    open spec fn view(&self) -> SettleView {
        match self {
            Settle::Finish(message) => SettleView::Finish(message@),
            Settle::GiveUp(message) => SettleView::GiveUp(message@),
            Settle::Wait => SettleView::Wait,
        }
    }
}

/// A peer is done once it has its message and the other peer has too, so neither stops
/// while the other still needs an acknowledgement; `received` counts the peers that have
/// theirs.
pub open spec fn settled(s: RoundTripView, received: u32, now: u64) -> SettleView {
    if s.got is Some && received >= 2 {
        SettleView::Finish(s.got->0)
    } else if now >= s.deadline {
        SettleView::GiveUp(s.role + " timed out before completing the round trip"@)
    } else {
        SettleView::Wait
    }
}

impl RoundTrip {
    /// A peer that starts at `now`.
    pub fn new(role: &str, now: u64) -> (r: Self)
        requires
            now + OVERALL_TIMEOUT_NANOS <= u64::MAX,
        ensures
            r@ == (RoundTripView {
                role: role@,
                deadline: (now + OVERALL_TIMEOUT_NANOS) as u64,
                channel: None,
                got: None,
            }),
    {
        RoundTrip {
            role: role.to_string(),
            deadline: now + OVERALL_TIMEOUT_NANOS,
            channel: None,
            got: None,
        }
    }

    /// React to an event: send the greeting once the channel opens, record the peer's
    /// message.
    pub fn on_event(&mut self, event: PeerEvent) -> (r: RoundTripStep)
        ensures
            (final(self)@, r@) == round_trip_step(old(self)@, event@),
    {
        match event {
            PeerEvent::ChannelOpen { id, label: _ } => {
                if self.channel.is_some() {
                    return RoundTripStep::Idle;
                }
                self.channel = Some(id);
                RoundTripStep::Greet {
                    channel: id,
                    greeting: concat2("hello from the ", self.role.as_str()),
                }
            },
            PeerEvent::Message { id: _, text: _, data } => {
                if self.got.is_some() {
                    return RoundTripStep::Idle;
                }
                self.got = Some(lossy_text(data.as_slice()));
                RoundTripStep::Count
            },
            PeerEvent::Connected => RoundTripStep::Idle,
            PeerEvent::ChannelClosed { id: _ } => RoundTripStep::Idle,
            PeerEvent::Failed => RoundTripStep::Over(
                Err(concat2(self.role.as_str(), " connection failed")),
            ),
            PeerEvent::Closed => RoundTripStep::Over(
                match &self.got {
                    Some(message) => Ok(message.clone()),
                    None => Err(
                        concat2(self.role.as_str(), " closed before exchanging a message"),
                    ),
                },
            ),
        }
    }

    /// Decide whether to go on, once the events are dealt with.
    pub fn settle(&self, received: u32, now: u64) -> (r: Settle)
        ensures
            r@ == settled(self@, received, now),
    {
        match &self.got {
            Some(message) => {
                if received >= 2 {
                    return Settle::Finish(message.clone());
                }
            },
            None => {},
        }
        if now >= self.deadline {
            Settle::GiveUp(
                concat2(self.role.as_str(), " timed out before completing the round trip"),
            )
        } else {
            Settle::Wait
        }
    }
}

/// A peer of a round trip waits at most until its deadline, and finishes only with a
/// message of the other peer, which both have by then.
pub proof fn law_round_trips_end(s: RoundTripView, received: u32, now: u64)
    ensures
        now >= s.deadline ==> settled(s, received, now) !is Wait,
        settled(s, received, now) matches SettleView::Finish(message) ==> s.got == Some(message)
            && received >= 2,
{
}

// ----- laws ---------------------------------------------------------------------------------------------

/// The sleep ends exactly at the deadline if that is at most fifty milliseconds away, and
/// after fifty milliseconds otherwise; a deadline that has come is not slept on.
pub proof fn law_the_sleep_ends_at_the_deadline(at: u64, now: u64)
    ensures
        delay(None, now) == 50_000_000,
        at <= now ==> delay(Some(at), now) == 0,
        now < at <= now + 50_000_000 ==> now + delay(Some(at), now) == at,
        at > now + 50_000_000 ==> delay(Some(at), now) == 50_000_000,
{
}

/// Every message of the core reaches the owner as it came, at once and alone; nothing
/// else is handed to the owner.
pub proof fn law_every_message_reaches_the_owner(d: DriverView, event: EventView)
    ensures
        event matches EventView::Message { text, data, .. } ==> {
            let actions = on_event_step(d, event).1;
            &&& actions.len() == 1
            &&& actions[0] matches ActionView::Deliver(message) && message.text == text
                && message.data == data
        },
        forall|k: int|
            0 <= k < on_event_step(d, event).1.len() && (#[trigger] on_event_step(d, event).1[k]) is Deliver
                ==> event is Message,
        event is Message ==> on_event_step(d, event).0 == d,
{
}

/// The owner is told of the connection exactly once: upon the first `Connected`, and never
/// upon anything else.
pub proof fn law_the_connection_is_announced_once(d: DriverView, event: EventView)
    ensures
        on_event_step(d, event).1.contains(ActionView::Announce) <==> event is Connected
            && !d.announced,
        on_event_step(d, event).0.announced <==> d.announced || event is Connected,
{
    let actions = on_event_step(d, event).1;
    if event is Connected && !d.announced {
        assert(actions[0] == ActionView::Announce);
    }
    if actions.contains(ActionView::Announce) {
        let k = actions.index_of(ActionView::Announce);
        assert(actions[k] == ActionView::Announce);
    }
}

/// The loop stops upon a failed or a closed connection and upon nothing else.
pub proof fn law_only_a_lost_connection_stops(d: DriverView, event: EventView)
    ensures
        on_event_step(d, event).1.contains(ActionView::Stop) <==> event is Failed || event is Closed,
        event is Failed || event is Closed ==> on_event_step(d, event).1.len() == 1,
        !on_event_step(d, event).1.contains(ActionView::Close),
{
    let actions = on_event_step(d, event).1;
    if event is Failed || event is Closed {
        assert(actions[0] == ActionView::Stop);
    }
    if actions.contains(ActionView::Stop) {
        let k = actions.index_of(ActionView::Stop);
        assert(actions[k] == ActionView::Stop);
    }
    if actions.contains(ActionView::Close) {
        let k = actions.index_of(ActionView::Close);
        assert(actions[k] == ActionView::Close);
    }
}

/// Whatever the owner wants sent is either sent at once, on the first channel, or waits
/// behind what waits already: it is never dropped, changed or overtaken. Only the owner
/// going closes the core.
pub proof fn law_commands_are_sent_or_wait(d: DriverView, message: MessageView)
    ensures
        ({
            let (next, actions) = on_command_step(d, Some(message));
            &&& d.primary is None ==> actions.len() == 0 && next.pending.len() == d.pending.len() + 1
                && next.pending.last() == message && forall|k: int|
                0 <= k < d.pending.len() ==> #[trigger] next.pending[k] == d.pending[k]
            &&& d.primary is Some ==> actions.len() == 1 && next == d && (
            actions[0] matches ActionView::Send { channel, message: sent } && Some(channel)
                == d.primary && sent == message)
            &&& next.primary == d.primary
        }),
        ({
            let (next, actions) = on_command_step(d, None);
            next == d && actions.len() == 1 && actions[0] is Close
        }),
{
}

/// The first channel that opens takes every waiting message, in order and as it was, and
/// leaves none waiting; a later one changes nothing, nor does a channel that closes.
pub proof fn law_the_first_channel_takes_what_waits(
    d: DriverView,
    id: u16,
    label: Seq<char>,
    k: int,
)
    ensures
        ({
            let (next, actions) = on_event_step(d, EventView::ChannelOpen { id, label });
            &&& d.primary is None ==> next.primary == Some(id) && next.pending.len() == 0
                && actions.len() == d.pending.len() && (0 <= k < actions.len() ==> (
            actions[k] matches ActionView::Send { channel, message } && channel == id && message
                == d.pending[k]))
            &&& d.primary is Some ==> next == d && actions.len() == 0
        }),
        on_event_step(d, EventView::ChannelClosed { id }).0 == d,
        on_event_step(d, EventView::ChannelClosed { id }).1.len() == 0,
{
}

/// A peer of a round trip greets once, on the first channel that opens, by its own name;
/// it counts one message of the other peer, the first, and keeps what that says.
pub proof fn law_peers_greet_once_and_keep_the_first_reply(s: RoundTripView, event: EventView)
    ensures
        ({
            let (next, step) = round_trip_step(s, event);
            &&& step is Greet <==> event is ChannelOpen && s.channel is None
            &&& step matches RoundTripStepView::Greet { channel, greeting } ==> (
            event matches EventView::ChannelOpen { id, .. } && channel == id) && next.channel == Some(
                channel,
            ) && greeting == "hello from the "@ + s.role
            &&& step is Count <==> event is Message && s.got is None
            &&& s.got is Some ==> next.got == s.got
            &&& event matches EventView::Message { data, .. } ==> s.got is None ==> next.got == Some(
                lossy_reading(data),
            )
            &&& !(event is Message) ==> next.got == s.got
            &&& s.channel is Some ==> next.channel == s.channel
            &&& next.role == s.role && next.deadline == s.deadline
        }),
{
}

/// A round trip is over once the connection fails or closes, and not before: a failed
/// connection is an error, and a closed one is an error exactly if the other peer has not
/// been heard of; otherwise it ends with what the other peer said.
pub proof fn law_a_lost_connection_ends_the_round_trip(s: RoundTripView, event: EventView)
    ensures
        round_trip_step(s, event).1 is Over <==> event is Failed || event is Closed,
        round_trip_step(s, event).1 matches RoundTripStepView::Over(Ok(message)) ==> event is Closed
            && s.got == Some(message),
        event is Closed && s.got is Some ==> round_trip_step(s, event).1 matches RoundTripStepView::Over(
            Ok(_),
        ),
        event is Failed ==> (round_trip_step(s, event).1 matches RoundTripStepView::Over(Err(text))
            && text == s.role + " connection failed"@),
        event is Closed && s.got is None ==> (round_trip_step(
            s,
            event,
        ).1 matches RoundTripStepView::Over(Err(text)) && text == s.role
            + " closed before exchanging a message"@),
{
}

/// A peer finishes exactly once it has its message and both peers have theirs, even past
/// the deadline, which comes thirty seconds after the start; it gives up exactly if the
/// deadline has come without that.
pub proof fn law_peers_wait_for_each_other(s: RoundTripView, received: u32, now: u64)
    ensures
        settled(s, received, now) is Finish <==> s.got is Some && received >= 2,
        settled(s, received, now) is GiveUp <==> !(s.got is Some && received >= 2) && now
            >= s.deadline,
        settled(s, received, now) matches SettleView::GiveUp(text) ==> text == s.role
            + " timed out before completing the round trip"@,
        OVERALL_TIMEOUT_NANOS == 30_000_000_000,
{
}

} // verus!
