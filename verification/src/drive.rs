//! The event loop of a peer that runs on a task of its own, one step at a time.
//!
//! Each turn of the loop sends the queued datagrams, deals with the core's events, sends
//! what they queued, and waits for the earliest of the core's deadline, a command of the
//! owner and a datagram. [`Drive::step`] takes how the last request went and gives the
//! next one, so that whoever owns the socket, the clock and the core only performs
//! requests.

use vstd::prelude::*;

use crate::driver::{
    actions_view, delay, on_command_step, on_event_step, wait_delay, ActionView, Driver,
    DriverAction, DriverView,
};
use crate::peer_event::{events_view, EventView, InboundMessage, MessageView, PeerEvent};
use crate::text::{lossy_reading, lossy_text};

verus! {

// ----- requests and replies --------------------------------------------------------------------------

/// What the loop asks for.
#[derive(Debug)]
pub enum DriveRequest {
    /// Send every datagram that the core has queued. Errors are ignored.
    Flush,
    /// Take the events of the core.
    Drain,
    /// Tell the owner that the peer is connected.
    Announce,
    /// Send text on a channel. Errors are ignored: a closed channel shows as an event.
    SendText { channel: u16, text: String },
    /// Send bytes on a channel. Errors are ignored as for text.
    SendBinary { channel: u16, data: Vec<u8> },
    /// Hand a message to the owner.
    Deliver(InboundMessage),
    /// Ask the core for its next deadline, and the clock for the time.
    AskDeadline,
    /// Wait for a command or a datagram, but no longer than this.
    Wait { nanos: u64 },
    /// Let the core deal with the time.
    HandleTimeout,
    /// Let the core deal with the datagram.
    HandleInput,
    /// Close the core.
    Close,
    /// The loop has ended.
    End,
}

/// The contents of a [`DriveRequest`].
#[verifier::ext_equal]
pub enum RequestView {
    Flush,
    Drain,
    Announce,
    SendText { channel: u16, text: Seq<char> },
    SendBinary { channel: u16, data: Seq<u8> },
    Deliver(MessageView),
    AskDeadline,
    Wait { nanos: u64 },
    HandleTimeout,
    HandleInput,
    Close,
    End,
}

impl View for DriveRequest {
    type V = RequestView;

    open spec fn view(&self) -> RequestView {
        match self {
            DriveRequest::Flush => RequestView::Flush,
            DriveRequest::Drain => RequestView::Drain,
            DriveRequest::Announce => RequestView::Announce,
            DriveRequest::SendText { channel, text } => RequestView::SendText {
                channel: *channel,
                text: text@,
            },
            DriveRequest::SendBinary { channel, data } => RequestView::SendBinary {
                channel: *channel,
                data: data@,
            },
            DriveRequest::Deliver(message) => RequestView::Deliver(message@),
            DriveRequest::AskDeadline => RequestView::AskDeadline,
            DriveRequest::Wait { nanos } => RequestView::Wait { nanos: *nanos },
            DriveRequest::HandleTimeout => RequestView::HandleTimeout,
            DriveRequest::HandleInput => RequestView::HandleInput,
            DriveRequest::Close => RequestView::Close,
            DriveRequest::End => RequestView::End,
        }
    }
}

/// How a request went.
#[derive(Debug)]
pub enum DriveReply {
    /// It was performed, or there is nothing to reply to yet.
    Done,
    /// The events of the core.
    Events(Vec<PeerEvent>),
    /// The owner no longer takes messages.
    Unheard,
    /// The core's next deadline, if it has one, and the time.
    Deadline { deadline: Option<u64>, now: u64 },
    /// The wait ended with its time.
    Timer,
    /// The wait ended with a message that the owner wants sent, or with the owner gone.
    Command(Option<InboundMessage>),
    /// The wait ended with a datagram.
    Datagram,
    /// The wait ended with an error of the socket.
    NoDatagram,
}

/// The contents of a [`DriveReply`].
pub enum ReplyView {
    Done,
    Events(Seq<EventView>),
    Unheard,
    Deadline { deadline: Option<u64>, now: u64 },
    Timer,
    Command(Option<MessageView>),
    Datagram,
    NoDatagram,
}

impl View for DriveReply {
    type V = ReplyView;

    open spec fn view(&self) -> ReplyView {
        match self {
            DriveReply::Done => ReplyView::Done,
            DriveReply::Events(events) => ReplyView::Events(events_view(events@)),
            DriveReply::Unheard => ReplyView::Unheard,
            DriveReply::Deadline { deadline, now } => ReplyView::Deadline {
                deadline: *deadline,
                now: *now,
            },
            DriveReply::Timer => ReplyView::Timer,
            DriveReply::Command(Some(message)) => ReplyView::Command(Some(message@)),
            DriveReply::Command(None) => ReplyView::Command(None),
            DriveReply::Datagram => ReplyView::Datagram,
            DriveReply::NoDatagram => ReplyView::NoDatagram,
        }
    }
}

// ----- the loop ------------------------------------------------------------------------------------------

/// What the loop waits to hear of.
#[derive(Debug, Clone, Copy, PartialEq, Eq, Structural)]
pub enum Phase {
    /// Nothing: it has not asked for anything yet.
    Starting,
    /// The flush at the start of a turn.
    Flushing,
    /// The events of the core.
    Draining,
    /// What an event asked for.
    Acting,
    /// A message handed to the owner.
    Delivering,
    /// The flush before the wait.
    Settling,
    /// The deadline of the core.
    Asking,
    /// The wait.
    Waiting,
    /// What a command asked for.
    Commanding,
    /// The core, dealing with the time or a datagram.
    Handling,
    /// The core, closing.
    Closing,
    /// The flush after the core has closed.
    Leaving,
    /// Nothing any more.
    Ended,
}

/// A loop between two of its requests.
pub struct Drive {
    driver: Driver,
    phase: Phase,
    events: Vec<PeerEvent>,
    actions: Vec<DriverAction>,
}

/// The contents of a [`Drive`].
#[verifier::ext_equal]
pub struct DriveView {
    pub driver: DriverView,
    pub phase: Phase,
    /// The events that are still to be dealt with.
    pub events: Seq<EventView>,
    /// What the last event or command still asks for.
    pub actions: Seq<ActionView>,
}

impl View for Drive {
    type V = DriveView;

    closed spec fn view(&self) -> DriveView {
        DriveView {
            driver: self.driver@,
            phase: self.phase,
            events: events_view(self.events@),
            actions: actions_view(self.actions@),
        }
    }
}

/// How a message is sent: text as what its bytes read as, anything else as it is.
pub open spec fn send_request(channel: u16, message: MessageView) -> RequestView {
    if message.text {
        RequestView::SendText { channel, text: lossy_reading(message.data) }
    } else {
        RequestView::SendBinary { channel, data: message.data }
    }
}

/// The loop goes on with what is left to do: the next action; if there is none, the
/// actions of the next event; if there is none, the flush that follows.
pub open spec fn act(d: DriveView) -> (DriveView, RequestView)
    decreases d.events.len(),
{
    if d.actions.len() > 0 {
        let rest = DriveView { actions: d.actions.drop_first(), ..d };
        match d.actions[0] {
            ActionView::Announce => (rest, RequestView::Announce),
            ActionView::Send { channel, message } => (rest, send_request(channel, message)),
            ActionView::Deliver(message) => (
                DriveView { phase: Phase::Delivering, ..rest },
                RequestView::Deliver(message),
            ),
            ActionView::Close => (
                DriveView { phase: Phase::Closing, ..rest },
                RequestView::Close,
            ),
            ActionView::Stop => (DriveView { phase: Phase::Ended, ..rest }, RequestView::End),
        }
    } else if d.events.len() > 0 {
        let (driver, actions) = on_event_step(d.driver, d.events[0]);
        act(DriveView { driver, actions, events: d.events.drop_first(), ..d })
    } else if d.phase is Commanding {
        (DriveView { phase: Phase::Flushing, ..d }, RequestView::Flush)
    } else {
        (DriveView { phase: Phase::Settling, ..d }, RequestView::Flush)
    }
}

/// A reply that the loop waits for.
pub open spec fn fits(phase: Phase, reply: ReplyView) -> bool {
    match phase {
        Phase::Draining => reply is Events,
        Phase::Delivering => reply is Done || reply is Unheard,
        Phase::Asking => reply is Deadline,
        Phase::Waiting => reply is Timer || reply is Command || reply is Datagram
            || reply is NoDatagram,
        _ => reply is Done,
    }
}

/// The loop after a reply, and what it asks for next.
pub open spec fn drive_step(d: DriveView, reply: ReplyView) -> (DriveView, RequestView) {
    match d.phase {
        Phase::Starting => (DriveView { phase: Phase::Flushing, ..d }, RequestView::Flush),
        Phase::Flushing => (DriveView { phase: Phase::Draining, ..d }, RequestView::Drain),
        Phase::Draining => act(
            DriveView { phase: Phase::Acting, events: reply->Events_0, actions: seq![], ..d },
        ),
        Phase::Acting => act(d),
        Phase::Delivering => if reply is Unheard {
            (DriveView { phase: Phase::Ended, ..d }, RequestView::End)
        } else {
            act(DriveView { phase: Phase::Acting, ..d })
        },
        Phase::Settling => (DriveView { phase: Phase::Asking, ..d }, RequestView::AskDeadline),
        Phase::Asking => (
            DriveView { phase: Phase::Waiting, ..d },
            RequestView::Wait { nanos: delay(reply->deadline, reply->now) },
        ),
        Phase::Waiting => match reply {
            ReplyView::Timer => (
                DriveView { phase: Phase::Handling, ..d },
                RequestView::HandleTimeout,
            ),
            ReplyView::Datagram => (
                DriveView { phase: Phase::Handling, ..d },
                RequestView::HandleInput,
            ),
            ReplyView::Command(command) => {
                let (driver, actions) = on_command_step(d.driver, command);
                act(DriveView { driver, phase: Phase::Commanding, events: seq![], actions })
            },
            _ => (DriveView { phase: Phase::Flushing, ..d }, RequestView::Flush),
        },
        Phase::Commanding => act(d),
        Phase::Handling => (DriveView { phase: Phase::Flushing, ..d }, RequestView::Flush),
        Phase::Closing => (DriveView { phase: Phase::Leaving, ..d }, RequestView::Flush),
        Phase::Leaving => (DriveView { phase: Phase::Ended, ..d }, RequestView::End),
        Phase::Ended => (d, RequestView::End),
    }
}

impl Drive {
    /// A loop about to run.
    pub fn new() -> (r: Self)
        ensures
            r@ == (DriveView {
                driver: DriverView { primary: None, pending: seq![], announced: false },
                phase: Phase::Starting,
                events: seq![],
                actions: seq![],
            }),
    {
        let r = Drive {
            driver: Driver::new(),
            phase: Phase::Starting,
            events: Vec::new(),
            actions: Vec::new(),
        };
        assert(r@.events =~= seq![]);
        assert(r@.actions =~= seq![]);
        r
    }

    /// What the loop waits to hear of.
    pub fn phase(&self) -> (r: Phase)
        ensures
            r == self@.phase,
    {
        self.phase
    }

    /// Go on with what is left to do.
    fn act(&mut self) -> (r: DriveRequest)
        ensures
            (final(self)@, r@) == act(old(self)@),
    {
        let ghost start = self@;
        while self.actions.len() == 0 && self.events.len() > 0
            invariant
                act(start) == act(self@),
            decreases self.events@.len(),
        {
            let ghost before = self@;
            let event = self.events.remove(0);
            assert(self@.events =~= before.events.drop_first());
            assert(event@ == before.events[0]);
            self.actions = self.driver.on_event(event);
        }
        if self.actions.len() > 0 {
            let ghost before = self@;
            let action = self.actions.remove(0);
            assert(self@.actions =~= before.actions.drop_first());
            assert(action@ == before.actions[0]);
            match action {
                DriverAction::Announce => DriveRequest::Announce,
                DriverAction::Send { channel, message } => if message.text {
                    DriveRequest::SendText { channel, text: lossy_text(message.data.as_slice()) }
                } else {
                    DriveRequest::SendBinary { channel, data: message.data }
                },
                DriverAction::Deliver(message) => {
                    self.phase = Phase::Delivering;
                    DriveRequest::Deliver(message)
                },
                DriverAction::Close => {
                    self.phase = Phase::Closing;
                    DriveRequest::Close
                },
                DriverAction::Stop => {
                    self.phase = Phase::Ended;
                    DriveRequest::End
                },
            }
        } else {
            self.phase = if matches!(self.phase, Phase::Commanding) {
                Phase::Flushing
            } else {
                Phase::Settling
            };
            DriveRequest::Flush
        }
    }

    /// Take how the last request went, and give the next one. The reply has to be one
    /// to what was asked for.
    pub fn step(&mut self, reply: DriveReply) -> (r: DriveRequest)
        requires
            fits(old(self)@.phase, reply@),
        ensures
            (final(self)@, r@) == drive_step(old(self)@, reply@),
    {
        match self.phase {
            Phase::Starting => {
                self.phase = Phase::Flushing;
                DriveRequest::Flush
            },
            Phase::Flushing => {
                self.phase = Phase::Draining;
                DriveRequest::Drain
            },
            Phase::Draining => {
                if let DriveReply::Events(events) = reply {
                    self.phase = Phase::Acting;
                    self.events = events;
                    self.actions = Vec::new();
                    assert(self@.actions =~= seq![]);
                }
                self.act()
            },
            Phase::Acting => self.act(),
            Phase::Delivering => match reply {
                DriveReply::Unheard => {
                    self.phase = Phase::Ended;
                    DriveRequest::End
                },
                _ => {
                    self.phase = Phase::Acting;
                    self.act()
                },
            },
            Phase::Settling => {
                self.phase = Phase::Asking;
                DriveRequest::AskDeadline
            },
            Phase::Asking => {
                self.phase = Phase::Waiting;
                let nanos = match reply {
                    DriveReply::Deadline { deadline, now } => wait_delay(deadline, now),
                    _ => 0,
                };
                DriveRequest::Wait { nanos }
            },
            Phase::Waiting => match reply {
                DriveReply::Timer => {
                    self.phase = Phase::Handling;
                    DriveRequest::HandleTimeout
                },
                DriveReply::Datagram => {
                    self.phase = Phase::Handling;
                    DriveRequest::HandleInput
                },
                DriveReply::Command(command) => {
                    self.phase = Phase::Commanding;
                    self.events = Vec::new();
                    self.actions = self.driver.on_command(command);
                    assert(self@.events =~= seq![]);
                    self.act()
                },
                _ => {
                    self.phase = Phase::Flushing;
                    DriveRequest::Flush
                },
            },
            Phase::Commanding => self.act(),
            Phase::Handling => {
                self.phase = Phase::Flushing;
                DriveRequest::Flush
            },
            Phase::Closing => {
                self.phase = Phase::Leaving;
                DriveRequest::Flush
            },
            Phase::Leaving => {
                self.phase = Phase::Ended;
                DriveRequest::End
            },
            Phase::Ended => DriveRequest::End,
        }
    }
}

// ----- laws ------------------------------------------------------------------------------------------------

proof fn lemma_act(d: DriveView)
    requires
        d.phase is Acting || d.phase is Commanding,
    ensures
        ({
            let (next, request) = act(d);
            &&& next.phase is Settling ==> request is Flush && d.phase is Acting
            &&& next.phase is Settling || next.phase is Flushing ==> next.events.len() == 0
                && next.actions.len() == 0
            &&& !(request is AskDeadline) && !(request is Wait)
            &&& request is End <==> next.phase is Ended
        }),
    decreases d.events.len(),
{
    if d.actions.len() == 0 && d.events.len() > 0 {
        let (driver, actions) = on_event_step(d.driver, d.events[0]);
        lemma_act(DriveView { driver, actions, events: d.events.drop_first(), ..d });
    }
}

/// The loop never sleeps on work: it asks for the deadline it waits for only once a
/// flush has been performed after every event was dealt with, so that what the events
/// sent is on the wire before the wait.
pub proof fn law_sends_go_out_before_the_wait(d: DriveView, reply: ReplyView)
    requires
        fits(d.phase, reply),
    ensures
        drive_step(d, reply).1 is Wait ==> d.phase is Asking,
        drive_step(d, reply).1 is AskDeadline ==> d.phase is Settling,
        drive_step(d, reply).0.phase is Settling ==> drive_step(d, reply).1 is Flush && drive_step(
            d,
            reply,
        ).0.events.len() == 0 && drive_step(d, reply).0.actions.len() == 0,
{
    match d.phase {
        Phase::Draining => lemma_act(
            DriveView { phase: Phase::Acting, events: reply->Events_0, actions: seq![], ..d },
        ),
        Phase::Acting => lemma_act(d),
        Phase::Delivering => lemma_act(DriveView { phase: Phase::Acting, ..d }),
        Phase::Waiting => {
            if let ReplyView::Command(command) = reply {
                let (driver, actions) = on_command_step(d.driver, command);
                lemma_act(DriveView { driver, phase: Phase::Commanding, events: seq![], actions });
            }
        },
        Phase::Commanding => lemma_act(d),
        _ => {},
    }
}

/// The loop ends at once when the connection fails or closes, and when the owner no
/// longer takes messages; it asks for nothing more once it has ended.
pub proof fn law_the_loop_ends(d: DriveView, reply: ReplyView)
    ensures
        d.phase is Delivering && reply is Unheard ==> drive_step(d, reply).1 is End && drive_step(
            d,
            reply,
        ).0.phase is Ended,
        d.phase is Draining && (reply matches ReplyView::Events(events) && events.len() > 0 && (
        events[0] is Failed || events[0] is Closed)) ==> drive_step(d, reply).1 is End && drive_step(
            d,
            reply,
        ).0.phase is Ended,
        d.phase is Ended ==> drive_step(d, reply) == (d, RequestView::End),
{
    if d.phase is Draining {
        if let ReplyView::Events(events) = reply {
            reveal_with_fuel(act, 3);
        }
    }
}

/// When the owner has gone the core is closed, what that queued is sent, and only then
/// does the loop end.
pub proof fn law_closing_says_goodbye(d: DriveView)
    requires
        d.phase is Waiting,
    ensures
        ({
            let (closing, first) = drive_step(d, ReplyView::Command(None));
            let (leaving, second) = drive_step(closing, ReplyView::Done);
            let (ended, third) = drive_step(leaving, ReplyView::Done);
            first is Close && second is Flush && third is End && ended.phase is Ended
        }),
{
}

/// A message that the owner wants sent goes out as soon as the wait ends if a channel is
/// open: text as what its bytes read as, anything else byte for byte.
pub proof fn law_commands_are_sent_on_the_first_channel(d: DriveView, message: MessageView)
    requires
        d.phase is Waiting,
        d.driver.primary is Some,
    ensures
        drive_step(d, ReplyView::Command(Some(message))).1 == send_request(
            d.driver.primary->0,
            message,
        ),
        message.text ==> send_request(d.driver.primary->0, message) == (RequestView::SendText {
            channel: d.driver.primary->0,
            text: lossy_reading(message.data),
        }),
{
}

proof fn lemma_act_requests(d: DriveView)
    requires
        d.phase is Acting || d.phase is Commanding,
    ensures
        !(act(d).1 is HandleTimeout),
        !(act(d).1 is HandleInput),
        !(act(d).1 is Drain),
    decreases d.events.len(),
{
    if d.actions.len() == 0 && d.events.len() > 0 {
        let (driver, actions) = on_event_step(d.driver, d.events[0]);
        lemma_act_requests(DriveView { driver, actions, events: d.events.drop_first(), ..d });
    }
}

/// The core hears of everything that ends a wait: of the time exactly if the wait ran
/// out, of a datagram exactly if one came. After either, and after an error of the
/// socket, the next turn begins with a flush.
pub proof fn law_what_ends_a_wait_reaches_the_core(d: DriveView, reply: ReplyView)
    requires
        fits(d.phase, reply),
    ensures
        drive_step(d, reply).1 is HandleTimeout <==> d.phase is Waiting && reply is Timer,
        drive_step(d, reply).1 is HandleInput <==> d.phase is Waiting && reply is Datagram,
        drive_step(d, reply).1 is HandleTimeout || drive_step(d, reply).1 is HandleInput
            ==> drive_step(drive_step(d, reply).0, ReplyView::Done).1 is Flush && drive_step(
            drive_step(d, reply).0,
            ReplyView::Done,
        ).0.phase is Flushing,
        d.phase is Waiting && reply is NoDatagram ==> drive_step(d, reply).1 is Flush && drive_step(
            d,
            reply,
        ).0.phase is Flushing,
        drive_step(d, reply).1 is Drain <==> d.phase is Flushing,
{
    match d.phase {
        Phase::Draining => lemma_act_requests(
            DriveView { phase: Phase::Acting, events: reply->Events_0, actions: seq![], ..d },
        ),
        Phase::Acting => lemma_act_requests(d),
        Phase::Delivering => lemma_act_requests(DriveView { phase: Phase::Acting, ..d }),
        Phase::Waiting => {
            if let ReplyView::Command(command) = reply {
                let (driver, actions) = on_command_step(d.driver, command);
                lemma_act_requests(
                    DriveView { driver, phase: Phase::Commanding, events: seq![], actions },
                );
            }
        },
        Phase::Commanding => lemma_act_requests(d),
        _ => {},
    }
}

/// What the events still to be dealt with ask for, one event after another.
pub open spec fn asked_by(driver: DriverView, events: Seq<EventView>) -> Seq<ActionView>
    decreases events.len(),
{
    if events.len() == 0 {
        seq![]
    } else {
        let (next, actions) = on_event_step(driver, events[0]);
        actions + asked_by(next, events.drop_first())
    }
}

/// Everything the loop has still to do before it goes on.
pub open spec fn owed(d: DriveView) -> Seq<ActionView> {
    d.actions + asked_by(d.driver, d.events)
}

/// The request that an action comes to.
pub open spec fn carries_out(request: RequestView, action: ActionView) -> bool {
    match action {
        ActionView::Announce => request is Announce,
        ActionView::Send { channel, message } => if message.text {
            request matches RequestView::SendText { channel: on, text } && on == channel && text
                == lossy_reading(message.data)
        } else {
            request matches RequestView::SendBinary { channel: on, data } && on == channel && data
                == message.data
        },
        ActionView::Deliver(message) => request matches RequestView::Deliver(m) && m == message,
        ActionView::Close => request is Close,
        ActionView::Stop => request is End,
    }
}

/// Nothing that an event or a command asks for is lost, doubled or done out of order: the
/// loop carries out the first thing it owes and then owes the rest, and flushes only once
/// it owes nothing.
pub proof fn law_everything_owed_is_done_in_order(d: DriveView)
    requires
        d.phase is Acting || d.phase is Commanding,
    ensures
        owed(d).len() > 0 ==> carries_out(act(d).1, owed(d)[0]) && owed(act(d).0) == owed(
            d,
        ).drop_first(),
        owed(d).len() == 0 ==> act(d).1 is Flush && owed(act(d).0).len() == 0,
    decreases d.events.len(),
{
    if d.actions.len() > 0 {
        let rest = asked_by(d.driver, d.events);
        assert((d.actions + rest).drop_first() =~= d.actions.drop_first() + rest);
    } else if d.events.len() > 0 {
        let (driver, actions) = on_event_step(d.driver, d.events[0]);
        let next = DriveView { driver, actions, events: d.events.drop_first(), ..d };
        law_everything_owed_is_done_in_order(next);
        assert(owed(d) =~= owed(next));
    } else {
        assert(owed(d) =~= seq![]);
    }
}

/// The core's events are what the loop owes next, all of them and in their order; the
/// turn after a delivery, a send or an announcement goes on with the rest.
pub proof fn law_drained_events_are_owed(d: DriveView, events: Seq<EventView>)
    ensures
        d.phase is Draining ==> drive_step(d, ReplyView::Events(events)) == act(
            DriveView { driver: d.driver, phase: Phase::Acting, events, actions: seq![] },
        ),
        d.phase is Acting || d.phase is Commanding ==> drive_step(d, ReplyView::Done) == act(d),
        d.phase is Delivering ==> drive_step(d, ReplyView::Done) == act(
            DriveView { driver: d.driver, phase: Phase::Acting, events: d.events, actions: d.actions },
        ),
{
}

/// The wait is as long as the core's deadline allows, at most fifty milliseconds.
pub proof fn law_the_wait_ends_by_the_deadline(d: DriveView, deadline: Option<u64>, now: u64)
    requires
        d.phase is Asking,
    ensures
        drive_step(d, ReplyView::Deadline { deadline, now }).1 matches RequestView::Wait { nanos }
            && nanos <= 50_000_000 && match deadline {
            Some(at) => if at <= now {
                nanos == 0
            } else {
                nanos == at - now || (nanos == 50_000_000 && now + nanos <= at)
            },
            None => nanos == 50_000_000,
        },
{
}

/// A turn is a flush, the core's events, what they ask for, a second flush, the question
/// for the deadline and the wait, one after another.
pub proof fn law_turns_go_round(d: DriveView, deadline: Option<u64>, now: u64)
    requires
        d.phase is Starting || d.phase is Handling,
    ensures
        ({
            let (flushing, first) = drive_step(d, ReplyView::Done);
            let (draining, second) = drive_step(flushing, ReplyView::Done);
            let (settling, third) = drive_step(draining, ReplyView::Events(seq![]));
            let (asking, fourth) = drive_step(settling, ReplyView::Done);
            let (waiting, fifth) = drive_step(asking, ReplyView::Deadline { deadline, now });
            first is Flush && second is Drain && third is Flush && fourth is AskDeadline && fifth is Wait
                && waiting.phase is Waiting
        }),
{
    reveal_with_fuel(act, 2);
}

} // verus!
