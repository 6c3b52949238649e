//! The native host of the data-channel interfaces: the echo endpoint, the manual-signaling
//! peer, and the bridge between host streams and queues.

use vstd::prelude::*;
use vstd::slice::slice_subrange;

use crate::demo::{Link, LinkView};
use crate::error::{Error, ErrorView};
use crate::negotiation::{connect, progress, Problem, ProblemView, Progress, ProgressView, Style};
use crate::script::{
    replies_view, ChannelOptions, OptionsView, Reply, ReplyView, Request, RequestView, Side,
};

verus! {

// ----- the echo endpoint ------------------------------------------------------------------------------

/// How many replies it takes to create the channel and exchange the descriptions.
pub const DESCRIBED: usize = 7;

/// The building of an echo-connected channel: the near peer creates it, descriptions are
/// exchanged, and the channel is awaited. Candidates are handed over as they come.
pub open spec fn echo_endpoint(options: OptionsView, h: Seq<ReplyView>) -> LinkView {
    let style = Style { set_local: true, trickle_at_once: true };
    let described = if h.len() < DESCRIBED {
        h
    } else {
        h.take(DESCRIBED as int)
    };
    match progress(style, options, described) {
        ProgressView::Stuck(ProblemView::Failed { error, .. }) => LinkView::Failed(error),
        ProgressView::Stuck(_) => LinkView::OutOfStep,
        ProgressView::Ready(_) => LinkView::OutOfStep,
        ProgressView::Ask(request) => if h.len() < DESCRIBED {
            LinkView::Ask(request)
        } else if h.len() == DESCRIBED {
            LinkView::Ask(RequestView::WaitOpen { on: Side::Offerer })
        } else {
            match h[DESCRIBED as int] {
                ReplyView::Done(Ok(())) => LinkView::Ready((DESCRIBED + 1) as nat),
                ReplyView::Done(Err(_)) => LinkView::Failed(
                    ErrorView::Other("data channel closed before opening"@),
                ),
                _ => LinkView::OutOfStep,
            }
        },
    }
}

/// Build an echo-connected near data channel: from the replies so far to what comes next.
pub fn build_echo(options: &ChannelOptions, replies: &[Reply]) -> (r: Link)
    ensures
        r@ == echo_endpoint(options@, replies_view(replies@)),
{
    let ghost h = replies_view(replies@);
    let style = Style { set_local: true, trickle_at_once: true };
    let n = replies.len();
    let described = if n < DESCRIBED {
        replies
    } else {
        slice_subrange(replies, 0, DESCRIBED)
    };
    proof {
        if n >= DESCRIBED {
            assert(replies_view(described@) =~= h.take(DESCRIBED as int));
        }
    }
    match connect(style, options, described) {
        Progress::Stuck(Problem::Failed { stage: _, error }) => Link::Failed(error),
        Progress::Stuck(_) => Link::OutOfStep,
        Progress::Ready(_) => Link::OutOfStep,
        Progress::Ask(request) => {
            if n < DESCRIBED {
                Link::Ask(request)
            } else if n == DESCRIBED {
                Link::Ask(Request::WaitOpen { on: Side::Offerer })
            } else {
                match &replies[DESCRIBED] {
                    Reply::Done(Ok(())) => Link::Ready(DESCRIBED + 1),
                    Reply::Done(Err(_)) => Link::Failed(
                        Error::Other("data channel closed before opening".to_string()),
                    ),
                    _ => Link::OutOfStep,
                }
            }
        },
    }
}

// ----- a channel's inbound messages ----------------------------------------------------------------------

/// The inbound messages of a channel, which are taken once.
pub struct Incoming {
    pub taken: bool,
}

impl Incoming {
    /// Take the inbound messages. There are none to take after the first call.
    pub fn take_incoming(&mut self) -> (r: Result<(), String>)
        ensures
            final(self).taken,
            match r {
                Ok(()) => !old(self).taken,
                Err(text) => old(self).taken && text@
                    == "receive() may only be called once per channel"@,
            },
    {
        if self.taken {
            Err("receive() may only be called once per channel".to_string())
        } else {
            self.taken = true;
            Ok(())
        }
    }
}

// ----- the manual-signaling peer ------------------------------------------------------------------------------

/// What a manual-signaling peer has: its connection is created on first use, and its
/// channel is wired when the offerer creates it or when it reaches the answerer.
#[derive(Debug, Clone, Copy, PartialEq, Eq, Structural)]
pub struct ManualPeer {
    /// The connection was created, and is not closed.
    pub connection: bool,
    /// The channel is known.
    pub channel: bool,
    /// The channel's inbound messages were not taken yet.
    pub incoming: bool,
    /// The signal that the channel is open was not taken yet.
    pub open: bool,
    /// (Answerer only) the signal that the channel has arrived was not taken yet.
    pub arrival: bool,
}

/// The message of a peer without a connection.
pub const NOT_INITIALIZED: &'static str = "peer connection has not been initialized";

/// The message of a peer whose local description cannot be read back.
pub const NO_LOCAL_DESCRIPTION: &'static str = "no local description available";

/// A peer whose channel was wired.
pub open spec fn wired(peer: ManualPeer) -> ManualPeer {
    ManualPeer { channel: true, incoming: true, open: true, ..peer }
}

/// What the last step of connecting comes to.
pub open spec fn finishing(peer: ManualPeer) -> (ManualPeer, Result<(), Seq<char>>) {
    if !peer.channel {
        (peer, Err("no data channel was negotiated"@))
    } else if !peer.incoming {
        (peer, Err("data channel has no inbound stream"@))
    } else {
        (
            ManualPeer { incoming: false, ..peer },
            if peer.connection {
                Ok(())
            } else {
                Err(NOT_INITIALIZED@)
            },
        )
    }
}

impl ManualPeer {
    /// An uninitialized peer.
    pub fn new() -> (r: Self)
        ensures
            r == (ManualPeer {
                connection: false,
                channel: false,
                incoming: false,
                open: false,
                arrival: false,
            }),
    {
        ManualPeer {
            connection: false,
            channel: false,
            incoming: false,
            open: false,
            arrival: false,
        }
    }

    /// The connection was created. The answerer's channel arrives later.
    pub fn init_pc(&mut self, role: Side)
        ensures
            *final(self) == (ManualPeer {
                connection: true,
                arrival: match role {
                    Side::Offerer => old(self).arrival,
                    Side::Answerer => true,
                },
                ..*old(self)
            }),
    {
        self.connection = true;
        match role {
            Side::Offerer => {},
            Side::Answerer => {
                self.arrival = true;
            },
        }
    }

    /// The channel is known and its handlers are attached.
    pub fn wire_channel(&mut self)
        ensures
            *final(self) == wired(*old(self)),
    {
        self.channel = true;
        self.incoming = true;
        self.open = true;
    }

    /// Whether there is a connection to use; signaling has to start first.
    pub fn pc(&self) -> (r: Result<(), String>)
        ensures
            match r {
                Ok(()) => self.connection,
                Err(text) => !self.connection && text@ == NOT_INITIALIZED@,
            },
    {
        if self.connection {
            Ok(())
        } else {
            Err(NOT_INITIALIZED.to_string())
        }
    }

    /// Begin to connect: whether the arrival of the channel is awaited first.
    pub fn take_arrival(&mut self) -> (r: bool)
        ensures
            r == old(self).arrival,
            *final(self) == (ManualPeer { arrival: false, ..*old(self) }),
    {
        let r = self.arrival;
        self.arrival = false;
        r
    }

    /// Go on connecting: the channel's opening is awaited, which takes a channel.
    pub fn take_open(&mut self) -> (r: Result<(), String>)
        ensures
            *final(self) == (ManualPeer { open: false, ..*old(self) }),
            match r {
                Ok(()) => old(self).open,
                Err(text) => !old(self).open && text@
                    == "connect() called before signaling produced a channel"@,
            },
    {
        if self.open {
            self.open = false;
            Ok(())
        } else {
            Err("connect() called before signaling produced a channel".to_string())
        }
    }

    /// Finish connecting: the channel, its inbound messages and the connection are handed
    /// out.
    pub fn connect(&mut self) -> (r: Result<(), String>)
        ensures
            (
                *final(self),
                match r {
                    Ok(()) => Ok(()),
                    Err(text) => Err(text@),
                },
            ) == finishing(*old(self)),
    {
        if !self.channel {
            return Err("no data channel was negotiated".to_string());
        }
        if !self.incoming {
            return Err("data channel has no inbound stream".to_string());
        }
        self.incoming = false;
        self.pc()
    }

    /// Close the connection: whether there is one to close. A second call is a no-op.
    pub fn close(&mut self) -> (r: bool)
        ensures
            r == old(self).connection,
            *final(self) == (ManualPeer { connection: false, ..*old(self) }),
    {
        let r = self.connection;
        self.connection = false;
        r
    }
}

/// A peer connects once: after the channel was wired and handed out, its opening is no
/// longer there to be awaited, and its inbound messages are no longer there to be taken.
pub proof fn law_a_peer_connects_once(peer: ManualPeer)
    requires
        peer.connection,
    ensures
        ({
            let opened = ManualPeer { open: false, ..wired(peer) };
            let (after, outcome) = finishing(opened);
            &&& wired(peer).open
            &&& outcome is Ok
            &&& !after.open
            &&& finishing(after) == (after, Err::<(), Seq<char>>("data channel has no inbound stream"@))
        }),
{
}

// ----- streams ----------------------------------------------------------------------------------------------------

/// What a source of items has to offer.
#[derive(Debug, Clone, Copy, PartialEq, Eq, Structural)]
pub enum Polled {
    Pending,
    Item,
    End,
}

/// What a stream reports to its component.
#[derive(Debug, Clone, Copy, PartialEq, Eq, Structural)]
pub enum StreamStep {
    /// Ask again later.
    Pending,
    /// The transfer was called off.
    Cancelled,
    /// One item was transferred.
    Completed,
    /// The other end has gone.
    Dropped,
}

/// Produce an item of a component's stream. A transfer that is to finish does not wait.
pub fn poll_produce(source: Polled, finish: bool) -> (r: StreamStep)
    ensures
        r == (match source {
            Polled::Pending => if finish {
                StreamStep::Cancelled
            } else {
                StreamStep::Pending
            },
            Polled::Item => StreamStep::Completed,
            Polled::End => StreamStep::Dropped,
        }),
{
    match source {
        Polled::Pending => if finish {
            StreamStep::Cancelled
        } else {
            StreamStep::Pending
        },
        Polled::Item => StreamStep::Completed,
        Polled::End => StreamStep::Dropped,
    }
}

/// Consume an item of a component's stream: only once the sink has flushed and is ready is
/// one taken. A transfer that is to finish does not wait.
pub fn poll_consume(flushed: bool, ready: bool, finish: bool) -> (r: StreamStep)
    ensures
        r == (if flushed && ready {
            StreamStep::Completed
        } else if finish {
            StreamStep::Cancelled
        } else {
            StreamStep::Pending
        }),
{
    if flushed && ready {
        StreamStep::Completed
    } else if finish {
        StreamStep::Cancelled
    } else {
        StreamStep::Pending
    }
}

// ----- laws -------------------------------------------------------------------------------------------------------

/// The echo channel is ready exactly after eight good replies: the channel was created,
/// the descriptions were exchanged, and the near channel opened.
pub proof fn law_the_echo_is_ready_once_open(options: OptionsView, h: Seq<ReplyView>, n: nat)
    ensures
        echo_endpoint(options, h) == LinkView::Ready(n) <==> n == 8 && h.len() >= 8 && (
        h[7] matches ReplyView::Done(Ok(_))) && progress(
            Style { set_local: true, trickle_at_once: true },
            options,
            h.take(7),
        ) is Ask,
        h.len() == 7 && progress(
            Style { set_local: true, trickle_at_once: true },
            options,
            h.take(7),
        ) is Ask ==> echo_endpoint(options, h) == LinkView::Ask(
            RequestView::WaitOpen { on: Side::Offerer },
        ),
        h.len() < 7 ==> match progress(
            Style { set_local: true, trickle_at_once: true },
            options,
            h,
        ) {
            ProgressView::Ask(request) => echo_endpoint(options, h) == LinkView::Ask(request),
            ProgressView::Stuck(ProblemView::Failed { error, .. }) => echo_endpoint(options, h)
                == LinkView::Failed(error),
            _ => echo_endpoint(options, h) == LinkView::OutOfStep,
        },
{
}

/// A peer hands its channel out exactly if it has a channel whose inbound messages were
/// not taken yet and a connection; the inbound messages are taken by that and by nothing
/// that fails for want of them.
pub proof fn law_what_connecting_takes(peer: ManualPeer)
    ensures
        finishing(peer).1 is Ok <==> peer.channel && peer.incoming && peer.connection,
        finishing(peer).0.incoming <==> peer.incoming && !peer.channel,
        finishing(peer).0.connection == peer.connection,
        finishing(peer).0.channel == peer.channel,
        finishing(peer).0.open == peer.open,
        finishing(peer).0.arrival == peer.arrival,
        finishing(peer).1 == Err::<(), Seq<char>>("peer connection has not been initialized"@)
            <== peer.channel && peer.incoming && !peer.connection,
        finishing(peer).1 == Err::<(), Seq<char>>("no data channel was negotiated"@)
            <== !peer.channel,
{
}

/// A wired channel can be awaited and read, whatever the peer had before; wiring changes
/// nothing else.
pub proof fn law_wiring_makes_the_channel_usable(peer: ManualPeer)
    ensures
        wired(peer).channel && wired(peer).incoming && wired(peer).open,
        wired(peer).connection == peer.connection,
        wired(peer).arrival == peer.arrival,
        peer.connection ==> finishing(wired(peer)).1 is Ok,
{
}

/// An echo channel that closes before it opens is reported as that, whatever the error was.
pub proof fn law_echoes_that_never_open_fail(
    options: OptionsView,
    h: Seq<ReplyView>,
    error: ErrorView,
)
    requires
        h.len() >= 8,
        h[7] == ReplyView::Done(Err(error)),
        progress(Style { set_local: true, trickle_at_once: true }, options, h.take(7)) is Ask,
    ensures
        echo_endpoint(options, h) == LinkView::Failed(
            ErrorView::Other("data channel closed before opening"@),
        ),
{
}

} // verus!
