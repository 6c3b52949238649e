//! The client side of the mailbox protocol: the URLs a session asks for, and what
//! the replies say.
//!
//! A session is bound to one room and role. It publishes to its own role's mailbox
//! and consumes the peer's mailbox in publish order, tracking the next sequence
//! number to fetch (reads are idempotent, so a retried fetch observes the same blob).

use vstd::prelude::*;

use crate::error::{Error, ErrorView};
use crate::rooms::{Fetch, FetchView, MailboxView, Role};
use crate::text::{
    concat2, concat3, decimal, to_decimal, trim_end_matches, trim_end_of,
};

verus! {

/// Which client drives a session: the native one of the hosts, or the one that runs
/// within the guest.
#[derive(Debug, Clone, Copy, PartialEq, Eq, Structural)]
pub enum Client {
    Native,
    InGuest,
}

/// A joined mailbox session: one room and role on one server.
#[derive(Debug, Clone)]
pub struct MailboxSession {
    client: Client,
    base: String,
    room: String,
    role: Role,
    /// The next sequence number to fetch from the peer's mailbox.
    recv_seq: u64,
}

/// The contents of a [`MailboxSession`].
#[verifier::ext_equal]
pub struct SessionView {
    pub client: Client,
    pub base: Seq<char>,
    pub room: Seq<char>,
    pub role: Role,
    pub recv_seq: u64,
}

impl View for MailboxSession {
    type V = SessionView;

    closed spec fn view(&self) -> SessionView {
        SessionView {
            client: self.client,
            base: self.base@,
            room: self.room@,
            role: self.role,
            recv_seq: self.recv_seq,
        }
    }
}

/// The other role of a room.
pub open spec fn other_role(role: Role) -> Role {
    match role {
        Role::Offerer => Role::Answerer,
        Role::Answerer => Role::Offerer,
    }
}

/// The path segment for a mailbox role.
pub fn role_str(role: Role) -> (r: &'static str)
    ensures
        r@ == role.token(),
{
    match role {
        Role::Offerer => "offerer",
        Role::Answerer => "answerer",
    }
}

/// A mailbox failure, as the guest sees it.
pub open spec fn mailbox_failure(detail: Seq<char>) -> ErrorView {
    ErrorView::Other("mailbox: "@ + detail)
}

/// Map any client-side mailbox failure to the guest-visible `error.other`.
pub fn mailbox_error(detail: &str) -> (r: Error)
    ensures
        r@ == mailbox_failure(detail@),
{
    Error::Other(concat2("mailbox: ", detail))
}

impl SessionView {
    /// The URL of a mailbox of this session's room.
    pub open spec fn mailbox_url(self, role: Role) -> Seq<char> {
        self.base + "/rooms/"@ + self.room + "/"@ + role.token()
    }

    /// The URL that blobs are published to.
    pub open spec fn publish_url(self) -> Seq<char> {
        self.mailbox_url(self.role)
    }

    /// The URL that marks this session's mailbox done.
    pub open spec fn done_url(self) -> Seq<char> {
        self.mailbox_url(self.role) + "/done"@
    }

    /// The URL the next blob of the peer is fetched from. The native client asks the
    /// server to hold the request for a while.
    pub open spec fn fetch_url(self) -> Seq<char> {
        self.mailbox_url(other_role(self.role)) + "?seq="@ + decimal(self.recv_seq as nat) + (
        match self.client {
            Client::Native => "&wait=10000"@,
            Client::InGuest => seq![],
        })
    }

    /// How a failed reply is reported.
    pub open spec fn failure(self, what: Seq<char>, status: Seq<char>) -> ErrorView {
        mailbox_failure(
            what + (match self.client {
                Client::Native => " status "@,
                Client::InGuest => " returned "@,
            }) + status,
        )
    }

    /// What the reply to a fetch says: the next blob, that there is none, that the
    /// same blob has to be asked for again, or a failure. `done` is whether the reply
    /// says that the mailbox is done, which only the in-guest client asks for.
    pub open spec fn fetch_step(self, status: u16, done: bool, body: Seq<u8>) -> FetchStepView {
        if status == 200 {
            FetchStepView::Received(Some(body))
        } else if status == 204 && (done || self.client is Native) {
            FetchStepView::Received(None)
        } else if status == 304 {
            FetchStepView::Retry
        } else {
            FetchStepView::Failed(self.failure("fetch"@, decimal(status as nat)))
        }
    }
}

/// What the reply to a fetch says.
#[derive(Debug, Clone)]
pub enum FetchStep {
    /// The next blob, or that the peer's mailbox is done and holds no more.
    Received(Option<Vec<u8>>),
    /// Not yet available: fetch again.
    Retry,
    /// The fetch failed.
    Failed(Error),
}

/// The contents of a [`FetchStep`].
pub enum FetchStepView {
    Received(Option<Seq<u8>>),
    Retry,
    Failed(ErrorView),
}

impl View for FetchStep {
    type V = FetchStepView;

    open spec fn view(&self) -> FetchStepView {
        match self {
            FetchStep::Received(Some(blob)) => FetchStepView::Received(Some(blob@)),
            FetchStep::Received(None) => FetchStepView::Received(None),
            FetchStep::Retry => FetchStepView::Retry,
            FetchStep::Failed(e) => FetchStepView::Failed(e@),
        }
    }
}

impl MailboxSession {
    /// Join a room in a role.
    pub fn open(client: Client, server: &str, room: String, as_role: Role) -> (r: Self)
        ensures
            r@ == (SessionView {
                client,
                base: trim_end_of(server@, '/'),
                room: room@,
                role: as_role,
                recv_seq: 0,
            }),
    {
        MailboxSession {
            client,
            base: trim_end_matches(server, '/').to_string(),
            room,
            role: as_role,
            recv_seq: 0,
        }
    }

    /// This session's own role path segment.
    pub fn own_role(&self) -> (r: &'static str)
        ensures
            r@ == self@.role.token(),
    {
        role_str(self.role)
    }

    /// The peer's role path segment (the mailbox this session consumes).
    pub fn peer_role(&self) -> (r: &'static str)
        ensures
            r@ == other_role(self@.role).token(),
    {
        match self.role {
            Role::Offerer => "answerer",
            Role::Answerer => "offerer",
        }
    }

    fn url(&self, role: &str) -> (r: String)
        ensures
            r@ == self@.base + "/rooms/"@ + self@.room + "/"@ + role@,
    {
        let mut out = concat3(self.base.as_str(), "/rooms/", self.room.as_str());
        out.append("/");
        out.append(role);
        out
    }

    /// The URL to post a blob to.
    pub fn publish_url(&self) -> (r: String)
        ensures
            r@ == self@.publish_url(),
    {
        self.url(self.own_role())
    }

    /// The URL to post to when this session's mailbox is done.
    pub fn done_url(&self) -> (r: String)
        ensures
            r@ == self@.done_url(),
    {
        let mut out = self.url(self.own_role());
        out.append("/done");
        out
    }

    /// The URL to get the peer's next blob from.
    pub fn fetch_url(&self) -> (r: String)
        ensures
            r@ == self@.fetch_url(),
    {
        let mut out = self.url(self.peer_role());
        out.append("?seq=");
        out.append(to_decimal(self.recv_seq).as_str());
        let ghost asked = out@;
        match self.client {
            Client::Native => {
                out.append("&wait=10000");
            },
            Client::InGuest => {
                assert(asked + Seq::<char>::empty() =~= asked);
            },
        }
        out
    }

    fn reject(&self, what: &str, status: &str) -> (r: Error)
        ensures
            r@ == self@.failure(what@, status@),
    {
        let middle = match self.client {
            Client::Native => " status ",
            Client::InGuest => " returned ",
        };
        mailbox_error(concat3(what, middle, status).as_str())
    }

    /// What the reply to a publish says. `status` is its status line.
    pub fn publish_reply(&self, success: bool, status: &str) -> (r: Result<(), Error>)
        ensures
            r is Ok == success,
            r matches Err(e) ==> e@ == self@.failure("publish"@, status@),
    {
        if success {
            Ok(())
        } else {
            Err(self.reject("publish", status))
        }
    }

    /// What the reply to marking the mailbox done says. `status` is its status line.
    pub fn done_reply(&self, success: bool, status: &str) -> (r: Result<(), Error>)
        ensures
            r is Ok == success,
            r matches Err(e) ==> e@ == self@.failure("done"@, status@),
    {
        if success {
            Ok(())
        } else {
            Err(self.reject("done", status))
        }
    }

    /// What the reply to a fetch says. A blob that was received is behind the session:
    /// the next fetch asks for the one after it.
    pub fn fetch_reply(&mut self, status: u16, done: bool, body: Vec<u8>) -> (r: FetchStep)
        requires
            old(self)@.recv_seq < u64::MAX,
        ensures
            r@ == old(self)@.fetch_step(status, done, body@),
            final(self)@ == (SessionView {
                recv_seq: if status == 200 {
                    (old(self)@.recv_seq + 1) as u64
                } else {
                    old(self)@.recv_seq
                },
                ..old(self)@
            }),
    {
        if status == 200 {
            self.recv_seq = self.recv_seq + 1;
            FetchStep::Received(Some(body))
        } else if status == 204 && (done || self.client == Client::Native) {
            FetchStep::Received(None)
        } else if status == 304 {
            FetchStep::Retry
        } else {
            FetchStep::Failed(self.reject("fetch", to_decimal(status as u64).as_str()))
        }
    }
}

/// The status the server answers a fetch with.
pub open spec fn status_of(found: FetchView) -> u16 {
    match found {
        FetchView::Blob(_) => 200,
        FetchView::Done => 204,
        FetchView::Pending => 304,
    }
}

/// The status the server answers a fetch with: the blob, no content once the mailbox
/// is done, not modified while the blob is pending.
pub fn fetch_status(found: &Fetch) -> (r: u16)
    ensures
        r == status_of(found@),
{
    match found {
        Fetch::Blob(_) => 200,
        Fetch::Done => 204,
        Fetch::Pending => 304,
    }
}

/// A session reads its peer's mailbox in publish order: while there are blobs it has
/// not read it receives the next one and moves on to the one behind it; once it has
/// read them all it is told to try again, or, if the mailbox is done, that there are
/// no more.
pub proof fn law_sessions_read_in_publish_order(session: SessionView, mailbox: MailboxView)
    requires
        session.recv_seq <= mailbox.blobs.len(),
        session.recv_seq < u64::MAX,
    ensures
        ({
            let seq = session.recv_seq as int;
            let found = mailbox.peek(seq);
            let body = match found {
                FetchView::Blob(blob) => blob,
                _ => seq![],
            };
            let step = session.fetch_step(status_of(found), found is Done, body);
            if seq < mailbox.blobs.len() {
                step == FetchStepView::Received(Some(mailbox.blobs[seq]))
            } else if mailbox.done {
                step == FetchStepView::Received(None)
            } else {
                step is Retry
            }
        }),
{
}

/// A session publishes to its own mailbox and reads from that of its peer: what one
/// peer of a room publishes to is what the other one reads.
pub proof fn law_peers_read_what_the_other_publishes(a: SessionView, b: SessionView)
    requires
        a.base == b.base,
        a.room == b.room,
        b.role == other_role(a.role),
    ensures
        a.publish_url() == b.mailbox_url(other_role(b.role)),
        b.publish_url() == a.mailbox_url(other_role(a.role)),
        crate::text::has_prefix(a.fetch_url(), b.publish_url()),
{
    let tail = "?seq="@ + decimal(a.recv_seq as nat) + (match a.client {
        Client::Native => "&wait=10000"@,
        Client::InGuest => seq![],
    });
    assert(a.fetch_url() =~= b.publish_url() + tail);
    assert(a.fetch_url().subrange(0, b.publish_url().len() as int) =~= b.publish_url());
}

// ----- laws -----------------------------------------------------------------------------

/// What a session asks for: it publishes to its own role's mailbox, marks that done, and
/// fetches from the other role's, always in its own room on its own server, naming the
/// number of the blob it is at; the native client asks the server to hold the request.
pub proof fn law_what_sessions_ask_for(session: SessionView)
    ensures
        ({
            let own = match session.role {
                Role::Offerer => "offerer"@,
                Role::Answerer => "answerer"@,
            };
            let other = match session.role {
                Role::Offerer => "answerer"@,
                Role::Answerer => "offerer"@,
            };
            let room = session.base + "/rooms/"@ + session.room + "/"@;
            &&& session.publish_url() == room + own
            &&& session.done_url() == room + own + "/done"@
            &&& session.client == Client::Native ==> session.fetch_url() == room + other + "?seq="@
                + decimal(session.recv_seq as nat) + "&wait=10000"@
            &&& session.client == Client::InGuest ==> session.fetch_url() == room + other + "?seq="@
                + decimal(session.recv_seq as nat)
        }),
        other_role(session.role) != session.role,
        other_role(other_role(session.role)) == session.role,
{
    let room = session.base + "/rooms/"@ + session.room + "/"@;
    let asked = session.mailbox_url(other_role(session.role)) + "?seq="@ + decimal(
        session.recv_seq as nat,
    );
    assert(asked + Seq::<char>::empty() =~= asked);
}

/// What a reply to a fetch says: a blob exactly with 200, to try again exactly with 304,
/// the end with 204 where the reply or the client says so, and anything else is a failure
/// that names the status.
pub proof fn law_what_replies_say(session: SessionView, status: u16, done: bool, body: Seq<u8>)
    ensures
        session.fetch_step(status, done, body) == FetchStepView::Received(Some(body)) <==> status
            == 200,
        (session.fetch_step(status, done, body) matches FetchStepView::Received(None)) <==> status
            == 204 && (done || session.client == Client::Native),
        session.fetch_step(status, done, body) is Retry <==> status == 304,
        session.fetch_step(status, done, body) matches FetchStepView::Failed(error) ==> error
            == ErrorView::Other(
            "mailbox: "@ + ("fetch"@ + (if session.client == Client::Native {
                " status "@
            } else {
                " returned "@
            }) + decimal(status as nat)),
        ),
{
}

/// A refused request is reported by what was asked for and the status it was refused with.
pub proof fn law_refused_requests_are_reported(
    session: SessionView,
    what: Seq<char>,
    status: Seq<char>,
)
    ensures
        session.client == Client::Native ==> session.failure(what, status) == ErrorView::Other(
            "mailbox: "@ + (what + " status "@ + status),
        ),
        session.client == Client::InGuest ==> session.failure(what, status) == ErrorView::Other(
            "mailbox: "@ + (what + " returned "@ + status),
        ),
{
}

/// The status of an answer says what was found: 200 a blob, 204 the end, 304 nothing yet.
pub proof fn law_what_a_status_means(found: FetchView)
    ensures
        status_of(found) == 200 <==> found is Blob,
        status_of(found) == 204 <==> found is Done,
        status_of(found) == 304 <==> found is Pending,
{
}

/// Every failure of the mailbox reaches the guest as an error that says so.
pub proof fn law_mailbox_failures_say_so(detail: Seq<char>)
    ensures
        mailbox_failure(detail) == ErrorView::Other("mailbox: "@ + detail),
        mailbox_failure(detail).described() == "other: "@ + ("mailbox: "@ + detail),
{
}

} // verus!
