//! In-memory room and mailbox state of the conformance signaling server.
//!
//! A [`Rooms`] store holds independent rooms addressed by an opaque id; each room
//! has two mailboxes (one per [`Role`]). Peers publish blobs to their own role's
//! mailbox and fetch the peer's mailbox by sequence number. Fetches are idempotent
//! and may long-poll: a fetch that finds nothing yet waits until a blob is
//! published, the mailbox is marked done, or the room is deleted.
//!
//! Time is handed in by the caller, as nanoseconds since some fixed instant.

use vstd::prelude::*;

use crate::text::{same, texts};
use crate::text_map::TextMap;

verus! {

// ----- blobs -------------------------------------------------------------------------------------

/// A blob: a cheaply shared byte string of the `bytes` crate.
#[verifier::external_type_specification]
#[verifier::external_body]
pub struct ExBytes(bytes::Bytes);

/// The bytes of a blob.
pub uninterp spec fn blob_bytes(blob: bytes::Bytes) -> Seq<u8>;

/// The `bytes` crate's `Bytes::clone`: another handle to the same bytes.
pub assume_specification[ <bytes::Bytes as Clone>::clone ](blob: &bytes::Bytes) -> (r: bytes::Bytes)
    ensures
        blob_bytes(r) == blob_bytes(*blob),
;

// ----- mailboxes -----------------------------------------------------------------------------------

/// A signaling role. A room has exactly one mailbox per role.
#[derive(Debug, Clone, Copy, PartialEq, Eq, Hash, Structural)]
pub enum Role {
    Offerer,
    Answerer,
}

/// The role a path token stands for.
pub open spec fn mailbox_role_named(token: Seq<char>) -> Option<Role> {
    if token == "offerer"@ {
        Some(Role::Offerer)
    } else if token == "answerer"@ {
        Some(Role::Answerer)
    } else {
        None
    }
}

impl Role {
    /// Parse the path token (`offerer` or `answerer`).
    pub fn parse(s: &str) -> (r: Option<Role>)
        ensures
            r == mailbox_role_named(s@),
    {
        if same(s, "offerer") {
            Some(Role::Offerer)
        } else if same(s, "answerer") {
            Some(Role::Answerer)
        } else {
            None
        }
    }

    /// The path token of this role.
    pub open spec fn token(self) -> Seq<char> {
        match self {
            Role::Offerer => "offerer"@,
            Role::Answerer => "answerer"@,
        }
    }
}

/// Every role is read back from its path token.
pub proof fn law_mailbox_role_round_trips(role: Role)
    ensures
        mailbox_role_named(role.token()) == Some(role),
{
    reveal_strlit("offerer");
    reveal_strlit("answerer");
    assert("offerer"@.len() == 7 && "answerer"@.len() == 8);
}

/// Outcome of a (possibly long-polling) fetch of a single sequence number.
#[derive(Debug, Clone)]
pub enum Fetch {
    /// The blob at the requested seq is available.
    Blob(bytes::Bytes),
    /// The mailbox is done and the requested seq is at or past its frozen length: no
    /// such blob will ever exist.
    Done,
    /// The blob is not yet available and the mailbox is not done: the caller should
    /// retry the same seq.
    Pending,
}

/// The contents of a [`Fetch`].
pub enum FetchView {
    Blob(Seq<u8>),
    Done,
    Pending,
}

impl View for Fetch {
    type V = FetchView;

    open spec fn view(&self) -> FetchView {
        match self {
            Fetch::Blob(blob) => FetchView::Blob(blob_bytes(*blob)),
            Fetch::Done => FetchView::Done,
            Fetch::Pending => FetchView::Pending,
        }
    }
}

/// One append-only, ordered mailbox with a `done` flag.
struct Mailbox {
    blobs: Vec<bytes::Bytes>,
    done: bool,
}

/// The contents of a mailbox.
#[verifier::ext_equal]
pub struct MailboxView {
    pub blobs: Seq<Seq<u8>>,
    pub done: bool,
}

impl MailboxView {
    /// A mailbox nobody has published to.
    pub open spec fn empty() -> MailboxView {
        MailboxView { blobs: seq![], done: false }
    }

    /// What a fetch of `seq` finds.
    pub open spec fn peek(self, seq: int) -> FetchView {
        if 0 <= seq < self.blobs.len() {
            FetchView::Blob(self.blobs[seq])
        } else if self.done {
            FetchView::Done
        } else {
            FetchView::Pending
        }
    }
}

impl View for Mailbox {
    type V = MailboxView;

    closed spec fn view(&self) -> MailboxView {
        MailboxView {
            blobs: self.blobs@.map_values(|b: bytes::Bytes| blob_bytes(b)),
            done: self.done,
        }
    }
}

impl Mailbox {
    fn new() -> (r: Self)
        ensures
            r@ == MailboxView::empty(),
    {
        let r = Mailbox { blobs: Vec::new(), done: false };
        assert(r@.blobs =~= seq![]);
        r
    }

    /// Classify a fetch of `seq` against the current mailbox contents.
    fn peek(&self, seq: usize) -> (r: Fetch)
        ensures
            r@ == self@.peek(seq as int),
    {
        if seq < self.blobs.len() {
            Fetch::Blob(self.blobs[seq].clone())
        } else if self.done {
            Fetch::Done
        } else {
            Fetch::Pending
        }
    }
}

// ----- rooms ---------------------------------------------------------------------------------------

/// A room: two mailboxes plus when it was last touched.
struct Room {
    offerer: Mailbox,
    answerer: Mailbox,
    last_touched: u64,
}

/// The contents of a room.
#[verifier::ext_equal]
pub struct RoomView {
    pub offerer: MailboxView,
    pub answerer: MailboxView,
    pub last_touched: u64,
}

impl View for Room {
    type V = RoomView;

    closed spec fn view(&self) -> RoomView {
        RoomView {
            offerer: self.offerer@,
            answerer: self.answerer@,
            last_touched: self.last_touched,
        }
    }
}

impl RoomView {
    /// A fresh room.
    pub open spec fn fresh(now: u64) -> RoomView {
        RoomView {
            offerer: MailboxView::empty(),
            answerer: MailboxView::empty(),
            last_touched: now,
        }
    }

    /// A role's mailbox.
    pub open spec fn mailbox(self, role: Role) -> MailboxView {
        match role {
            Role::Offerer => self.offerer,
            Role::Answerer => self.answerer,
        }
    }

    /// This room with another mailbox for a role.
    pub open spec fn with_mailbox(self, role: Role, mailbox: MailboxView) -> RoomView {
        match role {
            Role::Offerer => RoomView { offerer: mailbox, ..self },
            Role::Answerer => RoomView { answerer: mailbox, ..self },
        }
    }
}

/// Result of a publish attempt.
#[derive(Debug, Clone, Copy, PartialEq, Eq, Structural)]
pub enum Publish {
    /// The blob was appended with this zero-based sequence number.
    Appended(usize),
    /// The mailbox is already done; publishing is rejected.
    Done,
    /// A capacity cap was exceeded.
    Capacity,
}

/// Configuration limits applied by the store.
#[derive(Debug, Clone, Copy)]
pub struct Limits {
    /// Room TTL in nanoseconds: a room is evicted this long after its last activity.
    pub room_ttl_nanos: u64,
    /// Maximum number of live rooms (0 means unlimited).
    pub max_rooms: usize,
    /// Maximum blobs per mailbox (0 means unlimited).
    pub max_blobs_per_mailbox: usize,
}

impl Default for Limits {
    fn default() -> (r: Self)
        ensures
            r.room_ttl_nanos == 300_000_000_000,
            r.max_rooms == 0,
            r.max_blobs_per_mailbox == 0,
    {
        Limits { room_ttl_nanos: 300_000_000_000, max_rooms: 0, max_blobs_per_mailbox: 0 }
    }
}

/// The rooms of a store, by id.
pub type RoomMap = Map<Seq<char>, RoomView>;

/// The in-memory room store.
pub struct Rooms {
    map: TextMap<Room>,
    limits: Limits,
}

impl View for Rooms {
    type V = RoomMap;

    closed spec fn view(&self) -> RoomMap {
        Map::new(|k: Seq<char>| self.map@.dom().contains(k), |k: Seq<char>| self.map@[k]@)
    }
}

// ----- what the operations do ------------------------------------------------------------------------

/// A room as an operation finds it: touched, and fresh if it was not there.
pub open spec fn touched(rooms: RoomMap, room: Seq<char>, now: u64) -> RoomView {
    if rooms.dom().contains(room) {
        RoomView { last_touched: now, ..rooms[room] }
    } else {
        RoomView::fresh(now)
    }
}

/// The store holds as many rooms as it may, and not this one: it is not created.
pub open spec fn is_crowded_out(rooms: RoomMap, limits: Limits, room: Seq<char>) -> bool {
    limits.max_rooms != 0 && rooms.dom().len() >= limits.max_rooms && !rooms.dom().contains(room)
}

/// A mailbox of a store; empty if there is no such room.
pub open spec fn mailbox_of(rooms: RoomMap, room: Seq<char>, role: Role) -> MailboxView {
    if rooms.dom().contains(room) {
        rooms[room].mailbox(role)
    } else {
        MailboxView::empty()
    }
}

/// What publishing a blob comes to.
pub open spec fn publish_outcome(
    rooms: RoomMap,
    limits: Limits,
    room: Seq<char>,
    role: Role,
) -> Publish {
    let mailbox = mailbox_of(rooms, room, role);
    if is_crowded_out(rooms, limits, room) {
        Publish::Capacity
    } else if mailbox.done {
        Publish::Done
    } else if limits.max_blobs_per_mailbox != 0 && mailbox.blobs.len()
        >= limits.max_blobs_per_mailbox {
        Publish::Capacity
    } else {
        Publish::Appended(mailbox.blobs.len() as usize)
    }
}

/// The store after a blob has been published: a publish that is turned away touches
/// the room, unless it is turned away because there are too many rooms.
pub open spec fn after_publish(
    rooms: RoomMap,
    limits: Limits,
    room: Seq<char>,
    role: Role,
    blob: Seq<u8>,
    now: u64,
) -> RoomMap {
    let found = touched(rooms, room, now);
    if is_crowded_out(rooms, limits, room) {
        rooms
    } else if publish_outcome(rooms, limits, room, role) is Appended {
        let mailbox = found.mailbox(role);
        rooms.insert(
            room,
            found.with_mailbox(role, MailboxView { blobs: mailbox.blobs.push(blob), ..mailbox }),
        )
    } else {
        rooms.insert(room, found)
    }
}

/// The store after a mailbox has been marked done; unchanged if there are too many
/// rooms for this one.
pub open spec fn after_done(
    rooms: RoomMap,
    limits: Limits,
    room: Seq<char>,
    role: Role,
    now: u64,
) -> RoomMap {
    let found = touched(rooms, room, now);
    if is_crowded_out(rooms, limits, room) {
        rooms
    } else {
        rooms.insert(
            room,
            found.with_mailbox(role, MailboxView { done: true, ..found.mailbox(role) }),
        )
    }
}

/// The store after a fetch: the room is there and touched, unless there are too many
/// rooms for it, and nothing else changed.
pub open spec fn after_fetch(
    rooms: RoomMap,
    limits: Limits,
    room: Seq<char>,
    now: u64,
) -> RoomMap {
    if is_crowded_out(rooms, limits, room) {
        rooms
    } else {
        rooms.insert(room, touched(rooms, room, now))
    }
}

/// A room has been untouched for longer than `ttl`.
pub open spec fn is_expired(room: RoomView, ttl: u64, now: u64) -> bool {
    now - room.last_touched > ttl
}

/// The store without the rooms that have expired.
pub open spec fn after_eviction(rooms: RoomMap, ttl: u64, now: u64) -> RoomMap {
    rooms.restrict(
        Set::new(|k: Seq<char>| rooms.dom().contains(k) && !is_expired(rooms[k], ttl, now)),
    )
}

impl Rooms {
    /// The rooms are held in order of their ids.
    pub closed spec fn wf(self) -> bool {
        self.map.wf()
    }

    /// The limits of this store.
    pub closed spec fn limits(self) -> Limits {
        self.limits
    }

    /// An empty store.
    pub fn new(limits: Limits) -> (r: Self)
        ensures
            r.wf(),
            r.limits() == limits,
            r@ == RoomMap::empty(),
    {
        let r = Rooms { map: TextMap::new(), limits };
        assert(r@ =~= RoomMap::empty());
        r
    }

    proof fn lemma_count(self)
        requires
            self.wf(),
        ensures
            self@.dom().len() == self.map.order().len(),
            self@.dom().finite(),
    {
        self.map.lemma_walk();
        let order = self.map.order();
        order.unique_seq_to_set();
        assert(self@.dom() =~= order.to_set()) by {
            assert forall|k: Seq<char>| self@.dom().contains(k) <==> order.to_set().contains(k) by {
                assert(self.map@.dom().contains(k) <==> order.contains(k));
            }
        }
    }

    /// A store that holds its invariant has finitely many rooms.
    pub proof fn law_a_store_is_finite(self)
        requires
            self.wf(),
        ensures
            self@.dom().finite(),
    {
        self.lemma_count();
    }

    /// Whether the store holds as many rooms as it may, and not this one.
    fn crowds_out(&self, room: &str) -> (r: bool)
        requires
            self.wf(),
        ensures
            r == is_crowded_out(self@, self.limits(), room@),
    {
        proof {
            self.lemma_count();
        }
        self.limits.max_rooms != 0 && self.map.len() >= self.limits.max_rooms && self.map.find(
            room,
        ).is_none()
    }

    /// Take a room out of the map, touched; a fresh one if it is not there.
    fn take_touched(&mut self, room: &str, now: u64) -> (r: Room)
        requires
            old(self).wf(),
        ensures
            final(self).wf(),
            final(self).limits() == old(self).limits(),
            final(self)@ == old(self)@.remove(room@),
            r@ == touched(old(self)@, room@, now),
    {
        let taken = self.map.remove(room);
        assert(self@ =~= old(self)@.remove(room@));
        match taken {
            Some(mut found) => {
                found.last_touched = now;
                assert(found@ =~= touched(old(self)@, room@, now));
                found
            },
            None => Room { offerer: Mailbox::new(), answerer: Mailbox::new(), last_touched: now },
        }
    }

    /// Put a room back into the map.
    fn put(&mut self, room: &str, value: Room)
        requires
            old(self).wf(),
        ensures
            final(self).wf(),
            final(self).limits() == old(self).limits(),
            final(self)@ == old(self)@.insert(room@, value@),
    {
        self.map.insert(room.to_string(), value);
        assert(self@ =~= old(self)@.insert(room@, value@));
    }

    /// Append `blob` to `role`'s mailbox in `room`, creating the room if needed and if
    /// there are not too many. A fetch that waits on this mailbox has to be woken if the blob was appended.
    pub fn publish(&mut self, room: &str, role: Role, blob: bytes::Bytes, now: u64) -> (r:
        Publish)
        requires
            old(self).wf(),
        ensures
            final(self).wf(),
            final(self).limits() == old(self).limits(),
            r == publish_outcome(old(self)@, old(self).limits(), room@, role),
            final(self)@ == after_publish(
                old(self)@,
                old(self).limits(),
                room@,
                role,
                blob_bytes(blob),
                now,
            ),
    {
        let ghost rooms = self@;
        let ghost bytes = blob_bytes(blob);
        if self.crowds_out(room) {
            return Publish::Capacity;
        }
        let max = self.limits.max_blobs_per_mailbox;
        let mut found = self.take_touched(room, now);
        let ghost before = found@;
        assert(before.mailbox(role).blobs == mailbox_of(rooms, room@, role).blobs);
        let outcome = match role {
            Role::Offerer => publish_to(&mut found.offerer, blob, max),
            Role::Answerer => publish_to(&mut found.answerer, blob, max),
        };
        self.put(room, found);
        assert(self@ =~= after_publish(rooms, self.limits(), room@, role, bytes, now));
        outcome
    }

    /// Mark `role`'s mailbox in `room` done; returns the frozen blob count. Fetches
    /// that wait on this mailbox have to be woken. The room is created if needed; where
    /// there are too many rooms for it none is, and the count is that of no blobs.
    pub fn mark_done(&mut self, room: &str, role: Role, now: u64) -> (r: usize)
        requires
            old(self).wf(),
        ensures
            final(self).wf(),
            final(self).limits() == old(self).limits(),
            r == mailbox_of(old(self)@, room@, role).blobs.len(),
            final(self)@ == after_done(old(self)@, old(self).limits(), room@, role, now),
    {
        let ghost rooms = self@;
        if self.crowds_out(room) {
            return 0;
        }
        let mut found = self.take_touched(room, now);
        let ghost before = found@;
        let len = match role {
            Role::Offerer => {
                found.offerer.done = true;
                found.offerer.blobs.len()
            },
            Role::Answerer => {
                found.answerer.done = true;
                found.answerer.blobs.len()
            },
        };
        assert(found@ =~= before.with_mailbox(
            role,
            MailboxView { done: true, ..before.mailbox(role) },
        ));
        self.put(room, found);
        assert(self@ =~= after_done(rooms, self.limits(), room@, role, now));
        len
    }

    /// Non-blocking classification of a fetch of `role`'s mailbox at `seq`. The room
    /// is created if needed so a consumer can start before the publisher; where there
    /// are too many rooms for it none is, and the blob is pending.
    pub fn fetch_now(&mut self, room: &str, role: Role, seq: usize, now: u64) -> (r: Fetch)
        requires
            old(self).wf(),
        ensures
            final(self).wf(),
            final(self).limits() == old(self).limits(),
            r@ == mailbox_of(old(self)@, room@, role).peek(seq as int),
            final(self)@ == after_fetch(old(self)@, old(self).limits(), room@, now),
    {
        let ghost rooms = self@;
        if self.crowds_out(room) {
            return Fetch::Pending;
        }
        let found = self.take_touched(room, now);
        let outcome = match role {
            Role::Offerer => found.offerer.peek(seq),
            Role::Answerer => found.answerer.peek(seq),
        };
        self.put(room, found);
        assert(self@ =~= after_fetch(rooms, self.limits(), room@, now));
        outcome
    }

    /// Delete a room. Returns whether it existed; fetches that wait on either of its
    /// mailboxes then have to be woken.
    pub fn delete(&mut self, room: &str) -> (r: bool)
        requires
            old(self).wf(),
        ensures
            final(self).wf(),
            final(self).limits() == old(self).limits(),
            r == old(self)@.dom().contains(room@),
            final(self)@ == old(self)@.remove(room@),
    {
        let taken = self.map.remove(room);
        assert(self@ =~= old(self)@.remove(room@));
        taken.is_some()
    }

    /// Evict rooms untouched for longer than the configured TTL. Returns the evicted
    /// rooms; fetches that wait on their mailboxes have to be woken.
    pub fn evict_expired(&mut self, now: u64) -> (r: Vec<String>)
        requires
            old(self).wf(),
        ensures
            final(self).wf(),
            final(self).limits() == old(self).limits(),
            final(self)@ == after_eviction(old(self)@, old(self).limits().room_ttl_nanos, now),
            old(self)@.dom().len() == final(self)@.dom().len() + r@.len(),
            texts(r@).no_duplicates(),
            forall|k: Seq<char>| #[trigger]
                texts(r@).contains(k) <==> old(self)@.dom().contains(k) && is_expired(
                    old(self)@[k],
                    old(self).limits().room_ttl_nanos,
                    now,
                ),
    {
        let ttl = self.limits.room_ttl_nanos;
        let expired = self.expired(now);
        let ghost rooms = self@;
        let ghost gone = texts(expired@);
        let mut i: usize = 0;
        assert(rooms.remove_keys(gone.take(0).to_set()) =~= rooms);
        while i < expired.len()
            invariant
                gone.no_duplicates(),
                forall|k: Seq<char>| #[trigger] gone.contains(k) ==> rooms.dom().contains(k),
                rooms.dom().len() == self@.dom().len() + i,
                i <= expired@.len(),
                self.wf(),
                self.limits() == old(self).limits(),
                gone == texts(expired@),
                self@ == rooms.remove_keys(gone.take(i as int).to_set()),
            decreases expired@.len() - i,
        {
            let ghost before = self@;
            proof {
                self.law_a_store_is_finite();
                assert(gone.contains(gone[i as int]));
                assert(before.dom().contains(gone[i as int])) by {
                    if gone.take(i as int).contains(gone[i as int]) {
                        let n = gone.take(i as int).index_of(gone[i as int]);
                        assert(gone[n] == gone[i as int]);
                    }
                }
            }
            let _ = self.map.remove(expired[i].as_str());
            proof {
                assert(self@ =~= before.remove(gone[i as int]));
                let next = gone.take(i + 1);
                assert(next =~= gone.take(i as int).push(gone[i as int]));
                assert forall|k: Seq<char>| next.to_set().contains(k) <==> gone.take(
                    i as int,
                ).to_set().contains(k) || k == gone[i as int] by {
                    if gone.take(i as int).contains(k) {
                        let n = gone.take(i as int).index_of(k);
                        assert(next[n] == k);
                    }
                    if next.contains(k) {
                        let n = next.index_of(k);
                        if n < i {
                            assert(gone.take(i as int)[n] == k);
                        }
                    }
                    assert(next[i as int] == gone[i as int]);
                }
                assert(self@ =~= rooms.remove_keys(next.to_set()));
            }
            i += 1;
        }
        assert(gone.take(i as int) =~= gone);
        assert(self@ =~= after_eviction(rooms, ttl, now)) by {
            assert forall|k: Seq<char>| gone.to_set().contains(k) <==> gone.contains(k) by {}
        }
        expired
    }

    /// The rooms that have expired.
    fn expired(&self, now: u64) -> (r: Vec<String>)
        requires
            self.wf(),
        ensures
            texts(r@).no_duplicates(),
            forall|k: Seq<char>| #[trigger]
                texts(r@).contains(k) <==> self@.dom().contains(k) && is_expired(
                    self@[k],
                    self.limits().room_ttl_nanos,
                    now,
                ),
    {
        let ttl = self.limits.room_ttl_nanos;
        let ghost order = self.map.order();
        proof {
            self.map.lemma_walk();
        }
        let mut out: Vec<String> = Vec::new();
        let mut i: usize = 0;
        while i < self.map.keys.len()
            invariant
                i <= self.map.keys@.len(),
                self.wf(),
                self.map.wf(),
                ttl == self.limits().room_ttl_nanos,
                order == self.map.order(),
                order.no_duplicates(),
                forall|j: int|
                    0 <= j < order.len() ==> self.map@.dom().contains(#[trigger] order[j])
                        && self.map@[order[j]] == self.map.values@[j],
                texts(out@).no_duplicates(),
                forall|k: Seq<char>| #[trigger]
                    texts(out@).contains(k) <==> order.take(i as int).contains(k) && is_expired(
                        self@[k],
                        ttl,
                        now,
                    ),
            decreases self.map.keys@.len() - i,
        {
            let room = &self.map.values[i];
            let ghost key = order[i as int];
            assert(key == self.map.keys@[i as int]@);
            assert(self@[key] == room@);
            let ghost before = texts(out@);
            let idle = now > room.last_touched && now - room.last_touched > ttl;
            if idle {
                out.push(self.map.keys[i].clone());
            }
            proof {
                assert(order.take(i + 1) =~= order.take(i as int).push(key));
                assert(!order.take(i as int).contains(key)) by {
                    if order.take(i as int).contains(key) {
                        let n = order.take(i as int).index_of(key);
                        assert(order[n] == order[i as int]);
                    }
                }
                let after = texts(out@);
                if idle {
                    assert(after =~= before.push(key));
                    assert(!before.contains(key));
                }
                assert forall|k: Seq<char>| #[trigger] after.contains(k) <==> order.take(
                    i + 1,
                ).contains(k) && is_expired(self@[k], ttl, now) by {
                    assert(before.contains(k) <==> order.take(i as int).contains(k) && is_expired(
                        self@[k],
                        ttl,
                        now,
                    ));
                    if order.take(i as int).contains(k) {
                        assert(order.take(i + 1)[order.take(i as int).index_of(k)] == k);
                    }
                    if order.take(i + 1).contains(k) {
                        let n = order.take(i + 1).index_of(k);
                        if n < i {
                            assert(order.take(i as int)[n] == k);
                        }
                    }
                    assert(order.take(i + 1)[i as int] == key);
                    if before.contains(k) {
                        assert(after[before.index_of(k)] == k);
                    }
                    if after.contains(k) {
                        let n = after.index_of(k);
                        if n < before.len() {
                            assert(before[n] == k);
                        }
                    }
                    if idle {
                        assert(after[before.len() as int] == key);
                    }
                }
                assert(after.no_duplicates());
            }
            i += 1;
        }
        assert(order.take(i as int) =~= order);
        assert forall|k: Seq<char>| #[trigger] texts(out@).contains(k) <==> self@.dom().contains(k)
            && is_expired(self@[k], ttl, now) by {
            assert(self.map@.dom().contains(k) <==> order.contains(k));
        }
        out
    }

    /// Current live room count.
    pub fn room_count(&self) -> (r: usize)
        requires
            self.wf(),
        ensures
            r == self@.dom().len(),
    {
        proof {
            self.lemma_count();
        }
        self.map.len()
    }
}

/// Append a blob to a mailbox, unless it is done or full.
fn publish_to(mailbox: &mut Mailbox, blob: bytes::Bytes, max: usize) -> (r: Publish)
    ensures
        ({
            let before = old(mailbox)@;
            if before.done {
                r == Publish::Done && final(mailbox)@ == before
            } else if max != 0 && before.blobs.len() >= max {
                r == Publish::Capacity && final(mailbox)@ == before
            } else {
                &&& r == Publish::Appended(before.blobs.len() as usize)
                &&& final(mailbox)@ == (MailboxView {
                    blobs: before.blobs.push(blob_bytes(blob)),
                    ..before
                })
            }
        }),
{
    if mailbox.done {
        return Publish::Done;
    }
    let seq = mailbox.blobs.len();
    if max != 0 && seq >= max {
        return Publish::Capacity;
    }
    let ghost before = mailbox@;
    let ghost bytes = blob_bytes(blob);
    mailbox.blobs.push(blob);
    assert(mailbox@.blobs =~= before.blobs.push(bytes));
    Publish::Appended(seq)
}

// ----- long polls ------------------------------------------------------------------------------------

/// What a long-polling fetch does next.
#[derive(Debug, Clone)]
pub enum PollStep {
    /// Answer with this.
    Answer(Fetch),
    /// Wait for the mailbox to be woken, but no longer than this, and look again.
    Wait { nanos: u64 },
}

impl Rooms {
    /// Long-poll a fetch of `role`'s mailbox at `seq` until `deadline`: look once, and
    /// say what to do next.
    ///
    /// Answers at once if the blob is there or will never be; else waits for the
    /// mailbox to be woken and looks again, and answers that the blob is pending once
    /// the deadline has passed. With a deadline of `now` this is a non-blocking peek.
    pub fn fetch(&mut self, room: &str, role: Role, seq: usize, deadline: u64, now: u64) -> (r:
        PollStep)
        requires
            old(self).wf(),
        ensures
            final(self).wf(),
            final(self).limits() == old(self).limits(),
            final(self)@ == after_fetch(old(self)@, old(self).limits(), room@, now),
            ({
                let found = mailbox_of(old(self)@, room@, role).peek(seq as int);
                if found is Pending && now < deadline {
                    r == (PollStep::Wait { nanos: (deadline - now) as u64 })
                } else {
                    r matches PollStep::Answer(answer) && answer@ == found
                }
            }),
    {
        let outcome = self.fetch_now(room, role, seq, now);
        if matches!(outcome, Fetch::Pending) && now < deadline {
            PollStep::Wait { nanos: deadline - now }
        } else {
            PollStep::Answer(outcome)
        }
    }
}

// ----- laws --------------------------------------------------------------------------------------------

/// A blob that was published with a sequence number is what a fetch of that number
/// finds, and it stands behind every blob published before it, in publish order.
pub proof fn law_published_blobs_are_fetched_in_order(
    rooms: RoomMap,
    limits: Limits,
    room: Seq<char>,
    role: Role,
    blob: Seq<u8>,
    now: u64,
)
    requires
        publish_outcome(rooms, limits, room, role) is Appended,
        mailbox_of(rooms, room, role).blobs.len() <= usize::MAX,
    ensures
        ({
            let before = mailbox_of(rooms, room, role);
            let after = mailbox_of(
                after_publish(rooms, limits, room, role, blob, now),
                room,
                role,
            );
            let seq = publish_outcome(rooms, limits, room, role)->Appended_0 as int;
            &&& seq == before.blobs.len()
            &&& after.blobs.len() == seq + 1
            &&& after.peek(seq) == FetchView::Blob(blob)
            &&& forall|k: int| 0 <= k < seq ==> #[trigger] after.peek(k) == before.peek(k)
        }),
{
}

/// Fetching changes no mailbox, so a fetch can be repeated and finds the same.
pub proof fn law_fetching_is_idempotent(
    rooms: RoomMap,
    limits: Limits,
    fetched: Seq<char>,
    now: u64,
    room: Seq<char>,
    role: Role,
)
    ensures
        mailbox_of(after_fetch(rooms, limits, fetched, now), room, role) == mailbox_of(
            rooms,
            room,
            role,
        ),
{
}

/// Publishing to a done mailbox is rejected (unless the store is too full for the
/// room, which a room with a done mailbox never is), and changes no mailbox. Once
/// done, a mailbox stays done with the blobs it has, however much is published to it,
/// marked or fetched.
pub proof fn law_a_done_mailbox_is_frozen(
    rooms: RoomMap,
    limits: Limits,
    room: Seq<char>,
    role: Role,
    blob: Seq<u8>,
    now: u64,
)
    requires
        mailbox_of(rooms, room, role).done,
    ensures
        publish_outcome(rooms, limits, room, role) == Publish::Done,
        mailbox_of(after_publish(rooms, limits, room, role, blob, now), room, role) == mailbox_of(
            rooms,
            room,
            role,
        ),
        mailbox_of(after_done(rooms, limits, room, role, now), room, role) == mailbox_of(
            rooms,
            room,
            role,
        ),
{
}

/// Marking a mailbox done freezes it: its blobs can still be fetched, and a fetch past
/// them finds that there will be none. (A room that there is no place for has no
/// mailbox to mark.)
pub proof fn law_done_ends_a_mailbox(
    rooms: RoomMap,
    limits: Limits,
    room: Seq<char>,
    role: Role,
    now: u64,
    seq: int,
)
    requires
        0 <= seq,
        !is_crowded_out(rooms, limits, room),
    ensures
        ({
            let before = mailbox_of(rooms, room, role);
            let after = mailbox_of(after_done(rooms, limits, room, role, now), room, role);
            if seq < before.blobs.len() {
                after.peek(seq) == before.peek(seq)
            } else {
                after.peek(seq) is Done
            }
        }),
{
}

/// Rooms and roles are isolated: what is published to one mailbox, or marked in it,
/// changes no other mailbox of the store.
pub proof fn law_mailboxes_are_isolated(
    rooms: RoomMap,
    limits: Limits,
    room: Seq<char>,
    role: Role,
    blob: Seq<u8>,
    now: u64,
    other_room: Seq<char>,
    other_role: Role,
)
    requires
        other_room != room || other_role != role,
    ensures
        mailbox_of(
            after_publish(rooms, limits, room, role, blob, now),
            other_room,
            other_role,
        ) == mailbox_of(rooms, other_room, other_role),
        mailbox_of(after_done(rooms, limits, room, role, now), other_room, other_role) == mailbox_of(
            rooms,
            other_room,
            other_role,
        ),
{
}

/// No wakeup is lost: a fetch that found nothing finds something after a publish only
/// if the blob was appended to the very mailbox it waits on, and after a mark only if
/// that mailbox was marked. Those are the operations that wake it.
pub proof fn law_no_wakeup_is_lost(
    rooms: RoomMap,
    limits: Limits,
    room: Seq<char>,
    role: Role,
    blob: Seq<u8>,
    now: u64,
    waiting_room: Seq<char>,
    waiting_role: Role,
    seq: int,
)
    requires
        0 <= seq,
        mailbox_of(rooms, waiting_room, waiting_role).peek(seq) is Pending,
    ensures
        !(mailbox_of(
            after_publish(rooms, limits, room, role, blob, now),
            waiting_room,
            waiting_role,
        ).peek(seq) is Pending) ==> publish_outcome(rooms, limits, room, role) is Appended && room
            == waiting_room && role == waiting_role,
        !(mailbox_of(
            after_done(rooms, limits, room, role, now),
            waiting_room,
            waiting_role,
        ).peek(seq) is Pending) ==> room == waiting_room && role == waiting_role,
{
}

/// A deleted room, and one that was evicted, behaves as a room nobody has used.
pub proof fn law_removed_rooms_are_empty(
    rooms: RoomMap,
    room: Seq<char>,
    role: Role,
    ttl: u64,
    now: u64,
)
    ensures
        mailbox_of(rooms.remove(room), room, role) == MailboxView::empty(),
        rooms.dom().contains(room) && is_expired(rooms[room], ttl, now) ==> mailbox_of(
            after_eviction(rooms, ttl, now),
            room,
            role,
        ) == MailboxView::empty(),
{
}

/// Eviction spares every room that was touched within the TTL, with all it holds.
pub proof fn law_live_rooms_survive_eviction(rooms: RoomMap, room: Seq<char>, ttl: u64, now: u64)
    requires
        rooms.dom().contains(room),
        now - rooms[room].last_touched <= ttl,
    ensures
        after_eviction(rooms, ttl, now).dom().contains(room),
        after_eviction(rooms, ttl, now)[room] == rooms[room],
{
}

/// Every operation that speaks of a room keeps it from expiring: it counts as touched
/// at the time of the operation, unless there are too many rooms for it. A publish that
/// a full or done mailbox turns away is such an operation too.
pub proof fn law_activity_keeps_a_room_alive(
    rooms: RoomMap,
    limits: Limits,
    room: Seq<char>,
    role: Role,
    blob: Seq<u8>,
    now: u64,
)
    requires
        !is_crowded_out(rooms, limits, room),
    ensures
        after_fetch(rooms, limits, room, now).dom().contains(room),
        after_fetch(rooms, limits, room, now)[room].last_touched == now,
        after_done(rooms, limits, room, role, now).dom().contains(room),
        after_done(rooms, limits, room, role, now)[room].last_touched == now,
        after_publish(rooms, limits, room, role, blob, now).dom().contains(room),
        after_publish(rooms, limits, room, role, blob, now)[room].last_touched == now,
{
}

/// A store never holds more rooms than its limit: a store within the limit stays within
/// it whatever is published, marked, fetched, deleted or evicted.
pub proof fn law_rooms_stay_within_the_limit(
    rooms: RoomMap,
    limits: Limits,
    room: Seq<char>,
    role: Role,
    blob: Seq<u8>,
    now: u64,
)
    requires
        rooms.dom().finite(),
        limits.max_rooms != 0,
        rooms.dom().len() <= limits.max_rooms,
    ensures
        after_publish(rooms, limits, room, role, blob, now).dom().len() <= limits.max_rooms,
        after_done(rooms, limits, room, role, now).dom().len() <= limits.max_rooms,
        after_fetch(rooms, limits, room, now).dom().len() <= limits.max_rooms,
        rooms.remove(room).dom().len() <= limits.max_rooms,
        after_eviction(rooms, limits.room_ttl_nanos, now).dom().len() <= limits.max_rooms,
{
    if rooms.dom().contains(room) || rooms.dom().len() < limits.max_rooms {
        let with = rooms.dom().insert(room);
        assert(rooms.dom().contains(room) ==> with =~= rooms.dom());
        assert(after_publish(rooms, limits, room, role, blob, now).dom() =~= with);
        assert(after_done(rooms, limits, room, role, now).dom() =~= with);
        assert(after_fetch(rooms, limits, room, now).dom() =~= with);
    }
    let left = after_eviction(rooms, limits.room_ttl_nanos, now).dom();
    assert(left.subset_of(rooms.dom()));
    vstd::set_lib::lemma_len_subset(left, rooms.dom());
}

/// A room that there is no place for is not created, by any operation: a publish to it
/// is refused, marking it counts no blobs, and a fetch finds the blob pending.
pub proof fn law_a_full_store_creates_no_room(
    rooms: RoomMap,
    limits: Limits,
    room: Seq<char>,
    role: Role,
    blob: Seq<u8>,
    now: u64,
    seq: int,
)
    requires
        0 <= seq,
        is_crowded_out(rooms, limits, room),
    ensures
        publish_outcome(rooms, limits, room, role) == Publish::Capacity,
        after_publish(rooms, limits, room, role, blob, now) == rooms,
        mailbox_of(rooms, room, role).blobs.len() == 0,
        after_done(rooms, limits, room, role, now) == rooms,
        mailbox_of(rooms, room, role).peek(seq) is Pending,
        after_fetch(rooms, limits, room, now) == rooms,
{
}

/// A mailbox is addressed by the name of its role, and by no other token.
pub proof fn law_mailboxes_are_addressed_by_name(token: Seq<char>)
    ensures
        mailbox_role_named(token) == Some(Role::Offerer) <==> token == "offerer"@,
        mailbox_role_named(token) == Some(Role::Answerer) <==> token == "answerer"@,
        mailbox_role_named(token) is None <==> token != "offerer"@ && token != "answerer"@,
{
    reveal_strlit("offerer");
    reveal_strlit("answerer");
    assert("offerer"@.len() == 7 && "answerer"@.len() == 8);
}

/// A blob is appended exactly where there is a place for it: in a room that exists or still
/// fits into the store, in a mailbox that is neither done nor full. A limit of zero is none.
/// Where it is not appended the mailbox stays as it was.
pub proof fn law_blobs_are_taken_where_they_fit(
    rooms: RoomMap,
    limits: Limits,
    room: Seq<char>,
    role: Role,
    blob: Seq<u8>,
    now: u64,
)
    ensures
        ({
            let before = mailbox_of(rooms, room, role);
            let after = mailbox_of(
                after_publish(rooms, limits, room, role, blob, now),
                room,
                role,
            );
            let outcome = publish_outcome(rooms, limits, room, role);
            let room_fits = rooms.dom().contains(room) || limits.max_rooms == 0
                || rooms.dom().len() < limits.max_rooms;
            let blob_fits = limits.max_blobs_per_mailbox == 0 || before.blobs.len()
                < limits.max_blobs_per_mailbox;
            &&& outcome is Appended <==> room_fits && !before.done && blob_fits
            &&& outcome is Done <==> room_fits && before.done
            &&& outcome is Capacity <==> !room_fits || (!before.done && !blob_fits)
            &&& outcome is Appended <==> after.blobs == before.blobs.push(blob)
            &&& outcome !is Appended <==> after.blobs == before.blobs
            &&& after.done == before.done
        }),
{
    let before = mailbox_of(rooms, room, role);
    assert(before.blobs.push(blob).len() == before.blobs.len() + 1);
}

/// No mailbox grows beyond its limit, whichever it is and whatever is published.
pub proof fn law_mailboxes_stay_within_the_limit(
    rooms: RoomMap,
    limits: Limits,
    room: Seq<char>,
    role: Role,
    blob: Seq<u8>,
    now: u64,
    any_room: Seq<char>,
    any_role: Role,
)
    requires
        limits.max_blobs_per_mailbox != 0,
        mailbox_of(rooms, any_room, any_role).blobs.len() <= limits.max_blobs_per_mailbox,
    ensures
        mailbox_of(
            after_publish(rooms, limits, room, role, blob, now),
            any_room,
            any_role,
        ).blobs.len() <= limits.max_blobs_per_mailbox,
{
}

/// A room is created, by whichever operation comes first, unless the store is full, and no
/// operation creates or removes any other room.
pub proof fn law_rooms_are_created_where_they_fit(
    rooms: RoomMap,
    limits: Limits,
    room: Seq<char>,
    role: Role,
    blob: Seq<u8>,
    now: u64,
    other: Seq<char>,
)
    ensures
        ({
            let fits = rooms.dom().contains(room) || limits.max_rooms == 0 || rooms.dom().len()
                < limits.max_rooms;
            &&& after_publish(rooms, limits, room, role, blob, now).dom().contains(room) <==> fits
            &&& after_done(rooms, limits, room, role, now).dom().contains(room) <==> fits
            &&& after_fetch(rooms, limits, room, now).dom().contains(room) <==> fits
        }),
        other != room ==> {
            &&& after_publish(rooms, limits, room, role, blob, now).dom().contains(other)
                <==> rooms.dom().contains(other)
            &&& after_done(rooms, limits, room, role, now).dom().contains(other)
                <==> rooms.dom().contains(other)
            &&& after_fetch(rooms, limits, room, now).dom().contains(other)
                <==> rooms.dom().contains(other)
        },
        other != room && rooms.dom().contains(other) ==> {
            &&& after_publish(rooms, limits, room, role, blob, now)[other] == rooms[other]
            &&& after_done(rooms, limits, room, role, now)[other] == rooms[other]
            &&& after_fetch(rooms, limits, room, now)[other] == rooms[other]
        },
{
}

/// Eviction removes a room exactly if more than the TTL has passed since it was touched.
pub proof fn law_idle_rooms_are_evicted(rooms: RoomMap, room: Seq<char>, ttl: u64, now: u64)
    ensures
        after_eviction(rooms, ttl, now).dom().contains(room) <==> rooms.dom().contains(room)
            && now <= rooms[room].last_touched + ttl,
{
}

/// A fetch finds a blob exactly where one stands, and past the last one it finds that there
/// will be none exactly if the mailbox is done.
pub proof fn law_a_fetch_finds_what_stands_there(mailbox: MailboxView, seq: nat)
    ensures
        mailbox.peek(seq as int) is Blob <==> seq < mailbox.blobs.len(),
        mailbox.peek(seq as int) matches FetchView::Blob(blob) ==> blob
            == mailbox.blobs[seq as int],
        mailbox.peek(seq as int) is Done <==> seq >= mailbox.blobs.len() && mailbox.done,
        mailbox.peek(seq as int) is Pending <==> seq >= mailbox.blobs.len() && !mailbox.done,
{
}

} // verus!
