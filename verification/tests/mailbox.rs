use bytes::Bytes;
use webrtc_datachannels::error::Error;
use webrtc_datachannels::mailbox_client::{Client, FetchStep, MailboxSession};
use webrtc_datachannels::mailbox_http::{
    check_size, delete_answer, done_answer, fetch_head, publish_answer, read_role, read_seq,
    Refusal,
};
use webrtc_datachannels::rooms::{Fetch, Limits, PollStep, Publish, Role, Rooms};

const MILLI: u64 = 1_000_000;

fn store() -> Rooms {
    Rooms::new(Limits { room_ttl_nanos: 300_000 * MILLI, max_rooms: 0, max_blobs_per_mailbox: 0 })
}

fn publish(rooms: &mut Rooms, room: &str, role: Role, body: &[u8], now: u64) -> u64 {
    let answer =
        publish_answer(rooms.publish(room, role, Bytes::copy_from_slice(body), now)).unwrap();
    assert_eq!(answer.status, 200, "publish should succeed");
    let json: serde_json::Value = serde_json::from_str(&answer.body).unwrap();
    json["seq"].as_u64().unwrap()
}

/// A fetch that waits for nothing: its status and body.
fn fetch(rooms: &mut Rooms, room: &str, role: Role, seq: usize, now: u64) -> (u16, Vec<u8>) {
    match rooms.fetch(room, role, seq, now, now) {
        PollStep::Answer(found) => answered(seq, found),
        other => panic!("{other:?}"),
    }
}

fn answered(seq: usize, found: Fetch) -> (u16, Vec<u8>) {
    let head = fetch_head(seq, &found);
    assert_eq!(head.seq, seq);
    assert_eq!(head.done, head.status == 204);
    match found {
        Fetch::Blob(blob) => (head.status, blob.to_vec()),
        _ => (head.status, Vec::new()),
    }
}

#[test]
fn publish_and_fetch_preserve_order() {
    let mut s = store();
    assert_eq!(publish(&mut s, "r", Role::Offerer, b"a", 0), 0);
    assert_eq!(publish(&mut s, "r", Role::Offerer, b"b", 0), 1);
    assert_eq!(publish(&mut s, "r", Role::Offerer, b"c", 0), 2);

    for (seq, expected) in [(0, "a"), (1, "b"), (2, "c")] {
        let (status, body) = fetch(&mut s, "r", Role::Offerer, seq, 0);
        assert_eq!(status, 200);
        assert_eq!(body, expected.as_bytes());
    }
}

#[test]
fn fetch_is_idempotent_across_refetches() {
    let mut s = store();
    publish(&mut s, "r", Role::Answerer, b"payload", 0);

    for _ in 0..3 {
        let (status, body) = fetch(&mut s, "r", Role::Answerer, 0, 0);
        assert_eq!(status, 200);
        assert_eq!(body, b"payload");
    }
}

#[test]
fn long_poll_wakes_on_publish() {
    let mut s = store();
    let deadline = 5000 * MILLI;
    assert!(matches!(
        s.fetch("r", Role::Offerer, 0, deadline, 0),
        PollStep::Wait { nanos } if nanos == deadline
    ));

    let now = 150 * MILLI;
    publish(&mut s, "r", Role::Offerer, b"late", now);

    match s.fetch("r", Role::Offerer, 0, deadline, now) {
        PollStep::Answer(found) => {
            let (status, body) = answered(0, found);
            assert_eq!(status, 200, "long-poll should wake on publish");
            assert_eq!(body, b"late");
        }
        other => panic!("{other:?}"),
    }
}

#[test]
fn short_poll_returns_304_when_absent() {
    let mut s = store();
    let (status, _) = fetch(&mut s, "r", Role::Offerer, 0, 0);
    assert_eq!(status, 304);
}

#[test]
fn done_marker_yields_no_content_past_end() {
    let mut s = store();
    publish(&mut s, "r", Role::Offerer, b"only", 0);
    let answer = done_answer(s.mark_done("r", Role::Offerer, 0));
    assert_eq!(answer.status, 200);
    let json: serde_json::Value = serde_json::from_str(&answer.body).unwrap();
    assert_eq!(json["len"].as_u64().unwrap(), 1);

    let (status, _) = fetch(&mut s, "r", Role::Offerer, 0, 0);
    assert_eq!(status, 200);

    match s.fetch("r", Role::Offerer, 1, 2000 * MILLI, 0) {
        PollStep::Answer(found) => {
            let head = fetch_head(1, &found);
            assert_eq!(head.status, 204);
            assert!(head.done);
        }
        other => panic!("{other:?}"),
    }
}

#[test]
fn publish_after_done_conflicts() {
    let mut s = store();
    s.mark_done("r", Role::Offerer, 0);
    let outcome = s.publish("r", Role::Offerer, Bytes::from_static(b"nope"), 0);
    let answer = publish_answer(outcome).unwrap();
    assert_eq!(answer.status, 409);
    let json: serde_json::Value = serde_json::from_str(&answer.body).unwrap();
    assert_eq!(json["error"], "done");
}

#[test]
fn long_poll_wakes_on_done() {
    let mut s = store();
    let deadline = 5000 * MILLI;
    assert!(matches!(s.fetch("r", Role::Offerer, 0, deadline, 0), PollStep::Wait { .. }));
    s.mark_done("r", Role::Offerer, 150 * MILLI);
    match s.fetch("r", Role::Offerer, 0, deadline, 150 * MILLI) {
        PollStep::Answer(found) => assert_eq!(answered(0, found).0, 204),
        other => panic!("{other:?}"),
    }
}

#[test]
fn size_cap_rejects_oversized_publish() {
    let refusal = check_size(17, 16).unwrap_err();
    let answer = refusal.answer();
    assert_eq!(answer.status, 413);
    let json: serde_json::Value = serde_json::from_str(&answer.body).unwrap();
    assert_eq!(json["error"], "too-large");
    assert_eq!(json["limit"].as_u64().unwrap(), 16);

    // At the limit is accepted.
    assert!(check_size(16, 16).is_ok());
    assert_eq!(publish(&mut store(), "r", Role::Offerer, &[0u8; 16], 0), 0);
}

#[test]
fn concurrent_rooms_are_isolated() {
    let mut s = store();
    publish(&mut s, "room-a", Role::Offerer, b"aaa", 0);
    publish(&mut s, "room-b", Role::Offerer, b"bbb", 0);

    let (_, a) = fetch(&mut s, "room-a", Role::Offerer, 0, 0);
    let (_, b) = fetch(&mut s, "room-b", Role::Offerer, 0, 0);
    assert_eq!(a, b"aaa");
    assert_eq!(b, b"bbb");
}

#[test]
fn two_roles_cross_fetch() {
    let mut s = store();
    publish(&mut s, "r", Role::Offerer, b"offer", 0);
    publish(&mut s, "r", Role::Answerer, b"answer", 0);

    // Each side fetches the *peer's* mailbox.
    let (_, ans) = fetch(&mut s, "r", Role::Answerer, 0, 0);
    let (_, off) = fetch(&mut s, "r", Role::Offerer, 0, 0);
    assert_eq!(ans, b"answer");
    assert_eq!(off, b"offer");
}

#[test]
fn room_ttl_evicts_idle_rooms() {
    let mut s =
        Rooms::new(Limits { room_ttl_nanos: 200 * MILLI, max_rooms: 0, max_blobs_per_mailbox: 0 });
    publish(&mut s, "r", Role::Offerer, b"x", 0);
    assert_eq!(s.evict_expired(100 * MILLI).len(), 0);
    assert_eq!(s.room_count(), 1);

    assert_eq!(s.evict_expired(500 * MILLI), vec!["r"]);
    assert_eq!(s.room_count(), 0);

    let (status, _) = fetch(&mut s, "r", Role::Offerer, 0, 500 * MILLI);
    assert_eq!(status, 304, "evicted room should behave as empty");
}

#[test]
fn delete_room_removes_state() {
    let mut s = store();
    publish(&mut s, "r", Role::Offerer, b"x", 0);
    let answer = delete_answer(s.delete("r"));
    assert_eq!(answer.status, 200);
    let json: serde_json::Value = serde_json::from_str(&answer.body).unwrap();
    assert_eq!(json["deleted"], true);

    // Recreated empty on next fetch.
    let (status, _) = fetch(&mut s, "r", Role::Offerer, 0, 0);
    assert_eq!(status, 304);

    // Deleting a nonexistent room is idempotent.
    let json: serde_json::Value =
        serde_json::from_str(&delete_answer(s.delete("nope")).body).unwrap();
    assert_eq!(json["deleted"], false);
}

#[test]
fn bad_seq_and_role_are_rejected() {
    let answer = read_seq("notanumber").unwrap_err().answer();
    assert_eq!(answer.status, 400);
    let json: serde_json::Value = serde_json::from_str(&answer.body).unwrap();
    assert_eq!(json["error"], "bad-seq");

    let answer = read_role("spectator").unwrap_err().answer();
    assert_eq!(answer.status, 400);
    let json: serde_json::Value = serde_json::from_str(&answer.body).unwrap();
    assert_eq!(json["error"], "bad-role");

    assert_eq!(read_seq("7"), Ok(7));
    assert_eq!(read_seq("-1"), Err(Refusal::BadSeq));
    assert_eq!(read_role("answerer"), Ok(Role::Answerer));
}

// ----- capacity -----

#[test]
fn capacity_limits_are_kept() {
    let mut s =
        Rooms::new(Limits { room_ttl_nanos: MILLI, max_rooms: 1, max_blobs_per_mailbox: 1 });
    assert_eq!(publish(&mut s, "a", Role::Offerer, b"x", 0), 0);
    let full = s.publish("b", Role::Offerer, Bytes::from_static(b"x"), 0);
    assert_eq!(full, Publish::Capacity);
    assert!(publish_answer(full).is_none());
    let full = s.publish("a", Role::Offerer, Bytes::from_static(b"y"), 0);
    assert_eq!(full, Publish::Capacity);
    assert_eq!(publish(&mut s, "a", Role::Answerer, b"x", 0), 0);
    assert_eq!(s.room_count(), 1);
}

#[test]
fn a_full_store_creates_no_room() {
    let mut s =
        Rooms::new(Limits { room_ttl_nanos: 10, max_rooms: 1, max_blobs_per_mailbox: 0 });
    assert_eq!(publish(&mut s, "a", Role::Offerer, b"x", 0), 0);
    assert_eq!(s.mark_done("b", Role::Offerer, 0), 0);
    assert_eq!(s.room_count(), 1);
    assert!(matches!(s.fetch_now("b", Role::Offerer, 0, 0), Fetch::Pending));
    assert!(matches!(s.fetch("b", Role::Offerer, 0, 7, 2), PollStep::Wait { nanos: 5 }));
    assert!(matches!(s.fetch("b", Role::Offerer, 0, 7, 7), PollStep::Answer(Fetch::Pending)));
    assert_eq!(s.room_count(), 1);
    // The mark was not kept: once there is room, the mailbox is open.
    assert!(s.delete("a"));
    assert_eq!(publish(&mut s, "b", Role::Offerer, b"y", 7), 0);
    assert_eq!(s.mark_done("b", Role::Offerer, 7), 1);
    assert_eq!(s.evict_expired(18), vec!["b".to_string()]);
    assert_eq!(s.room_count(), 0);
}

#[test]
fn a_refused_publish_keeps_a_room_alive() {
    let mut s =
        Rooms::new(Limits { room_ttl_nanos: 10, max_rooms: 0, max_blobs_per_mailbox: 1 });
    publish(&mut s, "r", Role::Offerer, b"x", 0);
    assert_eq!(
        s.publish("r", Role::Offerer, Bytes::from_static(b"y"), 8),
        Publish::Capacity
    );
    assert_eq!(s.evict_expired(15).len(), 0);
    assert_eq!(s.evict_expired(19), vec!["r".to_string()]);
}

#[test]
fn activity_keeps_a_room_alive() {
    let mut s =
        Rooms::new(Limits { room_ttl_nanos: 10, max_rooms: 0, max_blobs_per_mailbox: 0 });
    publish(&mut s, "r", Role::Offerer, b"x", 0);
    fetch(&mut s, "r", Role::Offerer, 0, 8);
    assert_eq!(s.evict_expired(15).len(), 0);
    assert_eq!(fetch(&mut s, "r", Role::Offerer, 0, 15).1, b"x");
}

#[test]
fn a_store_keeps_what_was_published() {
    // What a fetch hands out is the blob itself, not the caller's buffer.
    let mut s = store();
    let blob = Bytes::from(vec![1u8, 2, 3]);
    s.publish("r", Role::Offerer, blob.clone(), 0);
    let first = fetch(&mut s, "r", Role::Offerer, 0, 0);
    let second = fetch(&mut s, "r", Role::Offerer, 0, 0);
    assert_eq!(first, (200, vec![1, 2, 3]));
    assert_eq!(first, second);
}

// ----- the client -----

#[test]
fn session_urls_are_exact() {
    let session = MailboxSession::open(
        Client::Native, "http://s:1//", "room".to_string(), Role::Answerer,
    );
    assert_eq!(session.publish_url(), "http://s:1/rooms/room/answerer");
    assert_eq!(session.done_url(), "http://s:1/rooms/room/answerer/done");
    assert_eq!(session.own_role(), "answerer");
    assert_eq!(session.peer_role(), "offerer");
    assert!(session.fetch_url().starts_with("http://s:1/rooms/room/offerer?seq=0"));
}

#[test]
fn sessions_read_in_publish_order() {
    let mut s = store();
    publish(&mut s, "r", Role::Offerer, b"a", 0);
    publish(&mut s, "r", Role::Offerer, b"b", 0);
    let mut session =
        MailboxSession::open(Client::InGuest, "http://s", "r".to_string(), Role::Answerer);
    let mut read = |s: &mut Rooms, seq: usize| {
        let (status, body) = fetch(s, "r", Role::Offerer, seq, 0);
        session.fetch_reply(status, status == 204, body)
    };
    assert!(matches!(read(&mut s, 0), FetchStep::Received(Some(b)) if b == b"a"));
    assert!(matches!(read(&mut s, 1), FetchStep::Received(Some(b)) if b == b"b"));
    assert!(matches!(read(&mut s, 2), FetchStep::Retry));
    s.mark_done("r", Role::Offerer, 0);
    assert!(matches!(read(&mut s, 2), FetchStep::Received(None)));
    assert!(matches!(session.fetch_reply(500, false, vec![]), FetchStep::Failed(Error::Other(_))));
    assert!(session.fetch_url().contains("seq=2"));
}

#[test]
fn failed_requests_name_their_status() {
    let session = MailboxSession::open(Client::Native, "http://s", "r".to_string(), Role::Offerer);
    assert!(session.publish_reply(true, "200 OK").is_ok());
    match session.publish_reply(false, "409 Conflict") {
        Err(Error::Other(text)) => assert!(text.contains("409 Conflict")),
        other => panic!("{other:?}"),
    }
    match session.done_reply(false, "500 Oops") {
        Err(Error::Other(text)) => assert!(text.contains("500 Oops")),
        other => panic!("{other:?}"),
    }
}
