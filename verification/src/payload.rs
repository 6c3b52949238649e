//! Message payloads whose integrity and order a receiver can check.

use vstd::prelude::*;

use crate::text::{concat4, decimal, to_decimal};

verus! {

/// The `k`-th byte of a number in little-endian order.
pub open spec fn le_byte(n: u32, k: int) -> u8 {
    if k == 0 {
        (n % 256) as u8
    } else if k == 1 {
        (n / 256 % 256) as u8
    } else if k == 2 {
        (n / 65536 % 256) as u8
    } else {
        (n / 16777216 % 256) as u8
    }
}

/// The number whose little-endian bytes these are.
pub open spec fn from_le(a: u8, b: u8, c: u8, d: u8) -> int {
    a + b * 256 + c * 65536 + d * 16777216
}

/// The four bytes of a number, and the number they make.
proof fn lemma_le_bytes(n: u32)
    ensures
        from_le(le_byte(n, 0), le_byte(n, 1), le_byte(n, 2), le_byte(n, 3)) == n,
{
}

fn to_le_byte(n: u32, k: usize) -> (r: u8)
    requires
        k < 4,
    ensures
        r == le_byte(n, k as int),
{
    if k == 0 {
        (n % 256) as u8
    } else if k == 1 {
        (n / 256 % 256) as u8
    } else if k == 2 {
        (n / 65536 % 256) as u8
    } else {
        (n / 16777216 % 256) as u8
    }
}

// ----- messages of the demos -----------------------------------------------------------------------

/// A message of `size` bytes that repeats the bytes of its index.
pub open spec fn message(size: nat, index: u32) -> Seq<u8> {
    Seq::new(size, |k: int| le_byte(index, k % 4))
}

/// Build a deterministic `size`-byte message tagged with its index so a peer could
/// verify ordering.
pub fn make_message(size: usize, index: u32) -> (r: Vec<u8>)
    ensures
        r@ == message(size as nat, index),
{
    let mut out: Vec<u8> = Vec::new();
    let mut k: usize = 0;
    while k < size
        invariant
            k <= size,
            out@ == message(size as nat, index).take(k as int),
        decreases size - k,
    {
        out.push(to_le_byte(index, k % 4));
        assert(out@ =~= message(size as nat, index).take(k + 1));
        k += 1;
    }
    assert(message(size as nat, index).take(k as int) =~= message(size as nat, index));
    out
}

/// Messages that are large enough to hold their index tell their indices apart.
pub proof fn law_messages_are_told_apart(size: nat, i: u32, j: u32)
    requires
        size >= 4,
        i != j,
    ensures
        message(size, i) != message(size, j),
{
    if message(size, i) == message(size, j) {
        assert(message(size, i)[0] == message(size, j)[0]);
        assert(message(size, i)[1] == message(size, j)[1]);
        assert(message(size, i)[2] == message(size, j)[2]);
        assert(message(size, i)[3] == message(size, j)[3]);
        lemma_le_bytes(i);
        lemma_le_bytes(j);
    }
}

// ----- payloads of the conformance tests -------------------------------------------------------------

/// The byte a payload of this index holds `offset` bytes behind its head.
pub open spec fn filler(index: int, offset: int) -> u8 {
    ((index + offset) % 251) as u8
}

/// The payload of an index: the index in four bytes, then a pattern that depends on
/// index and position, `size` bytes in all (but no fewer than four).
pub open spec fn payload(index: u32, size: u32) -> Seq<u8> {
    Seq::new(
        if size < 4 {
            4
        } else {
            size as nat
        },
        |k: int|
            if k < 4 {
                le_byte(index, k)
            } else {
                filler(index as int, k - 4)
            },
    )
}

/// Build an indexed, verifiable payload of `size` bytes (minimum 4).
pub fn make_payload(index: u32, size: u32) -> (r: Vec<u8>)
    ensures
        r@ == payload(index, size),
{
    let size: u32 = if size < 4 {
        4
    } else {
        size
    };
    let ghost whole = payload(index, size);
    let mut out: Vec<u8> = Vec::new();
    let mut k: u32 = 0;
    while k < size
        invariant
            4 <= size,
            k <= size,
            whole == payload(index, size),
            out@ == whole.take(k as int),
        decreases size - k,
    {
        let byte = if k < 4 {
            to_le_byte(index, k as usize)
        } else {
            ((index as u64 + (k - 4) as u64) % 251) as u8
        };
        out.push(byte);
        assert(out@ =~= whole.take(k + 1));
        k += 1;
    }
    assert(whole.take(k as int) =~= whole);
    out
}

/// The index stored in a payload's first four bytes, if present.
pub open spec fn index_in(bytes: Seq<u8>) -> Option<int> {
    if bytes.len() < 4 {
        None
    } else {
        Some(from_le(bytes[0], bytes[1], bytes[2], bytes[3]))
    }
}

/// The index stored in a payload's first four bytes, if present.
pub fn payload_index(bytes: &[u8]) -> (r: Option<u32>)
    ensures
        match r {
            Some(index) => index_in(bytes@) == Some(index as int),
            None => index_in(bytes@) is None,
        },
{
    if bytes.len() < 4 {
        return None;
    }
    Some(
        bytes[0] as u32 + bytes[1] as u32 * 256 + bytes[2] as u32 * 65536 + bytes[3] as u32
            * 16777216,
    )
}

/// A payload holds the pattern that belongs to the index it carries.
pub open spec fn well_formed(bytes: Seq<u8>) -> bool {
    &&& bytes.len() >= 4
    &&& forall|k: int|
        4 <= k < bytes.len() ==> #[trigger] bytes[k] == filler(index_in(bytes)->0, k - 4)
}

/// Whether a payload matches the pattern [`make_payload`] produces.
pub fn verify_payload(bytes: &[u8]) -> (r: bool)
    ensures
        r == well_formed(bytes@),
{
    let index = match payload_index(bytes) {
        Some(index) => index,
        None => {
            return false;
        },
    };
    let mut k: usize = 4;
    while k < bytes.len()
        invariant
            4 <= k <= bytes@.len(),
            index_in(bytes@) == Some(index as int),
            forall|j: int| 4 <= j < k ==> #[trigger] bytes@[j] == filler(index as int, j - 4),
        decreases bytes@.len() - k,
    {
        let expected = ((index as u128 + (k - 4) as u128) % 251) as u8;
        assert(expected == filler(index as int, k - 4));
        if bytes[k] != expected {
            return false;
        }
        k += 1;
    }
    true
}

/// A payload that was built for an index carries that index and its pattern.
pub proof fn law_payloads_verify(index: u32, size: u32)
    ensures
        well_formed(payload(index, size)),
        index_in(payload(index, size)) == Some(index as int),
{
    lemma_le_bytes(index);
}

/// The contents of a list of payloads.
pub open spec fn byte_lists(list: Seq<Vec<u8>>) -> Seq<Seq<u8>> {
    list.map_values(|b: Vec<u8>| b@)
}

/// Every payload is well-formed.
pub open spec fn all_well_formed(received: Seq<Seq<u8>>) -> bool {
    forall|i: int| 0 <= i < received.len() ==> well_formed(#[trigger] received[i])
}

/// What is wrong with `received`, if not `count` well-formed payloads.
pub open spec fn integrity_problem(received: Seq<Seq<u8>>, count: u32) -> Option<Seq<char>> {
    if received.len() != count {
        Some(
            "received "@ + decimal(received.len()) + " messages, expected "@ + decimal(
                count as nat,
            ),
        )
    } else if !all_well_formed(received) {
        Some("payload failed integrity check"@)
    } else {
        None
    }
}

/// Verify every payload is well-formed and `count` messages arrived.
pub fn verify_all(received: &[Vec<u8>], count: u32) -> (r: Result<(), String>)
    ensures
        match r {
            Ok(()) => integrity_problem(byte_lists(received@), count) is None,
            Err(e) => integrity_problem(byte_lists(received@), count) == Some(e@),
        },
{
    let ghost all = byte_lists(received@);
    if received.len() as u64 != count as u64 {
        return Err(
            concat4(
                "received ",
                to_decimal(received.len() as u64).as_str(),
                " messages, expected ",
                to_decimal(count as u64).as_str(),
            ),
        );
    }
    let mut i: usize = 0;
    while i < received.len()
        invariant
            i <= received@.len(),
            received@.len() == count,
            all == byte_lists(received@),
            forall|k: int| 0 <= k < i ==> well_formed(#[trigger] all[k]),
        decreases received@.len() - i,
    {
        assert(all[i as int] == received@[i as int]@);
        if !verify_payload(received[i].as_slice()) {
            return Err("payload failed integrity check".to_string());
        }
        i += 1;
    }
    Ok(())
}

/// The first payload, from position `from` on, that carries another index than its
/// position.
pub open spec fn misplaced_from(received: Seq<Seq<u8>>, from: int) -> Option<Seq<char>>
    decreases received.len() - from,
{
    if from < 0 || from >= received.len() {
        None
    } else {
        match index_in(received[from]) {
            None => Some("payload too short to carry an index"@),
            Some(index) => if index == from {
                misplaced_from(received, from + 1)
            } else {
                Some(
                    "message "@ + decimal(from as nat) + " carried index "@ + decimal(index as nat),
                )
            },
        }
    }
}

/// What is wrong with `received`, if not the payloads of the indices from 0 up to
/// `count`, in order.
pub open spec fn order_problem(received: Seq<Seq<u8>>, count: u32) -> Option<Seq<char>> {
    match integrity_problem(received, count) {
        Some(problem) => Some(problem),
        None => misplaced_from(received, 0),
    }
}

/// Verify payloads arrived in index order 0..count, each well-formed.
pub fn verify_ordered(received: &[Vec<u8>], count: u32) -> (r: Result<(), String>)
    ensures
        match r {
            Ok(()) => order_problem(byte_lists(received@), count) is None,
            Err(e) => order_problem(byte_lists(received@), count) == Some(e@),
        },
{
    let ghost all = byte_lists(received@);
    match verify_all(received, count) {
        Ok(()) => {},
        Err(e) => {
            return Err(e);
        },
    }
    let mut i: usize = 0;
    while i < received.len()
        invariant
            i <= received@.len(),
            all == byte_lists(received@),
            integrity_problem(all, count) is None,
            misplaced_from(all, 0) == misplaced_from(all, i as int),
        decreases received@.len() - i,
    {
        assert(all[i as int] == received@[i as int]@);
        match payload_index(received[i].as_slice()) {
            Some(index) => {
                if index as u64 != i as u64 {
                    return Err(
                        concat4(
                            "message ",
                            to_decimal(i as u64).as_str(),
                            " carried index ",
                            to_decimal(index as u64).as_str(),
                        ),
                    );
                }
            },
            None => {
                return Err("payload too short to carry an index".to_string());
            },
        }
        i += 1;
    }
    Ok(())
}

/// The payloads a sender sends, in order.
pub open spec fn sent_payloads(count: u32, size: u32) -> Seq<Seq<u8>> {
    Seq::new(count as nat, |i: int| payload(i as u32, size))
}

proof fn lemma_sent_in_order(count: u32, size: u32, from: int)
    requires
        0 <= from <= count,
    ensures
        misplaced_from(sent_payloads(count, size), from) is None,
    decreases count - from,
{
    if from < count {
        law_payloads_verify(from as u32, size);
        assert(sent_payloads(count, size)[from] == payload(from as u32, size));
        lemma_sent_in_order(count, size, from + 1);
    }
}

/// A receiver that gets what a sender sends, in order, finds nothing wrong with it.
pub proof fn law_what_is_sent_verifies(count: u32, size: u32)
    ensures
        integrity_problem(sent_payloads(count, size), count) is None,
        order_problem(sent_payloads(count, size), count) is None,
{
    let sent = sent_payloads(count, size);
    assert forall|i: int| 0 <= i < sent.len() implies well_formed(#[trigger] sent[i]) by {
        law_payloads_verify(i as u32, size);
    }
    lemma_sent_in_order(count, size, 0);
}

/// Payloads that pass the order check arrived in index order.
pub proof fn law_order_check_finds_misplaced(received: Seq<Seq<u8>>, count: u32, i: int)
    requires
        order_problem(received, count) is None,
        0 <= i < received.len(),
    ensures
        received.len() == count,
        well_formed(received[i]),
        index_in(received[i]) == Some(i),
{
    lemma_in_place(received, 0, i);
}

proof fn lemma_in_place(received: Seq<Seq<u8>>, from: int, i: int)
    requires
        misplaced_from(received, from) is None,
        0 <= from <= i < received.len(),
    ensures
        index_in(received[i]) == Some(i),
    decreases i - from,
{
    if from < i {
        lemma_in_place(received, from + 1, i);
    }
}

// ----- what payloads are good for --------------------------------------------------------------------

/// A payload is as long as asked for, if there is room for its index, which stands in its
/// first four bytes, lowest byte first.
pub proof fn law_payloads_carry_their_index(index: u32, size: u32)
    ensures
        ({
            let p = payload(index, size);
            &&& p.len() == if size < 4 {
                4
            } else {
                size as int
            }
            &&& p[0] + 256 * p[1] + 65536 * p[2] + 16777216 * p[3] == index
        }),
{
    lemma_le_bytes(index);
}

/// Behind its index no byte of a payload is like the one before it, so that a byte lost or
/// doubled shows.
pub proof fn law_neighbouring_bytes_differ(index: u32, size: u32, k: int)
    requires
        4 <= k,
        k + 1 < size,
    ensures
        payload(index, size)[k] != payload(index, size)[k + 1],
        payload(index, size)[k] < 251,
{
    let x = index + (k - 4);
    assert(filler(index as int, k - 4) == (x % 251) as u8);
    assert(filler(index as int, k - 3) == ((x + 1) % 251) as u8);
}

/// Payloads of neighbouring indices differ in every byte behind the index, so that one
/// message cannot pass for the next with its index changed.
pub proof fn law_payloads_of_neighbours_differ(index: u32, size: u32, k: int)
    requires
        index < u32::MAX,
        4 <= k < size,
    ensures
        payload(index, size)[k] != payload((index + 1) as u32, size)[k],
{
    let x = index + (k - 4);
    assert(filler(index as int, k - 4) == (x % 251) as u8);
    assert(filler(index + 1, k - 4) == ((x + 1) % 251) as u8);
}

/// A payload verifies exactly if it is one that is built for the index it carries.
pub proof fn law_only_payloads_verify(bytes: Seq<u8>)
    requires
        bytes.len() <= u32::MAX,
    ensures
        well_formed(bytes) <==> exists|index: u32| bytes == #[trigger] payload(
            index,
            bytes.len() as u32,
        ),
{
    if well_formed(bytes) {
        let index = index_in(bytes)->0;
        assert(0 <= index <= u32::MAX);
        let built = payload(index as u32, bytes.len() as u32);
        lemma_le_bytes(index as u32);
        lemma_le_unique(bytes[0], bytes[1], bytes[2], bytes[3]);
        assert(bytes =~= built);
    }
    if exists|index: u32| bytes == #[trigger] payload(index, bytes.len() as u32) {
        let index = choose|index: u32| bytes == #[trigger] payload(index, bytes.len() as u32);
        law_payloads_verify(index, bytes.len() as u32);
    }
}

proof fn lemma_le_unique(a: u8, b: u8, c: u8, d: u8)
    ensures
        ({
            let n = from_le(a, b, c, d) as u32;
            le_byte(n, 0) == a && le_byte(n, 1) == b && le_byte(n, 2) == c && le_byte(n, 3) == d
        }),
{
    let n = from_le(a, b, c, d);
    assert(0 <= n <= u32::MAX);
    assert(n % 256 == a);
    assert(n / 256 == b + c * 256 + d * 65536);
    assert(n / 256 % 256 == b);
    assert(n / 65536 == c + d * 256);
    assert(n / 65536 % 256 == c);
    assert(n / 16777216 == d);
}

/// A payload of which a byte behind its index was changed does not verify.
pub proof fn law_a_flipped_byte_is_found(bytes: Seq<u8>, k: int, byte: u8)
    requires
        well_formed(bytes),
        4 <= k < bytes.len(),
        byte != bytes[k],
    ensures
        !well_formed(bytes.update(k, byte)),
{
    let altered = bytes.update(k, byte);
    assert(index_in(altered) == index_in(bytes));
    assert(altered[k] == byte);
    assert(bytes[k] == filler(index_in(bytes)->0, k - 4));
}

/// A list of payloads is intact exactly if there are as many as expected and each of them
/// verifies: none lost, none added, none corrupted.
pub proof fn law_integrity_needs_every_payload(received: Seq<Seq<u8>>, count: u32)
    ensures
        integrity_problem(received, count) is None <==> received.len() == count && forall|i: int|
            0 <= i < received.len() ==> well_formed(#[trigger] received[i]),
{
}

/// A list of payloads is in order exactly if it is intact and every payload carries the
/// index of its place.
pub proof fn law_order_needs_every_index(received: Seq<Seq<u8>>, count: u32)
    ensures
        order_problem(received, count) is None <==> received.len() == count && forall|i: int|
            0 <= i < received.len() ==> well_formed(#[trigger] received[i]) && index_in(received[i])
                == Some(i),
{
    if order_problem(received, count) is None {
        assert forall|i: int| 0 <= i < received.len() implies well_formed(#[trigger] received[i])
            && index_in(received[i]) == Some(i) by {
            law_order_check_finds_misplaced(received, count, i);
        }
    }
    if received.len() == count && forall|i: int|
        0 <= i < received.len() ==> well_formed(#[trigger] received[i]) && index_in(received[i])
            == Some(i) {
        lemma_none_misplaced(received, 0);
    }
}

proof fn lemma_none_misplaced(received: Seq<Seq<u8>>, from: int)
    requires
        0 <= from,
        forall|i: int| 0 <= i < received.len() ==> index_in(#[trigger] received[i]) == Some(i),
    ensures
        misplaced_from(received, from) is None,
    decreases received.len() - from,
{
    if from < received.len() {
        assert(index_in(received[from]) == Some(from));
        lemma_none_misplaced(received, from + 1);
    }
}

/// A demo message is as long as asked for, and repeats the four bytes of its index, lowest
/// byte first.
pub proof fn law_messages_repeat_their_index(size: nat, index: u32, k: int)
    requires
        0 <= k < size,
    ensures
        message(size, index).len() == size,
        k + 4 < size ==> message(size, index)[k] == message(size, index)[k + 4],
        size >= 4 ==> message(size, index)[0] + 256 * message(size, index)[1] + 65536 * message(
            size,
            index,
        )[2] + 16777216 * message(size, index)[3] == index,
{
    lemma_le_bytes(index);
}

/// What is wrong with a sequence is said by the first thing that is: how many messages
/// arrived where others were expected, a corrupted payload, or the first message that does
/// not carry the index of its place and the index it carries.
pub proof fn law_problems_of_a_sequence_are_described(
    received: Seq<Seq<u8>>,
    count: u32,
    i: int,
)
    ensures
        received.len() != count ==> integrity_problem(received, count) == Some(
            "received "@ + decimal(received.len()) + " messages, expected "@ + decimal(
                count as nat,
            ),
        ) && order_problem(received, count) == integrity_problem(received, count),
        received.len() == count && !all_well_formed(received) ==> integrity_problem(received, count)
            == Some("payload failed integrity check"@) && order_problem(received, count)
            == integrity_problem(received, count),
        received.len() == count && all_well_formed(received) && 0 <= i < received.len() && (
        forall|k: int| 0 <= k < i ==> index_in(#[trigger] received[k]) == Some(k)) ==> {
            &&& index_in(received[i]) is None ==> order_problem(received, count) == Some(
                "payload too short to carry an index"@,
            )
            &&& (index_in(received[i]) matches Some(index) ==> index != i ==> order_problem(
                received,
                count,
            ) == Some("message "@ + decimal(i as nat) + " carried index "@ + decimal(index as nat)))
        },
{
    if 0 <= i < received.len() && forall|k: int|
        0 <= k < i ==> index_in(#[trigger] received[k]) == Some(k) {
        lemma_placed_until(received, 0, i);
    }
}

proof fn lemma_placed_until(received: Seq<Seq<u8>>, from: int, i: int)
    requires
        0 <= from <= i < received.len(),
        forall|k: int| 0 <= k < i ==> index_in(#[trigger] received[k]) == Some(k),
    ensures
        misplaced_from(received, from) == misplaced_from(received, i),
    decreases i - from,
{
    if from < i {
        assert(index_in(received[from]) == Some(from));
        lemma_placed_until(received, from + 1, i);
    }
}

} // verus!
