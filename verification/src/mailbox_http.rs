//! The server side of the mailbox protocol: what a request names, and what it is
//! answered.

use vstd::prelude::*;

use crate::mailbox_client::{fetch_status, status_of};
use crate::rooms::{mailbox_role_named, Fetch, FetchView, Publish, Role};
use crate::text::{concat3, decimal, law_number_round_trip, number, parse_number, to_decimal};

verus! {

/// Why a request is refused.
#[derive(Debug, Clone, Copy, PartialEq, Eq, Structural)]
pub enum Refusal {
    /// The path names no role.
    BadRole,
    /// The sequence number is none.
    BadSeq,
    /// The blob is larger than `limit` bytes.
    TooLarge { limit: usize },
    /// The mailbox is done.
    Done,
}

/// What a request is answered: a status and a JSON text.
#[derive(Debug, Clone)]
pub struct Answer {
    pub status: u16,
    pub body: String,
}

/// The contents of an [`Answer`].
#[verifier::ext_equal]
pub struct AnswerView {
    pub status: u16,
    pub body: Seq<char>,
}

impl View for Answer {
    type V = AnswerView;

    open spec fn view(&self) -> AnswerView {
        AnswerView { status: self.status, body: self.body@ }
    }
}

/// A JSON object whose one member is a number.
pub open spec fn counted(member: Seq<char>, n: nat) -> Seq<char> {
    "{\""@ + member + "\":"@ + decimal(n) + "}"@
}

fn to_counted(member: &str, n: usize) -> (r: String)
    ensures
        r@ == counted(member@, n as nat),
{
    let mut out = concat3("{\"", member, "\":");
    out.append(to_decimal(n as u64).as_str());
    out.append("}");
    out
}

impl Refusal {
    /// The answer that tells of this refusal.
    pub open spec fn answer_spec(self) -> AnswerView {
        match self {
            Refusal::BadRole => AnswerView { status: 400, body: "{\"error\":\"bad-role\"}"@ },
            Refusal::BadSeq => AnswerView { status: 400, body: "{\"error\":\"bad-seq\"}"@ },
            Refusal::TooLarge { limit } => AnswerView {
                status: 413,
                body: "{\"error\":\"too-large\",\"limit\":"@ + decimal(limit as nat) + "}"@,
            },
            Refusal::Done => AnswerView { status: 409, body: "{\"error\":\"done\"}"@ },
        }
    }

    /// The answer that tells of this refusal.
    pub fn answer(self) -> (r: Answer)
        ensures
            r@ == self.answer_spec(),
    {
        match self {
            Refusal::BadRole => Answer { status: 400, body: "{\"error\":\"bad-role\"}".to_string() },
            Refusal::BadSeq => Answer { status: 400, body: "{\"error\":\"bad-seq\"}".to_string() },
            Refusal::TooLarge { limit } => Answer {
                status: 413,
                body: concat3(
                    "{\"error\":\"too-large\",\"limit\":",
                    to_decimal(limit as u64).as_str(),
                    "}",
                ),
            },
            Refusal::Done => Answer { status: 409, body: "{\"error\":\"done\"}".to_string() },
        }
    }
}

/// The role a path names.
pub fn read_role(token: &str) -> (r: Result<Role, Refusal>)
    ensures
        r == match mailbox_role_named(token@) {
            Some(role) => Ok::<Role, Refusal>(role),
            None => Err(Refusal::BadRole),
        },
{
    match Role::parse(token) {
        Some(role) => Ok(role),
        None => Err(Refusal::BadRole),
    }
}

/// The sequence number a query names.
pub fn read_seq(text: &str) -> (r: Result<usize, Refusal>)
    ensures
        match number(text@, usize::MAX as nat) {
            Ok(n) => r matches Ok(seq) && seq == n,
            Err(_) => r matches Err(refusal) && refusal == Refusal::BadSeq,
        },
{
    match parse_number(text, usize::MAX as u64) {
        Ok(n) => Ok(n as usize),
        Err(_) => Err(Refusal::BadSeq),
    }
}

/// Whether a blob of `len` bytes may be published where `limit` bytes are allowed.
pub fn check_size(len: usize, limit: usize) -> (r: Result<(), Refusal>)
    ensures
        if len > limit {
            r matches Err(refusal) && refusal == (Refusal::TooLarge { limit })
        } else {
            r is Ok
        },
{
    if len > limit {
        Err(Refusal::TooLarge { limit })
    } else {
        Ok(())
    }
}

/// What a publish is answered: its sequence number, or that the mailbox is done.
/// `None` if the store has no room left, which no answer is fixed for.
pub fn publish_answer(outcome: Publish) -> (r: Option<Answer>)
    ensures
        match outcome {
            Publish::Appended(seq) => r matches Some(answer) && answer@ == (AnswerView {
                status: 200,
                body: counted("seq"@, seq as nat),
            }),
            Publish::Done => r matches Some(answer) && answer@ == Refusal::Done.answer_spec(),
            Publish::Capacity => r is None,
        },
{
    match outcome {
        Publish::Appended(seq) => Some(Answer { status: 200, body: to_counted("seq", seq) }),
        Publish::Done => Some(Refusal::Done.answer()),
        Publish::Capacity => None,
    }
}

/// What marking a mailbox done is answered: the blob count it is frozen at.
pub fn done_answer(len: usize) -> (r: Answer)
    ensures
        r@ == (AnswerView { status: 200, body: counted("len"@, len as nat) }),
{
    Answer { status: 200, body: to_counted("len", len) }
}

/// What deleting a room is answered: whether there was one.
pub fn delete_answer(existed: bool) -> (r: Answer)
    ensures
        r@ == (AnswerView {
            status: 200,
            body: if existed {
                "{\"deleted\":true}"@
            } else {
                "{\"deleted\":false}"@
            },
        }),
{
    Answer {
        status: 200,
        body: if existed {
            "{\"deleted\":true}".to_string()
        } else {
            "{\"deleted\":false}".to_string()
        },
    }
}

/// How a fetch is answered: its status, the sequence number that was asked for, and
/// whether the mailbox is done.
#[derive(Debug, Clone, Copy, PartialEq, Eq, Structural)]
pub struct FetchHead {
    pub status: u16,
    pub seq: usize,
    pub done: bool,
}

/// How a fetch of `seq` that found `found` is answered. The body is the blob.
pub fn fetch_head(seq: usize, found: &Fetch) -> (r: FetchHead)
    ensures
        r == (FetchHead { status: status_of(found@), seq, done: found@ is Done }),
{
    let done = match found {
        Fetch::Done => true,
        _ => false,
    };
    FetchHead { status: fetch_status(found), seq, done }
}

/// Only a blob that is there is answered with success, and only a mailbox that ended
/// is said to be done: the three outcomes of a fetch are told apart by their status.
pub proof fn law_fetch_outcomes_are_told_apart(a: FetchView, b: FetchView)
    requires
        status_of(a) == status_of(b),
    ensures
        a is Blob <==> b is Blob,
        a is Done <==> b is Done,
        a is Pending <==> b is Pending,
{
}

/// A refusal is a client error, by a status and a body that tell what was wrong; only a
/// blob that is too large is told the limit, and only a mailbox that is done conflicts.
pub proof fn law_refusals_tell_what_was_wrong(refusal: Refusal, limit: usize)
    ensures
        400 <= refusal.answer_spec().status < 500,
        refusal.answer_spec().status == 413 <==> refusal is TooLarge,
        refusal.answer_spec().status == 409 <==> refusal == Refusal::Done,
        refusal.answer_spec().status == 400 <==> refusal == Refusal::BadRole || refusal
            == Refusal::BadSeq,
        Refusal::BadRole.answer_spec().body == "{\"error\":\"bad-role\"}"@,
        Refusal::BadSeq.answer_spec().body == "{\"error\":\"bad-seq\"}"@,
        Refusal::Done.answer_spec().body == "{\"error\":\"done\"}"@,
        (Refusal::TooLarge { limit }).answer_spec().body == "{\"error\":\"too-large\",\"limit\":"@
            + decimal(limit as nat) + "}"@,
{
}

/// A counted answer is a JSON object with one member, whose value is the number: two
/// numbers give two answers.
pub proof fn law_counts_stand_in_the_answer(member: Seq<char>, n: u64, m: u64)
    ensures
        counted(member, n as nat) == "{\""@ + member + "\":"@ + decimal(n as nat) + "}"@,
        counted(member, n as nat) == counted(member, m as nat) <==> n == m,
{
    let head = "{\""@ + member + "\":"@;
    let a = counted(member, n as nat);
    let b = counted(member, m as nat);
    reveal_strlit("}");
    assert(a.subrange(head.len() as int, a.len() - 1) =~= decimal(n as nat));
    assert(b.subrange(head.len() as int, b.len() - 1) =~= decimal(m as nat));
    law_number_round_trip(n as nat, u64::MAX as nat);
    law_number_round_trip(m as nat, u64::MAX as nat);
}

} // verus!
