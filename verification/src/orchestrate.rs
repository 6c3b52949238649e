//! Running one test of the corpus: which instances with which configuration, and, where
//! handshakes are retried, whether another attempt is due.

use vstd::prelude::*;

use crate::corpus::{params_for, params_of, plan_for, plan_of};
use crate::ice_lab::{attempt_port, http_url, plan_attempt, AttemptPlan};
use crate::interop::{
    interop_room, opposite, peer_role, roles_for, roles_of, room_name, room_text, Direction,
};
use crate::lab::Scenario;
use crate::outcome::{raw_of, OutcomeView};
use crate::results::{RawResult, RawResultView};
use crate::retry::{
    attempt_views, computes, default_flaky, interop_flaky, interop_policy, judgements,
    lab_policy, run_with_retries, verdict, Attempt, AttemptView, RetryPolicy,
};
use crate::suite::{make_config, Role, TestConfig, TestConfigView};
use crate::text::decimal;

verus! {

/// The configuration of an instance of `test_id`.
pub open spec fn instance_config(
    test_id: Seq<char>,
    role: Role,
    base_url: Seq<char>,
    room: Seq<char>,
) -> TestConfigView {
    TestConfigView {
        role,
        signaling_server: base_url,
        room,
        message_count: params_of(test_id).0,
        message_size: params_of(test_id).1,
        trickle: true,
    }
}

// ----- a single target ---------------------------------------------------------------------------------

/// The instances of a test: one, or two that share a room.
#[derive(Debug, Clone)]
pub struct Instances {
    pub first: TestConfig,
    pub second: Option<TestConfig>,
}

/// The instances of the `n`-th test of a run: those that its plan names, in a room of their
/// own.
pub fn instances_for(test_id: &str, base_url: &str, n: u64) -> (r: Instances)
    ensures
        ({
            let room = room_text("conf"@, test_id@, n);
            let (first, second) = roles_of(plan_of(test_id@));
            &&& r.first@ == instance_config(test_id@, first, base_url@, room)
            &&& match (second, r.second) {
                (Some(role), Some(config)) => config@ == instance_config(
                    test_id@,
                    role,
                    base_url@,
                    room,
                ),
                (None, None) => true,
                _ => false,
            }
        }),
{
    let (count, size) = params_for(test_id);
    let room = room_name("conf", test_id, n);
    let (first, second) = roles_for(plan_for(test_id));
    Instances {
        first: make_config(first, base_url, room.as_str(), count, size),
        second: match second {
            Some(role) => Some(make_config(role, base_url, room.as_str(), count, size)),
            None => None,
        },
    }
}

/// Both instances of a two-peer test meet in the same room on the same server, in opposite
/// roles and with the same message parameters.
pub proof fn law_instances_of_a_test_meet(
    test_id: Seq<char>,
    base_url: Seq<char>,
    n: u64,
    second: Role,
)
    requires
        roles_of(plan_of(test_id)).1 == Some(second),
    ensures
        ({
            let room = room_text("conf"@, test_id, n);
            let a = instance_config(test_id, roles_of(plan_of(test_id)).0, base_url, room);
            let b = instance_config(test_id, second, base_url, room);
            &&& a.role is Offerer
            &&& b.role is Answerer
            &&& b == (TestConfigView { role: Role::Answerer, ..a })
        }),
{
}

// ----- the lab ------------------------------------------------------------------------------------------------

/// What to do next about a test in the lab.
#[derive(Debug)]
pub enum IceStep {
    /// Make an attempt, with these message parameters, in its own room on its own server.
    Attempt { plan: AttemptPlan, count: u32, size: u32 },
    /// The test has come to a result.
    Done(RawResult),
}

/// What the attempts at a test in the lab come to, if at most `max_attempts` are made.
pub open spec fn ice_verdict(
    test_id: Seq<char>,
    max_attempts: u32,
    attempts: Seq<AttemptView>,
) -> Option<RawResultView> {
    let judged = judgements(|detail: Seq<char>| default_flaky(detail), attempts);
    verdict(test_id, max_attempts, judged, attempts, 0, None)
}

/// Run one test to a raw result, making at most `max_attempts` attempts where handshakes
/// are flaky, each with a fresh room: from the attempts so far to what comes next. `n`
/// numbers the attempts of a run.
pub fn run_ice_test(
    scenario: Scenario,
    test_id: &str,
    n: u64,
    host: &str,
    base_port: u16,
    max_attempts: u32,
    attempts: &[Attempt],
) -> (r: IceStep)
    ensures
        ({
            let so_far = ice_verdict(test_id@, max_attempts, attempt_views(attempts@));
            match r {
                IceStep::Done(result) => so_far == Some(result@),
                IceStep::Attempt { plan, count, size } => {
                    &&& so_far is None
                    &&& (count, size) == params_of(test_id@)
                    &&& plan.room@ == "ice-"@ + scenario.id() + "-"@ + test_id@ + "-"@ + decimal(
                        n as nat,
                    )
                    &&& plan.port == attempt_port(base_port, n)
                    &&& plan.signaling_url@ == http_url(host@, plan.port)
                },
            }
        }),
{
    let policy = RetryPolicy { max_attempts, ..lab_policy() };
    assert(computes(policy.is_flaky, |detail: Seq<char>| default_flaky(detail)));
    match run_with_retries(test_id, &policy, attempts) {
        Some(result) => IceStep::Done(result),
        None => {
            let (count, size) = params_for(test_id);
            IceStep::Attempt {
                plan: plan_attempt(scenario, test_id, n, host, base_port),
                count,
                size,
            }
        },
    }
}

// ----- interop pairs ----------------------------------------------------------------------------------------------

/// What to do next about a test of an interop pair.
#[derive(Debug)]
pub enum InteropStep {
    /// Make an attempt: the wasmtime peer runs with this configuration, the other peer in
    /// the opposite role.
    Attempt { config: TestConfig, peer_role: &'static str },
    /// The test has come to a result.
    Done(RawResult),
}

/// What the attempts at an interop test come to.
pub open spec fn interop_verdict(
    test_id: Seq<char>,
    attempts: Seq<AttemptView>,
) -> Option<RawResultView> {
    let judged = judgements(|detail: Seq<char>| interop_flaky(detail), attempts);
    verdict(test_id, 3, judged, attempts, 0, None)
}

/// Run one interop test to a raw result, retrying flaky handshakes with fresh rooms: from
/// the attempts so far to what comes next. `n` numbers the attempts of a run.
pub fn run_interop_test(
    direction: &Direction,
    test_id: &str,
    n: u64,
    base_url: &str,
    attempts: &[Attempt],
) -> (r: InteropStep)
    ensures
        ({
            let so_far = interop_verdict(test_id@, attempt_views(attempts@));
            match r {
                InteropStep::Done(result) => so_far == Some(result@),
                InteropStep::Attempt { config, peer_role } => {
                    &&& so_far is None
                    &&& config@ == instance_config(
                        test_id@,
                        direction.wasmtime_role,
                        base_url@,
                        room_text("interop-"@ + direction.target@, test_id@, n),
                    )
                    &&& peer_role@ == opposite(direction.wasmtime_role)
                },
            }
        }),
{
    let policy = interop_policy();
    assert(computes(policy.is_flaky, |detail: Seq<char>| interop_flaky(detail)));
    match run_with_retries(test_id, &policy, attempts) {
        Some(result) => InteropStep::Done(result),
        None => {
            let (count, size) = params_for(test_id);
            let room = interop_room(direction, test_id, n);
            InteropStep::Attempt {
                config: make_config(direction.wasmtime_role, base_url, room.as_str(), count, size),
                peer_role: peer_role(direction.wasmtime_role),
            }
        },
    }
}

// ----- laws -------------------------------------------------------------------------------------------------------

/// An instance is told everything it was started with and nothing else: its role, its
/// server, its room, and the parameters of its test. Instances of different tests with
/// different parameters never run alike.
pub proof fn law_instances_run_as_they_are_told(
    test_id: Seq<char>,
    role: Role,
    base_url: Seq<char>,
    room: Seq<char>,
)
    ensures
        ({
            let config = instance_config(test_id, role, base_url, room);
            &&& config.role == role
            &&& config.signaling_server == base_url
            &&& config.room == room
            &&& (config.message_count, config.message_size) == params_of(test_id)
            &&& config.trickle
        }),
{
}

/// An interop test makes at most three attempts, and another is due exactly while fewer
/// were made and each was a flake; a lab test makes as many as it is allowed.
pub proof fn law_attempts_run_out(test_id: Seq<char>, max: u32, attempts: Seq<AttemptView>)
    ensures
        attempts.len() >= 3 ==> interop_verdict(test_id, attempts) is Some,
        attempts.len() == 0 ==> interop_verdict(test_id, attempts) is None,
        attempts.len() >= max ==> ice_verdict(test_id, max, attempts) is Some,
        attempts.len() == 0 && max > 0 ==> ice_verdict(test_id, max, attempts) is None,
        attempts.len() < 3 && (forall|i: int|
            0 <= i < attempts.len() ==> (#[trigger] attempts[i]) is TimedOut) ==> interop_verdict(
            test_id,
            attempts,
        ) is None,
{
    let judged = judgements(|detail: Seq<char>| interop_flaky(detail), attempts);
    if attempts.len() >= 3 {
        crate::retry::law_attempts_are_bounded(test_id, 3, judged, attempts);
    }
    let of_lab = judgements(|detail: Seq<char>| default_flaky(detail), attempts);
    if attempts.len() >= max {
        crate::retry::law_attempts_are_bounded(test_id, max, of_lab, attempts);
    }
    if attempts.len() < 3 && (forall|i: int|
        0 <= i < attempts.len() ==> (#[trigger] attempts[i]) is TimedOut) {
        crate::retry::law_flakes_are_retried(test_id, 3, judged, attempts);
    }
}

/// A first attempt that passes is the result of its test, in the lab and between interop
/// pairs.
pub proof fn law_a_first_pass_counts(test_id: Seq<char>, max: u32, attempts: Seq<AttemptView>)
    requires
        max > 0,
        attempts.len() > 0,
        attempts[0] == AttemptView::Ran(OutcomeView::Pass),
    ensures
        interop_verdict(test_id, attempts) == Some(raw_of(test_id, OutcomeView::Pass)),
        ice_verdict(test_id, max, attempts) == Some(raw_of(test_id, OutcomeView::Pass)),
{
}

} // verus!
