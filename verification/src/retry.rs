//! The flaky-handshake retry loop: what the attempts made at a test so far say
//! of it, and whether another one is due.

use vstd::prelude::*;

use crate::outcome::{fold_two, folded, raw_of, to_raw, OutcomeView, TestOutcome};
use crate::results::{RawResult, RawResultView, RawStatus};
use crate::error::ErrorView;
use crate::negotiation::wait_label;
use crate::script::{failure, Side};
use crate::text::{contains, has_substring, lemma_has_substring, occurs_at};

verus! {

/// How a test's attempts are treated: how many to make, how long each may run
/// before it is abandoned as a stalled handshake, and which failure details look
/// like retryable flakes.
#[derive(Clone)]
pub struct RetryPolicy<F> {
    /// Attempts before a flaky handshake is reported as a failure. Each attempt
    /// runs fresh instances or processes with a fresh room.
    pub max_attempts: u32,
    /// How many seconds a single attempt may run before it is abandoned and
    /// retried. It must exceed the host's `wait-connected` timeout so a genuine
    /// connection failure surfaces as an outcome rather than tripping this guard.
    pub attempt_timeout_secs: u64,
    /// Whether a failure detail looks like a retryable flake.
    pub is_flaky: F,
}

/// `is_flaky` takes every detail.
pub open spec fn is_total<F: Fn(&str) -> bool>(is_flaky: F) -> bool {
    forall|detail: &str| #[trigger] call_requires(is_flaky, (detail,))
}

/// `is_flaky` may answer `answer` for `detail`.
pub open spec fn may_say<F: Fn(&str) -> bool>(
    is_flaky: F,
    detail: Seq<char>,
    answer: bool,
) -> bool {
    exists|text: &str| text@ == detail && #[trigger] call_ensures(is_flaky, (text,), answer)
}

/// `is_flaky` answers as `flaky` does.
pub open spec fn computes<F: Fn(&str) -> bool>(
    is_flaky: F,
    flaky: spec_fn(Seq<char>) -> bool,
) -> bool {
    forall|detail: &str, answer: bool| #[trigger]
        call_ensures(is_flaky, (detail,), answer) ==> answer == flaky(detail@)
}

/// A failure detail looks like a retryable handshake flake.
pub open spec fn default_flaky(detail: Seq<char>) -> bool {
    has_substring(detail, "timed-out"@) || has_substring(detail, "wait-connected"@)
}

/// Whether a failure detail looks like a retryable handshake flake: the loopback
/// or lab ICE handshake occasionally stalls or times out waiting to connect.
/// Targets with additional known flake modes wrap this predicate.
pub fn default_is_flaky(detail: &str) -> (r: bool)
    ensures
        r == default_flaky(detail@),
{
    contains(detail, "timed-out") || contains(detail, "wait-connected")
}

/// A failure detail looks like a flake of an interop pair.
pub open spec fn interop_flaky(detail: Seq<char>) -> bool {
    default_flaky(detail) || has_substring(detail, "no incoming data channel"@)
}

/// Whether a failure detail looks like a flake of an interop pair: besides the
/// handshake stalls every target retries, the wasip3 peer can lose the data-channel
/// open after connecting.
pub fn interop_is_flaky(detail: &str) -> (r: bool)
    ensures
        r == interop_flaky(detail@),
{
    default_is_flaky(detail) || contains(detail, "no incoming data channel")
}

/// The policy of the lab orchestrators.
pub fn lab_policy() -> (r: RetryPolicy<impl Fn(&str) -> bool>)
    ensures
        r.max_attempts == 3,
        r.attempt_timeout_secs == 60,
        is_total(r.is_flaky),
        computes(r.is_flaky, |detail: Seq<char>| default_flaky(detail)),
{
    let r = RetryPolicy { max_attempts: 3, attempt_timeout_secs: 60, is_flaky: default_is_flaky };
    assert(is_total(r.is_flaky));
    assert(computes(r.is_flaky, |detail: Seq<char>| default_flaky(detail)));
    r
}

/// The policy of the interop pairs, each attempt with a fresh room.
pub fn interop_policy() -> (r: RetryPolicy<impl Fn(&str) -> bool>)
    ensures
        r.max_attempts == 3,
        r.attempt_timeout_secs == 45,
        is_total(r.is_flaky),
        computes(r.is_flaky, |detail: Seq<char>| interop_flaky(detail)),
{
    let r = RetryPolicy { max_attempts: 3, attempt_timeout_secs: 45, is_flaky: interop_is_flaky };
    assert(is_total(r.is_flaky));
    assert(computes(r.is_flaky, |detail: Seq<char>| interop_flaky(detail)));
    r
}

/// How one attempt at a test ended.
#[derive(Debug, Clone)]
pub enum Attempt {
    /// It outlived the attempt timeout and was abandoned.
    TimedOut,
    /// Its instances ran to this folded outcome.
    Ran(TestOutcome),
    /// It could not be orchestrated, for this reason.
    Broken(String),
}

/// The contents of an [`Attempt`].
pub enum AttemptView {
    TimedOut,
    Ran(OutcomeView),
    Broken(Seq<char>),
}

impl View for Attempt {
    type V = AttemptView;

    open spec fn view(&self) -> AttemptView {
        match self {
            Attempt::TimedOut => AttemptView::TimedOut,
            Attempt::Ran(outcome) => AttemptView::Ran(outcome@),
            Attempt::Broken(reason) => AttemptView::Broken(reason@),
        }
    }
}

/// The contents of a list of attempts.
pub open spec fn attempt_views(attempts: Seq<Attempt>) -> Seq<AttemptView> {
    attempts.map_values(|a: Attempt| a@)
}

/// The raw result of a test that failed with a detail, if any.
pub open spec fn failed(test_id: Seq<char>, detail: Option<Seq<char>>) -> RawResultView {
    RawResultView { test_id, status: RawStatus::Fail, detail }
}

/// Another attempt follows this one: it timed out, or it failed with what was judged a
/// flake.
pub open spec fn is_retried(attempt: AttemptView, flake: bool) -> bool {
    match attempt {
        AttemptView::TimedOut => true,
        AttemptView::Ran(OutcomeView::Fail(_)) => flake,
        _ => false,
    }
}

/// What the attempts from the `k`-th on say of a test, the attempts before it
/// having been flakes of which `last` was the last detail. `judged` says of each
/// failed attempt whether its detail was judged a flake. Nothing means that another
/// attempt is due.
pub open spec fn verdict(
    test_id: Seq<char>,
    max_attempts: u32,
    judged: Seq<bool>,
    attempts: Seq<AttemptView>,
    k: int,
    last: Option<Seq<char>>,
) -> Option<RawResultView>
    decreases max_attempts - k,
{
    if k < 0 || k >= max_attempts {
        Some(failed(test_id, last))
    } else if k >= attempts.len() {
        None
    } else {
        match attempts[k] {
            AttemptView::TimedOut => verdict(
                test_id,
                max_attempts,
                judged,
                attempts,
                k + 1,
                Some("attempt timed-out"@),
            ),
            AttemptView::Ran(OutcomeView::Fail(detail)) => if judged[k] {
                verdict(test_id, max_attempts, judged, attempts, k + 1, Some(detail))
            } else {
                Some(failed(test_id, Some(detail)))
            },
            AttemptView::Ran(outcome) => Some(raw_of(test_id, outcome)),
            AttemptView::Broken(reason) => Some(failed(test_id, Some(reason))),
        }
    }
}

/// The `i`-th attempt counts: the policy allows it, and each attempt before it was
/// retried.
pub open spec fn counts(
    max_attempts: u32,
    judged: Seq<bool>,
    attempts: Seq<AttemptView>,
    i: int,
) -> bool {
    0 <= i < attempts.len() && i < max_attempts && forall|j: int|
        0 <= j < i ==> is_retried(#[trigger] attempts[j], judged[j])
}

/// `judged` is what `is_flaky` may have answered for the failed attempts that count.
pub open spec fn is_judged<F: Fn(&str) -> bool>(
    is_flaky: F,
    max_attempts: u32,
    judged: Seq<bool>,
    attempts: Seq<AttemptView>,
) -> bool {
    &&& judged.len() == attempts.len()
    &&& forall|i: int| #[trigger]
        counts(max_attempts, judged, attempts, i) ==> (attempts[i] matches AttemptView::Ran(
            OutcomeView::Fail(detail),
        ) ==> may_say(is_flaky, detail, judged[i]))
}

/// What a predicate judges of the failed attempts.
pub open spec fn judgements(
    flaky: spec_fn(Seq<char>) -> bool,
    attempts: Seq<AttemptView>,
) -> Seq<bool> {
    attempts.map_values(
        |attempt: AttemptView|
            match attempt {
                AttemptView::Ran(OutcomeView::Fail(detail)) => flaky(detail),
                _ => false,
            },
    )
}

/// The contents of a result, if there is one.
pub open spec fn result_view(r: Option<RawResult>) -> Option<RawResultView> {
    match r {
        Some(result) => Some(result@),
        None => None,
    }
}

/// Run one test to a raw result, retrying flaky attempts: given the attempts
/// made so far, the result of the test, or nothing if another attempt is due.
///
/// An attempt that outlived its timeout and a flaky failure are retried; a pass,
/// a skip, a failure that is no flake and an orchestration error end the test. Which
/// failures are flakes is for the policy's predicate to say, whatever it is.
pub fn run_with_retries<F: Fn(&str) -> bool>(
    test_id: &str,
    policy: &RetryPolicy<F>,
    attempts: &[Attempt],
) -> (r: Option<RawResult>)
    requires
        is_total(policy.is_flaky),
    ensures
        exists|judged: Seq<bool>| #[trigger]
            is_judged(policy.is_flaky, policy.max_attempts, judged, attempt_views(attempts@))
                && result_view(r) == verdict(
                test_id@,
                policy.max_attempts,
                judged,
                attempt_views(attempts@),
                0,
                None,
            ),
        forall|flaky: spec_fn(Seq<char>) -> bool| #[trigger]
            computes(policy.is_flaky, flaky) ==> result_view(r) == verdict(
                test_id@,
                policy.max_attempts,
                judgements(flaky, attempt_views(attempts@)),
                attempt_views(attempts@),
                0,
                None,
            ),
{
    let ghost all = attempt_views(attempts@);
    let ghost max = policy.max_attempts;
    let ghost mut judged: Seq<bool> = Seq::new(all.len(), |i: int| false);
    let mut last: Option<String> = None;
    let mut k: usize = 0;
    while k < attempts.len() && (k as u64) < policy.max_attempts as u64
        invariant
            is_total(policy.is_flaky),
            k <= attempts@.len(),
            k <= policy.max_attempts,
            all == attempt_views(attempts@),
            max == policy.max_attempts,
            judged.len() == all.len(),
            forall|i: int| 0 <= i < k ==> is_retried(#[trigger] all[i], judged[i]),
            forall|i: int|
                0 <= i < k ==> (#[trigger] all[i] matches AttemptView::Ran(
                    OutcomeView::Fail(detail),
                ) ==> may_say(policy.is_flaky, detail, judged[i])),
            last_flake(all, k as int) == crate::text::opt_text(last),
        decreases attempts@.len() - k,
    {
        assert(all[k as int] == attempts@[k as int]@);
        match &attempts[k] {
            Attempt::TimedOut => {
                last = Some("attempt timed-out".to_string());
            },
            Attempt::Ran(TestOutcome::Fail(detail)) => {
                let flaky = (policy.is_flaky)(detail.as_str());
                proof {
                    judged = judged.update(k as int, flaky);
                }
                if !flaky {
                    proof {
                        lemma_concluded(test_id@, policy.is_flaky, max, judged, all, k as int);
                    }
                    return Some(
                        RawResult {
                            test_id: test_id.to_string(),
                            status: RawStatus::Fail,
                            detail: Some(detail.clone()),
                        },
                    );
                }
                last = Some(detail.clone());
            },
            Attempt::Ran(TestOutcome::Pass) => {
                proof {
                    lemma_concluded(test_id@, policy.is_flaky, max, judged, all, k as int);
                }
                return Some(to_raw(test_id, TestOutcome::Pass));
            },
            Attempt::Ran(TestOutcome::Skipped(reason)) => {
                proof {
                    lemma_concluded(test_id@, policy.is_flaky, max, judged, all, k as int);
                }
                return Some(to_raw(test_id, TestOutcome::Skipped(reason.clone())));
            },
            Attempt::Broken(reason) => {
                proof {
                    lemma_concluded(test_id@, policy.is_flaky, max, judged, all, k as int);
                }
                return Some(
                    RawResult {
                        test_id: test_id.to_string(),
                        status: RawStatus::Fail,
                        detail: Some(reason.clone()),
                    },
                );
            },
        }
        k += 1;
    }
    proof {
        lemma_verdict_skips(test_id@, max, judged, all, k as int, 0);
        assert(is_judged(policy.is_flaky, max, judged, all)) by {
            assert forall|i: int| #[trigger] counts(max, judged, all, i) implies (
            all[i] matches AttemptView::Ran(OutcomeView::Fail(detail)) ==> may_say(
                policy.is_flaky,
                detail,
                judged[i],
            )) by {
                assert(i < k);
            }
        }
        lemma_predicate_decides(test_id@, policy.is_flaky, max, judged, all);
    }
    if (k as u64) < policy.max_attempts as u64 {
        None
    } else {
        Some(RawResult { test_id: test_id.to_string(), status: RawStatus::Fail, detail: last })
    }
}

/// The detail of the last of the first `k` attempts, all of which were retried.
pub open spec fn last_flake(attempts: Seq<AttemptView>, k: int) -> Option<Seq<char>> {
    if k <= 0 {
        None
    } else {
        match attempts[k - 1] {
            AttemptView::Ran(OutcomeView::Fail(detail)) => Some(detail),
            _ => Some("attempt timed-out"@),
        }
    }
}

proof fn lemma_verdict_skips(
    test_id: Seq<char>,
    max_attempts: u32,
    judged: Seq<bool>,
    attempts: Seq<AttemptView>,
    n: int,
    k: int,
)
    requires
        0 <= k <= n <= attempts.len(),
        n <= max_attempts,
        forall|i: int| 0 <= i < n ==> is_retried(#[trigger] attempts[i], judged[i]),
    ensures
        verdict(test_id, max_attempts, judged, attempts, k, last_flake(attempts, k)) == verdict(
            test_id,
            max_attempts,
            judged,
            attempts,
            n,
            last_flake(attempts, n),
        ),
    decreases n - k,
{
    if k < n {
        assert(is_retried(attempts[k], judged[k]));
        lemma_verdict_skips(test_id, max_attempts, judged, attempts, n, k + 1);
    }
}

/// The `n`-th attempt is the first that is not retried.
proof fn lemma_concluded<F: Fn(&str) -> bool>(
    test_id: Seq<char>,
    is_flaky: F,
    max_attempts: u32,
    judged: Seq<bool>,
    attempts: Seq<AttemptView>,
    n: int,
)
    requires
        0 <= n < attempts.len(),
        n < max_attempts,
        judged.len() == attempts.len(),
        forall|i: int| 0 <= i < n ==> is_retried(#[trigger] attempts[i], judged[i]),
        !is_retried(attempts[n], judged[n]),
        forall|i: int|
            0 <= i <= n ==> (#[trigger] attempts[i] matches AttemptView::Ran(
                OutcomeView::Fail(detail),
            ) ==> may_say(is_flaky, detail, judged[i])),
    ensures
        is_judged(is_flaky, max_attempts, judged, attempts),
        verdict(test_id, max_attempts, judged, attempts, 0, None) == verdict(
            test_id,
            max_attempts,
            judged,
            attempts,
            n,
            last_flake(attempts, n),
        ),
        forall|flaky: spec_fn(Seq<char>) -> bool| #[trigger]
            computes(is_flaky, flaky) ==> verdict(
                test_id,
                max_attempts,
                judged,
                attempts,
                0,
                None,
            ) == verdict(
                test_id,
                max_attempts,
                judgements(flaky, attempts),
                attempts,
                0,
                None,
            ),
{
    lemma_verdict_skips(test_id, max_attempts, judged, attempts, n, 0);
    assert forall|i: int| #[trigger] counts(max_attempts, judged, attempts, i) implies (
    attempts[i] matches AttemptView::Ran(OutcomeView::Fail(detail)) ==> may_say(
        is_flaky,
        detail,
        judged[i],
    )) by {
        if i > n {
            assert(is_retried(attempts[n], judged[n]));
        }
    }
    lemma_predicate_decides(test_id, is_flaky, max_attempts, judged, attempts);
}

proof fn lemma_same_judgements(
    test_id: Seq<char>,
    flaky: spec_fn(Seq<char>) -> bool,
    max_attempts: u32,
    judged: Seq<bool>,
    attempts: Seq<AttemptView>,
    k: int,
    last: Option<Seq<char>>,
)
    requires
        0 <= k,
        judged.len() == attempts.len(),
        forall|i: int| #[trigger]
            counts(max_attempts, judged, attempts, i) ==> (attempts[i] matches AttemptView::Ran(
                OutcomeView::Fail(detail),
            ) ==> judged[i] == flaky(detail)),
        forall|j: int| 0 <= j < k && j < attempts.len() ==> is_retried(#[trigger] attempts[j], judged[j]),
    ensures
        verdict(test_id, max_attempts, judged, attempts, k, last) == verdict(
            test_id,
            max_attempts,
            judgements(flaky, attempts),
            attempts,
            k,
            last,
        ),
    decreases max_attempts - k,
{
    if k < max_attempts && k < attempts.len() {
        assert(counts(max_attempts, judged, attempts, k));
        match attempts[k] {
            AttemptView::TimedOut => {
                lemma_same_judgements(
                    test_id,
                    flaky,
                    max_attempts,
                    judged,
                    attempts,
                    k + 1,
                    Some("attempt timed-out"@),
                );
            },
            AttemptView::Ran(OutcomeView::Fail(detail)) => {
                assert(judgements(flaky, attempts)[k] == flaky(detail));
                if judged[k] {
                    lemma_same_judgements(
                        test_id,
                        flaky,
                        max_attempts,
                        judged,
                        attempts,
                        k + 1,
                        Some(detail),
                    );
                }
            },
            _ => {},
        }
    }
}

proof fn lemma_predicate_decides<F: Fn(&str) -> bool>(
    test_id: Seq<char>,
    is_flaky: F,
    max_attempts: u32,
    judged: Seq<bool>,
    attempts: Seq<AttemptView>,
)
    requires
        is_judged(is_flaky, max_attempts, judged, attempts),
    ensures
        forall|flaky: spec_fn(Seq<char>) -> bool| #[trigger]
            computes(is_flaky, flaky) ==> verdict(
                test_id,
                max_attempts,
                judged,
                attempts,
                0,
                None,
            ) == verdict(
                test_id,
                max_attempts,
                judgements(flaky, attempts),
                attempts,
                0,
                None,
            ),
{
    assert forall|flaky: spec_fn(Seq<char>) -> bool| #[trigger]
        computes(is_flaky, flaky) implies verdict(
        test_id,
        max_attempts,
        judged,
        attempts,
        0,
        None,
    ) == verdict(test_id, max_attempts, judgements(flaky, attempts), attempts, 0, None) by {
        law_a_predicate_decides(test_id, is_flaky, flaky, max_attempts, judged, attempts);
    }
}

/// A policy whose predicate answers alike for alike details leaves nothing open: the
/// verdict is the one of that predicate, whichever of the allowed answers were given.
pub proof fn law_a_predicate_decides<F: Fn(&str) -> bool>(
    test_id: Seq<char>,
    is_flaky: F,
    flaky: spec_fn(Seq<char>) -> bool,
    max_attempts: u32,
    judged: Seq<bool>,
    attempts: Seq<AttemptView>,
)
    requires
        is_judged(is_flaky, max_attempts, judged, attempts),
        computes(is_flaky, flaky),
    ensures
        verdict(test_id, max_attempts, judged, attempts, 0, None) == verdict(
            test_id,
            max_attempts,
            judgements(flaky, attempts),
            attempts,
            0,
            None,
        ),
{
    assert forall|i: int| #[trigger] counts(max_attempts, judged, attempts, i) implies (
    attempts[i] matches AttemptView::Ran(OutcomeView::Fail(detail)) ==> judged[i] == flaky(
        detail,
    )) by {
        if let AttemptView::Ran(OutcomeView::Fail(detail)) = attempts[i] {
            assert(may_say(is_flaky, detail, judged[i]));
        }
    }
    lemma_same_judgements(test_id, flaky, max_attempts, judged, attempts, 0, None);
}

/// No more than the policy's number of attempts is ever made.
pub proof fn law_attempts_are_bounded(
    test_id: Seq<char>,
    max_attempts: u32,
    judged: Seq<bool>,
    attempts: Seq<AttemptView>,
)
    requires
        attempts.len() >= max_attempts,
    ensures
        verdict(test_id, max_attempts, judged, attempts, 0, None) is Some,
{
    lemma_verdict_bounded(test_id, max_attempts, judged, attempts, 0, None);
}

proof fn lemma_verdict_bounded(
    test_id: Seq<char>,
    max_attempts: u32,
    judged: Seq<bool>,
    attempts: Seq<AttemptView>,
    k: int,
    last: Option<Seq<char>>,
)
    requires
        attempts.len() >= max_attempts,
        0 <= k,
    ensures
        verdict(test_id, max_attempts, judged, attempts, k, last) is Some,
    decreases max_attempts - k,
{
    if k < max_attempts {
        let next = last_flake(attempts, k + 1);
        lemma_verdict_bounded(test_id, max_attempts, judged, attempts, k + 1, next);
    }
}

/// The first attempt that is not retried decides the test, whatever attempts
/// came before it: a pass passes, a skip skips, a failure that is no flake and an
/// orchestration error fail with their detail.
pub proof fn law_first_conclusive_attempt_decides(
    test_id: Seq<char>,
    max_attempts: u32,
    judged: Seq<bool>,
    attempts: Seq<AttemptView>,
    n: int,
)
    requires
        counts(max_attempts, judged, attempts, n),
        !is_retried(attempts[n], judged[n]),
    ensures
        verdict(test_id, max_attempts, judged, attempts, 0, None) == Some(
            match attempts[n] {
                AttemptView::Ran(outcome) => raw_of(test_id, outcome),
                AttemptView::Broken(reason) => failed(test_id, Some(reason)),
                AttemptView::TimedOut => failed(test_id, None),
            },
        ),
{
    lemma_verdict_skips(test_id, max_attempts, judged, attempts, n, 0);
}

/// As long as every attempt was a flake and the policy allows more, another
/// attempt is due. Once it allows no more, the test fails with the detail of the last.
pub proof fn law_flakes_are_retried(
    test_id: Seq<char>,
    max_attempts: u32,
    judged: Seq<bool>,
    attempts: Seq<AttemptView>,
)
    requires
        attempts.len() <= max_attempts,
        forall|i: int| 0 <= i < attempts.len() ==> is_retried(#[trigger] attempts[i], judged[i]),
    ensures
        verdict(test_id, max_attempts, judged, attempts, 0, None) == if attempts.len()
            < max_attempts {
            None
        } else {
            Some(failed(test_id, last_flake(attempts, attempts.len() as int)))
        },
{
    let n = attempts.len() as int;
    lemma_verdict_skips(test_id, max_attempts, judged, attempts, n, 0);
}

// ----- attempts ------------------------------------------------------------------------

/// The reason of an attempt that ended in an orchestration error.
pub open spec fn adapter_error_text(error: Seq<char>) -> Seq<char> {
    "adapter error: "@ + error
}

/// How an attempt ended, from what came of it: nothing if it timed out, else its
/// folded outcome or its orchestration error.
pub fn attempt_of(ended: Option<Result<TestOutcome, String>>) -> (r: Attempt)
    ensures
        r@ == match ended {
            None => AttemptView::TimedOut,
            Some(Ok(outcome)) => AttemptView::Ran(outcome@),
            Some(Err(error)) => AttemptView::Broken(adapter_error_text(error@)),
        },
{
    match ended {
        None => Attempt::TimedOut,
        Some(Ok(outcome)) => Attempt::Ran(outcome),
        Some(Err(error)) => {
            let mut reason = "adapter error: ".to_string();
            reason.append(error.as_str());
            Attempt::Broken(reason)
        },
    }
}

/// How an attempt of the lab ended: its signaling server could not be started,
/// it timed out, one of its peers broke (the offerer counts first), or both peers
/// ran.
pub open spec fn lab_attempt_view(
    signaling: Option<Seq<char>>,
    peers: Option<(Result<OutcomeView, Seq<char>>, Result<OutcomeView, Seq<char>>)>,
) -> AttemptView {
    match signaling {
        Some(error) => AttemptView::Broken("signaling server error: "@ + error),
        None => match peers {
            None => AttemptView::TimedOut,
            Some((Err(error), _)) => AttemptView::Broken("offerer peer error: "@ + error),
            Some((Ok(_), Err(error))) => AttemptView::Broken("answerer peer error: "@ + error),
            Some((Ok(offerer), Ok(answerer))) => AttemptView::Ran(folded(offerer, answerer)),
        },
    }
}

/// What a peer reported: its outcome, or why there is none.
pub open spec fn report_view(r: Result<TestOutcome, String>) -> Result<OutcomeView, Seq<char>> {
    match r {
        Ok(outcome) => Ok(outcome@),
        Err(error) => Err(error@),
    }
}

/// How an attempt of the lab ended. `signaling` is why the attempt's signaling
/// server could not be started, and `peers` what the offerer and the answerer
/// reported, or nothing if the attempt timed out.
pub fn lab_attempt(
    signaling: Option<String>,
    peers: Option<(Result<TestOutcome, String>, Result<TestOutcome, String>)>,
) -> (r: Attempt)
    ensures
        r@ == lab_attempt_view(
            crate::text::opt_text(signaling),
            match peers {
                Some((offerer, answerer)) => Some((report_view(offerer), report_view(answerer))),
                None => None,
            },
        ),
{
    match signaling {
        Some(error) => {
            let mut reason = "signaling server error: ".to_string();
            reason.append(error.as_str());
            Attempt::Broken(reason)
        },
        None => match peers {
            None => Attempt::TimedOut,
            Some((Err(error), _)) => {
                let mut reason = "offerer peer error: ".to_string();
                reason.append(error.as_str());
                Attempt::Broken(reason)
            },
            Some((Ok(_), Err(error))) => {
                let mut reason = "answerer peer error: ".to_string();
                reason.append(error.as_str());
                Attempt::Broken(reason)
            },
            Some((Ok(offerer), Ok(answerer))) => Attempt::Ran(fold_two(offerer, answerer)),
        },
    }
}

// ----- laws ----------------------------------------------------------------------------

/// An attempt is retried exactly if it timed out, or failed with what was judged a flake:
/// a pass, a skip and an orchestration error never are.
pub proof fn law_what_is_retried(attempt: AttemptView, flake: bool)
    ensures
        is_retried(attempt, flake) <==> attempt is TimedOut || (flake && (
        attempt matches AttemptView::Ran(OutcomeView::Fail(_)))),
{
}

proof fn lemma_lost_channel_is_no_stall()
    ensures
        !default_flaky("no incoming data channel"@),
{
    reveal_strlit("timed-out");
    reveal_strlit("wait-connected");
    reveal_strlit("no incoming data channel");
    let lost = "no incoming data channel"@;
    let timed = "timed-out"@;
    let wait = "wait-connected"@;
    assert(lost =~= seq![
        'n', 'o', ' ', 'i', 'n', 'c', 'o', 'm', 'i', 'n', 'g', ' ', 'd', 'a', 't', 'a', ' ', 'c', 'h',
        'a', 'n', 'n', 'e', 'l',
    ]);
    assert(timed[5] == '-' && timed.len() == 9);
    assert(wait[4] == '-' && wait.len() == 14);
    assert forall|at: int| !#[trigger] occurs_at(lost, timed, at) by {
        if occurs_at(lost, timed, at) {
            assert(lost.subrange(at, at + timed.len())[5] == lost[at + 5]);
        }
    }
    assert forall|at: int| !#[trigger] occurs_at(lost, wait, at) by {
        if occurs_at(lost, wait, at) {
            assert(lost.subrange(at, at + wait.len())[4] == lost[at + 4]);
        }
    }
}

proof fn lemma_wait_labels(on: Side) -> (before: Seq<char>)
    ensures
        wait_label(on) == before + "wait-connected"@,
{
    reveal_strlit("wait-connected");
    reveal_strlit("offerer wait-connected");
    reveal_strlit("answerer wait-connected");
    let whole = wait_label(on);
    let cut = whole.len() - 14;
    assert(whole =~= whole.take(cut) + "wait-connected"@);
    whole.take(cut)
}

/// A stalled handshake is a flake, whatever stalled: an attempt that was abandoned, a wait
/// for the connection that failed, on either side, and any step that timed out. A lost
/// channel is one between interop pairs alone.
pub proof fn law_stalled_handshakes_are_flakes(label: Seq<char>, error: ErrorView, on: Side)
    ensures
        default_flaky("attempt timed-out"@),
        default_flaky(failure(label, ErrorView::TimedOut)),
        default_flaky(failure("wait-connected"@, error)),
        default_flaky(failure(wait_label(on), error)),
        interop_flaky("no incoming data channel"@),
        !default_flaky("no incoming data channel"@),
        forall|detail: Seq<char>| #[trigger] default_flaky(detail) ==> interop_flaky(detail),
{
    let none = Seq::<char>::empty();
    let timed = "timed-out"@;
    let wait = "wait-connected"@;
    let lost = "no incoming data channel"@;
    let tail = ": "@ + error.described();
    assert(default_flaky("attempt timed-out"@)) by {
        reveal_strlit("attempt timed-out");
        reveal_strlit("attempt ");
        reveal_strlit("timed-out");
        assert("attempt timed-out"@ =~= "attempt "@ + timed + none);
        lemma_has_substring("attempt "@, timed, none);
    }
    assert(failure(label, ErrorView::TimedOut) =~= (label + ": "@) + timed + none);
    lemma_has_substring(label + ": "@, timed, none);
    assert(failure(wait, error) =~= none + wait + tail);
    lemma_has_substring(none, wait, tail);
    let before = lemma_wait_labels(on);
    assert(failure(wait_label(on), error) =~= before + wait + tail);
    lemma_has_substring(before, wait, tail);
    assert(lost =~= none + lost + none);
    lemma_has_substring(none, lost, none);
    lemma_lost_channel_is_no_stall();
}

/// A failure whose detail names neither a timeout nor the wait for the connection is no
/// flake, and is not retried.
pub proof fn law_other_failures_are_no_flakes(detail: Seq<char>)
    requires
        !has_substring(detail, "timed-out"@),
        !has_substring(detail, "wait-connected"@),
    ensures
        !default_flaky(detail),
        interop_flaky(detail) <==> has_substring(detail, "no incoming data channel"@),
{
}

/// A result is always that of its own test, and a test passes only by an attempt of its
/// own that passed: flakes, timeouts and errors never add up to a pass.
pub proof fn law_a_test_passes_only_by_passing(
    test_id: Seq<char>,
    max_attempts: u32,
    judged: Seq<bool>,
    attempts: Seq<AttemptView>,
    k: int,
    last: Option<Seq<char>>,
)
    requires
        0 <= k,
    ensures
        verdict(test_id, max_attempts, judged, attempts, k, last) matches Some(r) ==> {
            &&& r.test_id == test_id
            &&& r.status == RawStatus::Pass ==> r.detail is None && exists|n: int|
                k <= n < attempts.len() && n < max_attempts && (
                #[trigger] attempts[n] matches AttemptView::Ran(OutcomeView::Pass))
            &&& r.status == RawStatus::Skip ==> exists|n: int|
                k <= n < attempts.len() && n < max_attempts && (
                #[trigger] attempts[n] matches AttemptView::Ran(OutcomeView::Skipped(reason))
                    && r.detail == Some(reason))
        },
    decreases max_attempts - k,
{
    if k < max_attempts && k < attempts.len() {
        law_a_test_passes_only_by_passing(
            test_id,
            max_attempts,
            judged,
            attempts,
            k + 1,
            last_flake(attempts, k + 1),
        );
    }
}

/// What a run of flakes fails with: the detail of the last failure, or that the last
/// attempt timed out; a policy that allows no attempt fails without a detail.
pub proof fn law_the_last_flake_is_reported(test_id: Seq<char>, attempts: Seq<AttemptView>, k: int)
    requires
        0 <= k <= attempts.len(),
    ensures
        last_flake(attempts, k) is None <==> k == 0,
        k > 0 && attempts[k - 1] is TimedOut ==> last_flake(attempts, k) == Some(
            "attempt timed-out"@,
        ),
        k > 0 ==> (attempts[k - 1] matches AttemptView::Ran(OutcomeView::Fail(detail))
            ==> last_flake(attempts, k) == Some(detail)),
        failed(test_id, last_flake(attempts, k)).status == RawStatus::Fail,
        failed(test_id, last_flake(attempts, k)).detail == last_flake(attempts, k),
{
}

/// An attempt of the lab ran exactly if its server started, it did not time out and both
/// peers reported an outcome; then it ran to the folded outcome. An error says whose it is:
/// the server's before the peers', the offerer's before the answerer's.
pub proof fn law_how_lab_attempts_end(
    signaling: Option<Seq<char>>,
    peers: Option<(Result<OutcomeView, Seq<char>>, Result<OutcomeView, Seq<char>>)>,
)
    ensures
        lab_attempt_view(signaling, peers) is Ran <==> signaling is None && (peers matches Some((a, b))
            && a is Ok && b is Ok),
        lab_attempt_view(signaling, peers) is TimedOut <==> signaling is None && peers is None,
        signaling is None ==> (peers matches Some((Ok(a), Ok(b))) ==> lab_attempt_view(
            signaling,
            peers,
        ) == AttemptView::Ran(folded(a, b))),
        signaling matches Some(error) ==> lab_attempt_view(signaling, peers) == AttemptView::Broken(
            "signaling server error: "@ + error,
        ),
        signaling is None ==> (peers matches Some((Err(error), _)) ==> lab_attempt_view(
            signaling,
            peers,
        ) == AttemptView::Broken("offerer peer error: "@ + error)),
        signaling is None ==> (peers matches Some((Ok(_), Err(error))) ==> lab_attempt_view(
            signaling,
            peers,
        ) == AttemptView::Broken("answerer peer error: "@ + error)),
        forall|error: Seq<char>| #[trigger]
            adapter_error_text(error) == "adapter error: "@ + error,
{
}

} // verus!
