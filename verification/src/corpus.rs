//! The conformance test corpus: which tests exist, how each is orchestrated, and
//! with which message parameters it runs.

use vstd::prelude::*;

use crate::text::{has_prefix, is_member, same, texts};

verus! {

/// The registry of test ids.
pub const TESTS: [&'static str; 25] = [
    "label-round-trip",
    "binary-message",
    "text-message",
    "message-boundaries",
    "zero-length-message",
    "large-message",
    "ordering",
    "payload-integrity",
    "concurrent-send-receive",
    "send-via-stream",
    "receive-via-stream",
    "receive-via-stream-once",
    "post-close-send",
    "max-retransmits-accepted",
    "error-invalid-signaling",
    "error-closed",
    "error-timed-out",
    "peer-offer-answer",
    "peer-create-data-channel",
    "peer-local-ice-candidates",
    "peer-add-ice-candidate",
    "peer-wait-connected",
    "peer-close-releases",
    "peer-invalid-sdp",
    "interop-handshake",
];

/// The two-peer behavioral subset of [`TESTS`]: the tests whose outcome depends
/// on a working data channel between two independent peers. This is the corpus
/// the interop pairs and the labs run: the peer-connection API tests are
/// in-process (single-runtime) and the streaming and remaining error-taxonomy
/// tests are guest-skipped, so neither exercises a runtime boundary or a
/// candidate path.
pub const TWO_PEER_TESTS: [&'static str; 11] = [
    "label-round-trip",
    "binary-message",
    "text-message",
    "message-boundaries",
    "zero-length-message",
    "large-message",
    "ordering",
    "payload-integrity",
    "concurrent-send-receive",
    "max-retransmits-accepted",
    "interop-handshake",
];

/// How a test is orchestrated across guest instances.
#[derive(Debug, Clone, Copy, PartialEq, Eq, Structural)]
pub enum Plan {
    /// A single `both` instance stands up both peers in-process (no signaling).
    InProcess,
    /// A single instance that the guest reports `skipped` regardless of role.
    Skip,
    /// Two instances, an offerer and an answerer, share one signaling room.
    TwoPeer,
}

/// The tests that stand up both peers in one instance.
pub open spec fn is_in_process(test_id: Seq<char>) -> bool {
    ||| test_id == "peer-offer-answer"@
    ||| test_id == "peer-create-data-channel"@
    ||| test_id == "peer-local-ice-candidates"@
    ||| test_id == "peer-add-ice-candidate"@
    ||| test_id == "peer-wait-connected"@
    ||| test_id == "peer-close-releases"@
    ||| test_id == "peer-invalid-sdp"@
    ||| test_id == "error-invalid-signaling"@
}

/// The tests a single instance reports as skipped.
pub open spec fn is_skipped(test_id: Seq<char>) -> bool {
    ||| test_id == "send-via-stream"@
    ||| test_id == "receive-via-stream"@
    ||| test_id == "receive-via-stream-once"@
    ||| test_id == "post-close-send"@
    ||| test_id == "error-closed"@
    ||| test_id == "error-timed-out"@
}

/// The orchestration plan for a test id.
pub open spec fn plan_of(test_id: Seq<char>) -> Plan {
    if is_in_process(test_id) {
        Plan::InProcess
    } else if is_skipped(test_id) {
        Plan::Skip
    } else {
        Plan::TwoPeer
    }
}

/// The orchestration plan for a test id. The plans are target-independent: the
/// guest decides what each test does with the role it is given.
pub fn plan_for(test_id: &str) -> (r: Plan)
    ensures
        r == plan_of(test_id@),
{
    if same(test_id, "peer-offer-answer") || same(test_id, "peer-create-data-channel") || same(test_id, "peer-local-ice-candidates") || same(test_id, "peer-add-ice-candidate") || same(test_id, "peer-wait-connected") || same(test_id, "peer-close-releases") || same(test_id, "peer-invalid-sdp") || same(test_id, "error-invalid-signaling") {
        Plan::InProcess
    } else if same(test_id, "send-via-stream") || same(test_id, "receive-via-stream") || same(test_id, "receive-via-stream-once") || same(test_id, "post-close-send") || same(test_id, "error-closed") || same(test_id, "error-timed-out") {
        Plan::Skip
    } else {
        Plan::TwoPeer
    }
}

/// The tests that exchange a sequence of messages.
pub open spec fn is_sequence_test(test_id: Seq<char>) -> bool {
    ||| test_id == "message-boundaries"@
    ||| test_id == "ordering"@
    ||| test_id == "payload-integrity"@
    ||| test_id == "concurrent-send-receive"@
    ||| test_id == "interop-handshake"@
}

/// The `(message-count, message-size)` a test runs with.
pub open spec fn params_of(test_id: Seq<char>) -> (u32, u32) {
    if test_id == "large-message"@ {
        (1, 16384)
    } else if is_sequence_test(test_id) {
        (16, 512)
    } else {
        (4, 256)
    }
}

/// The `(message-count, message-size)` a test runs with.
pub fn params_for(test_id: &str) -> (r: (u32, u32))
    ensures
        r == params_of(test_id@),
{
    if same(test_id, "large-message") {
        (1, 16384)
    } else if same(test_id, "message-boundaries") || same(test_id, "ordering") || same(test_id, "payload-integrity") || same(test_id, "concurrent-send-receive") || same(test_id, "interop-handshake") {
        (16, 512)
    } else {
        (4, 256)
    }
}

/// Every two-peer test is a registered test.
pub proof fn law_two_peer_tests_are_registered(i: int)
    requires
        0 <= i < TWO_PEER_TESTS@.len(),
    ensures
        exists|j: int| 0 <= j < TESTS@.len() && (#[trigger] TESTS@[j])@ == TWO_PEER_TESTS@[i]@,
{
    assert(TESTS@[0]@ == TWO_PEER_TESTS@[0]@);
    assert(TESTS@[1]@ == TWO_PEER_TESTS@[1]@);
    assert(TESTS@[2]@ == TWO_PEER_TESTS@[2]@);
    assert(TESTS@[3]@ == TWO_PEER_TESTS@[3]@);
    assert(TESTS@[4]@ == TWO_PEER_TESTS@[4]@);
    assert(TESTS@[5]@ == TWO_PEER_TESTS@[5]@);
    assert(TESTS@[6]@ == TWO_PEER_TESTS@[6]@);
    assert(TESTS@[7]@ == TWO_PEER_TESTS@[7]@);
    assert(TESTS@[8]@ == TWO_PEER_TESTS@[8]@);
    assert(TESTS@[13]@ == TWO_PEER_TESTS@[9]@);
    assert(TESTS@[24]@ == TWO_PEER_TESTS@[10]@);
}

/// Every test that runs in one instance is told by its first two letters.
proof fn lemma_two_peer_plan(test_id: Seq<char>)
    requires
        test_id.len() >= 2,
        !(test_id[0] == 'p' && (test_id[1] == 'e' || test_id[1] == 'o')),
        test_id[0] != 's' && test_id[0] != 'e' && test_id[0] != 'r',
    ensures
        plan_of(test_id) == Plan::TwoPeer,
{
    reveal_strlit("peer-offer-answer");
    reveal_strlit("peer-create-data-channel");
    reveal_strlit("peer-local-ice-candidates");
    reveal_strlit("peer-add-ice-candidate");
    reveal_strlit("peer-wait-connected");
    reveal_strlit("peer-close-releases");
    reveal_strlit("peer-invalid-sdp");
    reveal_strlit("error-invalid-signaling");
    reveal_strlit("send-via-stream");
    reveal_strlit("receive-via-stream");
    reveal_strlit("receive-via-stream-once");
    reveal_strlit("post-close-send");
    reveal_strlit("error-closed");
    reveal_strlit("error-timed-out");
}

/// Every two-peer test has the two-peer plan.
pub proof fn law_two_peer_tests_have_two_peer_plans(i: int)
    requires
        0 <= i < TWO_PEER_TESTS@.len(),
    ensures
        plan_of(TWO_PEER_TESTS@[i]@) == Plan::TwoPeer,
{
    reveal_strlit("label-round-trip");
    reveal_strlit("binary-message");
    reveal_strlit("text-message");
    reveal_strlit("message-boundaries");
    reveal_strlit("zero-length-message");
    reveal_strlit("large-message");
    reveal_strlit("ordering");
    reveal_strlit("payload-integrity");
    reveal_strlit("concurrent-send-receive");
    reveal_strlit("max-retransmits-accepted");
    reveal_strlit("interop-handshake");
    lemma_two_peer_plan(TWO_PEER_TESTS@[i]@);
}

// ----- selection -----------------------------------------------------------------------

/// A test runs if no selection is made, or if it is selected.
pub open spec fn is_selected(only: Seq<Seq<char>>, test_id: Seq<char>) -> bool {
    only.len() == 0 || only.contains(test_id)
}

/// The selected tests of a corpus, in corpus order.
pub open spec fn selection(tests: Seq<&'static str>, only: Seq<Seq<char>>) -> Seq<&'static str>
    decreases tests.len(),
{
    if tests.len() == 0 {
        seq![]
    } else {
        let before = selection(tests.drop_last(), only);
        if is_selected(only, tests.last()@) {
            before.push(tests.last())
        } else {
            before
        }
    }
}

/// The selected tests of a corpus, in corpus order. An empty selection selects
/// every test.
pub fn select(tests: &[&'static str], only: &[String]) -> (r: Vec<&'static str>)
    ensures
        r@ == selection(tests@, texts(only@)),
{
    let mut out: Vec<&'static str> = Vec::new();
    let mut i: usize = 0;
    while i < tests.len()
        invariant
            i <= tests@.len(),
            out@ == selection(tests@.take(i as int), texts(only@)),
        decreases tests@.len() - i,
    {
        assert(tests@.take(i + 1).drop_last() =~= tests@.take(i as int));
        if only.len() == 0 || is_member(only, tests[i]) {
            out.push(tests[i]);
        }
        i += 1;
    }
    assert(tests@.take(i as int) =~= tests@);
    out
}

/// Without a selection every test runs.
pub proof fn law_no_selection_runs_everything(tests: Seq<&'static str>)
    ensures
        selection(tests, seq![]) == tests,
    decreases tests.len(),
{
    if tests.len() > 0 {
        law_no_selection_runs_everything(tests.drop_last());
        assert(tests.drop_last().push(tests.last()) =~= tests);
    } else {
        assert(selection(tests, seq![]) =~= tests);
    }
}

/// At most `jobs` tests run at once, and at least one.
pub fn concurrency(jobs: usize) -> (r: usize)
    ensures
        r == if jobs < 1 {
            1
        } else {
            jobs
        },
{
    if jobs < 1 {
        1
    } else {
        jobs
    }
}

// ----- laws ----------------------------------------------------------------------------

/// The registered tests that run between two peers are exactly the two-peer tests.
pub proof fn law_the_two_peer_subset_is_complete(j: int)
    requires
        0 <= j < TESTS@.len(),
    ensures
        plan_of(TESTS@[j]@) == Plan::TwoPeer <==> exists|i: int|
            0 <= i < TWO_PEER_TESTS@.len() && (#[trigger] TWO_PEER_TESTS@[i])@ == TESTS@[j]@,
{
    if j <= 8 {
        assert(TWO_PEER_TESTS@[j]@ == TESTS@[j]@);
    }
    if j == 13 {
        assert(TWO_PEER_TESTS@[9]@ == TESTS@[j]@);
    }
    if j == 24 {
        assert(TWO_PEER_TESTS@[10]@ == TESTS@[j]@);
    }
    if exists|i: int|
        0 <= i < TWO_PEER_TESTS@.len() && (#[trigger] TWO_PEER_TESTS@[i])@ == TESTS@[j]@ {
        let i = choose|i: int|
            0 <= i < TWO_PEER_TESTS@.len() && (#[trigger] TWO_PEER_TESTS@[i])@ == TESTS@[j]@;
        law_two_peer_tests_have_two_peer_plans(i);
    }
}

/// A test of the peer-connection surface runs in one instance, and so does the one about
/// invalid signaling; a test that streams, or whose channel or wait ends in an error, is
/// skipped.
pub proof fn law_what_the_plans_are_for(test_id: Seq<char>)
    ensures
        plan_of("peer-offer-answer"@) == Plan::InProcess,
        plan_of("peer-create-data-channel"@) == Plan::InProcess,
        plan_of("peer-local-ice-candidates"@) == Plan::InProcess,
        plan_of("peer-add-ice-candidate"@) == Plan::InProcess,
        plan_of("peer-wait-connected"@) == Plan::InProcess,
        plan_of("peer-close-releases"@) == Plan::InProcess,
        plan_of("peer-invalid-sdp"@) == Plan::InProcess,
        plan_of("error-invalid-signaling"@) == Plan::InProcess,
        plan_of("send-via-stream"@) == Plan::Skip,
        plan_of("receive-via-stream"@) == Plan::Skip,
        plan_of("receive-via-stream-once"@) == Plan::Skip,
        plan_of("post-close-send"@) == Plan::Skip,
        plan_of("error-closed"@) == Plan::Skip,
        plan_of("error-timed-out"@) == Plan::Skip,
        plan_of(test_id) == Plan::InProcess ==> has_prefix(test_id, "peer-"@) || test_id
            == "error-invalid-signaling"@,
        plan_of(test_id) == Plan::Skip ==> !has_prefix(test_id, "peer-"@),
{
    reveal_strlit("peer-");
    reveal_strlit("peer-offer-answer");
    reveal_strlit("peer-create-data-channel");
    reveal_strlit("peer-local-ice-candidates");
    reveal_strlit("peer-add-ice-candidate");
    reveal_strlit("peer-wait-connected");
    reveal_strlit("peer-close-releases");
    reveal_strlit("peer-invalid-sdp");
    reveal_strlit("error-invalid-signaling");
    reveal_strlit("send-via-stream");
    reveal_strlit("receive-via-stream");
    reveal_strlit("receive-via-stream-once");
    reveal_strlit("post-close-send");
    reveal_strlit("error-closed");
    reveal_strlit("error-timed-out");
    assert("error-invalid-signaling"@.len() == 23 && "error-closed"@.len() == 12
        && "error-timed-out"@.len() == 15);
    assert("send-via-stream"@[0] == 's' && "receive-via-stream"@[0] == 'r'
        && "receive-via-stream-once"@[0] == 'r' && "post-close-send"@[1] == 'o');
    assert("error-closed"@[0] == 'e' && "error-timed-out"@[0] == 'e'
        && "error-invalid-signaling"@[0] == 'e');
    if is_in_process(test_id) {
        if test_id != "error-invalid-signaling"@ {
            assert(test_id[0] == 'p' && test_id[1] == 'e' && test_id[2] == 'e' && test_id[3] == 'r'
                && test_id[4] == '-');
            assert(test_id.subrange(0, 5) =~= "peer-"@);
        }
    }
    if is_skipped(test_id) {
        assert(test_id[0] != 'p' || test_id[1] != 'e');
        if has_prefix(test_id, "peer-"@) {
            assert(test_id.subrange(0, 5)[0] == test_id[0]);
            assert(test_id.subrange(0, 5)[1] == test_id[1]);
        }
    }
}

/// The large message is one message of sixteen kibibytes, larger than those of every
/// other test; the tests of a sequence exchange sixteen messages, more than any other.
pub proof fn law_what_tests_run_with(test_id: Seq<char>)
    ensures
        params_of(test_id).1 == 16384 <==> test_id == "large-message"@,
        params_of(test_id).0 == 1 <==> test_id == "large-message"@,
        params_of(test_id).0 == 16 <==> test_id == "message-boundaries"@ || test_id == "ordering"@
            || test_id == "payload-integrity"@ || test_id == "concurrent-send-receive"@ || test_id
            == "interop-handshake"@,
        params_of(test_id).0 == 16 <==> params_of(test_id).1 == 512,
        params_of(test_id).0 == 4 <==> params_of(test_id).1 == 256,
        params_of(test_id).0 == 1 || params_of(test_id).0 == 4 || params_of(test_id).0 == 16,
{
    reveal_strlit("large-message");
    reveal_strlit("message-boundaries");
    reveal_strlit("ordering");
    reveal_strlit("payload-integrity");
    reveal_strlit("concurrent-send-receive");
    reveal_strlit("interop-handshake");
    assert("large-message"@[0] == 'l' && "message-boundaries"@[0] == 'm' && "ordering"@[0] == 'o'
        && "payload-integrity"@[0] == 'p' && "concurrent-send-receive"@[0] == 'c'
        && "interop-handshake"@[0] == 'i');
}

/// A test runs exactly if it is in the corpus and nothing was selected or it was; what
/// runs keeps the order of the corpus.
pub proof fn law_what_a_selection_runs(
    tests: Seq<&'static str>,
    only: Seq<Seq<char>>,
    test: &'static str,
)
    ensures
        selection(tests, only).contains(test) <==> tests.contains(test) && (only.len() == 0
            || only.contains(test@)),
        selection(tests, only).len() <= tests.len(),
        tests.len() > 0 ==> selection(tests, only) == (if only.len() == 0 || only.contains(
            tests.last()@,
        ) {
            selection(tests.drop_last(), only) + seq![tests.last()]
        } else {
            selection(tests.drop_last(), only)
        }),
    decreases tests.len(),
{
    if tests.len() > 0 {
        let fewer = tests.drop_last();
        let before = selection(fewer, only);
        let all = selection(tests, only);
        law_what_a_selection_runs(fewer, only, test);
        assert(before.push(tests.last()) =~= before + seq![tests.last()]);
        if all.contains(test) {
            let k = all.index_of(test);
            if k < before.len() {
                assert(before[k] == test);
                let i = fewer.index_of(test);
                assert(tests[i] == test);
            } else {
                assert(tests[tests.len() - 1] == test);
            }
        }
        if before.contains(test) {
            let k = before.index_of(test);
            assert(all[k] == test);
        }
        if tests.contains(test) {
            let i = tests.index_of(test);
            if i < fewer.len() {
                assert(fewer[i] == test);
            } else if only.len() == 0 || only.contains(test@) {
                assert(all[all.len() - 1] == test);
            }
        }
    }
}

} // verus!
