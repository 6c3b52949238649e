//! Carrying a provisioning out: which step is due, and what it all came to.
//!
//! A caller performs the [`Step`]s of a provisioning one at a time and reports how each
//! went. [`next_step`] says from the outcomes so far which step is due, or how the
//! provisioning ended: at the first step that has to succeed and did not, or after the
//! last one.

use vstd::prelude::*;

use crate::lab::{
    cannot_fail, law_teardown_ignores_errors, steps, LabTopology, Scenario, Step, StepView,
};
use crate::text::{concat2, concat3, concat4};

verus! {

// ----- what happens next ---------------------------------------------------------------------

/// What a provisioning does next.
#[derive(Debug)]
pub enum Provision {
    /// Perform the step with this index.
    Issue(usize),
    /// It is over, with this outcome.
    Done(Result<(), String>),
}

/// The contents of a [`Provision`].
#[verifier::ext_equal]
pub enum ProvisionView {
    Issue(int),
    Done(Result<(), Seq<char>>),
}

impl View for Provision {
    type V = ProvisionView;

    open spec fn view(&self) -> ProvisionView {
        match self {
            Provision::Issue(n) => ProvisionView::Issue(*n as int),
            Provision::Done(outcome) => ProvisionView::Done(told(*outcome)),
        }
    }
}

/// How a step went.
pub open spec fn told(outcome: Result<(), String>) -> Result<(), Seq<char>> {
    match outcome {
        Ok(_) => Ok(()),
        Err(e) => Err(e@),
    }
}

/// How the steps went so far.
pub open spec fn tale(outcomes: Seq<Result<(), String>>) -> Seq<Result<(), Seq<char>>> {
    outcomes.map_values(|o: Result<(), String>| told(o))
}

/// A step that went like this ends the provisioning.
pub open spec fn stops(step: StepView, outcome: Result<(), Seq<char>>) -> bool {
    outcome is Err && !cannot_fail(step)
}

/// What comes next, given that none of the first `i` outcomes ended the provisioning.
pub open spec fn provision_from(
    list: Seq<StepView>,
    outcomes: Seq<Result<(), Seq<char>>>,
    i: int,
) -> ProvisionView
    decreases outcomes.len() - i,
{
    if i >= outcomes.len() {
        if i < list.len() {
            ProvisionView::Issue(i)
        } else {
            ProvisionView::Done(Ok(()))
        }
    } else if stops(list[i], outcomes[i]) {
        ProvisionView::Done(outcomes[i])
    } else {
        provision_from(list, outcomes, i + 1)
    }
}

/// What a provisioning does next, given how its steps went so far.
pub open spec fn provision(
    list: Seq<StepView>,
    outcomes: Seq<Result<(), Seq<char>>>,
) -> ProvisionView {
    provision_from(list, outcomes, 0)
}

/// Which step is due after these outcomes, or how the provisioning ended.
pub fn next_step(list: &[Step], outcomes: &[Result<(), String>]) -> (r: Provision)
    requires
        outcomes@.len() <= list@.len(),
    ensures
        r@ == provision(steps(list@), tale(outcomes@)),
{
    let mut i: usize = 0;
    while i < outcomes.len()
        invariant
            i <= outcomes@.len() <= list@.len(),
            provision(steps(list@), tale(outcomes@)) == provision_from(
                steps(list@),
                tale(outcomes@),
                i as int,
            ),
        decreases outcomes@.len() - i,
    {
        let ignored = match &list[i] {
            Step::Log(_) => true,
            Step::RunIgnored { .. } => true,
            Step::Wait { .. } => true,
            Step::Run { .. } => false,
            Step::Feed { .. } => false,
            Step::CreateDir(_) => false,
            Step::WriteFile { .. } => false,
        };
        assert(steps(list@)[i as int] == list@[i as int]@);
        assert(tale(outcomes@)[i as int] == told(outcomes@[i as int]));
        if let Err(e) = &outcomes[i] {
            if !ignored {
                return Provision::Done(Err(e.clone()));
            }
        }
        i += 1;
    }
    if i < list.len() {
        Provision::Issue(i)
    } else {
        Provision::Done(Ok(()))
    }
}

// ----- how a step fails ------------------------------------------------------------------------

/// Why a step did not succeed.
#[derive(Debug, Clone)]
pub enum StepFailure {
    /// The command could not be started, or the file or directory not be written.
    Start(String),
    /// The command did not take its input.
    Input(String),
    /// The command could not be waited for.
    Wait(String),
    /// The command ended with this status.
    Status(String),
}

/// The contents of a [`StepFailure`].
pub enum StepFailureView {
    Start(Seq<char>),
    Input(Seq<char>),
    Wait(Seq<char>),
    Status(Seq<char>),
}

impl View for StepFailure {
    type V = StepFailureView;

    open spec fn view(&self) -> StepFailureView {
        match self {
            StepFailure::Start(e) => StepFailureView::Start(e@),
            StepFailure::Input(e) => StepFailureView::Input(e@),
            StepFailure::Wait(e) => StepFailureView::Wait(e@),
            StepFailure::Status(status) => StepFailureView::Status(status@),
        }
    }
}

/// What is said of a step that failed.
pub open spec fn failure_text(step: StepView, failure: StepFailureView) -> Seq<char> {
    let why = match failure {
        StepFailureView::Start(e) => e,
        StepFailureView::Input(e) => e,
        StepFailureView::Wait(e) => e,
        StepFailureView::Status(status) => status,
    };
    match step {
        StepView::Run { what, .. } => if failure is Status {
            what + " exited with "@ + why
        } else {
            "spawning "@ + what + ": "@ + why
        },
        StepView::Feed { .. } => match failure {
            StepFailureView::Start(_) => "spawning nft in the router namespace: "@ + why,
            StepFailureView::Input(_) => "writing nftables ruleset: "@ + why,
            StepFailureView::Wait(_) => "waiting for nft: "@ + why,
            StepFailureView::Status(_) => "nft -f - exited with "@ + why,
        },
        StepView::CreateDir(path) => "creating "@ + path + ": "@ + why,
        StepView::WriteFile { path, .. } => "writing "@ + path + ": "@ + why,
        _ => why,
    }
}

/// What is said of a step that failed.
pub fn step_error(step: &Step, failure: &StepFailure) -> (r: String)
    ensures
        r@ == failure_text(step@, failure@),
{
    let (why, ended) = match failure {
        StepFailure::Start(e) => (e.as_str(), false),
        StepFailure::Input(e) => (e.as_str(), false),
        StepFailure::Wait(e) => (e.as_str(), false),
        StepFailure::Status(status) => (status.as_str(), true),
    };
    match step {
        Step::Run { what, .. } => if ended {
            concat3(what.as_str(), " exited with ", why)
        } else {
            concat4("spawning ", what.as_str(), ": ", why)
        },
        Step::Feed { .. } => match failure {
            StepFailure::Start(_) => concat2("spawning nft in the router namespace: ", why),
            StepFailure::Input(_) => concat2("writing nftables ruleset: ", why),
            StepFailure::Wait(_) => concat2("waiting for nft: ", why),
            StepFailure::Status(_) => concat2("nft -f - exited with ", why),
        },
        Step::CreateDir(path) => concat4("creating ", path.as_str(), ": ", why),
        Step::WriteFile { path, .. } => concat4("writing ", path.as_str(), ": ", why),
        _ => why.to_string(),
    }
}

/// A line of progress, as it is shown.
pub fn lab_log(message: &str) -> (r: String)
    ensures
        r@ == "cw: "@ + message@,
{
    concat2("cw: ", message)
}

// ----- laws --------------------------------------------------------------------------------------

/// No outcome among the first `n` ended the provisioning.
pub open spec fn went_on(
    list: Seq<StepView>,
    outcomes: Seq<Result<(), Seq<char>>>,
    n: int,
) -> bool {
    forall|i: int| 0 <= i < n ==> !stops(#[trigger] list[i], outcomes[i])
}

proof fn lemma_provision(list: Seq<StepView>, outcomes: Seq<Result<(), Seq<char>>>, i: int)
    requires
        0 <= i <= outcomes.len() <= list.len(),
        went_on(list, outcomes, i),
    ensures
        ({
            let next = provision_from(list, outcomes, i);
            let n = outcomes.len() as int;
            &&& next == ProvisionView::Done(Ok(())) <==> n == list.len() && went_on(
                list,
                outcomes,
                n,
            )
            &&& next is Issue <==> n < list.len() && went_on(list, outcomes, n)
            &&& next is Issue ==> next == ProvisionView::Issue(n)
            &&& (next is Done && next->Done_0 is Err) ==> exists|k: int|
                0 <= k < n && went_on(list, outcomes, k) && stops(#[trigger] list[k], outcomes[k])
                    && next == ProvisionView::Done(outcomes[k])
        }),
    decreases outcomes.len() - i,
{
    if i < outcomes.len() {
        if stops(list[i], outcomes[i]) {
            assert(!went_on(list, outcomes, outcomes.len() as int));
        } else {
            lemma_provision(list, outcomes, i + 1);
        }
    }
}

/// A provisioning succeeds exactly if every step was performed and each that has to
/// succeed did; a failure of any other is ignored. While steps are left and nothing
/// that has to succeed failed, the step behind the last outcome is due. If it fails, it
/// fails with the first failure of a step that has to succeed.
pub proof fn law_provisioning_needs_its_steps(
    list: Seq<StepView>,
    outcomes: Seq<Result<(), Seq<char>>>,
)
    requires
        outcomes.len() <= list.len(),
    ensures
        provision(list, outcomes) == ProvisionView::Done(Ok(())) <==> outcomes.len() == list.len()
            && went_on(list, outcomes, outcomes.len() as int),
        provision(list, outcomes) is Issue <==> outcomes.len() < list.len() && went_on(
            list,
            outcomes,
            outcomes.len() as int,
        ),
        provision(list, outcomes) is Issue ==> provision(list, outcomes) == ProvisionView::Issue(
            outcomes.len() as int,
        ),
        (provision(list, outcomes) is Done && provision(list, outcomes)->Done_0 is Err)
            ==> exists|k: int|
            0 <= k < outcomes.len() && went_on(list, outcomes, k) && stops(
                #[trigger] list[k],
                outcomes[k],
            ) && provision(list, outcomes) == ProvisionView::Done(outcomes[k]),
{
    lemma_provision(list, outcomes, 0);
}

proof fn lemma_first_failure(
    list: Seq<StepView>,
    outcomes: Seq<Result<(), Seq<char>>>,
    i: int,
    k: int,
)
    requires
        0 <= i <= k < outcomes.len() <= list.len(),
        went_on(list, outcomes, k),
        stops(list[k], outcomes[k]),
    ensures
        provision_from(list, outcomes, i) == ProvisionView::Done(outcomes[k]),
    decreases k - i,
{
    if i < k {
        assert(!stops(list[i], outcomes[i]));
        lemma_first_failure(list, outcomes, i + 1, k);
    }
}

/// The first failure of a step that has to succeed is what the provisioning comes to,
/// whatever is reported behind it: no step is issued after it.
pub proof fn law_nothing_is_issued_after_a_failure(
    list: Seq<StepView>,
    outcomes: Seq<Result<(), Seq<char>>>,
    k: int,
)
    requires
        0 <= k < outcomes.len() <= list.len(),
        went_on(list, outcomes, k),
        stops(list[k], outcomes[k]),
    ensures
        provision(list, outcomes) == ProvisionView::Done(outcomes[k]),
{
    lemma_first_failure(list, outcomes, 0, k);
}

/// The outcomes of the `n` steps from `from` on, as far as they are known.
pub open spec fn part(
    outcomes: Seq<Result<(), Seq<char>>>,
    from: int,
    n: int,
) -> Seq<Result<(), Seq<char>>> {
    let len = outcomes.len() as int;
    outcomes.subrange(
        if from < len {
            from
        } else {
            len
        },
        if from + n < len {
            from + n
        } else {
            len
        },
    )
}

/// What comes next, with its steps counted from `by` steps earlier.
pub open spec fn shifted(next: ProvisionView, by: int) -> ProvisionView {
    match next {
        ProvisionView::Issue(n) => ProvisionView::Issue(n + by),
        ProvisionView::Done(outcome) => ProvisionView::Done(outcome),
    }
}

proof fn lemma_second_part(
    first: Seq<StepView>,
    second: Seq<StepView>,
    outcomes: Seq<Result<(), Seq<char>>>,
    i: int,
)
    requires
        0 <= i,
        first.len() + i <= outcomes.len() <= first.len() + second.len(),
    ensures
        provision_from(first + second, outcomes, first.len() + i) == shifted(
            provision_from(second, part(outcomes, first.len() as int, second.len() as int), i),
            first.len() as int,
        ),
    decreases outcomes.len() - i,
{
    let rest = part(outcomes, first.len() as int, second.len() as int);
    assert(rest.len() == outcomes.len() - first.len());
    if i < rest.len() {
        assert((first + second)[first.len() + i] == second[i]);
        assert(rest[i] == outcomes[first.len() + i]);
        lemma_second_part(first, second, outcomes, i + 1);
    }
}

proof fn lemma_first_part(
    first: Seq<StepView>,
    second: Seq<StepView>,
    outcomes: Seq<Result<(), Seq<char>>>,
    i: int,
)
    requires
        0 <= i <= first.len(),
        i <= outcomes.len() <= first.len() + second.len(),
    ensures
        ({
            let head = provision_from(first, part(outcomes, 0, first.len() as int), i);
            provision_from(first + second, outcomes, i) == (if head == ProvisionView::Done(
                Ok(()),
            ) {
                shifted(
                    provision(second, part(outcomes, first.len() as int, second.len() as int)),
                    first.len() as int,
                )
            } else {
                head
            })
        }),
    decreases first.len() - i,
{
    let head = part(outcomes, 0, first.len() as int);
    if i == first.len() {
        lemma_second_part(first, second, outcomes, 0);
    } else if i < outcomes.len() {
        assert((first + second)[i] == first[i]);
        assert(head[i] == outcomes[i]);
        if !stops(first[i], head[i]) {
            lemma_first_part(first, second, outcomes, i + 1);
        }
    }
}

/// Two provisionings in a row: the second starts once the first has succeeded, and
/// where the first fails its error is the outcome and no step of the second is issued.
pub proof fn law_parts_run_in_order(
    first: Seq<StepView>,
    second: Seq<StepView>,
    outcomes: Seq<Result<(), Seq<char>>>,
)
    requires
        outcomes.len() <= first.len() + second.len(),
    ensures
        ({
            let head = provision(first, part(outcomes, 0, first.len() as int));
            provision(first + second, outcomes) == (if head == ProvisionView::Done(Ok(())) {
                shifted(
                    provision(second, part(outcomes, first.len() as int, second.len() as int)),
                    first.len() as int,
                )
            } else {
                head
            })
        }),
{
    lemma_first_part(first, second, outcomes, 0);
}

/// The namespaces are up exactly if every command behind the removal of a stale lab
/// succeeded. What the removal came to does not matter.
pub proof fn law_netns_up_needs_every_command(
    topology: LabTopology,
    root: bool,
    outcomes: Seq<Result<(), Seq<char>>>,
)
    requires
        outcomes.len() == topology.netns_up_steps(root).len(),
    ensures
        ({
            let list = topology.netns_up_steps(root);
            let down = topology.netns_down_steps(root).len() as int;
            &&& forall|i: int| down <= i < list.len() ==> #[trigger] list[i] is Run || list[i] is Log
            &&& provision(list, outcomes) == ProvisionView::Done(Ok(())) <==> forall|i: int|
                down <= i < list.len() && #[trigger] list[i] is Run ==> outcomes[i] is Ok
        }),
{
    let list = topology.netns_up_steps(root);
    lemma_netns_up(topology, root);
    law_provisioning_needs_its_steps(list, outcomes);
    if forall|i: int| 4 <= i < list.len() && #[trigger] list[i] is Run ==> outcomes[i] is Ok {
        assert(went_on(list, outcomes, list.len() as int));
    }
    if went_on(list, outcomes, list.len() as int) {
        assert forall|i: int| 4 <= i < list.len() && #[trigger] list[i] is Run implies outcomes[i] is Ok by {
            assert(!stops(list[i], outcomes[i]));
        }
    }
}

proof fn lemma_netns_up(topology: LabTopology, root: bool)
    ensures
        ({
            let list = topology.netns_up_steps(root);
            &&& topology.netns_down_steps(root).len() == 4
            &&& list.len() >= 4
            &&& forall|i: int| 0 <= i < 4 ==> #[trigger] list[i] is RunIgnored
            &&& forall|i: int| 4 <= i < list.len() ==> #[trigger] list[i] is Run || list[i] is Log
        }),
{
}

/// The router policy of a scenario: no rules for `lan`; else the rules that drop the
/// direct path, with the mapping of the scenario.
pub open spec fn snat_mode(scenario: Scenario) -> Option<Seq<char>> {
    match scenario {
        Scenario::StunSrflx => Some("persistent"@),
        Scenario::NatSymmetric => Some("random"@),
        _ => None,
    }
}

/// Applying a policy first removes the table, whatever that comes to. For `lan` that is
/// all, and it succeeds; else the table of the scenario is loaded, and applying
/// succeeds exactly if the load does and fails with its error.
pub proof fn law_policy_needs_its_load(
    topology: LabTopology,
    root: bool,
    scenario: Scenario,
    outcomes: Seq<Result<(), Seq<char>>>,
)
    requires
        outcomes.len() == topology.nftables_apply_steps(root, scenario).len(),
    ensures
        ({
            let list = topology.nftables_apply_steps(root, scenario);
            &&& list[0] == topology.nftables_clear_steps(root)[0]
            &&& list[0] is RunIgnored
            &&& if scenario is Lan {
                list.len() == 1 && provision(list, outcomes) == ProvisionView::Done(Ok(()))
            } else {
                &&& list.len() == 2
                &&& list[1] == topology.nft_load_step(root, topology.nft_text(snat_mode(scenario)))
                &&& provision(list, outcomes) == ProvisionView::Done(Ok(())) <==> outcomes[1] is Ok
                &&& outcomes[1] is Err ==> provision(list, outcomes) == ProvisionView::Done(
                    outcomes[1],
                )
            }
        }),
{
    let list = topology.nftables_apply_steps(root, scenario);
    assert(provision_from(list, outcomes, 0) == provision_from(list, outcomes, 1));
    if !(scenario is Lan) {
        assert(list[1] is Feed);
        if outcomes[1] is Ok {
            assert(provision_from(list, outcomes, 1) == provision_from(list, outcomes, 2));
        }
    }
}

/// Starting coturn stops an earlier one first, whatever that comes to. It succeeds
/// exactly if the run directory and the config could be written and `turnserver`
/// started.
pub proof fn law_coturn_up_needs_its_config_and_server(
    topology: LabTopology,
    root: bool,
    pid: Option<Seq<char>>,
    outcomes: Seq<Result<(), Seq<char>>>,
)
    requires
        outcomes.len() == topology.coturn_up_steps(root, pid).len(),
    ensures
        ({
            let list = topology.coturn_up_steps(root, pid);
            let down = topology.coturn_down_steps(root, pid).len() as int;
            &&& list.len() == down + 5
            &&& list.take(down) == topology.coturn_down_steps(root, pid)
            &&& list[down] is CreateDir && list[down + 1] is WriteFile && list[down + 3] is Run
            &&& provision(list, outcomes) == ProvisionView::Done(Ok(())) <==> outcomes[down] is Ok
                && outcomes[down + 1] is Ok && outcomes[down + 3] is Ok
        }),
{
    let list = topology.coturn_up_steps(root, pid);
    let stop = topology.coturn_down_steps(root, pid);
    let down = stop.len() as int;
    law_provisioning_needs_its_steps(list, outcomes);
    assert(list.take(down) =~= stop);
    assert forall|i: int| 0 <= i < down implies #[trigger] list[i] is RunIgnored by {
        assert(list[i] == stop[i]);
    }
    assert(list[down] is CreateDir);
    assert(list[down + 1] is WriteFile);
    assert(list[down + 2] is Log);
    assert(list[down + 3] is Run);
    assert(list[down + 4] is Wait);
    if outcomes[down] is Ok && outcomes[down + 1] is Ok && outcomes[down + 3] is Ok {
        assert forall|i: int| 0 <= i < list.len() implies !stops(#[trigger] list[i], outcomes[i]) by {
            if i >= down {
                assert(i == down || i == down + 1 || i == down + 2 || i == down + 3 || i == down + 4);
            }
        }
        assert(went_on(list, outcomes, list.len() as int));
    }
    if went_on(list, outcomes, list.len() as int) {
        assert(!stops(list[down], outcomes[down]));
        assert(!stops(list[down + 1], outcomes[down + 1]));
        assert(!stops(list[down + 3], outcomes[down + 3]));
    }
}

/// A scenario is brought up in this order: the namespaces, coturn unless the scenario is
/// `lan`, the router policy. The first part that fails gives the outcome, and no part
/// behind it runs; if none fails the scenario is up.
pub proof fn law_scenario_up_runs_its_parts_in_order(
    topology: LabTopology,
    root: bool,
    scenario: Scenario,
    pid: Option<Seq<char>>,
    outcomes: Seq<Result<(), Seq<char>>>,
)
    requires
        outcomes.len() <= topology.scenario_up_steps(root, scenario, pid).len(),
    ensures
        ({
            let list = topology.scenario_up_steps(root, scenario, pid);
            let netns = topology.netns_up_steps(root);
            let coturn = if scenario is Lan {
                seq![]
            } else {
                topology.coturn_up_steps(root, pid)
            };
            let policy = topology.nftables_apply_steps(root, scenario);
            let a = netns.len() as int;
            let b = coturn.len() as int;
            let c = policy.len() as int;
            let first = provision(netns, part(outcomes, 0, a));
            let second = provision(coturn, part(outcomes, a, b));
            let third = provision(policy, part(outcomes, a + b, c));
            &&& list.len() == a + b + c + 1
            &&& provision(list, outcomes) == (if first != ProvisionView::Done(Ok(())) {
                first
            } else if second != ProvisionView::Done(Ok(())) {
                shifted(second, a)
            } else if third != ProvisionView::Done(Ok(())) {
                shifted(third, a + b)
            } else if outcomes.len() < list.len() {
                ProvisionView::Issue(a + b + c)
            } else {
                ProvisionView::Done(Ok(()))
            })
        }),
{
    let list = topology.scenario_up_steps(root, scenario, pid);
    let netns = topology.netns_up_steps(root);
    let coturn = if scenario is Lan {
        seq![]
    } else {
        topology.coturn_up_steps(root, pid)
    };
    let policy = topology.nftables_apply_steps(root, scenario);
    let log = seq![StepView::Log("scenario '"@ + scenario.id() + "' ready"@)];
    assert(list =~= netns + (coturn + (policy + log)));
    lemma_four_parts(netns, coturn, policy, log, outcomes);
    let last = part(
        outcomes,
        (netns.len() + coturn.len() + policy.len()) as int,
        log.len() as int,
    );
    if outcomes.len() >= netns.len() + coturn.len() + policy.len() {
        assert(last.len() <= 1);
        law_provisioning_needs_its_steps(log, last);
        assert(went_on(log, last, last.len() as int));
    }
}

/// Tearing a scenario down succeeds whatever its steps come to.
pub proof fn law_teardown_always_succeeds(
    topology: LabTopology,
    root: bool,
    pid: Option<Seq<char>>,
    outcomes: Seq<Result<(), Seq<char>>>,
)
    requires
        outcomes.len() == topology.scenario_down_steps(root, pid).len(),
    ensures
        provision(topology.scenario_down_steps(root, pid), outcomes) == ProvisionView::Done(Ok(())),
{
    let list = topology.scenario_down_steps(root, pid);
    law_provisioning_needs_its_steps(list, outcomes);
    assert forall|i: int| 0 <= i < list.len() implies !stops(#[trigger] list[i], outcomes[i]) by {
        law_teardown_ignores_errors(topology, root, pid, i);
    }
}

proof fn lemma_four_parts(
    one: Seq<StepView>,
    two: Seq<StepView>,
    three: Seq<StepView>,
    four: Seq<StepView>,
    outcomes: Seq<Result<(), Seq<char>>>,
)
    requires
        outcomes.len() <= one.len() + two.len() + three.len() + four.len(),
    ensures
        ({
            let a = one.len() as int;
            let b = two.len() as int;
            let c = three.len() as int;
            let first = provision(one, part(outcomes, 0, a));
            let second = provision(two, part(outcomes, a, b));
            let third = provision(three, part(outcomes, a + b, c));
            let fourth = provision(four, part(outcomes, a + b + c, four.len() as int));
            &&& provision(one + (two + (three + four)), outcomes) == (if first
                != ProvisionView::Done(Ok(())) {
                first
            } else if second != ProvisionView::Done(Ok(())) {
                shifted(second, a)
            } else if third != ProvisionView::Done(Ok(())) {
                shifted(third, a + b)
            } else {
                shifted(fourth, a + b + c)
            })
            &&& first == ProvisionView::Done(Ok(())) && second == ProvisionView::Done(Ok(()))
                && third == ProvisionView::Done(Ok(())) ==> outcomes.len() >= a + b + c
        }),
{
    let a = one.len() as int;
    let b = two.len() as int;
    let c = three.len() as int;
    let d = four.len() as int;
    law_parts_run_in_order(one, two + (three + four), outcomes);
    let rest = part(outcomes, a, b + c + d);
    law_parts_run_in_order(two, three + four, rest);
    let last = part(rest, b, c + d);
    law_parts_run_in_order(three, four, last);
    law_provisioning_needs_its_steps(one, part(outcomes, 0, a));
    law_provisioning_needs_its_steps(two, part(outcomes, a, b));
    law_provisioning_needs_its_steps(three, part(outcomes, a + b, c));
    if outcomes.len() >= a {
        assert(part(rest, 0, b) =~= part(outcomes, a, b));
    }
    if outcomes.len() >= a + b {
        assert(part(last, 0, c) =~= part(outcomes, a + b, c));
    }
    if outcomes.len() >= a + b + c {
        assert(part(last, c, d) =~= part(outcomes, a + b + c, d));
    }
}

/// A provisioning is ended by the failure of a command that has to succeed, of a ruleset, a
/// directory or a file, and by nothing else: not by a command whose failure is ignored, nor
/// by telling the user or waiting.
pub proof fn law_what_may_end_a_provisioning(step: StepView, outcome: Result<(), Seq<char>>)
    ensures
        stops(step, outcome) <==> outcome is Err && (step is Run || step is Feed || step is CreateDir
            || step is WriteFile),
{
}

/// What is said of a failure names what failed, tells a command that did not start from one
/// that ended badly, and gives the reason.
pub proof fn law_failures_name_what_failed(
    argv: Seq<Seq<char>>,
    what: Seq<char>,
    path: Seq<char>,
    input: Seq<char>,
    why: Seq<char>,
    failure: StepFailureView,
)
    ensures
        failure_text(StepView::Run { argv, what }, StepFailureView::Status(why)) == what
            + " exited with "@ + why,
        failure_text(StepView::Run { argv, what }, StepFailureView::Start(why)) == "spawning "@
            + what + ": "@ + why,
        failure_text(StepView::Feed { argv, input }, StepFailureView::Start(why))
            == "spawning nft in the router namespace: "@ + why,
        failure_text(StepView::Feed { argv, input }, StepFailureView::Input(why))
            == "writing nftables ruleset: "@ + why,
        failure_text(StepView::Feed { argv, input }, StepFailureView::Wait(why))
            == "waiting for nft: "@ + why,
        failure_text(StepView::Feed { argv, input }, StepFailureView::Status(why))
            == "nft -f - exited with "@ + why,
        failure_text(StepView::CreateDir(path), StepFailureView::Start(why)) == "creating "@ + path
            + ": "@ + why,
        failure_text(StepView::WriteFile { path, content: input }, StepFailureView::Start(why))
            == "writing "@ + path + ": "@ + why,
{
}

/// The mapping that the policy of a scenario rewrites sources with.
pub proof fn law_mappings_of_the_scenarios(scenario: Scenario)
    ensures
        snat_mode(scenario) == Some("persistent"@) <== scenario == Scenario::StunSrflx,
        snat_mode(scenario) == Some("random"@) <== scenario == Scenario::NatSymmetric,
        snat_mode(scenario) is Some <==> scenario == Scenario::StunSrflx || scenario
            == Scenario::NatSymmetric,
{
}

} // verus!
