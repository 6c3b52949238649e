//! Orchestrating the instances of a test: which roles a plan runs, and the interop
//! pairs, in which a native wasmtime peer meets a peer of another runtime.

use vstd::prelude::*;

use crate::corpus::Plan;
use crate::outcome::{fold_two, folded, OutcomeView, TestOutcome};
use crate::peer_command::{
    push_test_args, push_wasmtime_run, test_args, wasmtime_run_args,
};
use crate::suite::Role;
use crate::text::{
    concat2, concat3, concat4, decimal, has_prefix, is_member, lemma_texts_push, texts,
    to_decimal,
};

verus! {

broadcast use lemma_texts_push;

// ----- instances -----------------------------------------------------------------------------------

/// The roles a plan runs: two instances that share a room, or a single one.
pub open spec fn roles_of(plan: Plan) -> (Role, Option<Role>) {
    match plan {
        Plan::TwoPeer => (Role::Offerer, Some(Role::Answerer)),
        Plan::InProcess => (Role::Both, None),
        Plan::Skip => (Role::Offerer, None),
    }
}

/// The roles a plan runs: two instances that share a room, or a single one.
pub fn roles_for(plan: Plan) -> (r: (Role, Option<Role>))
    ensures
        r == roles_of(plan),
{
    match plan {
        Plan::TwoPeer => (Role::Offerer, Some(Role::Answerer)),
        Plan::InProcess => (Role::Both, None),
        Plan::Skip => (Role::Offerer, None),
    }
}

/// The outcome of a test, from what its instances reported: the first error counts,
/// else the folded outcome.
pub fn settle(
    first: Result<TestOutcome, String>,
    second: Option<Result<TestOutcome, String>>,
) -> (r: Result<TestOutcome, String>)
    ensures
        match (first, second) {
            (Err(e), _) => r matches Err(f) && f@ == e@,
            (Ok(_), Some(Err(e))) => r matches Err(f) && f@ == e@,
            (Ok(a), Some(Ok(b))) => r matches Ok(o) && o@ == folded(a@, b@),
            (Ok(a), None) => r matches Ok(o) && o@ == a@,
        },
{
    match (first, second) {
        (Err(e), _) => Err(e),
        (Ok(_), Some(Err(e))) => Err(e),
        (Ok(a), Some(Ok(b))) => Ok(fold_two(a, b)),
        (Ok(a), None) => Ok(a),
    }
}

/// The room of the `n`-th attempt of a run: fresh for each attempt.
pub open spec fn room_text(prefix: Seq<char>, test_id: Seq<char>, n: u64) -> Seq<char> {
    prefix + "-"@ + test_id + "-"@ + decimal(n as nat)
}

/// The room of the `n`-th attempt of a run: fresh for each attempt.
pub fn room_name(prefix: &str, test_id: &str, n: u64) -> (r: String)
    ensures
        r@ == room_text(prefix@, test_id@, n),
{
    let mut out = concat4(prefix, "-", test_id, "-");
    out.append(to_decimal(n).as_str());
    out
}

/// No two attempts at a test share a room.
pub proof fn law_attempts_have_fresh_rooms(
    prefix: Seq<char>,
    test_id: Seq<char>,
    a: u64,
    b: u64,
)
    requires
        a != b,
    ensures
        room_text(prefix, test_id, a) != room_text(prefix, test_id, b),
{
    let head = prefix + "-"@ + test_id + "-"@;
    let x = room_text(prefix, test_id, a);
    let y = room_text(prefix, test_id, b);
    if x == y {
        assert(x.skip(head.len() as int) =~= decimal(a as nat));
        assert(y.skip(head.len() as int) =~= decimal(b as nat));
        crate::text::law_number_round_trip(a as nat, u64::MAX as nat);
        crate::text::law_number_round_trip(b as nat, u64::MAX as nat);
    }
}

// ----- interop pairs -----------------------------------------------------------------------------------

/// The runtime driving the non-wasmtime peer of a pair.
#[derive(Debug, Clone, Copy, PartialEq, Eq, Structural)]
pub enum InteropPeer {
    /// The jco-node host, via `run-node.mjs --interop`.
    JcoNode,
    /// The composed wasip3-guest component, via `wasmtime run`.
    Wasip3,
}

/// One direction of a pair: which runtime the non-wasmtime peer runs on, which role
/// the wasmtime peer plays (the other peer plays the opposite), and the target id
/// the result document records.
#[derive(Debug, Clone, Copy)]
pub struct Direction {
    pub target: &'static str,
    pub peer: InteropPeer,
    pub wasmtime_role: Role,
}

/// Every pair, in both orders.
pub open spec fn all_directions() -> Seq<Direction> {
    seq![
        Direction {
            target: "wasmtime-x-jco-node",
            peer: InteropPeer::JcoNode,
            wasmtime_role: Role::Offerer,
        },
        Direction {
            target: "jco-node-x-wasmtime",
            peer: InteropPeer::JcoNode,
            wasmtime_role: Role::Answerer,
        },
        Direction {
            target: "wasmtime-x-wasip3-guest",
            peer: InteropPeer::Wasip3,
            wasmtime_role: Role::Offerer,
        },
        Direction {
            target: "wasip3-guest-x-wasmtime",
            peer: InteropPeer::Wasip3,
            wasmtime_role: Role::Answerer,
        },
    ]
}

/// Every pair, in both orders.
pub fn directions() -> (r: Vec<Direction>)
    ensures
        r@ == all_directions(),
{
    let mut out: Vec<Direction> = Vec::new();
    out.push(
        Direction {
            target: "wasmtime-x-jco-node",
            peer: InteropPeer::JcoNode,
            wasmtime_role: Role::Offerer,
        },
    );
    out.push(
        Direction {
            target: "jco-node-x-wasmtime",
            peer: InteropPeer::JcoNode,
            wasmtime_role: Role::Answerer,
        },
    );
    out.push(
        Direction {
            target: "wasmtime-x-wasip3-guest",
            peer: InteropPeer::Wasip3,
            wasmtime_role: Role::Offerer,
        },
    );
    out.push(
        Direction {
            target: "wasip3-guest-x-wasmtime",
            peer: InteropPeer::Wasip3,
            wasmtime_role: Role::Answerer,
        },
    );
    out
}

/// Every pair is run in both orders.
pub proof fn law_pairs_run_in_both_orders(i: int)
    requires
        0 <= i < all_directions().len(),
    ensures
        exists|j: int|
            0 <= j < all_directions().len() && (#[trigger] all_directions()[j]).peer
                == all_directions()[i].peer && all_directions()[j].wasmtime_role
                != all_directions()[i].wasmtime_role,
{
    let all = all_directions();
    assert(all[0].wasmtime_role != all[1].wasmtime_role && all[0].peer == all[1].peer);
    assert(all[2].wasmtime_role != all[3].wasmtime_role && all[2].peer == all[3].peer);
}

/// Whether a direction is selected. An empty selection selects every direction.
pub fn runs_pair(pairs: &[String], direction: &Direction) -> (r: bool)
    ensures
        r == (pairs@.len() == 0 || texts(pairs@).contains(direction.target@)),
{
    pairs.len() == 0 || is_member(pairs, direction.target)
}

/// The non-wasmtime peer's role, given the wasmtime peer's role.
pub open spec fn opposite(wasmtime_role: Role) -> Seq<char> {
    match wasmtime_role {
        Role::Offerer | Role::Both => "answerer"@,
        Role::Answerer => "offerer"@,
    }
}

/// The non-wasmtime peer's role, given the wasmtime peer's role.
pub fn peer_role(wasmtime_role: Role) -> (r: &'static str)
    ensures
        r@ == opposite(wasmtime_role),
{
    match wasmtime_role {
        Role::Offerer => "answerer",
        Role::Answerer => "offerer",
        Role::Both => "answerer",
    }
}

/// The outcome of a pair.
pub open spec fn folded_pair(
    wasmtime_role: Role,
    wasmtime: OutcomeView,
    peer: OutcomeView,
) -> OutcomeView {
    match wasmtime_role {
        Role::Offerer | Role::Both => folded(wasmtime, peer),
        Role::Answerer => folded(peer, wasmtime),
    }
}

/// Fold results into the raw offerer/answerer order the fold of two outcomes
/// expects, then classify: any fail loses, else any skip, else pass.
pub fn fold_pair(wasmtime_role: Role, wasmtime: TestOutcome, peer: TestOutcome) -> (r: TestOutcome)
    ensures
        r@ == folded_pair(wasmtime_role, wasmtime@, peer@),
{
    match wasmtime_role {
        Role::Offerer | Role::Both => fold_two(wasmtime, peer),
        Role::Answerer => fold_two(peer, wasmtime),
    }
}

/// The outcome of an interop attempt, from what its peers reported: an error of the
/// wasmtime peer counts first, then one of the other peer.
pub fn settle_pair(
    wasmtime_role: Role,
    wasmtime: Result<TestOutcome, String>,
    peer: Result<TestOutcome, String>,
) -> (r: Result<TestOutcome, String>)
    ensures
        match (wasmtime, peer) {
            (Err(e), _) => r matches Err(f) && f@ == "wasmtime peer: "@ + e@,
            (Ok(_), Err(e)) => r matches Err(f) && f@ == "interop peer: "@ + e@,
            (Ok(a), Ok(b)) => r matches Ok(o) && o@ == folded_pair(wasmtime_role, a@, b@),
        },
{
    match (wasmtime, peer) {
        (Err(e), _) => Err(concat2("wasmtime peer: ", e.as_str())),
        (Ok(_), Err(e)) => Err(concat2("interop peer: ", e.as_str())),
        (Ok(a), Ok(b)) => Ok(fold_pair(wasmtime_role, a, b)),
    }
}

/// The room of the `n`-th attempt of an interop run.
pub fn interop_room(direction: &Direction, test_id: &str, n: u64) -> (r: String)
    ensures
        r@ == room_text("interop-"@ + direction.target@, test_id@, n),
{
    room_name(concat2("interop-", direction.target).as_str(), test_id, n)
}

/// The command that runs the jco-node peer for one test, role and room via
/// `run-node.mjs --interop`.
pub fn jco_argv(
    node_bin: &str,
    run_node: &str,
    base_url: &str,
    test_id: &str,
    room: &str,
    role: &str,
    count: u32,
    size: u32,
) -> (r: Vec<String>)
    ensures
        texts(r@) == seq![
            node_bin@,
            "--experimental-wasm-jspi"@,
            run_node@,
            "--interop"@,
            "--server"@,
            base_url@,
            "--test"@,
            test_id@,
            "--room"@,
            room@,
            "--role"@,
            role@,
            "--message-count"@,
            decimal(count as nat),
            "--message-size"@,
            decimal(size as nat),
        ],
{
    let mut out: Vec<String> = Vec::new();
    out.push(node_bin.to_string());
    out.push("--experimental-wasm-jspi".to_string());
    out.push(run_node.to_string());
    out.push("--interop".to_string());
    out.push("--server".to_string());
    out.push(base_url.to_string());
    out.push("--test".to_string());
    out.push(test_id.to_string());
    out.push("--room".to_string());
    out.push(room.to_string());
    out.push("--role".to_string());
    out.push(role.to_string());
    out.push("--message-count".to_string());
    out.push(to_decimal(count as u64));
    out.push("--message-size".to_string());
    out.push(to_decimal(size as u64));
    out
}

/// How the jco-node peer is named in errors.
pub fn jco_label(node_bin: &str) -> (r: String)
    ensures
        r@ == "jco-node peer ("@ + node_bin@ + ")"@,
{
    concat3("jco-node peer (", node_bin, ")")
}

/// A runner for one wasip3-guest peer: the composed component plus the `wasmtime`
/// binary that executes it.
#[derive(Debug, Clone)]
pub struct Wasip3Peer {
    /// The `wasmtime` binary (must support `-W component-model-async` and `-S p3`).
    pub wasmtime_bin: String,
    /// The fully composed component (guest, provider, mailbox and driver).
    pub component: String,
}

impl Wasip3Peer {
    /// The command that runs one guest instance of `test_id` as `role` against
    /// `room` on the signaling server at `server`.
    ///
    /// The flags ask for the component-model async ABI, the WASIp3 host APIs, and
    /// network access for the provider's UDP sockets and the mailbox's outgoing
    /// HTTP.
    pub fn argv(
        &self,
        server: &str,
        test_id: &str,
        room: &str,
        role: &str,
        count: u32,
        size: u32,
    ) -> (r: Vec<String>)
        ensures
            texts(r@) == wasmtime_run_args(self.wasmtime_bin@).push(self.component@) + test_args(
                test_id@,
                role@,
                server@,
                room@,
                count,
                size,
            ),
    {
        let mut out: Vec<String> = Vec::new();
        assert(texts(out@) =~= seq![]);
        push_wasmtime_run(&mut out, self.wasmtime_bin.as_str());
        assert(texts(out@) =~= wasmtime_run_args(self.wasmtime_bin@));
        out.push(self.component.clone());
        push_test_args(&mut out, test_id, role, server, room, count, size);
        out
    }

    /// How this peer is named in errors.
    pub fn label(&self) -> (r: String)
        ensures
            r@ == "wasip3-guest peer ("@ + self.wasmtime_bin@ + ")"@,
    {
        concat3("wasip3-guest peer (", self.wasmtime_bin.as_str(), ")")
    }
}

// ----- laws ----------------------------------------------------------------------------------------------

/// A plan with two peers runs an offerer and an answerer, one in process runs both roles in
/// one instance, and a skipped test runs one instance that says so.
pub proof fn law_what_roles_a_plan_runs(plan: Plan)
    ensures
        roles_of(plan).1 is Some <==> plan == Plan::TwoPeer,
        roles_of(plan).1 is Some ==> roles_of(plan) == (Role::Offerer, Some(Role::Answerer)),
        roles_of(plan).0 == Role::Both <==> plan == Plan::InProcess,
{
}

/// The peer of a pair plays the role that the wasmtime peer does not.
pub proof fn law_peers_play_opposite_roles(role: Role)
    ensures
        role == Role::Offerer ==> opposite(role) == Role::Answerer.name(),
        role == Role::Answerer ==> opposite(role) == Role::Offerer.name(),
        role != Role::Both ==> opposite(role) != role.name(),
{
    reveal_strlit("offerer");
    reveal_strlit("answerer");
    assert("offerer"@.len() != "answerer"@.len());
}

/// The outcome of a pair is that of its offerer and its answerer, whichever of the two runs
/// on wasmtime: a failure is laid at the door of the role that failed.
pub proof fn law_pairs_fold_by_role(a: OutcomeView, b: OutcomeView)
    ensures
        folded_pair(Role::Offerer, a, b) == folded(a, b),
        folded_pair(Role::Answerer, b, a) == folded(a, b),
        folded_pair(Role::Offerer, a, b) == folded_pair(Role::Answerer, b, a),
        folded_pair(Role::Both, a, b) == folded_pair(Role::Offerer, a, b),
{
}

/// What a room is called: after the run, the test and the number of the attempt.
pub proof fn law_rooms_are_named_after_the_attempt(
    prefix: Seq<char>,
    test_id: Seq<char>,
    n: u64,
)
    ensures
        room_text(prefix, test_id, n) == prefix + "-"@ + test_id + "-"@ + decimal(n as nat),
{
}

/// The target of a direction names its offerer first: the wasmtime peer stands in front
/// exactly where it offers, and each direction has a target of its own.
pub proof fn law_targets_name_the_offerer_first(i: int, j: int)
    requires
        0 <= i < all_directions().len(),
        0 <= j < all_directions().len(),
    ensures
        has_prefix(all_directions()[i].target@, "wasmtime-x-"@) <==> all_directions()[i].wasmtime_role
            == Role::Offerer,
        all_directions()[i].target@ == all_directions()[j].target@ <==> i == j,
        all_directions()[i].peer == InteropPeer::JcoNode <==> all_directions()[i].target@
            == "wasmtime-x-jco-node"@ || all_directions()[i].target@ == "jco-node-x-wasmtime"@,
        all_directions().len() == 4,
{
    reveal_strlit("wasmtime-x-");
    reveal_strlit("wasmtime-x-jco-node");
    reveal_strlit("jco-node-x-wasmtime");
    reveal_strlit("wasmtime-x-wasip3-guest");
    reveal_strlit("wasip3-guest-x-wasmtime");
    let all = all_directions();
    let first = "wasmtime-x-"@;
    assert(all[0].target@.subrange(0, 11) =~= first);
    assert(all[2].target@.subrange(0, 11) =~= first);
    assert("jco-node-x-wasmtime"@[0] == 'j' && "wasip3-guest-x-wasmtime"@[3] == 'i'
        && "wasmtime-x-jco-node"@[0] == 'w' && "wasmtime-x-wasip3-guest"@[3] == 'm');
    assert(first.len() == 11 && first[0] == 'w' && first[3] == 'm');
    if has_prefix(all[1].target@, first) {
        assert(all[1].target@.subrange(0, 11)[0] == 'j');
    }
    if has_prefix(all[3].target@, first) {
        assert(all[3].target@.subrange(0, 11)[3] == 'i');
    }
    assert("wasmtime-x-jco-node"@.len() == 19 && "wasmtime-x-wasip3-guest"@.len() == 23
        && "jco-node-x-wasmtime"@.len() == 19 && "wasip3-guest-x-wasmtime"@.len() == 23);
}

} // verus!
