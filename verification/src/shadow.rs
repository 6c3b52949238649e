//! The Shadow-lab environment: every selected two-peer test placed on its own trio
//! of simulated hosts, and the configuration that tells the Shadow network
//! simulator about them.
//!
//! Shadow owns the whole run: one configuration describes, for each test, a
//! signaling host plus an offerer and an answerer host (each on its own simulated
//! IP); each peer's single-line JSON `test-result` is then read from the stdout
//! Shadow captured of its host. The run is deterministic, so no retries are needed.

use vstd::prelude::*;

use crate::corpus::{params_for, params_of, select, selection, TWO_PEER_TESTS};
use crate::ice_lab::{http_url, to_http_url};
use crate::json::{json_quoted, json_str};
use crate::outcome::{fold_two, folded, raw_of, to_raw, OutcomeView, TestOutcome};
use crate::peer_command::{PeerCommand, PeerRun, RunView};
use crate::results::{RawResult, RawResultView, RawStatus};
use crate::retry::report_view;
use crate::text::{
    concat, concat2, concat3, decimal, join_from, joined, lemma_concat_take, lemma_texts_push,
    texts, to_decimal,
};

verus! {

broadcast use lemma_texts_push;

/// One two-peer test placed on three simulated hosts.
#[derive(Debug, Clone)]
pub struct Placement {
    pub test_id: &'static str,
    pub index: usize,
    pub signaling_ip: String,
    pub offerer_ip: String,
    pub answerer_ip: String,
    pub count: u32,
    pub size: u32,
}

/// The address of a host in the `index`-th trio.
pub open spec fn trio_ip(index: nat, host: Seq<char>) -> Seq<char> {
    "11.0."@ + decimal(index) + "."@ + host
}

fn to_trio_ip(index: usize, host: &str) -> (r: String)
    ensures
        r@ == trio_ip(index as nat, host@),
{
    let mut out = concat3("11.0.", to_decimal(index as u64).as_str(), ".");
    out.append(host);
    out
}

impl Placement {
    /// This is the placement of `test_id` on the `index`-th trio of hosts.
    pub open spec fn places(self, test_id: &'static str, index: int) -> bool {
        &&& self.test_id == test_id
        &&& self.index == index
        &&& self.signaling_ip@ == trio_ip(index as nat, "1"@)
        &&& self.offerer_ip@ == trio_ip(index as nat, "2"@)
        &&& self.answerer_ip@ == trio_ip(index as nat, "3"@)
        &&& (self.count, self.size) == params_of(test_id@)
    }

    /// Place a test on the `index`-th trio of hosts.
    pub fn new(test_id: &'static str, index: usize) -> (r: Self)
        ensures
            r.places(test_id, index as int),
    {
        let (count, size) = params_for(test_id);
        Placement {
            test_id,
            index,
            signaling_ip: to_trio_ip(index, "1"),
            offerer_ip: to_trio_ip(index, "2"),
            answerer_ip: to_trio_ip(index, "3"),
            count,
            size,
        }
    }

    /// The URL of this placement's signaling server.
    pub fn signaling_url(&self, port: u16) -> (r: String)
        ensures
            r@ == http_url(self.signaling_ip@, port),
    {
        to_http_url(self.signaling_ip.as_str(), port)
    }
}

/// The selected tests, each on its own trio of hosts; an error if none is selected.
pub fn place_tests(only: &[String]) -> (r: Result<Vec<Placement>, &'static str>)
    ensures
        ({
            let selected = selection(TWO_PEER_TESTS@, texts(only@));
            match r {
                Ok(placements) => selected.len() > 0 && placements@.len() == selected.len()
                    && forall|i: int|
                    0 <= i < selected.len() ==> (#[trigger] placements@[i]).places(selected[i], i),
                Err(e) => selected.len() == 0 && e@ == "no tests selected"@,
            }
        }),
{
    let tests = TWO_PEER_TESTS;
    let selected = select(tests.as_slice(), only);
    if selected.len() == 0 {
        return Err("no tests selected");
    }
    let mut out: Vec<Placement> = Vec::new();
    let mut i: usize = 0;
    while i < selected.len()
        invariant
            i <= selected@.len(),
            out@.len() == i,
            forall|k: int| 0 <= k < i ==> (#[trigger] out@[k]).places(selected@[k], k),
        decreases selected@.len() - i,
    {
        out.push(Placement::new(selected[i], i));
        i += 1;
    }
    Ok(out)
}

// ----- the configuration ------------------------------------------------------------------------------

/// Strings rendered as double-quoted scalars.
pub open spec fn quoted_all(args: Seq<Seq<char>>) -> Seq<Seq<char>> {
    args.map_values(|a: Seq<char>| json_quoted(a))
}

fn quote_all(args: &Vec<String>) -> (r: Vec<String>)
    ensures
        texts(r@) == quoted_all(texts(args@)),
{
    let mut out: Vec<String> = Vec::new();
    let mut i: usize = 0;
    while i < args.len()
        invariant
            i <= args@.len(),
            texts(out@) == quoted_all(texts(args@)).take(i as int),
        decreases args@.len() - i,
    {
        let ghost before = texts(out@);
        out.push(json_str(args[i].as_str()));
        assert(texts(out@) =~= quoted_all(texts(args@)).take(i + 1));
        i += 1;
    }
    assert(quoted_all(texts(args@)).take(i as int) =~= quoted_all(texts(args@)));
    out
}

/// One Shadow host running a single process.
pub open spec fn host_text(
    name: Seq<char>,
    ip: Seq<char>,
    args: Seq<Seq<char>>,
    start_time: Seq<char>,
    expected_running: Option<Seq<char>>,
) -> Seq<char> {
    "  "@ + name + ":\n    ip_addr: "@ + ip
        + "\n    network_node_id: 0\n    processes:\n    - path: "@ + args[0] + "\n      args: ["@
        + joined(args.skip(1), ", "@) + "]\n      start_time: "@ + start_time + "\n"@ + (
    match expected_running {
        Some(state) => "      expected_final_state: "@ + state + "\n"@,
        None => seq![],
    })
}

/// Emit one Shadow host running a single process.
pub fn emit_host(
    s: &mut String,
    name: &str,
    ip: &str,
    args: &Vec<String>,
    start_time: &str,
    expected_running: Option<&str>,
)
    requires
        args@.len() > 0,
    ensures
        final(s)@ == old(s)@ + host_text(
            name@,
            ip@,
            texts(args@),
            start_time@,
            match expected_running {
                Some(state) => Some(state@),
                None => None,
            },
        ),
{
    let rest = join_from(args, 1, ", ");
    assert(texts(args@)[0] == args@[0]@);
    s.append("  ");
    s.append(name);
    s.append(":\n    ip_addr: ");
    s.append(ip);
    s.append("\n    network_node_id: 0\n    processes:\n    - path: ");
    s.append(args[0].as_str());
    s.append("\n      args: [");
    s.append(rest.as_str());
    s.append("]\n      start_time: ");
    s.append(start_time);
    s.append("\n");
    if let Some(state) = expected_running {
        s.append("      expected_final_state: ");
        s.append(state);
        s.append("\n");
    }
    assert(s@ =~= old(s)@ + host_text(
        name@,
        ip@,
        texts(args@),
        start_time@,
        match expected_running {
            Some(state) => Some(state@),
            None => None,
        },
    ));
}

/// How one peer of a placement is run: at its own simulated address, in its trio's
/// only room, without multicast DNS (the simulated stack has no multicast sockets).
pub open spec fn peer_run(p: Placement, role: Seq<char>, ip: Seq<char>, port: u16) -> RunView {
    RunView {
        test_id: p.test_id@,
        role,
        signaling_url: http_url(p.signaling_ip@, port),
        room: "r"@,
        count: p.count,
        size: p.size,
        bind_addr: ip,
        ice: None,
        disable_mdns: true,
    }
}

/// One peer host of a placement.
pub open spec fn peer_host_text(
    command: PeerCommand,
    p: Placement,
    role: Seq<char>,
    ip: Seq<char>,
    port: u16,
) -> Seq<char> {
    host_text(
        role + decimal(p.index as nat),
        ip,
        quoted_all(command.argv_texts(peer_run(p, role, ip, port))),
        "2s"@,
        None,
    )
}

/// The three hosts of a placement: a signaling host, which is long-lived and thus
/// expected to be running still when the simulation stops, and the two peers, which
/// start once the signaling server has had a moment to bind.
pub open spec fn placement_text(
    command: PeerCommand,
    signaling_bin: Seq<char>,
    port: u16,
    p: Placement,
) -> Seq<char> {
    host_text(
        "sig"@ + decimal(p.index as nat),
        p.signaling_ip@,
        quoted_all(
            seq![signaling_bin, "--host"@, p.signaling_ip@, "--port"@, decimal(port as nat)],
        ),
        "0s"@,
        Some("running"@),
    ) + peer_host_text(command, p, "offerer"@, p.offerer_ip@, port) + peer_host_text(
        command,
        p,
        "answerer"@,
        p.answerer_ip@,
        port,
    )
}

/// The Shadow configuration of some placements. The simulated clock advances past
/// blocking syscalls, so an idle wait never spins the wall clock.
pub open spec fn config_text(
    stop_time: Seq<char>,
    command: PeerCommand,
    signaling_bin: Seq<char>,
    port: u16,
    placements: Seq<Placement>,
) -> Seq<char> {
    "general:\n  stop_time: "@ + stop_time
        + "\n  model_unblocked_syscall_latency: true\nnetwork:\n  graph:\n    type: 1_gbit_switch\nhosts:\n"@
        + concat(
        placements.map_values(|p: Placement| placement_text(command, signaling_bin, port, p)),
    )
}

/// Emit one peer host of a placement.
fn emit_peer(
    s: &mut String,
    command: &PeerCommand,
    p: &Placement,
    role: &str,
    ip: &str,
    port: u16,
)
    ensures
        final(s)@ == old(s)@ + peer_host_text(*command, *p, role@, ip@, port),
{
    let url = p.signaling_url(port);
    let run = PeerRun {
        test_id: p.test_id,
        role,
        signaling_url: url.as_str(),
        room: "r",
        count: p.count,
        size: p.size,
        bind_addr: ip,
        ice: None,
        disable_mdns: true,
    };
    assert(run@ =~= peer_run(*p, role@, ip@, port));
    match command.argv(&run) {
        Ok(argv) => {
            let args = quote_all(&argv);
            assert(texts(args@).len() == texts(argv@).len());
            assert(texts(argv@).len() > 0);
            let name = concat2(role, to_decimal(p.index as u64).as_str());
            emit_host(s, name.as_str(), ip, &args, "2s", None);
        },
        // Without ICE parameters every peer kind can be invoked.
        Err(_) => {},
    }
}

/// Render the Shadow configuration placing every selected test on its own trio of
/// simulated hosts (signaling, offerer, answerer).
pub fn render_config(
    stop_time: &str,
    command: &PeerCommand,
    signaling_bin: &str,
    port: u16,
    placements: &[Placement],
) -> (r: String)
    ensures
        r@ == config_text(stop_time@, *command, signaling_bin@, port, placements@),
{
    let mut s = concat3(
        "general:\n  stop_time: ",
        stop_time,
        "\n  model_unblocked_syscall_latency: true\nnetwork:\n  graph:\n    type: 1_gbit_switch\nhosts:\n",
    );
    let ghost head = s@;
    let ghost parts = placements@.map_values(
        |p: Placement| placement_text(*command, signaling_bin@, port, p),
    );
    assert(head + concat(parts.take(0)) =~= head);
    let mut i: usize = 0;
    while i < placements.len()
        invariant
            i <= placements@.len(),
            parts == placements@.map_values(
                |p: Placement| placement_text(*command, signaling_bin@, port, p),
            ),
            s@ == head + concat(parts.take(i as int)),
        decreases placements@.len() - i,
    {
        let p = &placements[i];
        let ghost before = s@;
        let mut server: Vec<String> = Vec::new();
        server.push(signaling_bin.to_string());
        server.push("--host".to_string());
        server.push(p.signaling_ip.clone());
        server.push("--port".to_string());
        server.push(to_decimal(port as u64));
        assert(texts(server@) =~= seq![
            signaling_bin@,
            "--host"@,
            p.signaling_ip@,
            "--port"@,
            decimal(port as nat),
        ]);
        let args = quote_all(&server);
        assert(texts(args@).len() == 5);
        let name = concat2("sig", to_decimal(p.index as u64).as_str());
        emit_host(&mut s, name.as_str(), p.signaling_ip.as_str(), &args, "0s", Some("running"));
        emit_peer(&mut s, command, p, "offerer", p.offerer_ip.as_str(), port);
        emit_peer(&mut s, command, p, "answerer", p.answerer_ip.as_str(), port);
        proof {
            assert(s@ =~= before + placement_text(*command, signaling_bin@, port, *p));
            lemma_concat_take(parts, i as int);
            assert(s@ =~= head + concat(parts.take(i + 1)));
        }
        i += 1;
    }
    assert(parts.take(i as int) =~= parts);
    s
}

// ----- results ----------------------------------------------------------------------------------------

/// The raw result of a test, from what its peers reported. A missing report fails
/// the test; the offerer's counts first.
pub open spec fn collected(
    test_id: Seq<char>,
    offerer: Result<OutcomeView, Seq<char>>,
    answerer: Result<OutcomeView, Seq<char>>,
) -> RawResultView {
    raw_of(
        test_id,
        match (offerer, answerer) {
            (Ok(o), Ok(a)) => folded(o, a),
            (Err(e), _) => OutcomeView::Fail("shadow: missing peer result: "@ + e),
            (Ok(_), Err(e)) => OutcomeView::Fail("shadow: missing peer result: "@ + e),
        },
    )
}

/// Fold one test's offerer and answerer outcomes into a raw result.
pub fn collect_result(
    test_id: &str,
    offerer: Result<TestOutcome, String>,
    answerer: Result<TestOutcome, String>,
) -> (r: RawResult)
    ensures
        r@ == collected(test_id@, report_view(offerer), report_view(answerer)),
{
    let outcome = match (offerer, answerer) {
        (Ok(o), Ok(a)) => fold_two(o, a),
        (Err(e), _) => TestOutcome::Fail(concat2("shadow: missing peer result: ", e.as_str())),
        (Ok(_), Err(e)) => TestOutcome::Fail(concat2("shadow: missing peer result: ", e.as_str())),
    };
    to_raw(test_id, outcome)
}

/// No two hosts of a run share an address or a trio: placements with different
/// indices have different addresses, and so have the hosts of one placement.
pub proof fn law_hosts_have_distinct_addresses(i: nat, j: nat, a: Seq<char>, b: Seq<char>)
    requires
        i <= u64::MAX,
        j <= u64::MAX,
        a == "1"@ || a == "2"@ || a == "3"@,
        b == "1"@ || b == "2"@ || b == "3"@,
        i != j || a != b,
    ensures
        trio_ip(i, a) != trio_ip(j, b),
{
    reveal_strlit("1");
    reveal_strlit("2");
    reveal_strlit("3");
    reveal_strlit(".");
    let x = trio_ip(i, a);
    let y = trio_ip(j, b);
    if x == y {
        let head = "11.0."@.len() as int;
        assert(x.len() == head + decimal(i).len() + 2);
        assert(y.len() == head + decimal(j).len() + 2);
        assert(x.subrange(head, x.len() - 2) =~= decimal(i));
        assert(y.subrange(head, y.len() - 2) =~= decimal(j));
        crate::text::law_number_round_trip(i, u64::MAX as nat);
        crate::text::law_number_round_trip(j, u64::MAX as nat);
        assert(x.last() == a[0]);
        assert(y.last() == b[0]);
        assert(a =~= b);
    }
}

// ----- laws ------------------------------------------------------------------------------------------

/// A test is placed on three hosts of its own trio, with the parameters it runs with.
pub proof fn law_placements_are_trios(p: Placement, test_id: &'static str, index: int)
    requires
        p.places(test_id, index),
    ensures
        p.test_id@ == test_id@,
        p.index == index,
        p.signaling_ip@ == "11.0."@ + decimal(index as nat) + "."@ + "1"@,
        p.offerer_ip@ == "11.0."@ + decimal(index as nat) + "."@ + "2"@,
        p.answerer_ip@ == "11.0."@ + decimal(index as nat) + "."@ + "3"@,
        p.count == params_of(test_id@).0,
        p.size == params_of(test_id@).1,
{
}

/// Both peers of a placement meet: they run the same test with the same parameters, in the
/// same room, against the server at the placement's own signaling address; each binds its
/// own address, without multicast and without servers.
pub proof fn law_peers_of_a_placement_meet(p: Placement, port: u16)
    ensures
        ({
            let a = peer_run(p, "offerer"@, p.offerer_ip@, port);
            let b = peer_run(p, "answerer"@, p.answerer_ip@, port);
            &&& a.role == "offerer"@ && b.role == "answerer"@
            &&& a.bind_addr == p.offerer_ip@ && b.bind_addr == p.answerer_ip@
            &&& a.test_id == p.test_id@ && a.count == p.count && a.size == p.size
            &&& a.signaling_url == http_url(p.signaling_ip@, port)
            &&& a.ice is None && a.disable_mdns
            &&& b == (RunView { role: b.role, bind_addr: b.bind_addr, ..a })
        }),
{
}

/// What a simulated host looks like: its name and address, the first of the arguments as
/// the program, the rest as its arguments, when it starts, and, if it is to outlive the
/// run, that it does.
pub proof fn law_what_a_host_looks_like(
    name: Seq<char>,
    ip: Seq<char>,
    program: Seq<char>,
    rest: Seq<Seq<char>>,
    start: Seq<char>,
    state: Seq<char>,
)
    ensures
        ({
            let head = "  "@ + name + ":\n    ip_addr: "@ + ip
                + "\n    network_node_id: 0\n    processes:\n    - path: "@ + program
                + "\n      args: ["@ + joined(rest, ", "@) + "]\n      start_time: "@ + start
                + "\n"@;
            &&& host_text(name, ip, seq![program] + rest, start, None) == head
            &&& host_text(name, ip, seq![program] + rest, start, Some(state)) == head
                + "      expected_final_state: "@ + state + "\n"@
        }),
{
    let args = seq![program] + rest;
    assert(args.skip(1) =~= rest);
    let head = "  "@ + name + ":\n    ip_addr: "@ + ip
        + "\n    network_node_id: 0\n    processes:\n    - path: "@ + program
        + "\n      args: ["@ + joined(rest, ", "@) + "]\n      start_time: "@ + start + "\n"@;
    assert(host_text(name, ip, args, start, None) =~= head);
    assert(host_text(name, ip, args, start, Some(state)) =~= head + "      expected_final_state: "@
        + state + "\n"@);
}

/// A placement is three hosts, the server first, which starts at once and is to be running
/// still at the end; the peers start two seconds later, the offerer before the answerer,
/// each at its own address under its own name.
pub proof fn law_what_a_placement_looks_like(
    command: PeerCommand,
    bin: Seq<char>,
    port: u16,
    p: Placement,
)
    ensures
        ({
            let n = decimal(p.index as nat);
            let server = host_text(
                "sig"@ + n,
                p.signaling_ip@,
                quoted_all(
                    seq![bin, "--host"@, p.signaling_ip@, "--port"@, decimal(port as nat)],
                ),
                "0s"@,
                Some("running"@),
            );
            let offerer = host_text(
                "offerer"@ + n,
                p.offerer_ip@,
                quoted_all(
                    command.argv_texts(peer_run(p, "offerer"@, p.offerer_ip@, port)),
                ),
                "2s"@,
                None,
            );
            let answerer = host_text(
                "answerer"@ + n,
                p.answerer_ip@,
                quoted_all(
                    command.argv_texts(peer_run(p, "answerer"@, p.answerer_ip@, port)),
                ),
                "2s"@,
                None,
            );
            placement_text(command, bin, port, p) == server + offerer + answerer
        }),
{
}

/// The configuration opens with when the run stops and holds every placement; one placement
/// more is appended behind the others.
pub proof fn law_the_configuration_holds_every_placement(
    stop: Seq<char>,
    command: PeerCommand,
    bin: Seq<char>,
    port: u16,
    placements: Seq<Placement>,
    p: Placement,
)
    ensures
        config_text(stop, command, bin, port, placements.push(p)) == config_text(
            stop,
            command,
            bin,
            port,
            placements,
        ) + placement_text(command, bin, port, p),
        config_text(stop, command, bin, port, seq![]) == "general:\n  stop_time: "@ + stop
            + "\n  model_unblocked_syscall_latency: true\nnetwork:\n  graph:\n    type: 1_gbit_switch\nhosts:\n"@,
{
    let part = |p: Placement| placement_text(command, bin, port, p);
    let all = placements.push(p).map_values(part);
    assert(all.drop_last() =~= placements.map_values(part));
    assert(all.last() == part(p));
    let head = "general:\n  stop_time: "@ + stop
        + "\n  model_unblocked_syscall_latency: true\nnetwork:\n  graph:\n    type: 1_gbit_switch\nhosts:\n"@;
    let text = concat(placements.map_values(part));
    assert(head + (text + part(p)) =~= head + text + part(p));
    let none = Seq::<Placement>::empty();
    assert(none.map_values(part) =~= seq![]);
    assert(head + Seq::<char>::empty() =~= head);
}

/// A test without both reports fails and says which was missing first; with both, it has
/// their folded outcome. The result is that of the test.
pub proof fn law_missing_reports_fail_the_test(
    test_id: Seq<char>,
    offerer: Result<OutcomeView, Seq<char>>,
    answerer: Result<OutcomeView, Seq<char>>,
)
    ensures
        collected(test_id, offerer, answerer).test_id == test_id,
        collected(test_id, offerer, answerer).status == RawStatus::Pass ==> offerer is Ok
            && answerer is Ok,
        offerer is Ok && answerer is Ok ==> collected(test_id, offerer, answerer) == raw_of(
            test_id,
            folded(offerer->Ok_0, answerer->Ok_0),
        ),
        offerer matches Err(e) ==> collected(test_id, offerer, answerer) == (RawResultView {
            test_id,
            status: RawStatus::Fail,
            detail: Some("shadow: missing peer result: "@ + e),
        }),
        offerer is Ok ==> (answerer matches Err(e) ==> collected(test_id, offerer, answerer) == (
        RawResultView {
            test_id,
            status: RawStatus::Fail,
            detail: Some("shadow: missing peer result: "@ + e),
        })),
{
}

/// All placements use one room name, each on its own server.
pub proof fn law_every_placement_has_its_own_room(
    p: Placement,
    role: Seq<char>,
    ip: Seq<char>,
    port: u16,
)
    ensures
        peer_run(p, role, ip, port).room == "r"@,
        peer_run(p, role, ip, port).signaling_url == http_url(p.signaling_ip@, port),
{
}

} // verus!
