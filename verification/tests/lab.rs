use webrtc_datachannels::ice_lab::{
    check_scenario, lab_peer_argv, native_peer_argv, plan_attempt, report_stem, signaling_argv,
    LabConfig,
};
use webrtc_datachannels::lab::{ns_command, priv_command, LabTopology, Scenario, Step};
use webrtc_datachannels::peer_command::{PeerCommand, PeerKind, PeerRole};
use webrtc_datachannels::peer_paths::{bin_candidates, ResolveError, Seen, Surroundings};
use webrtc_datachannels::provision::{lab_log, next_step, step_error, Provision, StepFailure};
use webrtc_datachannels::suite::Role;

fn wasmtime_command() -> PeerCommand {
    PeerCommand::Wasmtime {
        peer_bin: "/bin/conformance-peer".to_string(),
        guest: "/g.wasm".to_string(),
    }
}

fn wasip3_command() -> PeerCommand {
    PeerCommand::Wasip3Guest {
        wasmtime_bin: "/bin/wasmtime".to_string(),
        component: "/c.wasm".to_string(),
    }
}

#[test]
fn lab_scenario_ids_round_trip() {
    for s in [
        Scenario::Lan,
        Scenario::StunSrflx,
        Scenario::TurnRelay,
        Scenario::NatSymmetric,
    ] {
        assert_eq!(Scenario::parse(s.as_str()).unwrap(), s);
    }
    assert!(Scenario::parse("nope").is_err());
}

#[test]
fn unknown_scenario_is_named_in_the_error() {
    assert_eq!(
        Scenario::parse("nope").unwrap_err(),
        "unknown scenario \"nope\" (lan|stun-srflx|turn-relay|nat-symmetric)"
    );
}

#[test]
fn lab_lan_binds_role_address_without_servers() {
    let topology = LabTopology::default();
    assert_eq!(topology.bind_addr(PeerRole::Offerer), "10.79.1.2");
    assert_eq!(topology.bind_addr(PeerRole::Answerer), "10.79.2.2");
    let ice = Scenario::Lan.ice(&topology);
    assert!(ice.server_url.is_none());
    assert!(!ice.relay_only);
    assert!(!Scenario::Lan.needs_coturn());
}

#[test]
fn lab_stun_srflx_adds_stun_server_only() {
    let ice = Scenario::StunSrflx.ice(&LabTopology::default());
    assert_eq!(ice.server_url.as_deref(), Some("stun:10.79.3.2:3478"));
    assert!(ice.username.is_empty());
    assert!(!ice.relay_only);
    assert!(Scenario::StunSrflx.needs_coturn());
}

#[test]
fn lab_turn_relay_is_relay_only_with_credentials() {
    let ice = Scenario::TurnRelay.ice(&LabTopology::default());
    assert!(ice.relay_only);
    assert_eq!(
        ice.server_url.as_deref(),
        Some("turn:10.79.3.2:3478?transport=udp")
    );
    assert_eq!(ice.username, "conf");
    assert_eq!(ice.credential, "conf");
}

#[test]
fn lab_nat_symmetric_offers_turn_without_relay_only() {
    let ice = Scenario::NatSymmetric.ice(&LabTopology::default());
    assert!(!ice.relay_only);
    assert_eq!(
        ice.server_url.as_deref(),
        Some("turn:10.79.3.2:3478?transport=udp")
    );
    assert_eq!(ice.username, "conf");
    assert_eq!(ice.credential, "conf");
}

#[test]
fn nft_rulesets_match_scenarios() {
    let topology = LabTopology::default();
    let block = topology.nft_table(None);
    assert!(block.contains("ip saddr 10.79.1.0/30 ip daddr 10.79.2.0/30 drop"));
    assert!(!block.contains("snat"));
    let cone = topology.nft_table(Some("persistent"));
    assert!(cone.contains("snat ip to 10.79.11.1 persistent"));
    let symmetric = topology.nft_table(Some("random"));
    assert!(symmetric.contains("snat ip to 10.79.12.1 random"));
}

#[test]
fn lib_scenario_ids_round_trip() {
    for s in [
        Scenario::Lan,
        Scenario::StunSrflx,
        Scenario::TurnRelay,
        Scenario::NatSymmetric,
    ] {
        assert_eq!(Scenario::parse(s.as_str()).unwrap(), s);
    }
    assert!(Scenario::parse("nope").is_err());
}

#[test]
fn lib_lan_binds_role_address_without_servers() {
    let lab = LabConfig::default();
    let off = Scenario::Lan.ice_config(Role::Offerer, &lab);
    assert_eq!(off.udp_addrs, vec!["10.79.1.2:0".to_string()]);
    assert!(off.ice_servers.is_empty());
    assert!(!off.relay_only);
    let ans = Scenario::Lan.ice_config(Role::Answerer, &lab);
    assert_eq!(ans.udp_addrs, vec!["10.79.2.2:0".to_string()]);
}

#[test]
fn lib_stun_srflx_adds_stun_server_only() {
    let ice = Scenario::StunSrflx.ice_config(Role::Offerer, &LabConfig::default());
    assert_eq!(ice.ice_servers.len(), 1);
    assert_eq!(
        ice.ice_servers[0].urls,
        vec!["stun:10.79.3.2:3478".to_string()]
    );
    assert!(ice.ice_servers[0].username.is_empty());
    assert!(!ice.relay_only);
}

#[test]
fn lib_turn_relay_is_relay_only_with_credentials() {
    let ice = Scenario::TurnRelay.ice_config(Role::Answerer, &LabConfig::default());
    assert!(ice.relay_only);
    assert_eq!(ice.ice_servers.len(), 1);
    assert_eq!(
        ice.ice_servers[0].urls,
        vec!["turn:10.79.3.2:3478?transport=udp".to_string()]
    );
    assert_eq!(ice.ice_servers[0].username, "conf");
    assert_eq!(ice.ice_servers[0].credential, "conf");
}

#[test]
fn lib_nat_symmetric_offers_turn_without_relay_only() {
    let ice = Scenario::NatSymmetric.ice_config(Role::Offerer, &LabConfig::default());
    assert!(!ice.relay_only);
    assert_eq!(ice.ice_servers.len(), 1);
    assert_eq!(
        ice.ice_servers[0].urls,
        vec!["turn:10.79.3.2:3478?transport=udp".to_string()]
    );
    assert_eq!(ice.ice_servers[0].username, "conf");
    assert_eq!(ice.ice_servers[0].credential, "conf");
}

// ----- provisioning -----

#[test]
fn commands_are_prefixed_unless_root() {
    assert_eq!(priv_command(true, "ip", &["link"]), vec!["ip", "link"]);
    assert_eq!(
        priv_command(false, "ip", &["link"]),
        vec!["sudo", "ip", "link"]
    );
    assert_eq!(
        ns_command(true, "ns0", "ping", &["-c1"]),
        vec!["ip", "netns", "exec", "ns0", "ping", "-c1"]
    );
}

fn runs(steps: &[Step]) -> Vec<String> {
    let mut out = Vec::new();
    for step in steps {
        match step {
            Step::Run { argv, .. } => out.push(argv.join(" ")),
            Step::RunIgnored { argv } => out.push(argv.join(" ")),
            Step::Feed { argv, .. } => out.push(argv.join(" ")),
            _ => {}
        }
    }
    out
}

#[test]
fn provisioning_tears_down_first() {
    let topology = LabTopology::default();
    let down = runs(&topology.netns_down(true));
    let up = runs(&topology.netns_up(true));
    assert!(down.len() > 0);
    assert_eq!(up[..down.len()], down[..]);
    for ns in [
        &topology.offerer_ns,
        &topology.answerer_ns,
        &topology.signaling_ns,
        &topology.router_ns,
    ] {
        assert!(down.iter().any(|c| c.contains("netns del") && c.ends_with(ns.as_str())));
        assert!(up.iter().any(|c| c.contains("netns add") && c.ends_with(ns.as_str())));
    }
}

#[test]
fn direct_path_is_blocked_outside_the_lan() {
    let topology = LabTopology::default();
    for scenario in [Scenario::StunSrflx, Scenario::TurnRelay, Scenario::NatSymmetric] {
        let steps = topology.nftables_apply(true, scenario);
        assert!(steps.iter().any(|step| matches!(
            step,
            Step::Feed { input, .. }
                if input.contains("ip saddr 10.79.1.0/30 ip daddr 10.79.2.0/30 drop")
        )));
    }
    let lan = topology.nftables_apply(true, Scenario::Lan);
    assert!(!lan.iter().any(|step| matches!(step, Step::Feed { .. })));
}

#[test]
fn turn_server_runs_only_where_needed() {
    let topology = LabTopology::default();
    let lan = runs(&topology.scenario_up(true, Scenario::Lan, None));
    assert!(!lan.iter().any(|c| c.contains("turnserver")));
    let relay = runs(&topology.scenario_up(true, Scenario::TurnRelay, None));
    assert!(relay.iter().any(|c| c.contains("turnserver")));
    assert!(topology.turn_config().contains("listening-port=3478"));
}

// ----- peers in the lab -----

#[test]
fn attempts_count_ports_up_and_wrap_around() {
    let plan = plan_attempt(Scenario::Lan, "ordering", 3, "10.79.3.2", 8080);
    assert_eq!(plan.room, "ice-lan-ordering-3");
    assert_eq!(plan.port, 8083);
    assert_eq!(plan.signaling_url, "http://10.79.3.2:8083");
    assert_eq!(plan_attempt(Scenario::Lan, "t", 1, "h", 65535).port, 0);
    assert_eq!(plan_attempt(Scenario::Lan, "t", 65536 + 2, "h", 10).port, 12);
}

#[test]
fn wasip3_peers_run_in_the_lan_only() {
    assert!(check_scenario(PeerKind::Wasip3Guest, Scenario::Lan).is_ok());
    assert!(check_scenario(PeerKind::Wasmtime, Scenario::TurnRelay).is_ok());
    assert_eq!(
        check_scenario(PeerKind::Wasip3Guest, Scenario::TurnRelay).unwrap_err(),
        "scenario \"turn-relay\" is not supported for --peer-kind wasip3-guest: the in-guest \
         sans-I/O stack supports no STUN/TURN servers (only `lan` is supported)"
    );
    let topology = LabTopology::default();
    assert!(lab_peer_argv(
        Scenario::TurnRelay, &topology, &wasip3_command(), "http://s", "t", "r",
        PeerRole::Offerer, 1, 2,
    )
    .is_err());
}

#[test]
fn lab_peers_run_in_their_namespace() {
    let topology = LabTopology::default();
    let argv = lab_peer_argv(
        Scenario::Lan, &topology, &wasmtime_command(), "http://s", "ordering", "r",
        PeerRole::Answerer, 16, 512,
    )
    .unwrap();
    assert_eq!(argv[..4], ["ip", "netns", "exec", topology.answerer_ns.as_str()]);
    assert_eq!(argv[4], "/bin/conformance-peer");
    assert!(argv.contains(&"10.79.2.2".to_string()));
    assert!(!argv.contains(&"--relay-only".to_string()));
}

#[test]
fn native_peers_get_the_servers_of_their_scenario() {
    let argv = native_peer_argv(
        Scenario::TurnRelay, &LabConfig::default(), "ns", "/peer", "/g.wasm", "http://s",
        "ordering", "r", Role::Both, 16, 512,
    );
    assert_eq!(
        argv.join(" "),
        "ip netns exec ns /peer --guest /g.wasm --test ordering --role offerer --server http://s \
         --room r --message-count 16 --message-size 512 --bind-addr 10.79.1.2 --ice-server-url \
         turn:10.79.3.2:3478?transport=udp --ice-username conf --ice-credential conf --relay-only"
    );
}

#[test]
fn signaling_servers_listen_in_their_namespace() {
    let topology = LabTopology::default();
    assert_eq!(
        signaling_argv(&topology, "/sig", 9000)[4..].join(" "),
        format!("/sig --host {} --port 9000", topology.signaling_addr)
    );
    assert_eq!(report_stem("wasmtime", "lan"), "wasmtime-lan");
}

// ----- provisioning -----

/// Carry a provisioning out, failing the steps that `fails` picks: the indices that were
/// issued, and the outcome.
fn carry_out(
    steps: &[Step],
    fails: impl Fn(usize, &Step) -> bool,
) -> (Vec<usize>, Result<(), String>) {
    let mut issued = Vec::new();
    let mut outcomes = Vec::new();
    loop {
        match next_step(steps, &outcomes) {
            Provision::Issue(n) => {
                issued.push(n);
                outcomes.push(match fails(n, &steps[n]) {
                    true => Err(format!("step {n}")),
                    false => Ok(()),
                });
            }
            Provision::Done(outcome) => return (issued, outcome),
        }
    }
}

#[test]
fn a_provisioning_ends_at_the_first_failure_that_counts() {
    let steps = LabTopology::default().netns_up(true);
    let all: Vec<usize> = (0..steps.len()).collect();
    assert_eq!(carry_out(&steps, |_, _| false), (all.clone(), Ok(())));
    // That there was no stale lab to remove does not matter.
    let missing = |_: usize, s: &Step| matches!(s, Step::RunIgnored { .. });
    assert_eq!(carry_out(&steps, missing), (all, Ok(())));
    // Every other command does.
    for (n, step) in steps.iter().enumerate() {
        if matches!(step, Step::Run { .. }) {
            let (issued, outcome) = carry_out(&steps, |k, _| k >= n);
            assert_eq!(issued, (0..=n).collect::<Vec<_>>());
            assert_eq!(outcome, Err(format!("step {n}")));
        }
    }
    assert!(matches!(next_step(&[], &[]), Provision::Done(Ok(()))));
}

#[test]
fn a_scenario_comes_up_part_by_part() {
    let lab = LabTopology::default();
    let netns = lab.netns_up(true).len();
    let coturn = lab.coturn_up(true, None).len();
    let steps = lab.scenario_up(true, Scenario::TurnRelay, None);
    // The server cannot be started: the policy is never loaded.
    let starts = |_: usize, s: &Step| {
        matches!(s, Step::Run { what, .. } if what.starts_with("starting turnserver"))
    };
    let (issued, outcome) = carry_out(&steps, starts);
    assert_eq!(issued.len(), netns + coturn - 1);
    assert!(outcome.is_err());
    // The policy cannot be loaded.
    let loads = |_: usize, s: &Step| matches!(s, Step::Feed { .. });
    let (issued, outcome) = carry_out(&steps, loads);
    assert_eq!(issued.len(), steps.len() - 1);
    assert_eq!(outcome, Err(format!("step {}", netns + coturn + 1)));
    // `lan` needs neither.
    let steps = lab.scenario_up(true, Scenario::Lan, None);
    assert!(!steps.iter().any(|s| matches!(s, Step::Feed { .. })));
    assert_eq!(steps.len(), netns + 2);
    assert_eq!(carry_out(&steps, loads).1, Ok(()));
    // Tearing down never fails.
    let down = lab.scenario_down(true, Some("12"));
    assert_eq!(carry_out(&down, |_, _| true), ((0..down.len()).collect(), Ok(())));
}

#[test]
fn failed_steps_say_what_failed() {
    let run = Step::Run { argv: vec![], what: "router lo up".to_string() };
    let start = StepFailure::Start("no such file".to_string());
    let status = StepFailure::Status("exit status: 1".to_string());
    assert_eq!(step_error(&run, &start), "spawning router lo up: no such file");
    assert_eq!(step_error(&run, &status), "router lo up exited with exit status: 1");
    let feed = Step::Feed { argv: vec![], input: String::new() };
    assert_eq!(step_error(&feed, &start), "spawning nft in the router namespace: no such file");
    assert_eq!(step_error(&feed, &status), "nft -f - exited with exit status: 1");
    assert_eq!(
        step_error(&feed, &StepFailure::Input("gone".to_string())),
        "writing nftables ruleset: gone"
    );
    assert_eq!(step_error(&feed, &StepFailure::Wait("gone".to_string())), "waiting for nft: gone");
    let file = Step::WriteFile { path: "/x".to_string(), content: String::new() };
    assert_eq!(step_error(&file, &start), "writing /x: no such file");
    let dir = Step::CreateDir("/d".to_string());
    assert_eq!(step_error(&dir, &start), "creating /d: no such file");
    assert_eq!(lab_log("lab ready"), "cw: lab ready");
}

// ----- where a peer is -----

fn seen(path: &str, canonical: Option<&str>) -> Seen {
    Seen {
        path: path.to_string(),
        canonical: canonical.map(str::to_string),
        is_file: canonical.is_some(),
    }
}

fn at(path: Option<Vec<&str>>, seen: Vec<Seen>) -> Surroundings {
    Surroundings {
        cwd: Some("/work".to_string()),
        path: path.map(|dirs| dirs.into_iter().map(str::to_string).collect()),
        seen,
    }
}

fn resolve(kind: PeerKind, bin: &str, at: &Surroundings) -> Result<(String, String), String> {
    match PeerCommand::resolve(kind, "target/peer", "/g.wasm", bin, "c.wasm", at) {
        Ok(PeerCommand::Wasmtime { peer_bin, guest }) => Ok((peer_bin, guest)),
        Ok(PeerCommand::Wasip3Guest { wasmtime_bin, component }) => Ok((wasmtime_bin, component)),
        Err(e) => Err(e.message()),
    }
}

fn pair(a: &str, b: &str) -> Result<(String, String), String> {
    Ok((a.to_string(), b.to_string()))
}

#[test]
fn peer_commands_hold_absolute_paths() {
    let there = vec![seen("target/peer", Some("/real/peer")), seen("c.wasm", None)];
    let place = at(Some(vec!["/usr/bin", "tools"]), there);
    // What is there is named by its canonical form, what is not from the current directory.
    assert_eq!(resolve(PeerKind::Wasmtime, "nowhere", &place), pair("/real/peer", "/g.wasm"));
    // A bare name is searched for; a hit in a relative directory is absolute too.
    let place = at(
        Some(vec!["/usr/bin", "tools", "/bin"]),
        vec![
            seen("/usr/bin/wasmtime", None),
            seen("tools/wasmtime", Some("/work/tools/wasmtime")),
            seen("/bin/wasmtime", Some("/bin/wasmtime")),
        ],
    );
    assert_eq!(
        resolve(PeerKind::Wasip3Guest, "wasmtime", &place),
        pair("/work/tools/wasmtime", "/work/c.wasm")
    );
    let place = at(
        Some(vec!["/usr/bin", "/bin"]),
        vec![seen("/bin/wasmtime", Some("/opt/wasmtime"))],
    );
    assert_eq!(
        resolve(PeerKind::Wasip3Guest, "wasmtime", &place),
        pair("/bin/wasmtime", "/work/c.wasm")
    );
    // A path is not searched for.
    assert_eq!(
        resolve(PeerKind::Wasip3Guest, "./wasmtime", &place),
        pair("/work/./wasmtime", "/work/c.wasm")
    );
}

#[test]
fn peer_commands_that_cannot_be_resolved() {
    let kind = PeerKind::Wasip3Guest;
    let place = at(Some(vec!["/usr/bin"]), vec![]);
    assert_eq!(
        resolve(kind, "wasmtime", &place),
        Err("wasmtime not found on PATH".to_string())
    );
    assert!(resolve(PeerKind::Wasmtime, "wasmtime", &place).is_ok());
    let place = at(None, vec![]);
    assert_eq!(resolve(kind, "wasmtime", &place), Err("reading PATH".to_string()));
    let nowhere = Surroundings { cwd: None, ..at(None, vec![]) };
    assert!(matches!(nowhere.absolute("x"), Err(ResolveError::NoCurrentDir)));
    assert_eq!(
        resolve(kind, "./wasmtime", &nowhere),
        Err("getting current directory".to_string())
    );
}

#[test]
fn binaries_are_looked_for_in_order() {
    let dirs = ["/usr/bin/".to_string(), "".to_string(), "tools".to_string()];
    assert_eq!(
        bin_candidates("wasmtime", &dirs),
        ["/usr/bin/wasmtime", "wasmtime", "tools/wasmtime"]
    );
    assert_eq!(bin_candidates("./wasmtime", &dirs), ["./wasmtime"]);
}
