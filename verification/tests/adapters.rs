use webrtc_datachannels::corpus::{concurrency, params_for, plan_for, select, Plan, TESTS, TWO_PEER_TESTS};
use webrtc_datachannels::interop::{
    directions, fold_pair, jco_argv, peer_role, room_name, runs_pair, settle, settle_pair,
    Wasip3Peer,
};
use webrtc_datachannels::lab::Scenario;
use webrtc_datachannels::orchestrate::{
    instances_for, run_ice_test, run_interop_test, IceStep, InteropStep,
};
use webrtc_datachannels::outcome::{
    captured_outcome, fold_two, parse_outcome, peer_outcome, report_outcome, to_raw, OutcomeError,
    PeerError, TestOutcome,
};
use webrtc_datachannels::peer_command::{PeerCommand, PeerIce, PeerRun};
use webrtc_datachannels::results::RawStatus;
use webrtc_datachannels::retry::{
    attempt_of, default_is_flaky, interop_policy, lab_attempt, lab_policy, run_with_retries,
    Attempt, RetryPolicy,
};
use webrtc_datachannels::shadow::{collect_result, place_tests, render_config};
use webrtc_datachannels::signaling::{
    health_addr, health_step, is_healthy, read_base_url, startup_line, HealthStep,
};
use webrtc_datachannels::suite::{parse_args, parse_role, Role};

fn object(members: &[(&str, &str)]) -> serde_json::Value {
    members
        .iter()
        .map(|(k, v)| (k.to_string(), serde_json::Value::from(*v)))
        .collect()
}

fn strings(list: &[&str]) -> Vec<String> {
    list.iter().map(|s| s.to_string()).collect()
}

// ----- outcomes -----

#[test]
fn outcome_json_round_trips() {
    for outcome in [
        TestOutcome::Pass,
        TestOutcome::Fail("boom".to_string()),
        TestOutcome::Skipped("later".to_string()),
    ] {
        let parsed = parse_outcome(&outcome.to_json()).unwrap();
        match (&outcome, &parsed) {
            (TestOutcome::Pass, TestOutcome::Pass) => {}
            (TestOutcome::Fail(a), TestOutcome::Fail(b)) if a == b => {}
            (TestOutcome::Skipped(a), TestOutcome::Skipped(b)) if a == b => {}
            other => panic!("round trip mismatch: {other:?}"),
        }
    }
    assert!(parse_outcome(&object(&[("tag", "nope")])).is_err());
    assert!(parse_outcome(&object(&[])).is_err());
}

#[test]
fn fold_two_prefers_fail_then_skip() {
    let fail = || TestOutcome::Fail("f".to_string());
    let skip = || TestOutcome::Skipped("s".to_string());
    assert!(matches!(
        fold_two(fail(), TestOutcome::Pass),
        TestOutcome::Fail(d) if d == "offerer: f"
    ));
    assert!(matches!(
        fold_two(skip(), fail()),
        TestOutcome::Fail(d) if d == "answerer: f"
    ));
    assert!(matches!(
        fold_two(skip(), TestOutcome::Pass),
        TestOutcome::Skipped(_)
    ));
    assert!(matches!(
        fold_two(TestOutcome::Pass, TestOutcome::Pass),
        TestOutcome::Pass
    ));
}

#[test]
fn outcome_lines_are_exact() {
    assert_eq!(TestOutcome::Pass.to_line(), "{\"tag\":\"pass\"}");
    let line = TestOutcome::Fail("a\n\"b\"".to_string()).to_line();
    assert!(line == "{\"tag\":\"fail\",\"val\":\"a\\n\\\"b\\\"\"}");
    assert!(!line.contains('\n'));
}

#[test]
fn malformed_outcomes_are_told_apart() {
    assert!(matches!(
        parse_outcome(&object(&[("val", "x")])),
        Err(OutcomeError::MissingTag)
    ));
    match parse_outcome(&object(&[("tag", "nope")])) {
        Err(OutcomeError::UnknownTag(tag)) => assert_eq!(tag, "nope"),
        other => panic!("{other:?}"),
    }
    assert!(matches!(
        parse_outcome(&object(&[("tag", "fail")])),
        Ok(TestOutcome::Fail(d)) if d.is_empty()
    ));
}

#[test]
fn the_last_line_of_a_peer_counts() {
    let out = b"noise\n{\"tag\":\"fail\",\"val\":\"x\"}\n{\"tag\":\"pass\"}\n";
    assert!(matches!(peer_outcome(out), Ok(TestOutcome::Pass)));
    assert!(matches!(peer_outcome(b""), Err(PeerError::NoResultLine)));
    assert!(matches!(peer_outcome(b"\xff"), Err(PeerError::NotUtf8(_))));
    assert!(matches!(peer_outcome(b"nope"), Err(PeerError::NotJson { .. })));
    assert!(matches!(peer_outcome(b"{\"tag\":\"x\"}"), Err(PeerError::NoOutcome(_))));
}

#[test]
fn captured_output_skips_blank_lines_at_the_end() {
    let text = "{\"tag\":\"skipped\",\"val\":\"later\"}\n\n  \n";
    assert!(matches!(captured_outcome(text), Ok(TestOutcome::Skipped(r)) if r == "later"));
    assert!(captured_outcome("\n").is_err());
}

#[test]
fn raw_results_carry_their_detail() {
    let raw = to_raw("t", TestOutcome::Skipped("r".to_string()));
    assert_eq!(raw.test_id, "t");
    assert_eq!(raw.status, RawStatus::Skip);
    assert_eq!(raw.detail.as_deref(), Some("r"));
    assert_eq!(to_raw("t", TestOutcome::Pass).detail, None);
}

// ----- the corpus -----

#[test]
fn two_peer_tests_are_registered_two_peer_plans() {
    for test_id in TWO_PEER_TESTS {
        assert!(TESTS.contains(&test_id), "{test_id} missing from TESTS");
        assert!(
            matches!(plan_for(test_id), Plan::TwoPeer),
            "{test_id} is not a two-peer plan"
        );
    }
}

#[test]
fn message_parameters_are_exact() {
    assert_eq!(params_for("large-message"), (1, 16384));
    assert_eq!(params_for("ordering"), (16, 512));
    assert_eq!(params_for("text-message"), (4, 256));
}

#[test]
fn selections_keep_the_corpus_order() {
    let only = strings(&["ordering", "binary-message"]);
    assert_eq!(select(&TESTS, &only), vec!["binary-message", "ordering"]);
    assert_eq!(select(&TESTS, &[]).len(), TESTS.len());
    assert_eq!(concurrency(0), 1);
    assert_eq!(concurrency(7), 7);
}

// ----- peer commands -----

fn run<'a>(ice: Option<&'a PeerIce>) -> PeerRun<'a> {
    PeerRun {
        test_id: "ordering",
        role: "offerer",
        signaling_url: "http://10.79.3.2:8080",
        room: "r",
        count: 16,
        size: 512,
        bind_addr: "10.79.1.2",
        ice,
        disable_mdns: false,
    }
}

#[test]
fn wasmtime_argv_includes_ice_flags() {
    let command = PeerCommand::Wasmtime {
        peer_bin: "/bin/conformance-peer".to_string(),
        guest: "/g.wasm".to_string(),
    };
    let ice = PeerIce {
        server_url: Some("turn:10.79.3.2:3478?transport=udp".to_string()),
        username: "conf".to_string(),
        credential: "conf".to_string(),
        relay_only: true,
    };
    let argv = command.argv(&run(Some(&ice))).unwrap();
    assert_eq!(argv[0], "/bin/conformance-peer");
    assert!(argv.contains(&"--ice-server-url".to_string()));
    assert!(argv.contains(&"--relay-only".to_string()));
    assert!(!argv.contains(&"--disable-mdns".to_string()));
}

#[test]
fn wasip3_guest_rejects_ice_servers() {
    let command = PeerCommand::Wasip3Guest {
        wasmtime_bin: "/bin/wasmtime".to_string(),
        component: "/c.wasm".to_string(),
    };
    let ice = PeerIce {
        server_url: Some("stun:10.79.3.2:3478".to_string()),
        ..Default::default()
    };
    assert!(command.argv(&run(Some(&ice))).is_err());
    let argv = command.argv(&run(Some(&PeerIce::default()))).unwrap();
    assert!(argv.contains(&"--env".to_string()));
    assert!(argv.contains(&"WEBRTC_UDP_BIND_ADDR=10.79.1.2".to_string()));
}

// ----- the driver's command line -----

#[test]
fn roles_parse_by_name() {
    assert_eq!(parse_role("both"), Ok(Role::Both));
    assert!(parse_role("spectator").unwrap_err().contains("spectator"));
}

#[test]
fn driver_arguments_have_defaults() {
    let args = strings(&["--test", "t", "--role", "answerer", "--server", "s", "--room", "r"]);
    let (test, config) = parse_args(&args).unwrap();
    assert_eq!(test, "t");
    assert_eq!(config.role, Role::Answerer);
    assert_eq!((config.message_count, config.message_size), (4, 256));
    assert!(config.trickle);
}

#[test]
fn driver_arguments_are_checked() {
    let err = |args: &[&str]| parse_args(&strings(args)).unwrap_err();
    assert!(err(&["--test"]).starts_with("missing value for --test\nusage: conformance-wasip3 "));
    assert!(err(&["--role", "x"]).starts_with("unknown role \"x\"\n"));
    assert!(err(&["--message-count", "x"])
        .starts_with("bad --message-count: invalid digit found in string\n"));
    assert!(err(&["--message-size", "5000000000"])
        .starts_with("bad --message-size: number too large to fit in target type\n"));
    assert!(err(&["--nope"]).starts_with("unknown flag \"--nope\"\n"));
    assert!(err(&[]).starts_with("missing --test\n"));
    assert!(err(&["--test", "t"]).starts_with("missing --role\n"));
}

// ----- retries -----

#[test]
fn flaky_failures_are_retried() {
    let policy = lab_policy();
    assert_eq!((policy.max_attempts, policy.attempt_timeout_secs), (3, 60));
    let flake = || Attempt::Ran(TestOutcome::Fail("wait-connected: timed-out".to_string()));
    assert!(default_is_flaky("offerer: wait-connected"));
    assert!(!default_is_flaky("boom"));
    assert!(run_with_retries("t", &policy, &[]).is_none());
    assert!(run_with_retries("t", &policy, &[flake()]).is_none());
    let passed = run_with_retries("t", &policy, &[flake(), Attempt::Ran(TestOutcome::Pass)]);
    assert_eq!(passed.unwrap().status, RawStatus::Pass);
    let failed = run_with_retries("t", &policy, &[flake(), Attempt::TimedOut, flake()]).unwrap();
    assert_eq!(failed.status, RawStatus::Fail);
    assert_eq!(failed.detail.as_deref(), Some("wait-connected: timed-out"));
}

#[test]
fn other_failures_are_not_retried() {
    let policy = interop_policy();
    assert_eq!((policy.max_attempts, policy.attempt_timeout_secs), (3, 45));
    let failed =
        run_with_retries("t", &policy, &[Attempt::Ran(TestOutcome::Fail("boom".to_string()))]);
    assert_eq!(failed.unwrap().detail.as_deref(), Some("boom"));
    assert!((policy.is_flaky)("x: no incoming data channel"));
    assert!((policy.is_flaky)("x: wait-connected"));
    assert!(!(lab_policy().is_flaky)("x: no incoming data channel"));
    let broken = run_with_retries("t", &policy, &[attempt_of(Some(Err("gone".to_string())))]);
    assert_eq!(broken.unwrap().detail.as_deref(), Some("adapter error: gone"));
}

#[test]
fn a_policy_judges_as_it_likes() {
    let flake = |detail: &str| Attempt::Ran(TestOutcome::Fail(detail.to_string()));
    // A policy that retries no failure at all, not even the stalls that others retry.
    let never = RetryPolicy {
        max_attempts: 3,
        attempt_timeout_secs: 1,
        is_flaky: |_: &str| false,
    };
    let stalled = [flake("wait-connected: timed-out")];
    let failed = run_with_retries("t", &never, &stalled).unwrap();
    assert_eq!(failed.status, RawStatus::Fail);
    assert_eq!(failed.detail.as_deref(), Some("wait-connected: timed-out"));
    // An attempt that outlived its timeout is retried all the same.
    assert!(run_with_retries("t", &never, &[Attempt::TimedOut]).is_none());
    // A policy that knows one flake of its own.
    let own = RetryPolicy {
        max_attempts: 2,
        attempt_timeout_secs: 1,
        is_flaky: |detail: &str| detail.len() == 4,
    };
    assert!(run_with_retries("t", &own, &[flake("boom")]).is_none());
    assert!(run_with_retries("t", &own, &stalled).is_some());
    let over = run_with_retries("t", &own, &[flake("boom"), flake("bang")]).unwrap();
    assert_eq!(over.detail.as_deref(), Some("bang"));
}

#[test]
fn lab_attempts_report_the_first_problem() {
    let broken = |a: Attempt| match a {
        Attempt::Broken(reason) => reason,
        other => panic!("{other:?}"),
    };
    assert_eq!(
        broken(lab_attempt(Some("no port".to_string()), None)),
        "signaling server error: no port"
    );
    assert!(matches!(lab_attempt(None, None), Attempt::TimedOut));
    assert_eq!(
        broken(lab_attempt(None, Some((Err("a".to_string()), Err("b".to_string()))))),
        "offerer peer error: a"
    );
    assert_eq!(
        broken(lab_attempt(None, Some((Ok(TestOutcome::Pass), Err("b".to_string()))))),
        "answerer peer error: b"
    );
}

#[test]
fn ice_tests_run_until_a_result() {
    match run_ice_test(Scenario::Lan, "ordering", 7, "10.79.3.2", 8000, 3, &[Attempt::TimedOut]) {
        IceStep::Attempt { plan, count, size } => {
            assert_eq!(plan.room, "ice-lan-ordering-7");
            assert_eq!(plan.port, 8007);
            assert_eq!((count, size), (16, 512));
        }
        other => panic!("{other:?}"),
    }
    let passed = [Attempt::Ran(TestOutcome::Pass)];
    assert!(matches!(
        run_ice_test(Scenario::Lan, "ordering", 8, "10.79.3.2", 8000, 3, &passed),
        IceStep::Done(result) if result.status == RawStatus::Pass
    ));
    // With a single attempt a stall is a failure.
    assert!(matches!(
        run_ice_test(Scenario::Lan, "ordering", 8, "h", 8000, 1, &[Attempt::TimedOut]),
        IceStep::Done(result) if result.status == RawStatus::Fail
    ));
}

// ----- orchestration -----

#[test]
fn instances_share_a_room() {
    let two = instances_for("ordering", "http://s", 5);
    assert_eq!(two.first.role, Role::Offerer);
    assert_eq!(two.first.room, "conf-ordering-5");
    let second = two.second.unwrap();
    assert_eq!(second.role, Role::Answerer);
    assert_eq!(second.room, "conf-ordering-5");
    assert_eq!(second.message_count, 16);
    let one = instances_for("peer-offer-answer", "http://s", 0);
    assert_eq!(one.first.role, Role::Both);
    assert!(one.second.is_none());
}

#[test]
fn outcomes_of_instances_are_folded() {
    assert!(matches!(settle(Ok(TestOutcome::Pass), None), Ok(TestOutcome::Pass)));
    assert_eq!(
        settle(Err("a".to_string()), Some(Err("b".to_string()))).unwrap_err(),
        "a"
    );
    assert_eq!(
        settle_pair(Role::Offerer, Ok(TestOutcome::Pass), Err("b".to_string())).unwrap_err(),
        "interop peer: b"
    );
    assert!(matches!(
        fold_pair(Role::Answerer, TestOutcome::Fail("w".to_string()), TestOutcome::Pass),
        TestOutcome::Fail(d) if d == "answerer: w"
    ));
}

#[test]
fn interop_pairs_run_in_both_orders() {
    let all = directions();
    assert_eq!(all.len(), 4);
    for d in &all {
        assert!(all.iter().any(|o| o.peer == d.peer && o.wasmtime_role != d.wasmtime_role));
    }
    assert_eq!(peer_role(Role::Offerer), "answerer");
    assert_eq!(peer_role(Role::Answerer), "offerer");
    assert!(runs_pair(&[], &all[0]));
    assert!(!runs_pair(&strings(&["jco-node-x-wasmtime"]), &all[0]));
    match run_interop_test(&all[1], "ordering", 2, "http://s", &[]) {
        InteropStep::Attempt { config, peer_role } => {
            assert_eq!(config.room, "interop-jco-node-x-wasmtime-ordering-2");
            assert_eq!(config.role, Role::Answerer);
            assert_eq!(peer_role, "offerer");
        }
        other => panic!("{other:?}"),
    }
    assert_ne!(room_name("p", "t", 1), room_name("p", "t", 11));
}

#[test]
fn interop_peer_commands_are_exact() {
    assert_eq!(
        jco_argv("node", "run.mjs", "http://s", "t", "r", "offerer", 1, 2).join(" "),
        "node --experimental-wasm-jspi run.mjs --interop --server http://s --test t --room r \
         --role offerer --message-count 1 --message-size 2"
    );
    let peer = Wasip3Peer {
        wasmtime_bin: "wt".to_string(),
        component: "c.wasm".to_string(),
    };
    assert_eq!(peer.label(), "wasip3-guest peer (wt)");
}

// ----- the simulated network -----

#[test]
fn simulated_hosts_are_numbered_by_test() {
    let only = strings(&["ordering"]);
    let placed = place_tests(&only).unwrap();
    assert_eq!(placed.len(), 1);
    assert_eq!(placed[0].test_id, "ordering");
    assert!(place_tests(&strings(&["nope"])).is_err());
    let all = place_tests(&[]).unwrap();
    assert_eq!(all.len(), TWO_PEER_TESTS.len());
    let mut ips: Vec<&str> = Vec::new();
    for p in &all {
        ips.push(&p.signaling_ip);
        ips.push(&p.offerer_ip);
        ips.push(&p.answerer_ip);
    }
    let n = ips.len();
    ips.sort();
    ips.dedup();
    assert_eq!(ips.len(), n);
}

#[test]
fn simulated_results_are_collected() {
    let raw = collect_result("t", Ok(TestOutcome::Pass), Ok(TestOutcome::Pass));
    assert_eq!(raw.status, RawStatus::Pass);
    let raw = collect_result("t", Err("x".to_string()), Ok(TestOutcome::Pass));
    assert_eq!(raw.status, RawStatus::Fail);
    assert!(raw.detail.unwrap().contains("x"));
}

#[test]
fn simulation_config_names_every_host() {
    let command = PeerCommand::Wasmtime {
        peer_bin: "/peer".to_string(),
        guest: "/g.wasm".to_string(),
    };
    let placed = place_tests(&strings(&["ordering"])).unwrap();
    let config = render_config("60s", &command, "/sig", 8080, &placed);
    assert!(config.contains("60s"));
    assert!(config.contains("/peer"));
    assert!(config.contains("/sig"));
    assert!(config.contains(placed[0].offerer_ip.as_str()));
}

// ----- the signaling server process -----

#[test]
fn announced_urls_are_read() {
    let line = startup_line("http://127.0.0.1:4000");
    assert_eq!(line, "conformance-signalingd listening on http://127.0.0.1:4000");
    assert_eq!(read_base_url(&line).unwrap(), "http://127.0.0.1:4000");
    assert!(read_base_url("hello").is_err());
    assert_eq!(health_addr("http://127.0.0.1:4000"), "127.0.0.1:4000");
}

#[test]
fn health_is_awaited_until_the_deadline() {
    assert!(is_healthy("HTTP/1.1 200 OK\r\n\r\nok"));
    assert!(!is_healthy("HTTP/1.1 503 Nope\r\n\r\n"));
    assert_eq!(health_step(true, 5, 1), HealthStep::Ready);
    assert_ne!(health_step(false, 5, 1), health_step(false, 0, 1));
}

#[test]
fn host_errors_are_reported_as_failures() {
    assert!(matches!(report_outcome(Ok(TestOutcome::Pass)), TestOutcome::Pass));
    assert!(matches!(
        report_outcome(Err("no guest".to_string())),
        TestOutcome::Fail(d) if d == "peer error: no guest"
    ));
}

#[test]
fn peers_understand_their_command_line() {
    let peer = Wasip3Peer {
        wasmtime_bin: "wt".to_string(),
        component: "c.wasm".to_string(),
    };
    let argv = peer.argv("http://s", "ordering", "room", "answerer", 16, 512);
    let at = argv.iter().position(|a| a == "c.wasm").unwrap();
    let (test, config) = parse_args(&argv[at + 1..]).unwrap();
    assert_eq!(test, "ordering");
    assert_eq!(config.role, Role::Answerer);
    assert_eq!(config.signaling_server, "http://s");
    assert_eq!(config.room, "room");
    assert_eq!((config.message_count, config.message_size), (16, 512));
}
