//! Placing peers in the ICE lab: the network configuration of each peer in a
//! scenario, the room and signaling server of each attempt, and the commands that
//! start the peers and the signaling server inside their namespaces.

use vstd::prelude::*;

use crate::lab::{host_port, to_host_port, LabTopology, Scenario};
use crate::peer_command::{
    ice_args, push_ice_args, push_test_args, test_args, PeerCommand, PeerCommandError, PeerIce,
    PeerIceView, PeerKind, PeerRole, PeerRun, RunView,
};
use crate::suite::Role;
use crate::text::{
    concat2, concat3, concat4, debug_quoted, decimal, lemma_texts_push, quoted, texts, to_decimal,
};

verus! {

broadcast use lemma_texts_push;

/// One STUN/TURN server a peer gathers candidates from.
#[derive(Debug, Clone)]
pub struct WebrtcIceServer {
    pub urls: Vec<String>,
    pub username: String,
    pub credential: String,
}

/// The network configuration of a peer: the addresses it binds, the servers it
/// gathers candidates from, and whether it may use relay candidates only.
#[derive(Debug, Clone)]
pub struct WebrtcIceConfig {
    pub udp_addrs: Vec<String>,
    pub ice_servers: Vec<WebrtcIceServer>,
    pub relay_only: bool,
}

/// The contents of a [`WebrtcIceServer`].
#[verifier::ext_equal]
pub struct IceServerView {
    pub urls: Seq<Seq<char>>,
    pub username: Seq<char>,
    pub credential: Seq<char>,
}

impl View for WebrtcIceServer {
    type V = IceServerView;

    open spec fn view(&self) -> IceServerView {
        IceServerView {
            urls: texts(self.urls@),
            username: self.username@,
            credential: self.credential@,
        }
    }
}

/// The contents of a [`WebrtcIceConfig`].
#[verifier::ext_equal]
pub struct IceConfigView {
    pub udp_addrs: Seq<Seq<char>>,
    pub ice_servers: Seq<IceServerView>,
    pub relay_only: bool,
}

impl View for WebrtcIceConfig {
    type V = IceConfigView;

    open spec fn view(&self) -> IceConfigView {
        IceConfigView {
            udp_addrs: texts(self.udp_addrs@),
            ice_servers: self.ice_servers@.map_values(|s: WebrtcIceServer| s@),
            relay_only: self.relay_only,
        }
    }
}

/// The network configuration of a peer that binds `addr` and has these ICE
/// parameters.
pub open spec fn config_of(addr: Seq<char>, ice: PeerIceView) -> IceConfigView {
    IceConfigView {
        udp_addrs: seq![addr + ":0"@],
        ice_servers: match ice.server_url {
            Some(url) => seq![
                IceServerView {
                    urls: seq![url],
                    username: ice.username,
                    credential: ice.credential,
                },
            ],
            None => seq![],
        },
        relay_only: ice.relay_only,
    }
}

/// Assemble a peer's network configuration from its bind address and its ICE
/// parameters.
pub fn build_ice_config(bind_addr: &str, ice: &PeerIce) -> (r: WebrtcIceConfig)
    ensures
        r@ == config_of(bind_addr@, ice@),
{
    let mut udp_addrs: Vec<String> = Vec::new();
    udp_addrs.push(concat2(bind_addr, ":0"));
    let mut ice_servers: Vec<WebrtcIceServer> = Vec::new();
    if let Some(url) = &ice.server_url {
        let mut urls: Vec<String> = Vec::new();
        urls.push(url.clone());
        let server = WebrtcIceServer {
            urls,
            username: ice.username.clone(),
            credential: ice.credential.clone(),
        };
        assert(texts(server.urls@) =~= seq![url@]);
        ice_servers.push(server);
    }
    let r = WebrtcIceConfig { udp_addrs, ice_servers, relay_only: ice.relay_only };
    assert(r@.udp_addrs =~= config_of(bind_addr@, ice@).udp_addrs);
    assert(r@.ice_servers =~= config_of(bind_addr@, ice@).ice_servers);
    r
}

/// The addresses and TURN credentials of a provisioned ICE lab.
#[derive(Debug, Clone)]
pub struct LabConfig {
    /// UDP address the offerer peer binds and gathers host candidates from.
    pub offerer_addr: String,
    /// UDP address the answerer peer binds and gathers host candidates from.
    pub answerer_addr: String,
    /// STUN/TURN server `host:port`, e.g. `10.79.3.2:3478`.
    pub server_addr: String,
    /// TURN long-term-credential username.
    pub turn_user: String,
    /// TURN long-term-credential secret.
    pub turn_pass: String,
}

impl Default for LabConfig {
    fn default() -> (r: Self)
        ensures
            r.offerer_addr@ == "10.79.1.2"@,
            r.answerer_addr@ == "10.79.2.2"@,
            r.server_addr@ == "10.79.3.2:3478"@,
            r.turn_user@ == "conf"@,
            r.turn_pass@ == "conf"@,
    {
        LabConfig {
            offerer_addr: "10.79.1.2".to_string(),
            answerer_addr: "10.79.2.2".to_string(),
            server_addr: "10.79.3.2:3478".to_string(),
            turn_user: "conf".to_string(),
            turn_pass: "conf".to_string(),
        }
    }
}

impl LabConfig {
    /// The address a peer role binds. `both` never appears in the two-peer lab and
    /// counts as the offerer.
    pub open spec fn addr_of(self, role: Role) -> Seq<char> {
        match role {
            Role::Answerer => self.answerer_addr@,
            Role::Offerer | Role::Both => self.offerer_addr@,
        }
    }

    /// The lab of these addresses and credentials, with its server at `host` and
    /// `turn_port`.
    pub fn new(
        offerer_addr: &str,
        answerer_addr: &str,
        host: &str,
        turn_port: u16,
        turn_user: &str,
        turn_pass: &str,
    ) -> (r: Self)
        ensures
            r.offerer_addr@ == offerer_addr@,
            r.answerer_addr@ == answerer_addr@,
            r.server_addr@ == host_port(host@, turn_port),
            r.turn_user@ == turn_user@,
            r.turn_pass@ == turn_pass@,
    {
        LabConfig {
            offerer_addr: offerer_addr.to_string(),
            answerer_addr: answerer_addr.to_string(),
            server_addr: to_host_port(host, turn_port),
            turn_user: turn_user.to_string(),
            turn_pass: turn_pass.to_string(),
        }
    }
}

impl Scenario {
    /// The bind address for a peer role in `lab`.
    pub fn bind_addr(self, role: Role, lab: &LabConfig) -> (r: String)
        ensures
            r@ == lab.addr_of(role),
    {
        match role {
            Role::Answerer => lab.answerer_addr.clone(),
            // `both` never appears in the two-peer lab; treat it as the offerer.
            Role::Offerer | Role::Both => lab.offerer_addr.clone(),
        }
    }

    /// The network configuration a peer of this scenario runs with: it always binds
    /// its scenario interface address, and additionally points at the STUN or TURN
    /// server (and forces relay-only) for the server-mediated scenarios.
    pub fn ice_config(self, role: Role, lab: &LabConfig) -> (r: WebrtcIceConfig)
        ensures
            r@ == config_of(
                lab.addr_of(role),
                self.ice_of(lab.server_addr@, lab.turn_user@, lab.turn_pass@),
            ),
    {
        let ice = self.ice_with(
            lab.server_addr.as_str(),
            lab.turn_user.as_str(),
            lab.turn_pass.as_str(),
        );
        build_ice_config(self.bind_addr(role, lab).as_str(), &ice)
    }
}

/// A peer is restricted to relay candidates in the `turn-relay` scenario alone, and
/// has a server to relay through there.
pub proof fn law_relay_only_has_a_relay(
    scenario: Scenario,
    addr: Seq<char>,
    server: Seq<char>,
    user: Seq<char>,
    pass: Seq<char>,
)
    ensures
        ({
            let config = config_of(addr, scenario.ice_of(server, user, pass));
            &&& config.relay_only <==> scenario is TurnRelay
            &&& config.ice_servers.len() == if scenario is Lan {
                0int
            } else {
                1int
            }
        }),
{
}

// ----- attempts ----------------------------------------------------------------------------------

/// The signaling of one attempt: its own room, on its own server.
#[derive(Debug, Clone)]
pub struct AttemptPlan {
    pub room: String,
    pub port: u16,
    pub signaling_url: String,
}

/// The URL of a server.
pub open spec fn http_url(host: Seq<char>, port: u16) -> Seq<char> {
    "http://"@ + host_port(host, port)
}

/// The URL of a server.
pub(crate) fn to_http_url(host: &str, port: u16) -> (r: String)
    ensures
        r@ == http_url(host@, port),
{
    concat2("http://", to_host_port(host, port).as_str())
}

/// The port of the `n`-th attempt: counted up from `base`, wrapping around.
pub open spec fn attempt_port(base: u16, n: u64) -> int {
    (base + n) % 0x10000
}

/// The signaling of the `n`-th attempt of a run. Each attempt gets its own
/// signaling server, on its own port, brokering a single room, so a server never
/// has to survive more than one handshake and concurrent tests never share one.
pub fn plan_attempt(scenario: Scenario, test_id: &str, n: u64, host: &str, base: u16) -> (r:
    AttemptPlan)
    ensures
        r.room@ == "ice-"@ + scenario.id() + "-"@ + test_id@ + "-"@ + decimal(n as nat),
        r.port == attempt_port(base, n),
        r.signaling_url@ == http_url(host@, r.port),
{
    let mut room = concat4("ice-", scenario.as_str(), "-", test_id);
    room.append("-");
    room.append(to_decimal(n).as_str());
    let low = (n % 0x10000) as u16;
    let port = base.wrapping_add(low);
    proof {
        assert((base + n) % 0x10000 == (base + n % 0x10000) % 0x10000) by {
            vstd::arithmetic::div_mod::lemma_add_mod_noop_right(base as int, n as int, 0x10000);
        }
    }
    AttemptPlan { room, port, signaling_url: to_http_url(host, port) }
}

/// Within any run of fewer attempts than there are ports, no two attempts share a
/// signaling port.
pub proof fn law_concurrent_attempts_have_distinct_ports(base: u16, a: u64, b: u64)
    requires
        a < b,
        b - a < 0x10000,
    ensures
        attempt_port(base, a) != attempt_port(base, b),
{
    if attempt_port(base, a) == attempt_port(base, b) {
        let x = base + a;
        let y = base + b;
        assert(x % 0x10000 == y % 0x10000);
        vstd::arithmetic::div_mod::lemma_fundamental_div_mod(x, 0x10000);
        vstd::arithmetic::div_mod::lemma_fundamental_div_mod(y, 0x10000);
        assert(y - x == 0x10000 * (y / 0x10000 - x / 0x10000)) by (nonlinear_arith)
            requires
                x == 0x10000 * (x / 0x10000) + x % 0x10000,
                y == 0x10000 * (y / 0x10000) + y % 0x10000,
                x % 0x10000 == y % 0x10000,
        ;
    }
}

// ----- placement ---------------------------------------------------------------------------------

/// Whether the peers of a kind can run a scenario.
pub fn check_scenario(kind: PeerKind, scenario: Scenario) -> (r: Result<(), String>)
    ensures
        r is Ok <==> kind is Wasmtime || scenario is Lan,
        r matches Err(e) ==> e@ == "scenario "@ + debug_quoted(scenario.id())
            + " is not supported for --peer-kind wasip3-guest: the in-guest sans-I/O stack supports no STUN/TURN servers (only `lan` is supported)"@,
{
    if kind == PeerKind::Wasip3Guest && scenario != Scenario::Lan {
        return Err(
            concat3(
                "scenario ",
                quoted(scenario.as_str()).as_str(),
                " is not supported for --peer-kind wasip3-guest: the in-guest sans-I/O stack supports no STUN/TURN servers (only `lan` is supported)",
            ),
        );
    }
    Ok(())
}

/// A command run in a namespace.
pub open spec fn in_ns(ns: Seq<char>, argv: Seq<Seq<char>>) -> Seq<Seq<char>> {
    seq!["ip"@, "netns"@, "exec"@, ns] + argv
}

/// A command run in a namespace.
fn place_in_ns(ns: &str, argv: Vec<String>) -> (r: Vec<String>)
    ensures
        texts(r@) == in_ns(ns@, texts(argv@)),
{
    let ghost given = argv@;
    let mut argv = argv;
    let mut out: Vec<String> = Vec::new();
    out.push("ip".to_string());
    out.push("netns".to_string());
    out.push("exec".to_string());
    out.push(ns.to_string());
    assert(texts(out@) =~= seq!["ip"@, "netns"@, "exec"@, ns@]);
    let ghost head = out@;
    out.append(&mut argv);
    assert(texts(out@) =~= texts(head) + texts(given));
    out
}

/// Run one peer in a namespace, if its kind supports the ICE parameters.
fn placed_argv(ns: &str, command: &PeerCommand, run: &PeerRun<'_>) -> (r: Result<
    Vec<String>,
    PeerCommandError,
>)
    ensures
        r is Ok == command.accepts(run@.ice),
        match r {
            Ok(argv) => texts(argv@) == in_ns(ns@, command.argv_texts(run@)),
            Err(e) => e == PeerCommandError::NoIceServers,
        },
{
    match command.argv(run) {
        Ok(argv) => Ok(place_in_ns(ns, argv)),
        Err(e) => Err(e),
    }
}

/// The command that runs one peer of a test inside its namespace: the peer binds
/// its role's address with the ICE parameters of the scenario. The routed lab runs
/// on a real kernel, so mDNS gathering stays enabled.
pub fn lab_peer_argv(
    scenario: Scenario,
    topology: &LabTopology,
    command: &PeerCommand,
    signaling_url: &str,
    test_id: &str,
    room: &str,
    role: PeerRole,
    count: u32,
    size: u32,
) -> (r: Result<Vec<String>, PeerCommandError>)
    ensures
        r is Ok <==> command is Wasmtime || scenario is Lan,
        match r {
            Ok(argv) => texts(argv@) == in_ns(
                topology.ns_of(role),
                command.argv_texts(
                    RunView {
                        test_id: test_id@,
                        role: role.name(),
                        signaling_url: signaling_url@,
                        room: room@,
                        count,
                        size,
                        bind_addr: topology.addr_of(role),
                        ice: Some(
                            scenario.ice_of(
                                topology.turn_server(),
                                topology.turn_user@,
                                topology.turn_pass@,
                            ),
                        ),
                        disable_mdns: false,
                    },
                ),
            ),
            Err(e) => e == PeerCommandError::NoIceServers,
        },
{
    let ice = scenario.ice(topology);
    let run = PeerRun {
        test_id,
        role: role.as_str(),
        signaling_url,
        room,
        count,
        size,
        bind_addr: topology.bind_addr(role),
        ice: Some(&ice),
        disable_mdns: false,
    };
    placed_argv(topology.peer_ns(role), command, &run)
}

/// The command that runs one native peer of a test inside namespace `ns`, in a lab
/// known by its addresses and credentials. `both` counts as the offerer.
pub fn native_peer_argv(
    scenario: Scenario,
    lab: &LabConfig,
    ns: &str,
    peer_bin: &str,
    guest: &str,
    signaling_url: &str,
    test_id: &str,
    room: &str,
    role: Role,
    count: u32,
    size: u32,
) -> (r: Vec<String>)
    ensures
        texts(r@) == in_ns(
            ns@,
            seq![peer_bin@, "--guest"@, guest@] + test_args(
                test_id@,
                placed_role(role),
                signaling_url@,
                room@,
                count,
                size,
            ) + seq!["--bind-addr"@, lab.addr_of(role)] + ice_args(
                Some(scenario.ice_of(lab.server_addr@, lab.turn_user@, lab.turn_pass@)),
            ),
        ),
{
    let ice = scenario.ice_with(
        lab.server_addr.as_str(),
        lab.turn_user.as_str(),
        lab.turn_pass.as_str(),
    );
    let bind_addr = scenario.bind_addr(role, lab);
    let mut argv: Vec<String> = Vec::new();
    argv.push(peer_bin.to_string());
    argv.push("--guest".to_string());
    argv.push(guest.to_string());
    assert(texts(argv@) =~= seq![peer_bin@, "--guest"@, guest@]);
    let role_str = match role {
        Role::Offerer | Role::Both => "offerer",
        Role::Answerer => "answerer",
    };
    push_test_args(&mut argv, test_id, role_str, signaling_url, room, count, size);
    let ghost told = texts(argv@);
    argv.push("--bind-addr".to_string());
    argv.push(bind_addr);
    assert(texts(argv@) =~= told + seq!["--bind-addr"@, lab.addr_of(role)]);
    push_ice_args(&mut argv, &ice);
    place_in_ns(ns, argv)
}

/// The role a placed peer plays.
pub open spec fn placed_role(role: Role) -> Seq<char> {
    match role {
        Role::Offerer | Role::Both => "offerer"@,
        Role::Answerer => "answerer"@,
    }
}

/// How a peer is named in errors: its role and its namespace.
pub fn lab_peer_label(topology: &LabTopology, role: PeerRole) -> (r: String)
    ensures
        r@ == role.name() + " peer in "@ + topology.ns_of(role),
{
    concat3(role.as_str(), " peer in ", topology.peer_ns(role))
}

/// The command that starts a signaling server on `port` inside the signaling
/// namespace.
pub fn signaling_argv(topology: &LabTopology, signaling_bin: &str, port: u16) -> (r: Vec<String>)
    ensures
        texts(r@) == in_ns(
            topology.signaling_ns@,
            seq![
                signaling_bin@,
                "--host"@,
                topology.signaling_addr@,
                "--port"@,
                decimal(port as nat),
            ],
        ),
{
    let mut argv: Vec<String> = Vec::new();
    argv.push(signaling_bin.to_string());
    argv.push("--host".to_string());
    argv.push(topology.signaling_addr.clone());
    argv.push("--port".to_string());
    argv.push(to_decimal(port as u64));
    assert(texts(argv@) =~= seq![
        signaling_bin@,
        "--host"@,
        topology.signaling_addr@,
        "--port"@,
        decimal(port as nat),
    ]);
    place_in_ns(topology.signaling_ns.as_str(), argv)
}

/// How a result document is named: after its target and its environment.
pub fn report_stem(target: &str, environment: &str) -> (r: String)
    ensures
        r@ == target@ + "-"@ + environment@,
{
    concat3(target, "-", environment)
}

// ----- laws ------------------------------------------------------------------------------------

/// A peer binds any port of its own address, gathers from the server it was given, with
/// its user and secret, and from no other, and is restricted to relays exactly if it was
/// told to be.
pub proof fn law_peers_gather_where_they_are_told(addr: Seq<char>, ice: PeerIceView)
    ensures
        config_of(addr, ice).udp_addrs == seq![addr + ":0"@],
        config_of(addr, ice).relay_only == ice.relay_only,
        config_of(addr, ice).ice_servers.len() == (if ice.server_url is Some {
            1int
        } else {
            0
        }),
        ice.server_url matches Some(url) ==> {
            let server = config_of(addr, ice).ice_servers[0];
            server.urls == seq![url] && server.username == ice.username && server.credential
                == ice.credential
        },
{
}

/// Each role has an address of its own; a peer in both roles counts as the offerer, in its
/// address and in its name.
pub proof fn law_roles_bind_their_own_address(lab: LabConfig, role: Role)
    ensures
        lab.addr_of(Role::Offerer) == lab.offerer_addr@,
        lab.addr_of(Role::Answerer) == lab.answerer_addr@,
        lab.addr_of(Role::Both) == lab.addr_of(Role::Offerer),
        placed_role(Role::Offerer) == Role::Offerer.name(),
        placed_role(Role::Answerer) == Role::Answerer.name(),
        placed_role(Role::Both) == placed_role(Role::Offerer),
{
}

/// Ports count up from the base and stay ports: the attempt behind another takes the next
/// port, and the last port is followed by the first.
pub proof fn law_ports_count_up(base: u16, n: u64)
    requires
        n < u64::MAX,
    ensures
        0 <= attempt_port(base, n) <= u16::MAX,
        attempt_port(base, 0) == base,
        attempt_port(base, (n + 1) as u64) == (if attempt_port(base, n) == u16::MAX {
            0
        } else {
            attempt_port(base, n) + 1
        }),
{
    let x = base + n;
    vstd::arithmetic::div_mod::lemma_fundamental_div_mod(x, 0x10000);
    vstd::arithmetic::div_mod::lemma_fundamental_div_mod(x + 1, 0x10000);
    assert((x + 1) % 0x10000 == (if x % 0x10000 == 0xffff {
        0
    } else {
        x % 0x10000 + 1
    }));
}

/// A server is reached by HTTP at its host and port.
pub proof fn law_servers_are_reached_by_http(host: Seq<char>, port: u16)
    ensures
        http_url(host, port) == "http://"@ + (host + ":"@ + decimal(port as nat)),
{
}

/// A command is run in a namespace as it is, behind the words that enter the namespace.
pub proof fn law_commands_run_in_their_namespace(ns: Seq<char>, argv: Seq<Seq<char>>)
    ensures
        in_ns(ns, argv).len() == argv.len() + 4,
        in_ns(ns, argv).take(4) == seq!["ip"@, "netns"@, "exec"@, ns],
        in_ns(ns, argv).skip(4) == argv,
{
    assert(in_ns(ns, argv).take(4) =~= seq!["ip"@, "netns"@, "exec"@, ns]);
    assert(in_ns(ns, argv).skip(4) =~= argv);
}

} // verus!
