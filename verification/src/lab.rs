//! The conformance netns-lab topology and its provisioning.
//!
//! The lab is a small routed network of Linux network namespaces provisioned
//! entirely with `ip`, `nft`, and coturn's `turnserver` (no containers). It gives
//! the conformance suite a realistic, reproducible topology in which two peers
//! sit on separate subnets behind a router, so an ICE handshake exercises a real
//! (non-loopback) network path, and so the router can selectively block the
//! direct path to force server-reflexive (STUN) or relay (TURN) candidates.
//!
//! Topology (all addresses in 10.79.0.0/16, one /30 per link):
//!
//! ```text
//!        cw-off (offerer)            cw-ans (answerer)
//!        10.79.1.2/30                10.79.2.2/30
//!             | veth                      | veth
//!        10.79.1.1                   10.79.2.1
//!        +----------------- cw-rtr (router, ip_forward=1) ----------------+
//!                                    10.79.3.1
//!                                        | veth
//!                                    10.79.3.2/30
//!                                 cw-sig (signaling + coturn)
//! ```
//!
//! The signaling server and the TURN/STUN server (coturn) both run in `cw-sig`,
//! reachable from either peer through the router.
//!
//! [`LabTopology`] centralizes every name, address, port, and credential so the
//! provisioning and the peer placement share a single source of truth. The
//! provisioning methods give the [`Step`]s to take, in order: commands to run
//! (via `sudo` when not already root) and files to write. They are idempotent:
//! `up` tears down any stale lab first, and `down` ignores errors.

use vstd::prelude::*;

use crate::peer_command::{host_candidates, PeerIce, PeerIceView, PeerRole};
use crate::text::{
    concat2, concat3, concat4, debug_quoted, decimal, has_substring,
    lemma_has_substring, lemma_texts_push, quoted, same, texts,
    to_decimal, trim, trimmed, views,
};

verus! {

broadcast use lemma_texts_push;

// ----- topology ----------------------------------------------------------------------------

/// The names, addresses, ports, and credentials of the netns lab (see the module
/// docs for the topology diagram). The default holds the canonical lab values.
#[derive(Debug, Clone)]
pub struct LabTopology {
    /// Offerer, answerer, signaling and router namespace names.
    pub offerer_ns: String,
    pub answerer_ns: String,
    pub signaling_ns: String,
    pub router_ns: String,
    /// Per-link endpoint addresses (the `.2` side of each /30) and their
    /// router-side gateways (the `.1` side).
    pub offerer_addr: String,
    pub offerer_gw: String,
    pub answerer_addr: String,
    pub answerer_gw: String,
    pub signaling_addr: String,
    pub signaling_gw: String,
    /// The /30 subnets of the three links (used by the nftables direct-path
    /// blocking and NAT rules).
    pub offerer_subnet: String,
    pub answerer_subnet: String,
    pub signaling_subnet: String,
    /// Per-peer "public" SNAT addresses used by the NAT scenarios. The router
    /// source-NATs each peer's forwarded traffic to its own public address, so a
    /// peer's server-reflexive candidate (the mapping the STUN server observes)
    /// differs from its private host candidate, which is what makes a srflx path
    /// meaningful. These addresses are not assigned to any interface; the router
    /// owns them implicitly through connection tracking.
    pub offerer_public: String,
    pub answerer_public: String,
    /// Signaling HTTP port in the signaling namespace.
    pub signaling_port: u16,
    /// TURN/STUN listening port and relay port range in the signaling namespace.
    pub turn_port: u16,
    pub turn_min_port: u16,
    pub turn_max_port: u16,
    /// TURN long-term credentials and realm (shared by coturn and the peers).
    pub turn_user: String,
    pub turn_pass: String,
    pub turn_realm: String,
    /// Where coturn's generated config, pidfile, and log live.
    pub run_dir: String,
}

impl LabTopology {
    /// The canonical lab.
    pub open spec fn is_canonical(self) -> bool {
        &&& self.offerer_ns@ == "cw-off"@
        &&& self.answerer_ns@ == "cw-ans"@
        &&& self.signaling_ns@ == "cw-sig"@
        &&& self.router_ns@ == "cw-rtr"@
        &&& self.offerer_addr@ == "10.79.1.2"@
        &&& self.offerer_gw@ == "10.79.1.1"@
        &&& self.answerer_addr@ == "10.79.2.2"@
        &&& self.answerer_gw@ == "10.79.2.1"@
        &&& self.signaling_addr@ == "10.79.3.2"@
        &&& self.signaling_gw@ == "10.79.3.1"@
        &&& self.offerer_subnet@ == "10.79.1.0/30"@
        &&& self.answerer_subnet@ == "10.79.2.0/30"@
        &&& self.signaling_subnet@ == "10.79.3.0/30"@
        &&& self.offerer_public@ == "10.79.11.1"@
        &&& self.answerer_public@ == "10.79.12.1"@
        &&& self.signaling_port == 8080
        &&& self.turn_port == 3478
        &&& self.turn_min_port == 49160
        &&& self.turn_max_port == 49200
        &&& self.turn_user@ == "conf"@
        &&& self.turn_pass@ == "conf"@
        &&& self.turn_realm@ == "conformance"@
        &&& self.run_dir@ == "/tmp/conformance-netns"@
    }
}

impl Default for LabTopology {
    fn default() -> (r: Self)
        ensures
            r.is_canonical(),
    {
        LabTopology {
            offerer_ns: "cw-off".to_string(),
            answerer_ns: "cw-ans".to_string(),
            signaling_ns: "cw-sig".to_string(),
            router_ns: "cw-rtr".to_string(),
            offerer_addr: "10.79.1.2".to_string(),
            offerer_gw: "10.79.1.1".to_string(),
            answerer_addr: "10.79.2.2".to_string(),
            answerer_gw: "10.79.2.1".to_string(),
            signaling_addr: "10.79.3.2".to_string(),
            signaling_gw: "10.79.3.1".to_string(),
            offerer_subnet: "10.79.1.0/30".to_string(),
            answerer_subnet: "10.79.2.0/30".to_string(),
            signaling_subnet: "10.79.3.0/30".to_string(),
            offerer_public: "10.79.11.1".to_string(),
            answerer_public: "10.79.12.1".to_string(),
            signaling_port: 8080,
            turn_port: 3478,
            turn_min_port: 49160,
            turn_max_port: 49200,
            turn_user: "conf".to_string(),
            turn_pass: "conf".to_string(),
            turn_realm: "conformance".to_string(),
            run_dir: "/tmp/conformance-netns".to_string(),
        }
    }
}

/// A relative file name placed in a directory.
pub open spec fn joined_path(dir: Seq<char>, name: Seq<char>) -> Seq<char> {
    if dir.len() == 0 {
        name
    } else if dir.last() == '/' {
        dir + name
    } else {
        dir + "/"@ + name
    }
}

pub(crate) fn join_path(dir: &str, name: &str) -> (r: String)
    ensures
        r@ == joined_path(dir@, name@),
{
    let n = dir.unicode_len();
    if n == 0 {
        return name.to_string();
    }
    let mut out = dir.to_string();
    if dir.get_char(n - 1) != '/' {
        out.append("/");
    }
    out.append(name);
    out
}

/// A host and a port.
pub open spec fn host_port(host: Seq<char>, port: u16) -> Seq<char> {
    host + ":"@ + decimal(port as nat)
}

/// A host and a port.
pub(crate) fn to_host_port(host: &str, port: u16) -> (r: String)
    ensures
        r@ == host_port(host@, port),
{
    let mut out = host.to_string();
    out.append(":");
    out.append(to_decimal(port as u64).as_str());
    out
}

impl LabTopology {
    /// The UDP address a peer role binds and gathers host candidates from.
    pub open spec fn addr_of(self, role: PeerRole) -> Seq<char> {
        match role {
            PeerRole::Offerer => self.offerer_addr@,
            PeerRole::Answerer => self.answerer_addr@,
        }
    }

    /// The UDP address a peer role binds and gathers host candidates from.
    pub fn bind_addr(&self, role: PeerRole) -> (r: &str)
        ensures
            r@ == self.addr_of(role),
    {
        match role {
            PeerRole::Offerer => self.offerer_addr.as_str(),
            PeerRole::Answerer => self.answerer_addr.as_str(),
        }
    }

    /// The namespace a peer role's process is placed in.
    pub open spec fn ns_of(self, role: PeerRole) -> Seq<char> {
        match role {
            PeerRole::Offerer => self.offerer_ns@,
            PeerRole::Answerer => self.answerer_ns@,
        }
    }

    /// The namespace a peer role's process is placed in.
    pub fn peer_ns(&self, role: PeerRole) -> (r: &str)
        ensures
            r@ == self.ns_of(role),
    {
        match role {
            PeerRole::Offerer => self.offerer_ns.as_str(),
            PeerRole::Answerer => self.answerer_ns.as_str(),
        }
    }

    /// The STUN/TURN server in the signaling namespace.
    pub open spec fn turn_server(self) -> Seq<char> {
        host_port(self.signaling_addr@, self.turn_port)
    }

    /// The STUN/TURN server `host:port` in the signaling namespace.
    pub fn turn_server_addr(&self) -> (r: String)
        ensures
            r@ == self.turn_server(),
    {
        to_host_port(self.signaling_addr.as_str(), self.turn_port)
    }

    /// Where coturn's generated config lives.
    pub open spec fn turn_conf_path(self) -> Seq<char> {
        joined_path(self.run_dir@, "turnserver.conf"@)
    }

    /// Where coturn's generated config lives.
    pub fn turn_conf(&self) -> (r: String)
        ensures
            r@ == self.turn_conf_path(),
    {
        join_path(self.run_dir.as_str(), "turnserver.conf")
    }

    /// Where coturn's pidfile lives.
    pub open spec fn turn_pidfile_path(self) -> Seq<char> {
        joined_path(self.run_dir@, "turnserver.pid"@)
    }

    /// Where coturn's pidfile lives.
    pub fn turn_pidfile(&self) -> (r: String)
        ensures
            r@ == self.turn_pidfile_path(),
    {
        join_path(self.run_dir.as_str(), "turnserver.pid")
    }
}

// ----- scenarios ---------------------------------------------------------------------------

/// A lab scenario: the candidate path a run is set up to exercise.
#[derive(Debug, Clone, Copy, PartialEq, Eq, Structural)]
pub enum Scenario {
    /// Direct host-candidate connectivity over the router (no STUN/TURN server).
    Lan,
    /// Server-reflexive candidates via a STUN server behind a port-restricted
    /// (cone) NAT; the direct path is blocked, and the cone NAT lets the srflx
    /// candidates connect.
    StunSrflx,
    /// Relayed candidates via a TURN server; the direct path is blocked and the
    /// peers are relay-only.
    TurnRelay,
    /// A symmetric NAT with a STUN/TURN server available but no relay-only
    /// policy: the direct path is blocked and the symmetric NAT makes the srflx
    /// candidates unusable, so ICE must fall back to a TURN relay.
    NatSymmetric,
}

/// The scenario an id stands for.
pub open spec fn scenario_named(id: Seq<char>) -> Option<Scenario> {
    if id == "lan"@ {
        Some(Scenario::Lan)
    } else if id == "stun-srflx"@ {
        Some(Scenario::StunSrflx)
    } else if id == "turn-relay"@ {
        Some(Scenario::TurnRelay)
    } else if id == "nat-symmetric"@ {
        Some(Scenario::NatSymmetric)
    } else {
        None
    }
}

impl Scenario {
    /// The scenario id.
    pub open spec fn id(self) -> Seq<char> {
        match self {
            Scenario::Lan => "lan"@,
            Scenario::StunSrflx => "stun-srflx"@,
            Scenario::TurnRelay => "turn-relay"@,
            Scenario::NatSymmetric => "nat-symmetric"@,
        }
    }

    /// The scenario id used on the command line, in result documents, and as the
    /// matrix environment column.
    pub fn as_str(self) -> (r: &'static str)
        ensures
            r@ == self.id(),
    {
        match self {
            Scenario::Lan => "lan",
            Scenario::StunSrflx => "stun-srflx",
            Scenario::TurnRelay => "turn-relay",
            Scenario::NatSymmetric => "nat-symmetric",
        }
    }

    /// Parse a scenario id (`lan`, `stun-srflx`, `turn-relay`, `nat-symmetric`).
    pub fn parse(s: &str) -> (r: Result<Self, String>)
        ensures
            match r {
                Ok(scenario) => scenario_named(s@) == Some(scenario),
                Err(e) => scenario_named(s@) is None && e@ == "unknown scenario "@ + debug_quoted(
                    s@,
                ) + " (lan|stun-srflx|turn-relay|nat-symmetric)"@,
            },
    {
        if same(s, "lan") {
            Ok(Scenario::Lan)
        } else if same(s, "stun-srflx") {
            Ok(Scenario::StunSrflx)
        } else if same(s, "turn-relay") {
            Ok(Scenario::TurnRelay)
        } else if same(s, "nat-symmetric") {
            Ok(Scenario::NatSymmetric)
        } else {
            let mut e = "unknown scenario ".to_string();
            e.append(quoted(s).as_str());
            e.append(" (lan|stun-srflx|turn-relay|nat-symmetric)");
            Err(e)
        }
    }

    /// Whether the scenario needs the coturn STUN/TURN server; only `lan` connects
    /// with plain host candidates.
    pub fn needs_coturn(self) -> (r: bool)
        ensures
            r == !(self is Lan),
    {
        !matches!(self, Scenario::Lan)
    }

    /// The ICE parameters a peer of this scenario runs with, given the server and
    /// the credentials of the lab.
    pub open spec fn ice_of(self, server: Seq<char>, user: Seq<char>, pass: Seq<char>) -> PeerIceView {
        match self {
            Scenario::Lan => host_candidates(),
            Scenario::StunSrflx => PeerIceView {
                server_url: Some("stun:"@ + server),
                ..host_candidates()
            },
            Scenario::TurnRelay => PeerIceView {
                server_url: Some("turn:"@ + server + "?transport=udp"@),
                username: user,
                credential: pass,
                relay_only: true,
            },
            Scenario::NatSymmetric => PeerIceView {
                server_url: Some("turn:"@ + server + "?transport=udp"@),
                username: user,
                credential: pass,
                relay_only: false,
            },
        }
    }

    /// The ICE parameters a peer of this scenario runs with: the STUN or TURN
    /// server (and the relay-only policy) for the server-mediated scenarios, host
    /// candidates alone otherwise.
    pub fn ice(self, topology: &LabTopology) -> (r: PeerIce)
        ensures
            r@ == self.ice_of(
                topology.turn_server(),
                topology.turn_user@,
                topology.turn_pass@,
            ),
    {
        let server = topology.turn_server_addr();
        self.ice_with(server.as_str(), topology.turn_user.as_str(), topology.turn_pass.as_str())
    }

    /// The ICE parameters a peer of this scenario runs with, given the server and
    /// the credentials of the lab.
    pub(crate) fn ice_with(self, server: &str, user: &str, pass: &str) -> (r: PeerIce)
        ensures
            r@ == self.ice_of(server@, user@, pass@),
    {
        match self {
            Scenario::Lan => PeerIce::default(),
            Scenario::StunSrflx => {
                let mut url = "stun:".to_string();
                url.append(server);
                let mut ice = PeerIce::default();
                ice.server_url = Some(url);
                ice
            },
            // A TURN server also serves STUN, so without the relay-only policy the
            // peer gathers both srflx and relay candidates: under a symmetric NAT
            // the srflx pair fails and ICE falls back to relay.
            Scenario::TurnRelay | Scenario::NatSymmetric => {
                let mut url = "turn:".to_string();
                url.append(server);
                url.append("?transport=udp");
                PeerIce {
                    server_url: Some(url),
                    username: user.to_string(),
                    credential: pass.to_string(),
                    relay_only: matches!(self, Scenario::TurnRelay),
                }
            },
        }
    }
}

/// Every scenario is read back from its id.
pub proof fn law_scenario_ids_round_trip(scenario: Scenario)
    ensures
        scenario_named(scenario.id()) == Some(scenario),
{
    reveal_strlit("lan");
    reveal_strlit("stun-srflx");
    reveal_strlit("turn-relay");
    reveal_strlit("nat-symmetric");
    assert("lan"@.len() == 3 && "stun-srflx"@.len() == 10 && "turn-relay"@.len() == 10
        && "nat-symmetric"@.len() == 13);
    assert("stun-srflx"@[0] == 's' && "turn-relay"@[0] == 't');
}

// ----- steps -------------------------------------------------------------------------------

/// One provisioning step.
#[derive(Debug, Clone)]
pub enum Step {
    /// Tell the user about the progress.
    Log(String),
    /// Run a command to completion, failing if it cannot be spawned or does not
    /// succeed. `what` names it in the error.
    Run { argv: Vec<String>, what: String },
    /// Run a command to completion, ignoring any failure.
    RunIgnored { argv: Vec<String> },
    /// Run a command to completion with `input` on its stdin, failing as `Run`
    /// does.
    Feed { argv: Vec<String>, input: String },
    /// Create a directory and its parents.
    CreateDir(String),
    /// Write a file.
    WriteFile { path: String, content: String },
    /// Wait.
    Wait { millis: u64 },
}

/// The contents of a [`Step`].
#[verifier::ext_equal]
pub enum StepView {
    Log(Seq<char>),
    Run { argv: Seq<Seq<char>>, what: Seq<char> },
    RunIgnored { argv: Seq<Seq<char>> },
    Feed { argv: Seq<Seq<char>>, input: Seq<char> },
    CreateDir(Seq<char>),
    WriteFile { path: Seq<char>, content: Seq<char> },
    Wait { millis: u64 },
}

impl View for Step {
    type V = StepView;

    open spec fn view(&self) -> StepView {
        match self {
            Step::Log(message) => StepView::Log(message@),
            Step::Run { argv, what } => StepView::Run { argv: texts(argv@), what: what@ },
            Step::RunIgnored { argv } => StepView::RunIgnored { argv: texts(argv@) },
            Step::Feed { argv, input } => StepView::Feed { argv: texts(argv@), input: input@ },
            Step::CreateDir(path) => StepView::CreateDir(path@),
            Step::WriteFile { path, content } => StepView::WriteFile {
                path: path@,
                content: content@,
            },
            Step::Wait { millis } => StepView::Wait { millis: *millis },
        }
    }
}

/// The contents of a list of steps.
pub open spec fn steps(list: Seq<Step>) -> Seq<StepView> {
    list.map_values(|s: Step| s@)
}

/// Append one step.
fn push_step(list: &mut Vec<Step>, step: Step)
    ensures
        steps(final(list)@) == steps(old(list)@).push(step@),
{
    list.push(step);
    assert(steps(list@) =~= steps(old(list)@).push(step@));
}

/// Append some steps.
fn push_steps(list: &mut Vec<Step>, more: Vec<Step>)
    ensures
        steps(final(list)@) == steps(old(list)@) + steps(more@),
{
    let ghost added = steps(more@);
    let mut rest = more;
    list.append(&mut rest);
    assert(steps(list@) =~= steps(old(list)@) + added);
}

// ----- privileged commands -------------------------------------------------------------------

/// A privileged command: `program args...` when root, `sudo program args...`
/// otherwise.
pub open spec fn priv_argv(root: bool, program: Seq<char>, args: Seq<Seq<char>>) -> Seq<Seq<char>> {
    if root {
        seq![program] + args
    } else {
        seq!["sudo"@, program] + args
    }
}

/// A privileged command run inside namespace `ns` (`ip netns exec <ns> ...`).
pub open spec fn ns_argv(
    root: bool,
    ns: Seq<char>,
    program: Seq<char>,
    args: Seq<Seq<char>>,
) -> Seq<Seq<char>> {
    priv_argv(root, "ip"@, seq!["netns"@, "exec"@, ns, program] + args)
}

fn push_all(out: &mut Vec<String>, args: &[&str])
    ensures
        texts(final(out)@) == texts(old(out)@) + views(args@),
{
    let ghost head = texts(out@);
    assert(head + views(args@).take(0) =~= head);
    let mut i: usize = 0;
    while i < args.len()
        invariant
            i <= args@.len(),
            texts(out@) == head + views(args@).take(i as int),
        decreases args@.len() - i,
    {
        out.push(args[i].to_string());
        assert(texts(out@) =~= head + views(args@).take(i + 1));
        i += 1;
    }
    assert(views(args@).take(i as int) =~= views(args@));
}

/// A privileged command: `program args...` when root, `sudo program args...`
/// otherwise.
pub fn priv_command(root: bool, program: &str, args: &[&str]) -> (r: Vec<String>)
    ensures
        texts(r@) == priv_argv(root, program@, views(args@)),
{
    let mut out: Vec<String> = Vec::new();
    if !root {
        out.push("sudo".to_string());
    }
    out.push(program.to_string());
    push_all(&mut out, args);
    assert(texts(out@) =~= priv_argv(root, program@, views(args@)));
    out
}

/// A privileged command run inside namespace `ns` (`ip netns exec <ns> ...`).
pub fn ns_command(root: bool, ns: &str, program: &str, args: &[&str]) -> (r: Vec<String>)
    ensures
        texts(r@) == ns_argv(root, ns@, program@, views(args@)),
{
    let mut out = priv_command(root, "ip", &["netns", "exec", ns, program]);
    push_all(&mut out, args);
    assert(texts(out@) =~= ns_argv(root, ns@, program@, views(args@)));
    out
}

// ----- namespaces and links --------------------------------------------------------------------

/// Append a privileged command that has to succeed.
fn push_priv(list: &mut Vec<Step>, root: bool, program: &str, args: &[&str], what: String)
    ensures
        steps(final(list)@) == steps(old(list)@).push(
            (StepView::Run { argv: priv_argv(root, program@, views(args@)), what: what@ }),
        ),
{
    push_step(list, Step::Run { argv: priv_command(root, program, args), what });
}

/// Append a command in a namespace that has to succeed.
fn push_ns(
    list: &mut Vec<Step>,
    root: bool,
    ns: &str,
    program: &str,
    args: &[&str],
    what: String,
)
    ensures
        steps(final(list)@) == steps(old(list)@).push(
            (StepView::Run { argv: ns_argv(root, ns@, program@, views(args@)), what: what@ }),
        ),
{
    push_step(list, Step::Run { argv: ns_command(root, ns, program, args), what });
}

/// Create namespace `ns`.
pub open spec fn add_ns(root: bool, ns: Seq<char>) -> StepView {
    StepView::Run {
        argv: priv_argv(root, "ip"@, seq!["netns"@, "add"@, ns]),
        what: "ip netns add "@ + ns,
    }
}

/// Remove namespace `ns`, if it is there.
pub open spec fn del_ns(root: bool, ns: Seq<char>) -> StepView {
    StepView::RunIgnored { argv: priv_argv(root, "ip"@, seq!["netns"@, "del"@, ns]) }
}

/// Run `ip` in namespace `ns`.
pub open spec fn ip_in(
    root: bool,
    ns: Seq<char>,
    args: Seq<Seq<char>>,
    what: Seq<char>,
) -> StepView {
    StepView::Run { argv: ns_argv(root, ns, "ip"@, args), what }
}

/// Create one link between the router and an endpoint: a veth pair with the router
/// end in the router namespace and the endpoint end in `ns`, addressed and routed
/// so the endpoint reaches the whole lab through the router.
pub open spec fn link_steps(
    root: bool,
    router_ns: Seq<char>,
    ns: Seq<char>,
    veth_ep: Seq<char>,
    veth_rtr: Seq<char>,
    ep_addr: Seq<char>,
    gw_addr: Seq<char>,
) -> Seq<StepView> {
    seq![
        StepView::Run {
            argv: priv_argv(
                root,
                "ip"@,
                seq!["link"@, "add"@, veth_ep, "type"@, "veth"@, "peer"@, "name"@, veth_rtr],
            ),
            what: "creating veth pair "@ + veth_ep + "/"@ + veth_rtr,
        },
        StepView::Run {
            argv: priv_argv(root, "ip"@, seq!["link"@, "set"@, veth_ep, "netns"@, ns]),
            what: "moving "@ + veth_ep + " into "@ + ns,
        },
        StepView::Run {
            argv: priv_argv(root, "ip"@, seq!["link"@, "set"@, veth_rtr, "netns"@, router_ns]),
            what: "moving "@ + veth_rtr + " into "@ + router_ns,
        },
        ip_in(
            root,
            ns,
            seq!["addr"@, "add"@, ep_addr + "/30"@, "dev"@, veth_ep],
            "addressing "@ + veth_ep,
        ),
        ip_in(
            root,
            ns,
            seq!["link"@, "set"@, veth_ep, "up"@],
            "bringing "@ + veth_ep + " up"@,
        ),
        ip_in(root, ns, seq!["link"@, "set"@, "lo"@, "up"@], "bringing lo up in "@ + ns),
        ip_in(
            root,
            ns,
            seq!["route"@, "add"@, "default"@, "via"@, gw_addr],
            "default route in "@ + ns,
        ),
        ip_in(
            root,
            router_ns,
            seq!["addr"@, "add"@, gw_addr + "/30"@, "dev"@, veth_rtr],
            "addressing "@ + veth_rtr,
        ),
        ip_in(
            root,
            router_ns,
            seq!["link"@, "set"@, veth_rtr, "up"@],
            "bringing "@ + veth_rtr + " up"@,
        ),
    ]
}

impl LabTopology {
    /// The namespaces of the lab, in the order in which they are created.
    pub open spec fn namespaces(self) -> Seq<Seq<char>> {
        seq![self.router_ns@, self.offerer_ns@, self.answerer_ns@, self.signaling_ns@]
    }

    /// Remove the lab namespaces.
    pub open spec fn netns_down_steps(self, root: bool) -> Seq<StepView> {
        seq![
            del_ns(root, self.offerer_ns@),
            del_ns(root, self.answerer_ns@),
            del_ns(root, self.signaling_ns@),
            del_ns(root, self.router_ns@),
        ]
    }

    /// Provision the namespace topology: the four namespaces, the three veth
    /// links with /30 addressing and default routes, and forwarding in the
    /// router, after any stale lab has been torn down.
    pub open spec fn netns_up_steps(self, root: bool) -> Seq<StepView> {
        self.netns_down_steps(root) + seq![StepView::Log("creating namespaces"@)]
            + self.namespaces().map_values(|ns: Seq<char>| add_ns(root, ns)) + seq![
            ip_in(
                root,
                self.router_ns@,
                seq!["link"@, "set"@, "lo"@, "up"@],
                "router lo up"@,
            ),
            StepView::Run {
                argv: ns_argv(
                    root,
                    self.router_ns@,
                    "sysctl"@,
                    seq!["-q"@, "-w"@, "net.ipv4.ip_forward=1"@],
                ),
                what: "enabling ip_forward in the router"@,
            },
            StepView::Log("wiring links"@),
        ] + link_steps(
            root,
            self.router_ns@,
            self.offerer_ns@,
            "veth-off"@,
            "veth-roff"@,
            self.offerer_addr@,
            self.offerer_gw@,
        ) + link_steps(
            root,
            self.router_ns@,
            self.answerer_ns@,
            "veth-ans"@,
            "veth-rans"@,
            self.answerer_addr@,
            self.answerer_gw@,
        ) + link_steps(
            root,
            self.router_ns@,
            self.signaling_ns@,
            "veth-sig"@,
            "veth-rsig"@,
            self.signaling_addr@,
            self.signaling_gw@,
        ) + seq![StepView::Log("lab ready"@)]
    }

    /// Create one link between the router and an endpoint: a veth pair with the
    /// router end in the router namespace and the endpoint end in `ns`, addressed
    /// and routed so the endpoint reaches the whole lab through the router.
    pub fn link(
        &self,
        root: bool,
        ns: &str,
        veth_ep: &str,
        veth_rtr: &str,
        ep_addr: &str,
        gw_addr: &str,
    ) -> (r: Vec<Step>)
        ensures
            steps(r@) == link_steps(
                root,
                self.router_ns@,
                ns@,
                veth_ep@,
                veth_rtr@,
                ep_addr@,
                gw_addr@,
            ),
    {
        let router_ns = self.router_ns.as_str();
        let mut out: Vec<Step> = Vec::new();
        assert(steps(out@) =~= seq![]);
        push_priv(
            &mut out,
            root,
            "ip",
            &["link", "add", veth_ep, "type", "veth", "peer", "name", veth_rtr],
            concat4("creating veth pair ", veth_ep, "/", veth_rtr),
        );
        push_priv(
            &mut out,
            root,
            "ip",
            &["link", "set", veth_ep, "netns", ns],
            concat4("moving ", veth_ep, " into ", ns),
        );
        push_priv(
            &mut out,
            root,
            "ip",
            &["link", "set", veth_rtr, "netns", router_ns],
            concat4("moving ", veth_rtr, " into ", router_ns),
        );
        // Endpoint side.
        let ep_cidr = concat2(ep_addr, "/30");
        push_ns(
            &mut out,
            root,
            ns,
            "ip",
            &["addr", "add", ep_cidr.as_str(), "dev", veth_ep],
            concat2("addressing ", veth_ep),
        );
        push_ns(
            &mut out,
            root,
            ns,
            "ip",
            &["link", "set", veth_ep, "up"],
            concat3("bringing ", veth_ep, " up"),
        );
        push_ns(
            &mut out,
            root,
            ns,
            "ip",
            &["link", "set", "lo", "up"],
            concat2("bringing lo up in ", ns),
        );
        push_ns(
            &mut out,
            root,
            ns,
            "ip",
            &["route", "add", "default", "via", gw_addr],
            concat2("default route in ", ns),
        );
        // Router side.
        let gw_cidr = concat2(gw_addr, "/30");
        push_ns(
            &mut out,
            root,
            router_ns,
            "ip",
            &["addr", "add", gw_cidr.as_str(), "dev", veth_rtr],
            concat2("addressing ", veth_rtr),
        );
        push_ns(
            &mut out,
            root,
            router_ns,
            "ip",
            &["link", "set", veth_rtr, "up"],
            concat3("bringing ", veth_rtr, " up"),
        );
        assert(steps(out@) =~~= link_steps(
            root,
            self.router_ns@,
            ns@,
            veth_ep@,
            veth_rtr@,
            ep_addr@,
            gw_addr@,
        ));
        out
    }
}

impl LabTopology {
    /// Remove the lab namespaces. Deleting a namespace removes the veth ends inside
    /// it (the peer ends go with them); errors are ignored so teardown is
    /// idempotent.
    pub fn netns_down(&self, root: bool) -> (r: Vec<Step>)
        ensures
            steps(r@) == self.netns_down_steps(root),
    {
        let mut out: Vec<Step> = Vec::new();
        assert(steps(out@) =~= seq![]);
        push_ignored(&mut out, root, "ip", &["netns", "del", self.offerer_ns.as_str()]);
        push_ignored(&mut out, root, "ip", &["netns", "del", self.answerer_ns.as_str()]);
        push_ignored(&mut out, root, "ip", &["netns", "del", self.signaling_ns.as_str()]);
        push_ignored(&mut out, root, "ip", &["netns", "del", self.router_ns.as_str()]);
        assert(steps(out@) =~~= self.netns_down_steps(root));
        out
    }

    /// Provision the namespace topology: the four namespaces, the three veth links
    /// with /30 addressing and default routes, and forwarding in the router.
    /// Idempotent: tears down any stale lab first, so a half-provisioned lab never
    /// wedges a run.
    pub fn netns_up(&self, root: bool) -> (r: Vec<Step>)
        ensures
            steps(r@) == self.netns_up_steps(root),
    {
        let router_ns = self.router_ns.as_str();
        let mut out = self.netns_down(root);
        let ghost down = steps(out@);
        push_step(&mut out, Step::Log("creating namespaces".to_string()));
        push_priv(
            &mut out,
            root,
            "ip",
            &["netns", "add", router_ns],
            concat2("ip netns add ", router_ns),
        );
        push_priv(
            &mut out,
            root,
            "ip",
            &["netns", "add", self.offerer_ns.as_str()],
            concat2("ip netns add ", self.offerer_ns.as_str()),
        );
        push_priv(
            &mut out,
            root,
            "ip",
            &["netns", "add", self.answerer_ns.as_str()],
            concat2("ip netns add ", self.answerer_ns.as_str()),
        );
        push_priv(
            &mut out,
            root,
            "ip",
            &["netns", "add", self.signaling_ns.as_str()],
            concat2("ip netns add ", self.signaling_ns.as_str()),
        );
        let ghost added = down + seq![StepView::Log("creating namespaces"@)]
            + self.namespaces().map_values(|ns: Seq<char>| add_ns(root, ns));
        assert(steps(out@) =~~= added);
        push_ns(
            &mut out,
            root,
            router_ns,
            "ip",
            &["link", "set", "lo", "up"],
            "router lo up".to_string(),
        );
        // The router forwards between the three /30 links.
        push_ns(
            &mut out,
            root,
            router_ns,
            "sysctl",
            &["-q", "-w", "net.ipv4.ip_forward=1"],
            "enabling ip_forward in the router".to_string(),
        );
        push_step(&mut out, Step::Log("wiring links".to_string()));
        let ghost routed = seq![
            ip_in(root, self.router_ns@, seq!["link"@, "set"@, "lo"@, "up"@], "router lo up"@),
            StepView::Run {
                argv: ns_argv(
                    root,
                    self.router_ns@,
                    "sysctl"@,
                    seq!["-q"@, "-w"@, "net.ipv4.ip_forward=1"@],
                ),
                what: "enabling ip_forward in the router"@,
            },
            StepView::Log("wiring links"@),
        ];
        assert(steps(out@) =~~= added + routed);
        push_steps(
            &mut out,
            self.link(
                root,
                self.offerer_ns.as_str(),
                "veth-off",
                "veth-roff",
                self.offerer_addr.as_str(),
                self.offerer_gw.as_str(),
            ),
        );
        push_steps(
            &mut out,
            self.link(
                root,
                self.answerer_ns.as_str(),
                "veth-ans",
                "veth-rans",
                self.answerer_addr.as_str(),
                self.answerer_gw.as_str(),
            ),
        );
        push_steps(
            &mut out,
            self.link(
                root,
                self.signaling_ns.as_str(),
                "veth-sig",
                "veth-rsig",
                self.signaling_addr.as_str(),
                self.signaling_gw.as_str(),
            ),
        );
        push_step(&mut out, Step::Log("lab ready".to_string()));
        assert(steps(out@) =~= self.netns_up_steps(root));
        out
    }
}

/// Append a privileged command whose failure is ignored.
fn push_ignored(list: &mut Vec<Step>, root: bool, program: &str, args: &[&str])
    ensures
        steps(final(list)@) == steps(old(list)@).push(
            (StepView::RunIgnored { argv: priv_argv(root, program@, views(args@)) }),
        ),
{
    push_step(list, Step::RunIgnored { argv: priv_command(root, program, args) });
}

/// Provisioning starts by removing what an earlier run may have left.
pub proof fn law_up_tears_down_first(topology: LabTopology, root: bool)
    ensures
        topology.netns_up_steps(root).len() >= 4,
        topology.netns_up_steps(root).take(4) == topology.netns_down_steps(root),
{
    assert(topology.netns_up_steps(root).take(4) =~= topology.netns_down_steps(root));
}

/// Teardown removes every namespace that provisioning creates.
pub proof fn law_down_removes_every_namespace(topology: LabTopology, root: bool, i: int)
    requires
        0 <= i < topology.namespaces().len(),
    ensures
        topology.netns_up_steps(root).contains(add_ns(root, topology.namespaces()[i])),
        topology.netns_down_steps(root).contains(del_ns(root, topology.namespaces()[i])),
{
    let up = topology.netns_up_steps(root);
    let down = topology.netns_down_steps(root);
    assert(up[5 + i] == add_ns(root, topology.namespaces()[i]));
    assert(down[(i + 3) % 4] == del_ns(root, topology.namespaces()[i]));
}

// ----- router policy ---------------------------------------------------------------------------

/// The nftables table owning the lab's router policy.
pub const NFT_TABLE: &'static str = "cw_ice";

/// A rule that drops what comes from subnet `from` and goes to subnet `to`.
pub open spec fn drop_rule(from: Seq<char>, to: Seq<char>) -> Seq<char> {
    "ip saddr "@ + from + " ip daddr "@ + to + " drop"@
}

/// A rule that rewrites the source of what comes from subnet `from` to the address
/// `public`, in the mapping style `mode`.
pub open spec fn snat_rule(from: Seq<char>, public: Seq<char>, mode: Seq<char>) -> Seq<char> {
    "ip saddr "@ + from + " snat ip to "@ + public + " "@ + mode
}

impl LabTopology {
    /// The chain that rewrites each peer's forwarded traffic to its own public
    /// address.
    pub open spec fn nat_chain(self, mode: Seq<char>) -> Seq<char> {
        "    chain postrouting {\n        type nat hook postrouting priority srcnat; policy accept;\n        "@
            + snat_rule(self.offerer_subnet@, self.offerer_public@, mode) + "\n        "@
            + snat_rule(self.answerer_subnet@, self.answerer_public@, mode) + "\n    }\n"@
    }

    /// The router's table: a forward chain that drops traffic directly between the
    /// two peer subnets and, with a mapping style, a source-NAT chain.
    pub open spec fn nft_text(self, snat_mode: Option<Seq<char>>) -> Seq<char> {
        "table inet "@ + NFT_TABLE@
            + " {\n    chain forward {\n        type filter hook forward priority 0; policy accept;\n        "@
            + drop_rule(self.offerer_subnet@, self.answerer_subnet@) + "\n        "@ + drop_rule(
            self.answerer_subnet@,
            self.offerer_subnet@,
        ) + "\n    }\n"@ + (match snat_mode {
            Some(mode) => self.nat_chain(mode),
            None => seq![],
        }) + "}\n"@
    }

    /// The `cw_ice` nftables table body: a forward chain that drops traffic directly
    /// between the offerer and answerer subnets (both directions), forcing a
    /// server-mediated path, plus, when `snat_mode` is set, a postrouting source-NAT
    /// rewriting each peer's forwarded traffic to its own public address in that
    /// mapping style.
    pub fn nft_table(&self, snat_mode: Option<&str>) -> (r: String)
        ensures
            r@ == self.nft_text(
                match snat_mode {
                    Some(mode) => Some(mode@),
                    None => None,
                },
            ),
    {
        let mut out = concat3(
            "table inet ",
            NFT_TABLE,
            " {\n    chain forward {\n        type filter hook forward priority 0; policy accept;\n        ",
        );
        push_drop_rule(&mut out, self.offerer_subnet.as_str(), self.answerer_subnet.as_str());
        out.append("\n        ");
        push_drop_rule(&mut out, self.answerer_subnet.as_str(), self.offerer_subnet.as_str());
        out.append("\n    }\n");
        let ghost body = out@;
        if let Some(mode) = snat_mode {
            out.append(
                "    chain postrouting {\n        type nat hook postrouting priority srcnat; policy accept;\n        ",
            );
            push_snat_rule(
                &mut out,
                self.offerer_subnet.as_str(),
                self.offerer_public.as_str(),
                mode,
            );
            out.append("\n        ");
            push_snat_rule(
                &mut out,
                self.answerer_subnet.as_str(),
                self.answerer_public.as_str(),
                mode,
            );
            out.append("\n    }\n");
            assert(out@ =~= body + self.nat_chain(mode@));
        }
        out.append("}\n");
        assert(out@ =~= self.nft_text(
            match snat_mode {
                Some(mode) => Some(mode@),
                None => None,
            },
        ));
        out
    }

    /// Remove the router's nftables policy.
    pub open spec fn nftables_clear_steps(self, root: bool) -> Seq<StepView> {
        seq![
            StepView::RunIgnored {
                argv: ns_argv(
                    root,
                    self.router_ns@,
                    "nft"@,
                    seq!["delete"@, "table"@, "inet"@, NFT_TABLE@],
                ),
            },
        ]
    }

    /// Remove the router's nftables policy, ignoring errors (idempotent).
    pub fn nftables_clear(&self, root: bool) -> (r: Vec<Step>)
        ensures
            steps(r@) == self.nftables_clear_steps(root),
    {
        let mut out: Vec<Step> = Vec::new();
        push_step(
            &mut out,
            Step::RunIgnored {
                argv: ns_command(
                    root,
                    self.router_ns.as_str(),
                    "nft",
                    &["delete", "table", "inet", NFT_TABLE],
                ),
            },
        );
        assert(steps(out@) =~~= self.nftables_clear_steps(root));
        out
    }

    /// Load a ruleset in the router.
    pub open spec fn nft_load_step(self, root: bool, ruleset: Seq<char>) -> StepView {
        StepView::Feed {
            argv: ns_argv(root, self.router_ns@, "nft"@, seq!["-f"@, "-"@]),
            input: ruleset,
        }
    }

    /// Feed `ruleset` to `nft -f -` in the router namespace.
    pub fn nft_load(&self, root: bool, ruleset: String) -> (r: Step)
        ensures
            r@ == self.nft_load_step(root, ruleset@),
    {
        let r = Step::Feed {
            argv: ns_command(root, self.router_ns.as_str(), "nft", &["-f", "-"]),
            input: ruleset,
        };
        assert(r@ =~~= self.nft_load_step(root, ruleset@));
        r
    }

    /// Apply the router's nftables policy for `scenario`.
    pub open spec fn nftables_apply_steps(self, root: bool, scenario: Scenario) -> Seq<StepView> {
        let cleared = self.nftables_clear_steps(root);
        match scenario {
            Scenario::Lan => cleared,
            Scenario::TurnRelay => cleared.push(self.nft_load_step(root, self.nft_text(None))),
            Scenario::StunSrflx => cleared.push(
                self.nft_load_step(root, self.nft_text(Some("persistent"@))),
            ),
            Scenario::NatSymmetric => cleared.push(
                self.nft_load_step(root, self.nft_text(Some("random"@))),
            ),
        }
    }

    /// Apply the router's nftables policy that shapes which ICE candidate paths can
    /// carry data for `scenario`.
    ///
    /// All of `stun-srflx`, `turn-relay`, and `nat-symmetric` drop the direct path
    /// between the two peer subnets while leaving each peer's path to the signaling
    /// and coturn subnet open, so a successful connection must have traversed the
    /// server (server-reflexive or relayed candidates) rather than a direct
    /// host-candidate pair.
    ///
    /// The two NAT scenarios additionally source-NAT each peer's forwarded traffic
    /// to its own "public" address, so the address the STUN server observes (the
    /// srflx candidate) differs from the peer's private host address. The mapping
    /// style decides whether srflx is usable:
    ///
    /// - `stun-srflx`: `snat ... persistent` gives a consistent,
    ///   endpoint-independent mapping (a port-restricted cone NAT), so the two peers
    ///   can hole-punch their srflx candidates and connect.
    /// - `nat-symmetric`: `snat ... random` picks a fresh source port per
    ///   destination (an endpoint-dependent, symmetric NAT), so the mapping the STUN
    ///   server saw is useless to the peer and ICE must fall back to a TURN relay.
    pub fn nftables_apply(&self, root: bool, scenario: Scenario) -> (r: Vec<Step>)
        ensures
            steps(r@) == self.nftables_apply_steps(root, scenario),
    {
        let mut out = self.nftables_clear(root);
        match scenario {
            Scenario::Lan => {},
            Scenario::TurnRelay => {
                push_step(&mut out, self.nft_load(root, self.nft_table(None)));
            },
            Scenario::StunSrflx => {
                push_step(&mut out, self.nft_load(root, self.nft_table(Some("persistent"))));
            },
            Scenario::NatSymmetric => {
                push_step(&mut out, self.nft_load(root, self.nft_table(Some("random"))));
            },
        }
        out
    }
}

fn push_drop_rule(out: &mut String, from: &str, to: &str)
    ensures
        final(out)@ == old(out)@ + drop_rule(from@, to@),
{
    out.append("ip saddr ");
    out.append(from);
    out.append(" ip daddr ");
    out.append(to);
    out.append(" drop");
    assert(out@ =~= old(out)@ + drop_rule(from@, to@));
}

fn push_snat_rule(out: &mut String, from: &str, public: &str, mode: &str)
    ensures
        final(out)@ == old(out)@ + snat_rule(from@, public@, mode@),
{
    out.append("ip saddr ");
    out.append(from);
    out.append(" snat ip to ");
    out.append(public);
    out.append(" ");
    out.append(mode);
    assert(out@ =~= old(out)@ + snat_rule(from@, public@, mode@));
}

/// In every scenario but `lan` the router is given a policy that drops what either
/// peer sends to the other directly; in `lan` it is given none. Any earlier policy
/// is removed first.
pub proof fn law_direct_path_is_blocked(topology: LabTopology, root: bool, scenario: Scenario)
    ensures
        ({
            let applied = topology.nftables_apply_steps(root, scenario);
            &&& applied[0] == topology.nftables_clear_steps(root)[0]
            &&& scenario is Lan ==> applied.len() == 1
            &&& !(scenario is Lan) ==> applied.len() == 2 && (match applied[1] {
                StepView::Feed { input, .. } => has_substring(
                    input,
                    drop_rule(topology.offerer_subnet@, topology.answerer_subnet@),
                ) && has_substring(
                    input,
                    drop_rule(topology.answerer_subnet@, topology.offerer_subnet@),
                ),
                _ => false,
            })
        }),
{
    lemma_table_drops(topology, None);
    lemma_table_drops(topology, Some("persistent"@));
    lemma_table_drops(topology, Some("random"@));
}

proof fn lemma_table_drops(topology: LabTopology, mode: Option<Seq<char>>)
    ensures
        has_substring(
            topology.nft_text(mode),
            drop_rule(topology.offerer_subnet@, topology.answerer_subnet@),
        ),
        has_substring(
            topology.nft_text(mode),
            drop_rule(topology.answerer_subnet@, topology.offerer_subnet@),
        ),
{
    let off = topology.offerer_subnet@;
    let ans = topology.answerer_subnet@;
    let head = "table inet "@ + NFT_TABLE@
        + " {\n    chain forward {\n        type filter hook forward priority 0; policy accept;\n        "@;
    let chain = match mode {
        Some(mode) => topology.nat_chain(mode),
        None => seq![],
    };
    let between = "\n        "@;
    let tail = "\n    }\n"@ + chain + "}\n"@;
    let text = topology.nft_text(mode);
    assert(text =~= head + drop_rule(off, ans) + (between + drop_rule(ans, off) + tail));
    lemma_has_substring(head, drop_rule(off, ans), between + drop_rule(ans, off) + tail);
    assert(text =~= (head + drop_rule(off, ans) + between) + drop_rule(ans, off) + tail);
    lemma_has_substring(head + drop_rule(off, ans) + between, drop_rule(ans, off), tail);
}

// ----- coturn -----------------------------------------------------------------------------------

impl LabTopology {
    /// A minimal long-term-credential TURN/STUN server bound to the signaling
    /// namespace's address.
    pub open spec fn turn_config_text(self) -> Seq<char> {
        "listening-ip="@ + self.signaling_addr@ + "\nlistening-port="@ + decimal(
            self.turn_port as nat,
        ) + "\nrelay-ip="@ + self.signaling_addr@ + "\nmin-port="@ + decimal(
            self.turn_min_port as nat,
        ) + "\nmax-port="@ + decimal(self.turn_max_port as nat)
            + "\nfingerprint\nlt-cred-mech\nrealm="@ + self.turn_realm@ + "\nuser="@
            + self.turn_user@ + ":"@ + self.turn_pass@ + "\nno-tls\nno-dtls\nno-cli\npidfile="@
            + self.turn_pidfile_path() + "\nlog-file="@ + joined_path(
            self.run_dir@,
            "turnserver.log"@,
        ) + "\nsimple-log\n"@
    }

    /// The coturn config. The relay port range is small (the lab runs a handful of
    /// allocations at a time) and no TLS is configured (the lab is a closed,
    /// ephemeral network).
    pub fn turn_config(&self) -> (r: String)
        ensures
            r@ == self.turn_config_text(),
    {
        let mut out = "listening-ip=".to_string();
        out.append(self.signaling_addr.as_str());
        out.append("\nlistening-port=");
        out.append(to_decimal(self.turn_port as u64).as_str());
        out.append("\nrelay-ip=");
        out.append(self.signaling_addr.as_str());
        out.append("\nmin-port=");
        out.append(to_decimal(self.turn_min_port as u64).as_str());
        out.append("\nmax-port=");
        out.append(to_decimal(self.turn_max_port as u64).as_str());
        out.append("\nfingerprint\nlt-cred-mech\nrealm=");
        out.append(self.turn_realm.as_str());
        out.append("\nuser=");
        out.append(self.turn_user.as_str());
        out.append(":");
        out.append(self.turn_pass.as_str());
        out.append("\nno-tls\nno-dtls\nno-cli\npidfile=");
        out.append(self.turn_pidfile().as_str());
        out.append("\nlog-file=");
        out.append(join_path(self.run_dir.as_str(), "turnserver.log").as_str());
        out.append("\nsimple-log\n");
        out
    }

    /// Stop the coturn server whose pidfile holds `pid`.
    pub open spec fn coturn_down_steps(self, root: bool, pid: Option<Seq<char>>) -> Seq<StepView> {
        let kill = match pid {
            Some(pid) => if trimmed(pid).len() > 0 {
                seq![
                    StepView::RunIgnored { argv: priv_argv(root, "kill"@, seq![trimmed(pid)]) },
                ]
            } else {
                seq![]
            },
            None => seq![],
        };
        kill + seq![
            StepView::RunIgnored {
                argv: priv_argv(
                    root,
                    "pkill"@,
                    seq!["-f"@, "turnserver -c "@ + self.turn_conf_path()],
                ),
            },
            StepView::RunIgnored {
                argv: priv_argv(root, "rm"@, seq!["-f"@, self.turn_pidfile_path()]),
            },
        ]
    }

    /// Stop the coturn server, ignoring errors (idempotent). `pid` is what its
    /// pidfile holds, or nothing if there is none.
    pub fn coturn_down(&self, root: bool, pid: Option<&str>) -> (r: Vec<Step>)
        ensures
            steps(r@) == self.coturn_down_steps(
                root,
                match pid {
                    Some(pid) => Some(pid@),
                    None => None,
                },
            ),
    {
        let mut out: Vec<Step> = Vec::new();
        assert(steps(out@) =~= seq![]);
        if let Some(pid) = pid {
            let pid = trim(pid);
            if pid.unicode_len() > 0 {
                push_ignored(&mut out, root, "kill", &[pid]);
            }
        }
        // Belt and suspenders: kill any turnserver bound to our config.
        let pattern = concat2("turnserver -c ", self.turn_conf().as_str());
        push_ignored(&mut out, root, "pkill", &["-f", pattern.as_str()]);
        let pidfile = self.turn_pidfile();
        push_ignored(&mut out, root, "rm", &["-f", pidfile.as_str()]);
        assert(steps(out@) =~~= self.coturn_down_steps(
            root,
            match pid {
                Some(pid) => Some(pid@),
                None => None,
            },
        ));
        out
    }

    /// Start the coturn server in the signaling namespace.
    pub open spec fn coturn_up_steps(self, root: bool, pid: Option<Seq<char>>) -> Seq<StepView> {
        self.coturn_down_steps(root, pid) + seq![
            StepView::CreateDir(self.run_dir@),
            StepView::WriteFile { path: self.turn_conf_path(), content: self.turn_config_text() },
            StepView::Log(
                "starting coturn in "@ + self.signaling_ns@ + " on "@ + self.turn_server(),
            ),
            StepView::Run {
                argv: ns_argv(
                    root,
                    self.signaling_ns@,
                    "turnserver"@,
                    seq!["-c"@, self.turn_conf_path(), "-o"@],
                ),
                what: "starting turnserver (install coturn; see scripts/setup.sh)"@,
            },
            StepView::Wait { millis: 1000 },
        ]
    }

    /// Generate the coturn config under the run dir and start `turnserver`
    /// (daemonized) in the signaling namespace, stopping any previous instance
    /// first. Requires `turnserver` on `PATH`. `pid` is what the pidfile of a
    /// previous instance holds.
    pub fn coturn_up(&self, root: bool, pid: Option<&str>) -> (r: Vec<Step>)
        ensures
            steps(r@) == self.coturn_up_steps(
                root,
                match pid {
                    Some(pid) => Some(pid@),
                    None => None,
                },
            ),
    {
        let mut out = self.coturn_down(root, pid);
        let ghost down = steps(out@);
        let conf = self.turn_conf();
        push_step(&mut out, Step::CreateDir(self.run_dir.clone()));
        push_step(
            &mut out,
            Step::WriteFile { path: conf.clone(), content: self.turn_config() },
        );
        push_step(
            &mut out,
            Step::Log(
                concat4(
                    "starting coturn in ",
                    self.signaling_ns.as_str(),
                    " on ",
                    self.turn_server_addr().as_str(),
                ),
            ),
        );
        // Run detached inside the signaling namespace; coturn daemonizes with -o.
        push_ns(
            &mut out,
            root,
            self.signaling_ns.as_str(),
            "turnserver",
            &["-c", conf.as_str(), "-o"],
            "starting turnserver (install coturn; see scripts/setup.sh)".to_string(),
        );
        // Give it a moment to bind before peers are pointed at it.
        push_step(&mut out, Step::Wait { millis: 1000 });
        assert(steps(out@) =~~= self.coturn_up_steps(
            root,
            match pid {
                Some(pid) => Some(pid@),
                None => None,
            },
        ));
        out
    }

    // ----- whole scenarios -----

    /// Bring the whole lab up for `scenario`.
    pub open spec fn scenario_up_steps(
        self,
        root: bool,
        scenario: Scenario,
        pid: Option<Seq<char>>,
    ) -> Seq<StepView> {
        self.netns_up_steps(root) + (if scenario is Lan {
            seq![]
        } else {
            self.coturn_up_steps(root, pid)
        }) + self.nftables_apply_steps(root, scenario) + seq![
            StepView::Log("scenario '"@ + scenario.id() + "' ready"@),
        ]
    }

    /// Bring the whole lab up for `scenario`: the namespace topology, coturn for the
    /// server-mediated scenarios, then the router policy. `pid` is what the pidfile
    /// of an earlier coturn holds.
    pub fn scenario_up(&self, root: bool, scenario: Scenario, pid: Option<&str>) -> (r: Vec<Step>)
        ensures
            steps(r@) == self.scenario_up_steps(
                root,
                scenario,
                match pid {
                    Some(pid) => Some(pid@),
                    None => None,
                },
            ),
    {
        let mut out = self.netns_up(root);
        if scenario.needs_coturn() {
            push_steps(&mut out, self.coturn_up(root, pid));
        }
        push_steps(&mut out, self.nftables_apply(root, scenario));
        push_step(&mut out, Step::Log(concat3("scenario '", scenario.as_str(), "' ready")));
        assert(steps(out@) =~= self.scenario_up_steps(
            root,
            scenario,
            match pid {
                Some(pid) => Some(pid@),
                None => None,
            },
        ));
        out
    }

    /// Tear the whole lab down.
    pub open spec fn scenario_down_steps(
        self,
        root: bool,
        pid: Option<Seq<char>>,
    ) -> Seq<StepView> {
        self.nftables_clear_steps(root) + self.coturn_down_steps(root, pid)
            + self.netns_down_steps(root) + seq![StepView::Log("lab torn down"@)]
    }

    /// Tear the whole lab down, ignoring errors: the router policy, coturn, then the
    /// namespaces. `pid` is what coturn's pidfile holds.
    pub fn scenario_down(&self, root: bool, pid: Option<&str>) -> (r: Vec<Step>)
        ensures
            steps(r@) == self.scenario_down_steps(
                root,
                match pid {
                    Some(pid) => Some(pid@),
                    None => None,
                },
            ),
    {
        let mut out = self.nftables_clear(root);
        push_steps(&mut out, self.coturn_down(root, pid));
        push_steps(&mut out, self.netns_down(root));
        push_step(&mut out, Step::Log("lab torn down".to_string()));
        assert(steps(out@) =~= self.scenario_down_steps(
            root,
            match pid {
                Some(pid) => Some(pid@),
                None => None,
            },
        ));
        out
    }
}

/// A step whose failure cannot stop what comes after it.
pub open spec fn cannot_fail(step: StepView) -> bool {
    step is Log || step is RunIgnored || step is Wait
}

/// Teardown never fails: each of its steps is one whose failure is ignored.
pub proof fn law_teardown_ignores_errors(
    topology: LabTopology,
    root: bool,
    pid: Option<Seq<char>>,
    i: int,
)
    requires
        0 <= i < topology.scenario_down_steps(root, pid).len(),
    ensures
        cannot_fail(topology.scenario_down_steps(root, pid)[i]),
{
    let clear = topology.nftables_clear_steps(root);
    let coturn = topology.coturn_down_steps(root, pid);
    let netns = topology.netns_down_steps(root);
    let all = topology.scenario_down_steps(root, pid);
    if i < clear.len() {
        assert(all[i] == clear[i]);
    } else if i < clear.len() + coturn.len() {
        assert(all[i] == coturn[i - clear.len()]);
    } else if i < clear.len() + coturn.len() + netns.len() {
        assert(all[i] == netns[i - clear.len() - coturn.len()]);
    }
}

// ----- laws ---------------------------------------------------------------------------------------

/// An id stands for a scenario exactly if it is the scenario's own.
pub proof fn law_scenarios_are_read_by_id(id: Seq<char>, scenario: Scenario)
    ensures
        scenario_named(id) == Some(Scenario::Lan) <==> id == "lan"@,
        scenario_named(id) == Some(Scenario::StunSrflx) <==> id == "stun-srflx"@,
        scenario_named(id) == Some(Scenario::TurnRelay) <==> id == "turn-relay"@,
        scenario_named(id) == Some(Scenario::NatSymmetric) <==> id == "nat-symmetric"@,
        scenario_named(id) == Some(scenario) <==> id == scenario.id(),
{
    reveal_strlit("lan");
    reveal_strlit("stun-srflx");
    reveal_strlit("turn-relay");
    reveal_strlit("nat-symmetric");
    assert("lan"@.len() == 3 && "stun-srflx"@.len() == 10 && "turn-relay"@.len() == 10
        && "nat-symmetric"@.len() == 13);
    assert("stun-srflx"@[0] == 's' && "turn-relay"@[0] == 't');
}

/// Which server a scenario's peers are pointed at: none on the plain network, the server by
/// STUN without credentials for server-reflexive candidates, and by TURN over UDP with the
/// lab's credentials where a relay has to do; only the relay scenario forbids anything else.
pub proof fn law_where_peers_are_pointed(
    scenario: Scenario,
    server: Seq<char>,
    user: Seq<char>,
    pass: Seq<char>,
)
    ensures
        ({
            let ice = scenario.ice_of(server, user, pass);
            &&& ice.server_url is None <==> scenario == Scenario::Lan
            &&& ice.server_url == Some("stun:"@ + server) <== scenario == Scenario::StunSrflx
            &&& ice.server_url == Some("turn:"@ + server + "?transport=udp"@) <== scenario
                == Scenario::TurnRelay || scenario == Scenario::NatSymmetric
            &&& scenario == Scenario::TurnRelay || scenario == Scenario::NatSymmetric ==> ice.username
                == user && ice.credential == pass
            &&& scenario == Scenario::Lan || scenario == Scenario::StunSrflx ==> ice.username.len()
                == 0 && ice.credential.len() == 0
            &&& ice.relay_only <==> scenario == Scenario::TurnRelay
        }),
{
}

/// A privileged command is the command itself for root and the same command behind `sudo`
/// for anyone else; in a namespace it stands behind the words that enter the namespace.
pub proof fn law_sudo_is_for_others(
    program: Seq<char>,
    args: Seq<Seq<char>>,
    ns: Seq<char>,
    root: bool,
)
    ensures
        priv_argv(true, program, args) == seq![program] + args,
        priv_argv(false, program, args) == seq!["sudo"@] + priv_argv(true, program, args),
        ns_argv(root, ns, program, args) == priv_argv(root, "ip"@, seq!["netns"@, "exec"@, ns])
            + priv_argv(true, program, args),
{
    assert(priv_argv(false, program, args) =~= seq!["sudo"@] + priv_argv(true, program, args));
    assert(ns_argv(root, ns, program, args) =~= priv_argv(
        root,
        "ip"@,
        seq!["netns"@, "exec"@, ns],
    ) + priv_argv(true, program, args));
}

/// A peer's role decides its address and its namespace, and the two roles do not share
/// either.
pub proof fn law_roles_have_their_own_place(topology: LabTopology)
    ensures
        topology.addr_of(PeerRole::Offerer) == topology.offerer_addr@,
        topology.addr_of(PeerRole::Answerer) == topology.answerer_addr@,
        topology.ns_of(PeerRole::Offerer) == topology.offerer_ns@,
        topology.ns_of(PeerRole::Answerer) == topology.answerer_ns@,
{
}

/// The server that the peers are pointed at is the one that coturn is told to be: where
/// they are pointed at `host:port`, coturn listens and relays at that host and listens on
/// that port, within the relay ports of the lab, and knows the user that the peers present.
pub proof fn law_coturn_is_where_peers_look(
    topology: LabTopology,
    host: Seq<char>,
    port: u16,
    ice: PeerIceView,
)
    requires
        host == topology.signaling_addr@,
        port == topology.turn_port,
        ice == Scenario::TurnRelay.ice_of(
            topology.turn_server(),
            topology.turn_user@,
            topology.turn_pass@,
        ),
    ensures
        ice.server_url == Some(
            "turn:"@ + (host + ":"@ + decimal(port as nat)) + "?transport=udp"@,
        ),
        topology.turn_config_text() == "listening-ip="@ + host + "\nlistening-port="@ + decimal(
            port as nat,
        ) + "\nrelay-ip="@ + host + "\nmin-port="@ + decimal(topology.turn_min_port as nat)
            + "\nmax-port="@ + decimal(topology.turn_max_port as nat)
            + "\nfingerprint\nlt-cred-mech\nrealm="@ + topology.turn_realm@ + "\nuser="@
            + ice.username + ":"@ + ice.credential + "\nno-tls\nno-dtls\nno-cli\npidfile="@
            + joined_path(topology.run_dir@, "turnserver.pid"@) + "\nlog-file="@ + joined_path(
            topology.run_dir@,
            "turnserver.log"@,
        ) + "\nsimple-log\n"@,
{
}

/// A file is placed in a directory behind exactly one slash, and stands alone where the
/// directory is empty.
pub proof fn law_files_stand_in_their_directory(dir: Seq<char>, name: Seq<char>)
    ensures
        dir.len() == 0 ==> joined_path(dir, name) == name,
        dir.len() > 0 && dir.last() != '/' ==> joined_path(dir, name) == dir + "/"@ + name,
        dir.len() > 0 && dir.last() == '/' ==> joined_path(dir, name) == dir + name,
        dir.len() > 0 ==> joined_path(dir, name)[joined_path(dir, name).len() - name.len() - 1]
            == '/',
        joined_path(dir, name).skip(joined_path(dir, name).len() - name.len()) == name,
{
    reveal_strlit("/");
    let path = joined_path(dir, name);
    assert(path.skip(path.len() - name.len()) =~= name);
}

/// Every endpoint is wired to the router: the steps of its link give the endpoint its
/// address and the router its gateway, in one subnet, and send whatever else the endpoint
/// has to say through that gateway.
pub proof fn law_endpoints_reach_the_lab_through_the_router(
    root: bool,
    router: Seq<char>,
    ns: Seq<char>,
    near: Seq<char>,
    far: Seq<char>,
    addr: Seq<char>,
    gw: Seq<char>,
)
    ensures
        ({
            let all = link_steps(root, router, ns, near, far, addr, gw);
            let ip = |ns: Seq<char>, args: Seq<Seq<char>>| ns_argv(root, ns, "ip"@, args);
            &&& all.len() == 9
            &&& all[0]->Run_argv == priv_argv(
                root,
                "ip"@,
                seq!["link"@, "add"@, near, "type"@, "veth"@, "peer"@, "name"@, far],
            )
            &&& all[1]->Run_argv == priv_argv(root, "ip"@, seq!["link"@, "set"@, near, "netns"@, ns])
            &&& all[2]->Run_argv == priv_argv(
                root,
                "ip"@,
                seq!["link"@, "set"@, far, "netns"@, router],
            )
            &&& all[3]->Run_argv == ip(ns, seq!["addr"@, "add"@, addr + "/30"@, "dev"@, near])
            &&& all[4]->Run_argv == ip(ns, seq!["link"@, "set"@, near, "up"@])
            &&& all[5]->Run_argv == ip(ns, seq!["link"@, "set"@, "lo"@, "up"@])
            &&& all[6]->Run_argv == ip(ns, seq!["route"@, "add"@, "default"@, "via"@, gw])
            &&& all[7]->Run_argv == ip(router, seq!["addr"@, "add"@, gw + "/30"@, "dev"@, far])
            &&& all[8]->Run_argv == ip(router, seq!["link"@, "set"@, far, "up"@])
            &&& forall|i: int| 0 <= i < 9 ==> (#[trigger] all[i]) is Run
        }),
{
}

/// Provisioning wires all three endpoints, each by its own address and gateway, after the
/// namespaces are there and the router forwards.
pub proof fn law_every_endpoint_is_wired(topology: LabTopology, root: bool)
    ensures
        ({
            let up = topology.netns_up_steps(root);
            &&& up.len() == 40
            &&& up[10]->Run_argv == ns_argv(
                root,
                topology.router_ns@,
                "sysctl"@,
                seq!["-q"@, "-w"@, "net.ipv4.ip_forward=1"@],
            )
            &&& up.subrange(12, 21) == link_steps(
                root,
                topology.router_ns@,
                topology.offerer_ns@,
                "veth-off"@,
                "veth-roff"@,
                topology.offerer_addr@,
                topology.offerer_gw@,
            )
            &&& up.subrange(21, 30) == link_steps(
                root,
                topology.router_ns@,
                topology.answerer_ns@,
                "veth-ans"@,
                "veth-rans"@,
                topology.answerer_addr@,
                topology.answerer_gw@,
            )
            &&& up.subrange(30, 39) == link_steps(
                root,
                topology.router_ns@,
                topology.signaling_ns@,
                "veth-sig"@,
                "veth-rsig"@,
                topology.signaling_addr@,
                topology.signaling_gw@,
            )
        }),
{
    let up = topology.netns_up_steps(root);
    assert(up.subrange(12, 21) =~= link_steps(
        root,
        topology.router_ns@,
        topology.offerer_ns@,
        "veth-off"@,
        "veth-roff"@,
        topology.offerer_addr@,
        topology.offerer_gw@,
    ));
    assert(up.subrange(21, 30) =~= link_steps(
        root,
        topology.router_ns@,
        topology.answerer_ns@,
        "veth-ans"@,
        "veth-rans"@,
        topology.answerer_addr@,
        topology.answerer_gw@,
    ));
    assert(up.subrange(30, 39) =~= link_steps(
        root,
        topology.router_ns@,
        topology.signaling_ns@,
        "veth-sig"@,
        "veth-rsig"@,
        topology.signaling_addr@,
        topology.signaling_gw@,
    ));
}

/// A namespace is added by one command, which has to succeed, and deleted by one whose
/// failure is ignored.
pub proof fn law_namespaces_come_and_go(root: bool, ns: Seq<char>)
    ensures
        add_ns(root, ns) == (StepView::Run {
            argv: priv_argv(root, "ip"@, seq!["netns"@, "add"@, ns]),
            what: "ip netns add "@ + ns,
        }),
        del_ns(root, ns) == (StepView::RunIgnored {
            argv: priv_argv(root, "ip"@, seq!["netns"@, "del"@, ns]),
        }),
{
}

/// The router rewrites the sources of both peers exactly in the two NAT scenarios: with a
/// mapping that lasts where server-reflexive candidates are to work, and with a random one
/// where they are not.
pub proof fn law_nat_is_what_the_scenario_says(topology: LabTopology, root: bool)
    ensures
        topology.nftables_apply_steps(root, Scenario::StunSrflx)[1] == topology.nft_load_step(
            root,
            topology.nft_text(Some("persistent"@)),
        ),
        topology.nftables_apply_steps(root, Scenario::NatSymmetric)[1] == topology.nft_load_step(
            root,
            topology.nft_text(Some("random"@)),
        ),
        topology.nftables_apply_steps(root, Scenario::TurnRelay)[1] == topology.nft_load_step(
            root,
            topology.nft_text(None),
        ),
        forall|mode: Seq<char>|
            has_substring(
                #[trigger] topology.nft_text(Some(mode)),
                "ip saddr "@ + topology.offerer_subnet@ + " snat ip to "@ + topology.offerer_public@
                    + " "@ + mode,
            ) && has_substring(
                topology.nft_text(Some(mode)),
                "ip saddr "@ + topology.answerer_subnet@ + " snat ip to "@
                    + topology.answerer_public@ + " "@ + mode,
            ),
{
    assert forall|mode: Seq<char>|
        has_substring(
            #[trigger] topology.nft_text(Some(mode)),
            "ip saddr "@ + topology.offerer_subnet@ + " snat ip to "@ + topology.offerer_public@
                + " "@ + mode,
        ) && has_substring(
            topology.nft_text(Some(mode)),
            "ip saddr "@ + topology.answerer_subnet@ + " snat ip to "@ + topology.answerer_public@
                + " "@ + mode,
        ) by {
        let whole = topology.nft_text(Some(mode));
        let a = snat_rule(topology.offerer_subnet@, topology.offerer_public@, mode);
        let b = snat_rule(topology.answerer_subnet@, topology.answerer_public@, mode);
        let start =
            "    chain postrouting {\n        type nat hook postrouting priority srcnat; policy accept;\n        "@;
        let top = "table inet "@ + NFT_TABLE@
            + " {\n    chain forward {\n        type filter hook forward priority 0; policy accept;\n        "@
            + drop_rule(topology.offerer_subnet@, topology.answerer_subnet@) + "\n        "@
            + drop_rule(topology.answerer_subnet@, topology.offerer_subnet@) + "\n    }\n"@;
        let gap = "\n        "@;
        let end = "\n    }\n"@;
        let close = "}\n"@;
        assert(whole =~= (top + start) + a + (gap + b + end + close));
        lemma_has_substring(top + start, a, gap + b + end + close);
        assert(whole =~= (top + start + a + gap) + b + (end + close));
        lemma_has_substring(top + start + a + gap, b, end + close);
    }
}

/// What is dropped: whatever comes from the one subnet and goes to the other.
pub proof fn law_what_a_drop_rule_drops(from: Seq<char>, to: Seq<char>)
    ensures
        drop_rule(from, to) == "ip saddr "@ + from + " ip daddr "@ + to + " drop"@,
        NFT_TABLE@ == "cw_ice"@,
{
}

/// Coturn is stopped by its pid exactly if its pidfile holds one, and by its config in any
/// case, and its pidfile goes.
pub proof fn law_how_coturn_is_stopped(topology: LabTopology, root: bool, pid: Option<Seq<char>>)
    ensures
        ({
            let down = topology.coturn_down_steps(root, pid);
            let known = pid matches Some(text) && trimmed(text).len() > 0;
            let n = if known {
                1int
            } else {
                0
            };
            &&& down.len() == n + 2
            &&& known ==> down[0] == (StepView::RunIgnored {
                argv: priv_argv(root, "kill"@, seq![trimmed(pid->0)]),
            })
            &&& down[n] == (StepView::RunIgnored {
                argv: priv_argv(
                    root,
                    "pkill"@,
                    seq!["-f"@, "turnserver -c "@ + joined_path(topology.run_dir@, "turnserver.conf"@)],
                ),
            })
            &&& down[n + 1] == (StepView::RunIgnored {
                argv: priv_argv(
                    root,
                    "rm"@,
                    seq!["-f"@, joined_path(topology.run_dir@, "turnserver.pid"@)],
                ),
            })
        }),
{
}

/// Coturn is started in the signaling namespace, on the config that was just written, after
/// any earlier one was stopped, and given a second to bind.
pub proof fn law_how_coturn_is_started(topology: LabTopology, root: bool, pid: Option<Seq<char>>)
    ensures
        ({
            let up = topology.coturn_up_steps(root, pid);
            let n = topology.coturn_down_steps(root, pid).len() as int;
            &&& up.len() == n + 5
            &&& up.take(n) == topology.coturn_down_steps(root, pid)
            &&& up[n] == StepView::CreateDir(topology.run_dir@)
            &&& up[n + 1] == (StepView::WriteFile {
                path: topology.turn_conf_path(),
                content: topology.turn_config_text(),
            })
            &&& up[n + 3]->Run_argv == ns_argv(
                root,
                topology.signaling_ns@,
                "turnserver"@,
                seq!["-c"@, topology.turn_conf_path(), "-o"@],
            )
            &&& up[n + 4] == (StepView::Wait { millis: 1000 })
        }),
{
    let up = topology.coturn_up_steps(root, pid);
    let n = topology.coturn_down_steps(root, pid).len() as int;
    assert(up.take(n) =~= topology.coturn_down_steps(root, pid));
}

/// A scenario comes up namespaces first, then coturn where a server is needed, then the
/// router's policy; it goes down in the opposite order.
pub proof fn law_scenarios_go_up_and_down(
    topology: LabTopology,
    root: bool,
    scenario: Scenario,
    pid: Option<Seq<char>>,
)
    ensures
        ({
            let nets = topology.netns_up_steps(root);
            let server = if scenario == Scenario::Lan {
                Seq::<StepView>::empty()
            } else {
                topology.coturn_up_steps(root, pid)
            };
            let policy = topology.nftables_apply_steps(root, scenario);
            topology.scenario_up_steps(root, scenario, pid) == nets + server + policy + seq![
                StepView::Log("scenario '"@ + scenario.id() + "' ready"@),
            ]
        }),
        topology.scenario_down_steps(root, pid) == topology.nftables_clear_steps(root)
            + topology.coturn_down_steps(root, pid) + topology.netns_down_steps(root) + seq![
            StepView::Log("lab torn down"@),
        ],
{
}

/// The canonical lab: one subnet a link, the gateway at `.1` and the endpoint at `.2` of
/// it, and the server where the default configuration expects it.
pub proof fn law_the_canonical_lab(topology: LabTopology)
    requires
        topology.is_canonical(),
    ensures
        topology.namespaces() == seq!["cw-rtr"@, "cw-off"@, "cw-ans"@, "cw-sig"@],
        topology.offerer_addr@ == "10.79.1"@ + ".2"@ && topology.offerer_gw@ == "10.79.1"@ + ".1"@,
        topology.answerer_addr@ == "10.79.2"@ + ".2"@ && topology.answerer_gw@ == "10.79.2"@ + ".1"@,
        topology.signaling_addr@ == "10.79.3"@ + ".2"@ && topology.signaling_gw@ == "10.79.3"@
            + ".1"@,
        topology.offerer_subnet@ == "10.79.1"@ + ".0/30"@,
        topology.answerer_subnet@ == "10.79.2"@ + ".0/30"@,
        topology.signaling_subnet@ == "10.79.3"@ + ".0/30"@,
        topology.offerer_public@ != topology.answerer_public@,
        topology.offerer_public@ != topology.offerer_addr@,
        topology.answerer_public@ != topology.answerer_addr@,
        topology.turn_min_port < topology.turn_max_port,
        topology.turn_port == 3478,
        topology.signaling_port == 8080,
{
    reveal_strlit("10.79.1");
    reveal_strlit("10.79.2");
    reveal_strlit("10.79.3");
    reveal_strlit(".1");
    reveal_strlit(".2");
    reveal_strlit(".0/30");
    reveal_strlit("10.79.1.2");
    reveal_strlit("10.79.1.1");
    reveal_strlit("10.79.2.2");
    reveal_strlit("10.79.2.1");
    reveal_strlit("10.79.3.2");
    reveal_strlit("10.79.3.1");
    reveal_strlit("10.79.1.0/30");
    reveal_strlit("10.79.2.0/30");
    reveal_strlit("10.79.3.0/30");
    reveal_strlit("10.79.11.1");
    reveal_strlit("10.79.12.1");
    assert("10.79.1.2"@ =~= "10.79.1"@ + ".2"@);
    assert("10.79.1.1"@ =~= "10.79.1"@ + ".1"@);
    assert("10.79.2.2"@ =~= "10.79.2"@ + ".2"@);
    assert("10.79.2.1"@ =~= "10.79.2"@ + ".1"@);
    assert("10.79.3.2"@ =~= "10.79.3"@ + ".2"@);
    assert("10.79.3.1"@ =~= "10.79.3"@ + ".1"@);
    assert("10.79.1.0/30"@ =~= "10.79.1"@ + ".0/30"@);
    assert("10.79.2.0/30"@ =~= "10.79.2"@ + ".0/30"@);
    assert("10.79.3.0/30"@ =~= "10.79.3"@ + ".0/30"@);
    assert("10.79.11.1"@[7] == '1' && "10.79.12.1"@[7] == '2');
    assert("10.79.11.1"@.len() == 10 && "10.79.12.1"@.len() == 10);
    assert("10.79.1.2"@.len() == 9 && "10.79.2.2"@.len() == 9);
}

/// Every step of a link says what it does and to what, should it fail.
pub proof fn law_links_say_what_they_do(
    root: bool,
    router: Seq<char>,
    ns: Seq<char>,
    near: Seq<char>,
    far: Seq<char>,
    addr: Seq<char>,
    gw: Seq<char>,
)
    ensures
        ({
            let all = link_steps(root, router, ns, near, far, addr, gw);
            &&& all[0]->what == "creating veth pair "@ + near + "/"@ + far
            &&& all[1]->what == "moving "@ + near + " into "@ + ns
            &&& all[2]->what == "moving "@ + far + " into "@ + router
            &&& all[3]->what == "addressing "@ + near
            &&& all[4]->what == "bringing "@ + near + " up"@
            &&& all[5]->what == "bringing lo up in "@ + ns
            &&& all[6]->what == "default route in "@ + ns
            &&& all[7]->what == "addressing "@ + far
            &&& all[8]->what == "bringing "@ + far + " up"@
        }),
{
}

/// What provisioning does besides the links, in its order: it removes what is left, creates
/// the namespaces, brings the router's loopback up and lets it forward; it tells of each
/// part and of the end.
pub proof fn law_provisioning_goes_step_by_step(topology: LabTopology, root: bool)
    ensures
        ({
            let up = topology.netns_up_steps(root);
            &&& up.take(4) == topology.netns_down_steps(root)
            &&& up[4] == StepView::Log("creating namespaces"@)
            &&& up[5] == add_ns(root, topology.router_ns@)
            &&& up[6] == add_ns(root, topology.offerer_ns@)
            &&& up[7] == add_ns(root, topology.answerer_ns@)
            &&& up[8] == add_ns(root, topology.signaling_ns@)
            &&& up[9] == (StepView::Run {
                argv: ns_argv(
                    root,
                    topology.router_ns@,
                    "ip"@,
                    seq!["link"@, "set"@, "lo"@, "up"@],
                ),
                what: "router lo up"@,
            })
            &&& up[10]->what == "enabling ip_forward in the router"@
            &&& up[11] == StepView::Log("wiring links"@)
            &&& up[39] == StepView::Log("lab ready"@)
        }),
{
    let up = topology.netns_up_steps(root);
    assert(up.take(4) =~= topology.netns_down_steps(root));
}

/// The router's policy is one table of its own: it is deleted, whether or not it is there,
/// and a ruleset is fed in as it stands, both in the router's namespace.
pub proof fn law_policies_are_loaded_in_the_router(
    topology: LabTopology,
    root: bool,
    ruleset: Seq<char>,
)
    ensures
        topology.nftables_clear_steps(root) == seq![
            StepView::RunIgnored {
                argv: ns_argv(
                    root,
                    topology.router_ns@,
                    "nft"@,
                    seq!["delete"@, "table"@, "inet"@, "cw_ice"@],
                ),
            },
        ],
        topology.nft_load_step(root, ruleset) == (StepView::Feed {
            argv: ns_argv(root, topology.router_ns@, "nft"@, seq!["-f"@, "-"@]),
            input: ruleset,
        }),
        topology.nftables_apply_steps(root, Scenario::Lan) == topology.nftables_clear_steps(root),
{
}

/// What the start of coturn says: where it starts, and what to install if it cannot.
pub proof fn law_the_start_of_coturn_is_told(
    topology: LabTopology,
    root: bool,
    pid: Option<Seq<char>>,
)
    ensures
        ({
            let up = topology.coturn_up_steps(root, pid);
            let n = topology.coturn_down_steps(root, pid).len() as int;
            &&& up[n + 2] == StepView::Log(
                "starting coturn in "@ + topology.signaling_ns@ + " on "@ + topology.turn_server(),
            )
            &&& up[n + 3]->what == "starting turnserver (install coturn; see scripts/setup.sh)"@
        }),
{
}

/// The canonical lab keeps its files under one directory, and relays within its own ports
/// under its own credentials.
pub proof fn law_the_canonical_server(topology: LabTopology)
    requires
        topology.is_canonical(),
    ensures
        topology.run_dir@ == "/tmp/conformance-netns"@,
        topology.turn_min_port == 49160,
        topology.turn_max_port == 49200,
        topology.turn_user@ == "conf"@ && topology.turn_pass@ == "conf"@ && topology.turn_realm@
            == "conformance"@,
        topology.offerer_public@ == "10.79.11.1"@ && topology.answerer_public@ == "10.79.12.1"@,
{
}

} // verus!
