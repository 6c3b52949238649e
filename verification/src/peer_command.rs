//! The per-target peer command templates shared by the environment executors.
//!
//! An environment executor (the Shadow lab, the netns lab) never runs a guest
//! itself; it launches **peers**, one process per role of a test, that all honour
//! the same single-peer contract (`--test`, `--role`, `--server`, `--room` and so
//! on; one single-line JSON `test-result` on stdout). This module owns how each
//! target's peer process is invoked, so supporting a peer in a new environment
//! means teaching the executor a placement, not the peer the environment:
//!
//! - [`PeerKind`] selects the target whose peer runs,
//! - [`PeerCommand`] holds that kind's binaries and components as absolute paths
//!   (executors hand the argv to processes that run with a different cwd) and
//!   builds one peer's argv from a [`PeerRun`], and
//! - [`PeerRole`] and [`PeerIce`] carry the per-role placement and ICE parameters
//!   as plain data.

use vstd::prelude::*;

use crate::text::{decimal, lemma_texts_push, opt_text, texts, to_decimal};

verus! {

broadcast use lemma_texts_push;

/// A peer's role in a two-peer test. Environment executors always run one offerer
/// and one answerer (the in-process `both` role never appears in a lab).
#[derive(Debug, Clone, Copy, PartialEq, Eq, Structural)]
pub enum PeerRole {
    Offerer,
    Answerer,
}

impl PeerRole {
    /// The role string passed on the peer command line.
    pub open spec fn name(self) -> Seq<char> {
        match self {
            PeerRole::Offerer => "offerer"@,
            PeerRole::Answerer => "answerer"@,
        }
    }

    /// The role string passed on the peer command line.
    pub fn as_str(self) -> (r: &'static str)
        ensures
            r@ == self.name(),
    {
        match self {
            PeerRole::Offerer => "offerer",
            PeerRole::Answerer => "answerer",
        }
    }
}

/// The ICE parameters one peer runs with, as plain data: an optional STUN/TURN
/// server (with long-term credentials) and the relay-only policy. The default is
/// host candidates only.
#[derive(Debug, Clone)]
pub struct PeerIce {
    /// STUN/TURN server URL, e.g. `stun:10.79.3.2:3478` or
    /// `turn:10.79.3.2:3478?transport=udp`. `None` gathers host candidates only.
    pub server_url: Option<String>,
    /// TURN long-term-credential username (ignored for STUN-only servers).
    pub username: String,
    /// TURN long-term-credential secret (ignored for STUN-only servers).
    pub credential: String,
    /// Restrict the peer to TURN relay candidates (the `relay` ICE transport
    /// policy). Requires `server_url` to name a TURN server.
    pub relay_only: bool,
}

/// The contents of a [`PeerIce`].
#[verifier::ext_equal]
pub struct PeerIceView {
    pub server_url: Option<Seq<char>>,
    pub username: Seq<char>,
    pub credential: Seq<char>,
    pub relay_only: bool,
}

impl View for PeerIce {
    type V = PeerIceView;

    open spec fn view(&self) -> PeerIceView {
        PeerIceView {
            server_url: opt_text(self.server_url),
            username: self.username@,
            credential: self.credential@,
            relay_only: self.relay_only,
        }
    }
}

/// Host candidates only.
pub open spec fn host_candidates() -> PeerIceView {
    PeerIceView { server_url: None, username: seq![], credential: seq![], relay_only: false }
}

impl Default for PeerIce {
    fn default() -> (r: Self)
        ensures
            r@ == host_candidates(),
    {
        let r = PeerIce {
            server_url: None,
            username: String::new(),
            credential: String::new(),
            relay_only: false,
        };
        assert(r.username@ =~= seq![]);
        assert(r.credential@ =~= seq![]);
        r
    }
}

impl PeerIceView {
    /// These parameters ask for nothing beyond plain host candidates.
    pub open spec fn is_plain(self) -> bool {
        self.server_url is None && !self.relay_only
    }
}

impl PeerIce {
    /// Whether these parameters ask for nothing beyond plain host candidates.
    pub fn is_default(&self) -> (r: bool)
        ensures
            r == self@.is_plain(),
    {
        self.server_url.is_none() && !self.relay_only
    }
}

/// How a peer host's command line is built (which target's peer runs).
#[derive(Debug, Clone, Copy, PartialEq, Eq, Structural)]
pub enum PeerKind {
    /// The native `conformance-peer` binary (the wasmtime host).
    Wasmtime,
    /// The composed wasip3 conformance component under `wasmtime run`.
    Wasip3Guest,
}

impl PeerKind {
    /// The target id conventionally recorded in result documents for this kind.
    pub open spec fn target(self) -> Seq<char> {
        match self {
            PeerKind::Wasmtime => "wasmtime"@,
            PeerKind::Wasip3Guest => "wasip3-guest"@,
        }
    }

    /// The target id conventionally recorded in result documents for this kind.
    pub fn default_target(self) -> (r: &'static str)
        ensures
            r@ == self.target(),
    {
        match self {
            PeerKind::Wasmtime => "wasmtime",
            PeerKind::Wasip3Guest => "wasip3-guest",
        }
    }
}

/// The parameters of one peer invocation: one role of one test, placed at a bind
/// address with its ICE parameters.
#[derive(Debug, Clone)]
pub struct PeerRun<'a> {
    pub test_id: &'a str,
    pub role: &'a str,
    pub signaling_url: &'a str,
    pub room: &'a str,
    pub count: u32,
    pub size: u32,
    /// UDP interface address the peer binds and gathers its host candidate from.
    pub bind_addr: &'a str,
    /// STUN/TURN parameters; `None` behaves like the default.
    pub ice: Option<&'a PeerIce>,
    /// Disable multicast-DNS candidate gathering (`wasmtime` kind only; the
    /// sans-I/O wasip3 stack has no mDNS).
    pub disable_mdns: bool,
}

/// The resolved per-role peer command template: how one peer process is invoked,
/// with binaries and components resolved to absolute paths.
#[derive(Debug, Clone)]
pub enum PeerCommand {
    /// `conformance-peer --guest ... --bind-addr <ip> [--disable-mdns] ...`
    Wasmtime { peer_bin: String, guest: String },
    /// `wasmtime run ... --env WEBRTC_UDP_BIND_ADDR=<ip> <component> ...`
    Wasip3Guest { wasmtime_bin: String, component: String },
}

/// Why a peer cannot be invoked.
#[derive(Debug, Clone, Copy, PartialEq, Eq, Structural)]
pub enum PeerCommandError {
    /// The peer kind supports no STUN/TURN servers.
    NoIceServers,
}

impl PeerCommandError {
    /// The message of this error.
    pub open spec fn text(self) -> Seq<char> {
        "the wasip3-guest peer's in-guest sans-I/O stack supports no STUN/TURN servers; only the `lan` scenario (host candidates) is supported for this peer kind"@
    }

    /// The message of this error.
    pub fn message(self) -> (r: &'static str)
        ensures
            r@ == self.text(),
    {
        "the wasip3-guest peer's in-guest sans-I/O stack supports no STUN/TURN servers; only the `lan` scenario (host candidates) is supported for this peer kind"
    }
}

// ----- argv ------------------------------------------------------------------------------

/// What every peer is told of the test: id, role, signaling, room and parameters.
pub open spec fn test_args(
    test_id: Seq<char>,
    role: Seq<char>,
    signaling_url: Seq<char>,
    room: Seq<char>,
    count: u32,
    size: u32,
) -> Seq<Seq<char>> {
    seq![
        "--test"@,
        test_id,
        "--role"@,
        role,
        "--server"@,
        signaling_url,
        "--room"@,
        room,
        "--message-count"@,
        decimal(count as nat),
        "--message-size"@,
        decimal(size as nat),
    ]
}

/// The flags that hand a peer its ICE parameters.
pub open spec fn ice_args(ice: Option<PeerIceView>) -> Seq<Seq<char>> {
    match ice {
        None => seq![],
        Some(ice) => {
            let server = match ice.server_url {
                Some(url) => seq![
                    "--ice-server-url"@,
                    url,
                    "--ice-username"@,
                    ice.username,
                    "--ice-credential"@,
                    ice.credential,
                ],
                None => seq![],
            };
            if ice.relay_only {
                server.push("--relay-only"@)
            } else {
                server
            }
        },
    }
}

/// How `wasmtime run` is told to run a wasip3 component.
pub open spec fn wasmtime_run_args(wasmtime_bin: Seq<char>) -> Seq<Seq<char>> {
    seq![
        wasmtime_bin,
        "run"@,
        "-W"@,
        "component-model-async=y"@,
        "-S"@,
        "cli"@,
        "-S"@,
        "p3"@,
        "-S"@,
        "http"@,
        "-S"@,
        "inherit-network"@,
    ]
}

/// The contents of a [`PeerRun`].
#[verifier::ext_equal]
pub struct RunView {
    pub test_id: Seq<char>,
    pub role: Seq<char>,
    pub signaling_url: Seq<char>,
    pub room: Seq<char>,
    pub count: u32,
    pub size: u32,
    pub bind_addr: Seq<char>,
    pub ice: Option<PeerIceView>,
    pub disable_mdns: bool,
}

impl<'a> View for PeerRun<'a> {
    type V = RunView;

    open spec fn view(&self) -> RunView {
        RunView {
            test_id: self.test_id@,
            role: self.role@,
            signaling_url: self.signaling_url@,
            room: self.room@,
            count: self.count,
            size: self.size,
            bind_addr: self.bind_addr@,
            ice: match self.ice {
                Some(ice) => Some(ice@),
                None => None,
            },
            disable_mdns: self.disable_mdns,
        }
    }
}

impl RunView {
    /// What this peer is told of the test.
    pub open spec fn shared(self) -> Seq<Seq<char>> {
        test_args(
            self.test_id,
            self.role,
            self.signaling_url,
            self.room,
            self.count,
            self.size,
        )
    }
}

impl PeerCommand {
    /// This command can run a peer with these ICE parameters.
    pub open spec fn accepts(self, ice: Option<PeerIceView>) -> bool {
        self is Wasip3Guest ==> (ice matches Some(ice) ==> ice.is_plain())
    }

    /// The argv of one peer process.
    pub open spec fn argv_texts(self, run: RunView) -> Seq<Seq<char>> {
        match self {
            PeerCommand::Wasmtime { peer_bin, guest } => seq![peer_bin@, "--guest"@, guest@]
                + run.shared() + seq!["--bind-addr"@, run.bind_addr] + ice_args(run.ice) + (
            if run.disable_mdns {
                seq!["--disable-mdns"@]
            } else {
                seq![]
            }),
            PeerCommand::Wasip3Guest { wasmtime_bin, component } => wasmtime_run_args(
                wasmtime_bin@,
            ) + seq!["--env"@, "WEBRTC_UDP_BIND_ADDR="@ + run.bind_addr, component@]
                + run.shared(),
        }
    }

    /// The full argv (element 0 is the executable) for one peer process, as plain
    /// unquoted strings. Callers embedding the argv in a structured format (e.g.
    /// the Shadow YAML config) apply their own quoting.
    ///
    /// Fails for a `wasip3-guest` peer with non-default ICE parameters: the
    /// in-guest sans-I/O stack supports no STUN/TURN, so only the `lan` scenario
    /// (host candidates) fits that kind.
    pub fn argv(&self, run: &PeerRun<'_>) -> (r: Result<Vec<String>, PeerCommandError>)
        ensures
            r is Ok == self.accepts(run@.ice),
            match r {
                Ok(argv) => texts(argv@) == self.argv_texts(run@),
                Err(e) => e == PeerCommandError::NoIceServers,
            },
    {
        let mut args: Vec<String> = Vec::new();
        assert(texts(args@) =~= seq![]);
        match self {
            PeerCommand::Wasmtime { peer_bin, guest } => {
                args.push(peer_bin.clone());
                args.push("--guest".to_string());
                args.push(guest.clone());
                assert(texts(args@) =~= seq![peer_bin@, "--guest"@, guest@]);
                push_test_args(
                    &mut args,
                    run.test_id,
                    run.role,
                    run.signaling_url,
                    run.room,
                    run.count,
                    run.size,
                );
                args.push("--bind-addr".to_string());
                args.push(run.bind_addr.to_string());
                let ghost placed = seq![peer_bin@, "--guest"@, guest@] + run@.shared() + seq![
                    "--bind-addr"@,
                    run.bind_addr@,
                ];
                assert(texts(args@) =~= placed);
                if let Some(ice) = run.ice {
                    push_ice_args(&mut args, ice);
                }
                assert(texts(args@) =~= placed + ice_args(run@.ice));
                if run.disable_mdns {
                    args.push("--disable-mdns".to_string());
                }
                assert(texts(args@) =~= self.argv_texts(run@));
                Ok(args)
            },
            PeerCommand::Wasip3Guest { wasmtime_bin, component } => {
                if let Some(ice) = run.ice {
                    if !ice.is_default() {
                        return Err(PeerCommandError::NoIceServers);
                    }
                }
                push_wasmtime_run(&mut args, wasmtime_bin.as_str());
                args.push("--env".to_string());
                let mut bind = "WEBRTC_UDP_BIND_ADDR=".to_string();
                bind.append(run.bind_addr);
                args.push(bind);
                args.push(component.clone());
                push_test_args(
                    &mut args,
                    run.test_id,
                    run.role,
                    run.signaling_url,
                    run.room,
                    run.count,
                    run.size,
                );
                assert(texts(args@) =~= self.argv_texts(run@));
                Ok(args)
            },
        }
    }
}

/// Append what every peer is told of the test.
pub(crate) fn push_test_args(
    args: &mut Vec<String>,
    test_id: &str,
    role: &str,
    signaling_url: &str,
    room: &str,
    count: u32,
    size: u32,
)
    ensures
        texts(final(args)@) == texts(old(args)@) + test_args(
            test_id@,
            role@,
            signaling_url@,
            room@,
            count,
            size,
        ),
{
    args.push("--test".to_string());
    args.push(test_id.to_string());
    args.push("--role".to_string());
    args.push(role.to_string());
    args.push("--server".to_string());
    args.push(signaling_url.to_string());
    args.push("--room".to_string());
    args.push(room.to_string());
    args.push("--message-count".to_string());
    args.push(to_decimal(count as u64));
    args.push("--message-size".to_string());
    args.push(to_decimal(size as u64));
    assert(texts(args@) =~= texts(old(args)@) + test_args(
        test_id@,
        role@,
        signaling_url@,
        room@,
        count,
        size,
    ));
}

/// Append the flags that hand a peer its ICE parameters.
pub(crate) fn push_ice_args(args: &mut Vec<String>, ice: &PeerIce)
    ensures
        texts(final(args)@) == texts(old(args)@) + ice_args(Some(ice@)),
{
    if let Some(url) = &ice.server_url {
        args.push("--ice-server-url".to_string());
        args.push(url.clone());
        args.push("--ice-username".to_string());
        args.push(ice.username.clone());
        args.push("--ice-credential".to_string());
        args.push(ice.credential.clone());
    }
    if ice.relay_only {
        args.push("--relay-only".to_string());
    }
    assert(texts(args@) =~= texts(old(args)@) + ice_args(Some(ice@)));
}

/// Append how `wasmtime run` is told to run a wasip3 component.
pub(crate) fn push_wasmtime_run(args: &mut Vec<String>, wasmtime_bin: &str)
    ensures
        texts(final(args)@) == texts(old(args)@) + wasmtime_run_args(wasmtime_bin@),
{
    args.push(wasmtime_bin.to_string());
    args.push("run".to_string());
    args.push("-W".to_string());
    args.push("component-model-async=y".to_string());
    args.push("-S".to_string());
    args.push("cli".to_string());
    args.push("-S".to_string());
    args.push("p3".to_string());
    args.push("-S".to_string());
    args.push("http".to_string());
    args.push("-S".to_string());
    args.push("inherit-network".to_string());
    assert(texts(args@) =~= texts(old(args)@) + wasmtime_run_args(wasmtime_bin@));
}

// ----- laws ------------------------------------------------------------------------------

/// The roles, kinds and defaults by their names.
pub proof fn law_roles_and_kinds_have_their_names(role: PeerRole, kind: PeerKind)
    ensures
        role.name() == "offerer"@ <==> role == PeerRole::Offerer,
        role.name() == "answerer"@ <==> role == PeerRole::Answerer,
        kind.target() == "wasmtime"@ <==> kind == PeerKind::Wasmtime,
        kind.target() == "wasip3-guest"@ <==> kind == PeerKind::Wasip3Guest,
        host_candidates().is_plain(),
{
    reveal_strlit("offerer");
    reveal_strlit("answerer");
    reveal_strlit("wasmtime");
    reveal_strlit("wasip3-guest");
    assert("offerer"@.len() != "answerer"@.len());
    assert("wasmtime"@.len() != "wasip3-guest"@.len());
}

/// A peer can be invoked exactly if it is the native one or is asked for nothing beyond
/// host candidates: no server and no restriction to relays.
pub proof fn law_in_guest_peers_take_no_servers(command: PeerCommand, ice: Option<PeerIceView>)
    ensures
        command.accepts(ice) <==> command is Wasmtime || ice is None || (ice->0.server_url is None
            && !ice->0.relay_only),
        command.accepts(None),
{
}

/// What every peer is told of its test stands in its arguments: each value right behind
/// the flag that names it.
pub proof fn law_every_value_follows_its_flag(
    test_id: Seq<char>,
    role: Seq<char>,
    url: Seq<char>,
    room: Seq<char>,
    count: u32,
    size: u32,
)
    ensures
        ({
            let args = test_args(test_id, role, url, room, count, size);
            &&& args.len() == 12
            &&& args[0] == "--test"@ && args[1] == test_id
            &&& args[2] == "--role"@ && args[3] == role
            &&& args[4] == "--server"@ && args[5] == url
            &&& args[6] == "--room"@ && args[7] == room
            &&& args[8] == "--message-count"@ && args[9] == decimal(count as nat)
            &&& args[10] == "--message-size"@ && args[11] == decimal(size as nat)
        }),
{
}

/// A peer is handed a server, with its user and its secret, exactly if it has one, and is
/// restricted to relays exactly if that was asked for.
pub proof fn law_ice_parameters_are_handed_over(ice: PeerIceView)
    ensures
        ({
            let args = ice_args(Some(ice));
            &&& ice.server_url matches Some(url) ==> args.len() >= 6 && args[0]
                == "--ice-server-url"@ && args[1] == url && args[2] == "--ice-username"@ && args[3]
                == ice.username && args[4] == "--ice-credential"@ && args[5] == ice.credential
            &&& args.len() == (if ice.server_url is Some {
                6int
            } else {
                0
            }) + (if ice.relay_only {
                1int
            } else {
                0
            })
            &&& ice.relay_only ==> args.last() == "--relay-only"@
            &&& ice.is_plain() ==> args.len() == 0
        }),
        ice_args(None).len() == 0,
{
}

/// How the native peer is invoked: its binary, the guest, what it is told of the test, the
/// address it binds, its ICE parameters, and, last, whether it gathers by multicast DNS.
pub proof fn law_how_native_peers_are_invoked(peer_bin: String, guest: String, run: RunView)
    ensures
        ({
            let argv = (PeerCommand::Wasmtime { peer_bin, guest }).argv_texts(run);
            &&& argv[0] == peer_bin@
            &&& argv[1] == "--guest"@ && argv[2] == guest@
            &&& argv.subrange(3, 15) == test_args(
                run.test_id,
                run.role,
                run.signaling_url,
                run.room,
                run.count,
                run.size,
            )
            &&& argv[15] == "--bind-addr"@ && argv[16] == run.bind_addr
            &&& argv.subrange(17, 17int + ice_args(run.ice).len()) == ice_args(run.ice)
            &&& argv.len() == 17 + ice_args(run.ice).len() + (if run.disable_mdns {
                1int
            } else {
                0
            })
            &&& run.disable_mdns ==> argv.last() == "--disable-mdns"@
        }),
{
    let argv = (PeerCommand::Wasmtime { peer_bin, guest }).argv_texts(run);
    assert(argv.subrange(3, 15) =~= run.shared());
    assert(argv.subrange(17, 17int + ice_args(run.ice).len()) =~= ice_args(run.ice));
}

/// How the in-guest peer is invoked: the runtime with the interfaces that the component
/// needs, the address it binds in its environment, the component, and what it is told of
/// the test.
pub proof fn law_how_in_guest_peers_are_invoked(
    wasmtime_bin: String,
    component: String,
    run: RunView,
)
    ensures
        ({
            let argv = (PeerCommand::Wasip3Guest { wasmtime_bin, component }).argv_texts(run);
            &&& argv.len() == 27
            &&& argv[0] == wasmtime_bin@ && argv[1] == "run"@
            &&& argv[2] == "-W"@ && argv[3] == "component-model-async=y"@
            &&& argv[4] == "-S"@ && argv[5] == "cli"@
            &&& argv[6] == "-S"@ && argv[7] == "p3"@
            &&& argv[8] == "-S"@ && argv[9] == "http"@
            &&& argv[10] == "-S"@ && argv[11] == "inherit-network"@
            &&& argv[12] == "--env"@ && argv[13] == "WEBRTC_UDP_BIND_ADDR="@ + run.bind_addr
            &&& argv[14] == component@
            &&& argv.skip(15) == test_args(
                run.test_id,
                run.role,
                run.signaling_url,
                run.room,
                run.count,
                run.size,
            )
        }),
{
    let argv = (PeerCommand::Wasip3Guest { wasmtime_bin, component }).argv_texts(run);
    assert(argv.skip(15) =~= run.shared());
}

/// A peer that cannot be invoked is refused with what it does not support and what it does.
pub proof fn law_refused_peers_say_why(error: PeerCommandError)
    ensures
        error.text()
            == "the wasip3-guest peer's in-guest sans-I/O stack supports no STUN/TURN servers; only the `lan` scenario (host candidates) is supported for this peer kind"@,
{
}

} // verus!
