//! What one guest instance of a test is run with: its role and configuration, and
//! the command line that hands them to a peer process.

use vstd::prelude::*;

use crate::peer_command::test_args;
use crate::text::{
    concat2, debug_quoted, decimal, has_prefix, law_number_round_trip, number, opt_text,
    parse_number, quoted, same, texts,
};

verus! {

/// The role one guest instance plays.
#[derive(Debug, Clone, Copy, PartialEq, Eq, Structural)]
pub enum Role {
    Offerer,
    Answerer,
    /// One instance stands up both peers.
    Both,
}

impl Role {
    /// The role on a peer's command line.
    pub open spec fn name(self) -> Seq<char> {
        match self {
            Role::Offerer => "offerer"@,
            Role::Answerer => "answerer"@,
            Role::Both => "both"@,
        }
    }

    /// The role on a peer's command line.
    pub fn as_str(self) -> (r: &'static str)
        ensures
            r@ == self.name(),
    {
        match self {
            Role::Offerer => "offerer",
            Role::Answerer => "answerer",
            Role::Both => "both",
        }
    }
}

/// The role a name stands for.
pub open spec fn role_named(name: Seq<char>) -> Option<Role> {
    if name == "offerer"@ {
        Some(Role::Offerer)
    } else if name == "answerer"@ {
        Some(Role::Answerer)
    } else if name == "both"@ {
        Some(Role::Both)
    } else {
        None
    }
}

fn find_role(name: &str) -> (r: Option<Role>)
    ensures
        r == role_named(name@),
{
    if same(name, "offerer") {
        Some(Role::Offerer)
    } else if same(name, "answerer") {
        Some(Role::Answerer)
    } else if same(name, "both") {
        Some(Role::Both)
    } else {
        None
    }
}

/// Read a role from a command line.
pub fn parse_role(s: &str) -> (r: Result<Role, String>)
    ensures
        match r {
            Ok(role) => role_named(s@) == Some(role),
            Err(e) => role_named(s@) is None && e@ == "unknown role "@ + debug_quoted(s@)
                + " (offerer|answerer|both)"@,
        },
{
    match find_role(s) {
        Some(role) => Ok(role),
        None => {
            let mut e = "unknown role ".to_string();
            e.append(quoted(s).as_str());
            e.append(" (offerer|answerer|both)");
            Err(e)
        },
    }
}

/// Every role is read back from its name.
pub proof fn law_role_round_trips(role: Role)
    ensures
        role_named(role.name()) == Some(role),
{
    reveal_strlit("offerer");
    reveal_strlit("answerer");
    reveal_strlit("both");
    assert("offerer"@.len() == 7 && "answerer"@.len() == 8 && "both"@.len() == 4);
}

/// The configuration of one guest instance.
#[derive(Debug, Clone)]
pub struct TestConfig {
    pub role: Role,
    pub signaling_server: String,
    pub room: String,
    pub message_count: u32,
    pub message_size: u32,
    pub trickle: bool,
}

/// The contents of a [`TestConfig`].
#[verifier::ext_equal]
pub struct TestConfigView {
    pub role: Role,
    pub signaling_server: Seq<char>,
    pub room: Seq<char>,
    pub message_count: u32,
    pub message_size: u32,
    pub trickle: bool,
}

impl View for TestConfig {
    type V = TestConfigView;

    open spec fn view(&self) -> TestConfigView {
        TestConfigView {
            role: self.role,
            signaling_server: self.signaling_server@,
            room: self.room@,
            message_count: self.message_count,
            message_size: self.message_size,
            trickle: self.trickle,
        }
    }
}

/// Build a test config for one instance.
pub fn make_config(role: Role, base_url: &str, room: &str, count: u32, size: u32) -> (r: TestConfig)
    ensures
        r@ == (TestConfigView {
            role,
            signaling_server: base_url@,
            room: room@,
            message_count: count,
            message_size: size,
            trickle: true,
        }),
{
    TestConfig {
        role,
        signaling_server: base_url.to_string(),
        room: room.to_string(),
        message_count: count,
        message_size: size,
        trickle: true,
    }
}

// ----- the driver's command line -------------------------------------------------------

/// How the driver is invoked.
pub open spec fn usage() -> Seq<char> {
    "usage: conformance-wasip3 --test <id> --role <offerer|answerer|both> --server <url> --room <id> [--message-count N] [--message-size N] [--no-trickle]"@
}

/// An error message, followed by how the driver is invoked.
pub open spec fn with_usage(message: Seq<char>) -> Seq<char> {
    message + "\n"@ + usage()
}

fn usage_error(message: String) -> (r: String)
    ensures
        r@ == with_usage(message@),
{
    let mut out = message;
    out.append("\n");
    out.append(
        "usage: conformance-wasip3 --test <id> --role <offerer|answerer|both> --server <url> --room <id> [--message-count N] [--message-size N] [--no-trickle]",
    );
    out
}

/// What has been read of a command line.
struct Flags {
    test_id: Option<String>,
    role: Option<Role>,
    server: Option<String>,
    room: Option<String>,
    message_count: u32,
    message_size: u32,
    trickle: bool,
}

/// What has been read of a command line.
#[verifier::ext_equal]
pub struct FlagsView {
    pub test_id: Option<Seq<char>>,
    pub role: Option<Role>,
    pub server: Option<Seq<char>>,
    pub room: Option<Seq<char>>,
    pub message_count: u32,
    pub message_size: u32,
    pub trickle: bool,
}

impl View for Flags {
    type V = FlagsView;

    closed spec fn view(&self) -> FlagsView {
        FlagsView {
            test_id: opt_text(self.test_id),
            role: self.role,
            server: opt_text(self.server),
            room: opt_text(self.room),
            message_count: self.message_count,
            message_size: self.message_size,
            trickle: self.trickle,
        }
    }
}

/// Nothing read yet: the defaults.
pub open spec fn no_flags() -> FlagsView {
    FlagsView {
        test_id: None,
        role: None,
        server: None,
        room: None,
        message_count: 4,
        message_size: 256,
        trickle: true,
    }
}

/// The flags that a value follows.
pub open spec fn takes_value(flag: Seq<char>) -> bool {
    ||| flag == "--test"@
    ||| flag == "--role"@
    ||| flag == "--server"@
    ||| flag == "--room"@
    ||| flag == "--message-count"@
    ||| flag == "--message-size"@
}

/// What a flag and the value behind it set. A flag that stands twice counts as
/// it stands last.
pub open spec fn set_flag(acc: FlagsView, flag: Seq<char>, value: Seq<char>) -> Result<
    FlagsView,
    Seq<char>,
> {
    if flag == "--test"@ {
        Ok(FlagsView { test_id: Some(value), ..acc })
    } else if flag == "--role"@ {
        match role_named(value) {
            Some(role) => Ok(FlagsView { role: Some(role), ..acc }),
            None => Err(with_usage("unknown role "@ + debug_quoted(value))),
        }
    } else if flag == "--server"@ {
        Ok(FlagsView { server: Some(value), ..acc })
    } else if flag == "--room"@ {
        Ok(FlagsView { room: Some(value), ..acc })
    } else if flag == "--message-count"@ {
        match number(value, u32::MAX as nat) {
            Ok(n) => Ok(FlagsView { message_count: n as u32, ..acc }),
            Err(e) => Err(with_usage("bad --message-count: "@ + e.text())),
        }
    } else {
        match number(value, u32::MAX as nat) {
            Ok(n) => Ok(FlagsView { message_size: n as u32, ..acc }),
            Err(e) => Err(with_usage("bad --message-size: "@ + e.text())),
        }
    }
}

/// What the arguments from the `i`-th on set, on top of `acc`.
pub open spec fn read_flags(args: Seq<Seq<char>>, i: int, acc: FlagsView) -> Result<
    FlagsView,
    Seq<char>,
>
    decreases args.len() - i,
{
    if i < 0 || i >= args.len() {
        Ok(acc)
    } else if args[i] == "--no-trickle"@ {
        read_flags(args, i + 1, FlagsView { trickle: false, ..acc })
    } else if !takes_value(args[i]) {
        Err(with_usage("unknown flag "@ + debug_quoted(args[i])))
    } else if i + 1 >= args.len() {
        Err(with_usage("missing value for "@ + args[i]))
    } else {
        match set_flag(acc, args[i], args[i + 1]) {
            Ok(acc) => read_flags(args, i + 2, acc),
            Err(e) => Err(e),
        }
    }
}

/// The test and configuration that the flags ask for.
pub open spec fn invocation(flags: FlagsView) -> Result<(Seq<char>, TestConfigView), Seq<char>> {
    match (flags.test_id, flags.role, flags.server, flags.room) {
        (None, _, _, _) => Err(with_usage("missing --test"@)),
        (_, None, _, _) => Err(with_usage("missing --role"@)),
        (_, _, None, _) => Err(with_usage("missing --server"@)),
        (_, _, _, None) => Err(with_usage("missing --room"@)),
        (Some(test_id), Some(role), Some(signaling_server), Some(room)) => Ok(
            (
                test_id,
                TestConfigView {
                    role,
                    signaling_server,
                    room,
                    message_count: flags.message_count,
                    message_size: flags.message_size,
                    trickle: flags.trickle,
                },
            ),
        ),
    }
}

/// The test and configuration that a command line asks for.
pub open spec fn command_line(args: Seq<Seq<char>>) -> Result<
    (Seq<char>, TestConfigView),
    Seq<char>,
> {
    match read_flags(args, 0, no_flags()) {
        Ok(flags) => invocation(flags),
        Err(e) => Err(e),
    }
}

impl Flags {
    fn set(&mut self, flag: &str, value: &str) -> (r: Result<(), String>)
        requires
            takes_value(flag@),
        ensures
            match r {
                Ok(()) => set_flag(old(self)@, flag@, value@) == Ok::<FlagsView, Seq<char>>(
                    final(self)@,
                ),
                Err(e) => set_flag(old(self)@, flag@, value@) == Err::<FlagsView, Seq<char>>(e@),
            },
    {
        if same(flag, "--test") {
            self.test_id = Some(value.to_string());
        } else if same(flag, "--role") {
            match find_role(value) {
                Some(role) => {
                    self.role = Some(role);
                },
                None => {
                    return Err(usage_error(concat2("unknown role ", quoted(value).as_str())));
                },
            }
        } else if same(flag, "--server") {
            self.server = Some(value.to_string());
        } else if same(flag, "--room") {
            self.room = Some(value.to_string());
        } else if same(flag, "--message-count") {
            match parse_number(value, u32::MAX as u64) {
                Ok(n) => {
                    self.message_count = n as u32;
                },
                Err(e) => {
                    return Err(usage_error(concat2("bad --message-count: ", e.message())));
                },
            }
        } else {
            match parse_number(value, u32::MAX as u64) {
                Ok(n) => {
                    self.message_size = n as u32;
                },
                Err(e) => {
                    return Err(usage_error(concat2("bad --message-size: ", e.message())));
                },
            }
        }
        Ok(())
    }
}

/// Parse `--test <id> --role <offerer|answerer|both> --server <url> --room <id>
/// [--message-count N] [--message-size N] [--no-trickle]` into a test id and the
/// configuration to run it with. The arguments are those behind the program name.
pub fn parse_args(args: &[String]) -> (r: Result<(String, TestConfig), String>)
    ensures
        match r {
            Ok((test_id, config)) => command_line(texts(args@)) == Ok::<
                (Seq<char>, TestConfigView),
                Seq<char>,
            >((test_id@, config@)),
            Err(e) => command_line(texts(args@)) == Err::<(Seq<char>, TestConfigView), Seq<char>>(
                e@,
            ),
        },
{
    let ghost all = texts(args@);
    let mut flags = Flags {
        test_id: None,
        role: None,
        server: None,
        room: None,
        message_count: 4,
        message_size: 256,
        trickle: true,
    };
    assert(flags@ =~= no_flags());
    let mut i: usize = 0;
    while i < args.len()
        invariant
            i <= args@.len(),
            all == texts(args@),
            read_flags(all, 0, no_flags()) == read_flags(all, i as int, flags@),
        decreases args@.len() - i,
    {
        let flag = args[i].as_str();
        assert(all[i as int] == flag@);
        if same(flag, "--no-trickle") {
            let ghost before = flags@;
            flags.trickle = false;
            assert(flags@ =~= (FlagsView { trickle: false, ..before }));
            i += 1;
        } else if same(flag, "--test") || same(flag, "--role") || same(flag, "--server") || same(
            flag,
            "--room",
        ) || same(flag, "--message-count") || same(flag, "--message-size") {
            if i + 1 >= args.len() {
                return Err(usage_error(concat2("missing value for ", flag)));
            }
            let value = args[i + 1].as_str();
            assert(all[i + 1] == value@);
            match flags.set(flag, value) {
                Ok(()) => {},
                Err(e) => {
                    return Err(e);
                },
            }
            i += 2;
        } else {
            return Err(usage_error(concat2("unknown flag ", quoted(flag).as_str())));
        }
    }
    let test_id = match flags.test_id {
        Some(test_id) => test_id,
        None => {
            return Err(usage_error("missing --test".to_string()));
        },
    };
    let role = match flags.role {
        Some(role) => role,
        None => {
            return Err(usage_error("missing --role".to_string()));
        },
    };
    let signaling_server = match flags.server {
        Some(server) => server,
        None => {
            return Err(usage_error("missing --server".to_string()));
        },
    };
    let room = match flags.room {
        Some(room) => room,
        None => {
            return Err(usage_error("missing --room".to_string()));
        },
    };
    let config = TestConfig {
        role,
        signaling_server,
        room,
        message_count: flags.message_count,
        message_size: flags.message_size,
        trickle: flags.trickle,
    };
    Ok((test_id, config))
}

/// A peer understands the command line that executors build for it: it runs the
/// test they name, with the role, signaling server, room and message parameters
/// they chose, trickling its candidates.
pub proof fn law_peers_understand_their_command_line(
    test_id: Seq<char>,
    role: Role,
    signaling_server: Seq<char>,
    room: Seq<char>,
    count: u32,
    size: u32,
)
    ensures
        command_line(test_args(test_id, role.name(), signaling_server, room, count, size)) == Ok::<
            (Seq<char>, TestConfigView),
            Seq<char>,
        >(
            (
                test_id,
                TestConfigView {
                    role,
                    signaling_server,
                    room,
                    message_count: count,
                    message_size: size,
                    trickle: true,
                },
            ),
        ),
{
    let args = test_args(test_id, role.name(), signaling_server, room, count, size);
    reveal_strlit("--test");
    reveal_strlit("--role");
    reveal_strlit("--server");
    reveal_strlit("--room");
    reveal_strlit("--message-count");
    reveal_strlit("--message-size");
    reveal_strlit("--no-trickle");
    assert("--test"@.len() == 6 && "--role"@.len() == 6 && "--server"@.len() == 8
        && "--room"@.len() == 6 && "--message-count"@.len() == 15 && "--message-size"@.len() == 14
        && "--no-trickle"@.len() == 12);
    assert("--test"@[2] == 't' && "--role"@[2] == 'r' && "--room"@[2] == 'r' && "--role"@[4] == 'l'
        && "--room"@[4] == 'o');
    law_role_round_trips(role);
    law_number_round_trip(count as nat, u32::MAX as nat);
    law_number_round_trip(size as nat, u32::MAX as nat);
    let f0 = no_flags();
    let f1 = FlagsView { test_id: Some(test_id), ..f0 };
    let f2 = FlagsView { role: Some(role), ..f1 };
    let f3 = FlagsView { server: Some(signaling_server), ..f2 };
    let f4 = FlagsView { room: Some(room), ..f3 };
    let f5 = FlagsView { message_count: count, ..f4 };
    let f6 = FlagsView { message_size: size, ..f5 };
    assert(read_flags(args, 12, f6) == Ok::<FlagsView, Seq<char>>(f6));
    assert(read_flags(args, 10, f5) == read_flags(args, 12, f6));
    assert(read_flags(args, 8, f4) == read_flags(args, 10, f5));
    assert(read_flags(args, 6, f3) == read_flags(args, 8, f4));
    assert(read_flags(args, 4, f2) == read_flags(args, 6, f3));
    assert(read_flags(args, 2, f1) == read_flags(args, 4, f2));
    assert(read_flags(args, 0, f0) == read_flags(args, 2, f1));
}

// ----- laws -------------------------------------------------------------------------------

/// A name stands for a role exactly if it is the role's own: nothing else is read as one.
pub proof fn law_roles_are_read_by_name(name: Seq<char>, role: Role)
    ensures
        role_named(name) == Some(Role::Offerer) <==> name == "offerer"@,
        role_named(name) == Some(Role::Answerer) <==> name == "answerer"@,
        role_named(name) == Some(Role::Both) <==> name == "both"@,
        role_named(name) == Some(role) <==> name == role.name(),
        role.name() == "offerer"@ <==> role == Role::Offerer,
        role.name() == "answerer"@ <==> role == Role::Answerer,
        role.name() == "both"@ <==> role == Role::Both,
{
    reveal_strlit("offerer");
    reveal_strlit("answerer");
    reveal_strlit("both");
    assert("offerer"@.len() == 7 && "answerer"@.len() == 8 && "both"@.len() == 4);
}

proof fn lemma_flag_names()
    ensures
        "--test"@ != "--role"@,
        "--test"@ != "--room"@,
        "--role"@ != "--room"@,
        "--test"@.len() == 6,
        "--role"@.len() == 6,
        "--room"@.len() == 6,
        "--server"@.len() == 8,
        "--message-count"@.len() == 15,
        "--message-size"@.len() == 14,
        "--no-trickle"@.len() == 12,
{
    reveal_strlit("--test");
    reveal_strlit("--role");
    reveal_strlit("--server");
    reveal_strlit("--room");
    reveal_strlit("--message-count");
    reveal_strlit("--message-size");
    reveal_strlit("--no-trickle");
    assert("--test"@[2] == 't' && "--role"@[2] == 'r' && "--room"@[2] == 'r' && "--role"@[4] == 'l'
        && "--room"@[4] == 'o');
}

/// Each flag sets what it is named after and nothing else, whatever was set before.
pub proof fn law_each_flag_sets_its_own(acc: FlagsView, value: Seq<char>, role: Role, n: u32)
    ensures
        set_flag(acc, "--test"@, value) == Ok::<FlagsView, Seq<char>>(
            FlagsView { test_id: Some(value), ..acc },
        ),
        set_flag(acc, "--server"@, value) == Ok::<FlagsView, Seq<char>>(
            FlagsView { server: Some(value), ..acc },
        ),
        set_flag(acc, "--room"@, value) == Ok::<FlagsView, Seq<char>>(
            FlagsView { room: Some(value), ..acc },
        ),
        value == role.name() ==> set_flag(acc, "--role"@, value) == Ok::<FlagsView, Seq<char>>(
            FlagsView { role: Some(role), ..acc },
        ),
        value == decimal(n as nat) ==> set_flag(acc, "--message-count"@, value) == Ok::<
            FlagsView,
            Seq<char>,
        >(FlagsView { message_count: n, ..acc }),
        value == decimal(n as nat) ==> set_flag(acc, "--message-size"@, value) == Ok::<
            FlagsView,
            Seq<char>,
        >(FlagsView { message_size: n, ..acc }),
        set_flag(acc, "--role"@, value) is Err <==> value != "offerer"@ && value != "answerer"@
            && value != "both"@,
        set_flag(acc, "--message-count"@, value) is Err <==> number(value, u32::MAX as nat) is Err,
        set_flag(acc, "--message-size"@, value) is Err <==> number(value, u32::MAX as nat) is Err,
{
    lemma_flag_names();
    law_roles_are_read_by_name(value, role);
    law_number_round_trip(n as nat, u32::MAX as nat);
}

/// A command line is read flag by flag: `--no-trickle` stands alone and turns trickling
/// off; every other known flag takes the argument behind it; an unknown flag, a flag whose
/// value is missing and a value that is refused end the reading with an error that says so
/// and how the program is invoked.
pub proof fn law_flags_are_read_one_by_one(args: Seq<Seq<char>>, i: int, acc: FlagsView)
    requires
        0 <= i < args.len(),
    ensures
        args[i] == "--no-trickle"@ ==> read_flags(args, i, acc) == read_flags(
            args,
            i + 1,
            FlagsView { trickle: false, ..acc },
        ),
        ({
            let valued = args[i] == "--test"@ || args[i] == "--role"@ || args[i] == "--server"@
                || args[i] == "--room"@ || args[i] == "--message-count"@ || args[i]
                == "--message-size"@;
            &&& valued && i + 1 < args.len() ==> (read_flags(args, i, acc) == match set_flag(
                acc,
                args[i],
                args[i + 1],
            ) {
                Ok(next) => read_flags(args, i + 2, next),
                Err(e) => Err(e),
            })
            &&& valued && i + 1 == args.len() ==> (read_flags(args, i, acc) matches Err(e)
                && has_prefix(e, "missing value for "@ + args[i] + "\n"@))
            &&& !valued && args[i] != "--no-trickle"@ ==> (read_flags(args, i, acc) matches Err(e)
                && has_prefix(e, "unknown flag "@ + debug_quoted(args[i]) + "\n"@))
        }),
        read_flags(args, args.len() as int, acc) == Ok::<FlagsView, Seq<char>>(acc),
{
    lemma_flag_names();
    lemma_with_usage("missing value for "@ + args[i]);
    lemma_with_usage("unknown flag "@ + debug_quoted(args[i]));
}

proof fn lemma_with_usage(message: Seq<char>)
    ensures
        has_prefix(with_usage(message), message + "\n"@),
{
    let whole = with_usage(message);
    let head = message + "\n"@;
    assert(whole.subrange(0, head.len() as int) =~= head);
}

/// A test is run exactly if the test, the role, the server and the room were all given;
/// what was not said of the messages is four of 256 bytes, trickling candidates.
pub proof fn law_four_flags_are_needed(flags: FlagsView)
    ensures
        invocation(flags) is Ok <==> flags.test_id is Some && flags.role is Some && flags.server is Some
            && flags.room is Some,
        invocation(flags) matches Ok((test_id, config)) ==> {
            &&& flags.test_id == Some(test_id)
            &&& flags.role == Some(config.role)
            &&& flags.server == Some(config.signaling_server)
            &&& flags.room == Some(config.room)
            &&& flags.message_count == config.message_count
            &&& flags.message_size == config.message_size
            &&& flags.trickle == config.trickle
        },
        invocation(flags) matches Err(e) ==> has_prefix(
            e,
            (if flags.test_id is None {
                "missing --test"@
            } else if flags.role is None {
                "missing --role"@
            } else if flags.server is None {
                "missing --server"@
            } else {
                "missing --room"@
            }) + "\n"@,
        ),
        no_flags().message_count == 4,
        no_flags().message_size == 256,
        no_flags().trickle,
        invocation(no_flags()) is Err,
{
    lemma_with_usage("missing --test"@);
    lemma_with_usage("missing --role"@);
    lemma_with_usage("missing --server"@);
    lemma_with_usage("missing --room"@);
}

/// What is refused is named in front of how the program is invoked: a role that is none, and
/// a number that cannot be read, with the reason.
pub proof fn law_refused_values_are_named(
    acc: FlagsView,
    value: Seq<char>,
    why: crate::text::IntError,
)
    ensures
        role_named(value) is None ==> set_flag(acc, "--role"@, value) == Err::<
            FlagsView,
            Seq<char>,
        >(
            "unknown role "@ + debug_quoted(value) + "\n"@
                + "usage: conformance-wasip3 --test <id> --role <offerer|answerer|both> --server <url> --room <id> [--message-count N] [--message-size N] [--no-trickle]"@,
        ),
        number(value, u32::MAX as nat) == Err::<nat, crate::text::IntError>(why) ==> set_flag(
            acc,
            "--message-count"@,
            value,
        ) == Err::<FlagsView, Seq<char>>(
            "bad --message-count: "@ + why.text() + "\n"@ + usage(),
        ) && set_flag(acc, "--message-size"@, value) == Err::<FlagsView, Seq<char>>(
            "bad --message-size: "@ + why.text() + "\n"@ + usage(),
        ),
{
    lemma_flag_names();
}

} // verus!
