//! The decisions behind the overrides of the socket calls that a network simulator does not
//! implement: every call is forwarded first, and only the simulator's own rejection is
//! bridged.

use vstd::prelude::*;

use crate::text::{concat2, decimal, to_decimal};

verus! {

/// The protocol level of IPv4 options.
pub const IPPROTO_IP: i32 = 0;

/// The option that enables destination-address control messages.
pub const IP_PKTINFO: i32 = 8;

/// The option that sets path-MTU discovery.
pub const IP_MTU_DISCOVER: i32 = 10;

/// The option that enables TOS control messages.
pub const IP_RECVTOS: i32 = 13;

/// The error of an option that is not implemented.
pub const ENOPROTOOPT: i32 = 92;

/// The error of a call that is not implemented.
pub const ENOSYS: i32 = 38;

/// The error of an invalid argument.
pub const EINVAL: i32 = 22;

/// The flag by which a batch ends with its first message.
pub const MSG_WAITFORONE: i32 = 0x10000;

/// The options that the simulator rejects although the socket layer needs them to succeed.
pub open spec fn is_stubbed(level: i32, optname: i32) -> bool {
    level == IPPROTO_IP && (optname == IP_PKTINFO || optname == IP_MTU_DISCOVER || optname
        == IP_RECVTOS)
}

/// Whether this option is one that the simulator rejects although the socket layer needs it
/// to succeed: the optional-receive-metadata options on IPv4 sockets.
pub fn stubbed_ip_option(level: i32, optname: i32) -> (r: bool)
    ensures
        r == is_stubbed(level, optname),
{
    level == IPPROTO_IP && (optname == IP_PKTINFO || optname == IP_MTU_DISCOVER || optname
        == IP_RECVTOS)
}

/// A signed number in decimal.
pub open spec fn signed_decimal(n: int) -> Seq<char> {
    if n < 0 {
        "-"@ + decimal((-n) as nat)
    } else {
        decimal(n as nat)
    }
}

fn to_signed_decimal(n: i32) -> (r: String)
    ensures
        r@ == signed_decimal(n as int),
{
    if n < 0 {
        concat2("-", to_decimal((-(n as i64)) as u64).as_str())
    } else {
        to_decimal(n as u64)
    }
}

/// What an override of `setsockopt` does with the forwarded call's outcome.
#[derive(Debug)]
pub enum OptionStep {
    /// Return this.
    Return(i32),
    /// Print this diagnostic and abort.
    Abort(String),
}

/// The diagnostic of an option that failed in an unknown way.
pub open spec fn option_diagnostic(fd: int, level: int, optname: int, error: Seq<char>) -> Seq<char> {
    "shadow-syscall-shim: setsockopt(fd="@ + signed_decimal(fd) + ", level="@ + signed_decimal(
        level,
    ) + ", opt="@ + signed_decimal(optname) + ") failed with unexpected error "@ + error
        + " (expected success on a real kernel or ENOPROTOOPT under Shadow); aborting"@
}

/// Decide upon a forwarded `setsockopt`: report success when a targeted option fails with
/// the simulator's rejection; abort on any other targeted failure; else hand the outcome
/// on. `errno` is the error code of a failed call, and `error` is its text.
pub fn after_setsockopt(fd: i32, level: i32, optname: i32, ret: i32, errno: i32, error: &str) -> (r:
    OptionStep)
    ensures
        match r {
            OptionStep::Return(code) => if ret == 0 || !is_stubbed(level, optname) {
                code == ret
            } else {
                errno == ENOPROTOOPT && code == 0
            },
            OptionStep::Abort(text) => {
                &&& ret != 0 && is_stubbed(level, optname) && errno != ENOPROTOOPT
                &&& text@ == option_diagnostic(fd as int, level as int, optname as int, error@)
            },
        },
{
    if ret == 0 || !stubbed_ip_option(level, optname) {
        return OptionStep::Return(ret);
    }
    if errno == ENOPROTOOPT {
        return OptionStep::Return(0);
    }
    let mut text = concat2(
        "shadow-syscall-shim: setsockopt(fd=",
        to_signed_decimal(fd).as_str(),
    );
    text.append(", level=");
    text.append(to_signed_decimal(level).as_str());
    text.append(", opt=");
    text.append(to_signed_decimal(optname).as_str());
    text.append(") failed with unexpected error ");
    text.append(error);
    text.append(" (expected success on a real kernel or ENOPROTOOPT under Shadow); aborting");
    OptionStep::Abort(text)
}

/// Whether batches are received by the kernel or one message at a time.
pub struct BatchReceive {
    /// Whether the kernel was seen not to implement the call.
    pub unimplemented: bool,
}

/// What an override of `recvmmsg` does first.
#[derive(Debug, Clone, Copy, PartialEq, Eq, Structural)]
pub enum BatchStep {
    /// Return this.
    Return(i32),
    /// Fail with this error code.
    Fail(i32),
    /// Receive one message with these flags.
    ReceiveOne { flags: i32 },
}

/// What is done instead of a batch.
pub open spec fn emulated(no_buffers: bool, vlen: u32, flags: i32) -> BatchStep {
    if no_buffers || vlen == 0 {
        BatchStep::Fail(EINVAL)
    } else {
        BatchStep::ReceiveOne { flags: flags & !MSG_WAITFORONE }
    }
}

impl BatchReceive {
    /// Whether the call is still forwarded.
    pub fn forwards(&self) -> (r: bool)
        ensures
            r == !self.unimplemented,
    {
        !self.unimplemented
    }

    /// Decide upon a forwarded call: hand every outcome on but the simulator's
    /// unimplemented-call error, upon which batches are emulated from then on.
    pub fn after_recvmmsg(&mut self, ret: i32, errno: i32, no_buffers: bool, vlen: u32, flags: i32) -> (r:
        BatchStep)
        ensures
            if ret >= 0 || errno != ENOSYS {
                r == BatchStep::Return(ret) && final(self).unimplemented == old(
                    self,
                ).unimplemented
            } else {
                r == emulated(no_buffers, vlen, flags) && final(self).unimplemented
            },
    {
        if ret >= 0 || errno != ENOSYS {
            return BatchStep::Return(ret);
        }
        self.unimplemented = true;
        self.emulate(no_buffers, vlen, flags)
    }

    /// Receive one message in place of a batch.
    pub fn emulate(&self, no_buffers: bool, vlen: u32, flags: i32) -> (r: BatchStep)
        ensures
            r == emulated(no_buffers, vlen, flags),
    {
        if no_buffers || vlen == 0 {
            BatchStep::Fail(EINVAL)
        } else {
            BatchStep::ReceiveOne { flags: flags & !MSG_WAITFORONE }
        }
    }
}

/// What a batch of one comes to: the number of messages, and the length of the message if
/// there is one.
pub fn after_recvmsg(received: i64) -> (r: (i32, Option<u32>))
    ensures
        r == (if received < 0 {
            (-1i32, None::<u32>)
        } else {
            (1i32, Some(#[verifier::truncate] (received as u32)))
        }),
{
    if received < 0 {
        (-1, None)
    } else {
        (1, Some(received as u32))
    }
}

/// Clearing a flag leaves every other flag as it is.
pub proof fn law_other_flags_are_kept(flags: i32, other: i32)
    requires
        other & MSG_WAITFORONE == 0,
    ensures
        (flags & !MSG_WAITFORONE) & other == flags & other,
        (flags & !MSG_WAITFORONE) & MSG_WAITFORONE == 0,
{
    assert(MSG_WAITFORONE == 0x10000);
    assert((flags & !0x10000i32) & 0x10000i32 == 0) by (bit_vector);
    assert(other & 0x10000i32 == 0 ==> (flags & !0x10000i32) & other == flags & other)
        by (bit_vector);
}

/// Which options are bridged: those of IPv4 for destination addresses, path-MTU discovery
/// and TOS, by the numbers that the kernel gives them, and no option of another level.
pub proof fn law_which_options_are_bridged(level: i32, optname: i32)
    ensures
        is_stubbed(level, optname) <==> level == 0 && (optname == 8 || optname == 10 || optname
            == 13),
        ENOPROTOOPT == 92,
        ENOSYS == 38,
        EINVAL == 22,
        MSG_WAITFORONE == 0x10000,
{
}

/// A batch without room for a message fails as invalid; any other becomes one receive, with
/// the flag of batches cleared.
pub proof fn law_a_batch_becomes_one_receive(no_buffers: bool, vlen: u32, flags: i32)
    ensures
        emulated(no_buffers, vlen, flags) is ReceiveOne <==> !no_buffers && vlen > 0,
        emulated(no_buffers, vlen, flags) == BatchStep::Fail(22) <==> no_buffers || vlen == 0,
        emulated(no_buffers, vlen, flags) matches BatchStep::ReceiveOne { flags: kept } ==> kept
            == flags & !0x10000i32,
{
    assert(MSG_WAITFORONE == 0x10000);
}

/// A signed number shows its sign exactly if it is negative, and behind it the digits of
/// its absolute value.
pub proof fn law_signs_are_shown(n: int)
    ensures
        n >= 0 ==> signed_decimal(n) == decimal(n as nat),
        n < 0 ==> signed_decimal(n)[0] == '-' && signed_decimal(n).skip(1) == decimal((-n) as nat),
{
    reveal_strlit("-");
    if n < 0 {
        assert(signed_decimal(n).skip(1) =~= decimal((-n) as nat));
    }
}

/// The diagnostic names the socket, the level and the option, in this order, and the error.
pub proof fn law_diagnostics_name_the_option(fd: int, level: int, optname: int, error: Seq<char>)
    ensures
        option_diagnostic(fd, level, optname, error) == "shadow-syscall-shim: setsockopt(fd="@
            + signed_decimal(fd) + ", level="@ + signed_decimal(level) + ", opt="@ + signed_decimal(
            optname,
        ) + ") failed with unexpected error "@ + error
            + " (expected success on a real kernel or ENOPROTOOPT under Shadow); aborting"@,
{
}

} // verus!
