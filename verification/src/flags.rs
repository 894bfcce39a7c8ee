//! The flags of device file descriptors.
//!
//! A descriptor that was handed over shares its open file description with the
//! one who sent it: whether reads block is set for both, whether it survives
//! `exec` only for this one.

use vstd::prelude::*;

verus! {

/// The bits of the open flags that matter here; their values are the machine's.
#[derive(Clone, Copy, PartialEq, Eq, Structural, Debug)]
pub struct OpenFlags {
    /// Reads do not block.
    pub nonblock: i32,
    /// The descriptor is closed on `exec`.
    pub cloexec: i32,
    /// A terminal does not become the controlling one.
    pub noctty: i32,
}

impl OpenFlags {
    /// The bits are those of a Linux machine: of most, of a MIPS or of a SPARC.
    pub open spec fn linux(self) -> bool {
        ||| self == (OpenFlags { nonblock: 0x800, cloexec: 0x8_0000, noctty: 0x100 })
        ||| self == (OpenFlags { nonblock: 0x80, cloexec: 0x8_0000, noctty: 0x800 })
        ||| self == (OpenFlags { nonblock: 0x4000, cloexec: 0x40_0000, noctty: 0x8000 })
    }
}

/// The bits of `O_NONBLOCK`, `O_CLOEXEC` and `O_NOCTTY` of
/// `nix::fcntl::OFlag`. They are the constants of the C library, which differ
/// between machines: on Linux there are three sets of them, and the claim is that
/// these are one of the three.
#[verifier::external_body]
fn host_bits() -> (host: OpenFlags)
    ensures
        host.linux(),
{
    OpenFlags {
        nonblock: nix::fcntl::OFlag::O_NONBLOCK.bits(),
        cloexec: nix::fcntl::OFlag::O_CLOEXEC.bits(),
        noctty: nix::fcntl::OFlag::O_NOCTTY.bits(),
    }
}

/// `flags` has all bits of `wanted`.
pub open spec fn has_flags(flags: i32, wanted: i32) -> bool {
    flags & wanted == wanted
}

/// Whether `flags` has all bits of `wanted`.
fn contains_flags(flags: i32, wanted: i32) -> (b: bool)
    ensures
        b == has_flags(flags, wanted),
{
    flags & wanted == wanted
}

impl OpenFlags {
    /// The bits on this machine.
    pub fn host() -> (host: OpenFlags)
        ensures
            host.linux(),
    {
        host_bits()
    }

    /// The status flags of a descriptor, made blocking.
    pub fn blocking(&self, flags: i32) -> (updated: i32)
        ensures
            updated == flags & !self.nonblock,
    {
        flags & !self.nonblock
    }

    /// The status flags of a descriptor, made non-blocking.
    pub fn nonblocking(&self, flags: i32) -> (updated: i32)
        ensures
            updated == flags | self.nonblock,
    {
        flags | self.nonblock
    }

    /// The flags that an input device is opened with: non-blocking, and closed
    /// on `exec`.
    pub fn for_input(&self) -> (flags: i32)
        ensures
            flags == self.nonblock | self.cloexec,
    {
        self.nonblock | self.cloexec
    }

    /// The flags that a device is opened with directly, besides reading and
    /// writing: it becomes no controlling terminal and is closed on `exec`.
    pub fn for_direct_open(&self) -> (flags: i32)
        ensures
            flags == self.noctty | self.cloexec,
    {
        self.noctty | self.cloexec
    }
}

/// A call of `fcntl`.
#[derive(Clone, Copy, PartialEq, Eq, Structural, Debug)]
pub enum FcntlCall {
    /// Read the status flags.
    GetStatusFlags,
    /// Set the status flags to these.
    SetStatusFlags(i32),
    /// Have the descriptor closed on `exec`.
    SetCloseOnExec,
}

/// What comes next when open flags are applied to a descriptor.
#[derive(Clone, Copy, PartialEq, Eq, Structural, Debug)]
pub enum FlagStep {
    /// Make this call.
    Call(FcntlCall),
    /// All flags are applied.
    Applied,
    /// A call failed with this error number; the rest is not applied.
    Failed(i32),
}

/// What comes once the status flags are settled.
pub open spec fn after_status_flags(flags: i32, host: OpenFlags) -> FlagStep {
    if has_flags(flags, host.cloexec) {
        FlagStep::Call(FcntlCall::SetCloseOnExec)
    } else {
        FlagStep::Applied
    }
}

/// The first step of applying `flags`.
pub open spec fn first_step(flags: i32, host: OpenFlags) -> FlagStep {
    if has_flags(flags, host.nonblock) {
        FlagStep::Call(FcntlCall::GetStatusFlags)
    } else {
        after_status_flags(flags, host)
    }
}

/// The step that follows a call and what it returned.
pub open spec fn step_after(
    call: FcntlCall,
    answer: Result<i32, i32>,
    flags: i32,
    host: OpenFlags,
) -> FlagStep {
    match answer {
        Err(errno) => FlagStep::Failed(errno),
        Ok(value) => match call {
            FcntlCall::GetStatusFlags => FlagStep::Call(
                FcntlCall::SetStatusFlags(value | host.nonblock),
            ),
            FcntlCall::SetStatusFlags(_) => after_status_flags(flags, host),
            FcntlCall::SetCloseOnExec => FlagStep::Applied,
        },
    }
}

/// Starts to apply the open flags that were asked for to a descriptor. Of these
/// only two can be changed later: whether reads block, and whether the
/// descriptor is closed on `exec`.
pub fn apply_open_flags(flags: i32, host: &OpenFlags) -> (step: FlagStep)
    ensures
        step == first_step(flags, *host),
{
    if contains_flags(flags, host.nonblock) {
        FlagStep::Call(FcntlCall::GetStatusFlags)
    } else if contains_flags(flags, host.cloexec) {
        FlagStep::Call(FcntlCall::SetCloseOnExec)
    } else {
        FlagStep::Applied
    }
}

/// Goes on with applying open flags, after a call and what it returned.
pub fn continue_open_flags(
    call: FcntlCall,
    answer: Result<i32, i32>,
    flags: i32,
    host: &OpenFlags,
) -> (step: FlagStep)
    ensures
        step == step_after(call, answer, flags, *host),
{
    let value: i32 = match answer {
        Ok(value) => value,
        Err(errno) => {
            return FlagStep::Failed(errno);
        },
    };
    match call {
        FcntlCall::GetStatusFlags => FlagStep::Call(
            FcntlCall::SetStatusFlags(host.nonblocking(value)),
        ),
        FcntlCall::SetStatusFlags(_) => if contains_flags(flags, host.cloexec) {
            FlagStep::Call(FcntlCall::SetCloseOnExec)
        } else {
            FlagStep::Applied
        },
        FcntlCall::SetCloseOnExec => FlagStep::Applied,
    }
}

/// The calls that applying `flags` makes if each succeeds; `current` are the
/// status flags of the descriptor.
pub open spec fn calls_to_apply(flags: i32, host: OpenFlags, current: i32) -> Seq<FcntlCall> {
    let status = if has_flags(flags, host.nonblock) {
        seq![FcntlCall::GetStatusFlags, FcntlCall::SetStatusFlags(current | host.nonblock)]
    } else {
        seq![]
    };
    if has_flags(flags, host.cloexec) {
        status.push(FcntlCall::SetCloseOnExec)
    } else {
        status
    }
}

/// The calls are made in the order of [`calls_to_apply`], one step each, and then
/// the flags are applied. A call that fails ends it with its error at once.
pub proof fn flags_are_applied_in_order(flags: i32, host: OpenFlags, current: i32, set: i32)
    ensures
        ({
            let calls = calls_to_apply(flags, host, current);
            let answer = |call: FcntlCall|
                if call is GetStatusFlags {
                    Ok::<i32, i32>(current)
                } else {
                    Ok::<i32, i32>(set)
                };
            &&& first_step(flags, host) == (if calls.len() == 0 {
                FlagStep::Applied
            } else {
                FlagStep::Call(calls[0])
            })
            &&& forall|i: int|
                0 <= i < calls.len() ==> step_after(
                    #[trigger] calls[i],
                    answer(calls[i]),
                    flags,
                    host,
                ) == (if i + 1 < calls.len() {
                    FlagStep::Call(calls[i + 1])
                } else {
                    FlagStep::Applied
                })
            &&& forall|i: int, errno: i32|
                0 <= i < calls.len() ==> #[trigger] step_after(calls[i], Err(errno), flags, host)
                    == FlagStep::Failed(errno)
        }),
{
}

/// Making a descriptor blocking clears that flag and no other bit, and making it
/// non-blocking sets it and no other.
pub proof fn only_the_blocking_flag_changes(flags: i32, nonblock: i32, other: i32)
    requires
        other & nonblock == 0,
    ensures
        (flags & !nonblock) & nonblock == 0,
        (flags & !nonblock) & other == flags & other,
        has_flags(flags | nonblock, nonblock),
        (flags | nonblock) & other == flags & other,
{
    assert((flags & !nonblock) & nonblock == 0) by (bit_vector);
    assert((flags & !nonblock) & other == flags & other) by (bit_vector)
        requires
            other & nonblock == 0,
    ;
    assert((flags | nonblock) & nonblock == nonblock) by (bit_vector);
    assert((flags | nonblock) & other == flags & other) by (bit_vector)
        requires
            other & nonblock == 0,
    ;
}

/// A device that is opened for input is made non-blocking and closed on `exec`,
/// whatever the machine's bits are.
pub proof fn input_devices_get_both_flags(host: OpenFlags, current: i32)
    ensures
        calls_to_apply(host.nonblock | host.cloexec, host, current) == seq![
            FcntlCall::GetStatusFlags,
            FcntlCall::SetStatusFlags(current | host.nonblock),
            FcntlCall::SetCloseOnExec,
        ],
{
    let a = host.nonblock;
    let b = host.cloexec;
    assert((a | b) & a == a && (a | b) & b == b) by (bit_vector);
    assert(calls_to_apply(a | b, host, current) =~= seq![
        FcntlCall::GetStatusFlags,
        FcntlCall::SetStatusFlags(current | host.nonblock),
        FcntlCall::SetCloseOnExec,
    ]);
}

/// Asking for one flag is not asking for another: what is opened for input and
/// what is opened directly gets just the flags that it was opened with.
pub proof fn only_the_flags_asked_for_are_applied(host: OpenFlags, current: i32)
    requires
        host.linux(),
    ensures
        calls_to_apply(host.nonblock, host, current) == seq![
            FcntlCall::GetStatusFlags,
            FcntlCall::SetStatusFlags(current | host.nonblock),
        ],
        calls_to_apply(host.cloexec, host, current) == seq![FcntlCall::SetCloseOnExec],
        calls_to_apply(host.noctty, host, current) == Seq::<FcntlCall>::empty(),
        calls_to_apply(host.noctty | host.cloexec, host, current) == seq![
            FcntlCall::SetCloseOnExec,
        ],
{
    let (n, c, t) = (host.nonblock, host.cloexec, host.noctty);
    assert(n & n == n && n & c != c && c & n != n && c & c == c && t & n != n && t & c != c && (t
        | c) & n != n && (t | c) & c == c) by (bit_vector)
        requires
            (n == 0x800 && c == 0x8_0000 && t == 0x100) || (n == 0x80 && c == 0x8_0000 && t
                == 0x800) || (n == 0x4000 && c == 0x40_0000 && t == 0x8000),
    ;
}

/// Which calls are made depends on the two flags and on nothing else that was
/// asked for. Asked for both, the descriptor's flags are read, written back with
/// the non-blocking one, and then it is closed on `exec`; of what was not asked
/// for, no call is made.
pub proof fn each_flag_asked_for_is_applied(flags: i32, host: OpenFlags, current: i32, set: i32)
    ensures
        ({
            let nonblock = flags & host.nonblock == host.nonblock;
            let last = if flags & host.cloexec == host.cloexec {
                FlagStep::Call(FcntlCall::SetCloseOnExec)
            } else {
                FlagStep::Applied
            };
            let written = FcntlCall::SetStatusFlags(current | host.nonblock);
            &&& nonblock ==> first_step(flags, host) == FlagStep::Call(FcntlCall::GetStatusFlags)
            &&& !nonblock ==> first_step(flags, host) == last
            &&& step_after(FcntlCall::GetStatusFlags, Ok(current), flags, host) == FlagStep::Call(
                written,
            )
            &&& step_after(written, Ok(set), flags, host) == last
            &&& step_after(FcntlCall::SetCloseOnExec, Ok(set), flags, host) == FlagStep::Applied
        }),
{
}

/// Whatever call fails, and with whatever error, nothing more is done and that
/// error is the outcome.
pub proof fn a_failed_call_is_the_outcome(
    call: FcntlCall,
    errno: i32,
    flags: i32,
    host: OpenFlags,
)
    ensures
        step_after(call, Err(errno), flags, host) == FlagStep::Failed(errno),
{
}

/// Flags are there exactly if every bit of them is.
pub proof fn flags_are_there_bit_by_bit(flags: i32, wanted: i32, more: i32)
    ensures
        has_flags(flags, wanted) <==> flags & wanted == wanted,
        has_flags(flags, wanted | more) <==> has_flags(flags, wanted) && has_flags(flags, more),
        has_flags(flags, 0),
        has_flags(flags | wanted, wanted),
{
    assert((flags & (wanted | more) == wanted | more) <==> (flags & wanted == wanted && flags & more
        == more)) by (bit_vector);
    assert(flags & 0 == 0) by (bit_vector);
    assert((flags | wanted) & wanted == wanted) by (bit_vector);
}

} // verus!
