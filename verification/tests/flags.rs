use linuxsgc::flags::{
    apply_open_flags, continue_open_flags, FcntlCall, FlagStep, OpenFlags,
};
use nix::fcntl::OFlag;

#[test]
fn the_bits_are_the_machines() {
    let host = OpenFlags::host();
    assert_eq!(host.nonblock, OFlag::O_NONBLOCK.bits());
    assert_eq!(host.cloexec, OFlag::O_CLOEXEC.bits());
    assert_eq!(host.noctty, OFlag::O_NOCTTY.bits());
    assert_eq!(host.for_input(), (OFlag::O_NONBLOCK | OFlag::O_CLOEXEC).bits());
    assert_eq!(host.for_direct_open(), (OFlag::O_NOCTTY | OFlag::O_CLOEXEC).bits());
}

const HOST: OpenFlags = OpenFlags { nonblock: 0x800, cloexec: 0x80000, noctty: 0x100 };

/// The calls that are made if all succeed and the status flags are `current`.
fn calls(flags: i32, current: i32) -> Vec<FcntlCall> {
    let mut calls = vec![];
    let mut step = apply_open_flags(flags, &HOST);
    while let FlagStep::Call(call) = step {
        calls.push(call);
        let answer = if call == FcntlCall::GetStatusFlags { current } else { 0 };
        step = continue_open_flags(call, Ok(answer), flags, &HOST);
    }
    assert_eq!(step, FlagStep::Applied);
    calls
}

#[test]
fn flags_are_applied_in_order() {
    assert_eq!(
        calls(0x80800, 0x2),
        vec![
            FcntlCall::GetStatusFlags,
            FcntlCall::SetStatusFlags(0x802),
            FcntlCall::SetCloseOnExec
        ]
    );
    assert_eq!(
        calls(0x800, 0x802),
        vec![FcntlCall::GetStatusFlags, FcntlCall::SetStatusFlags(0x802)]
    );
    assert_eq!(calls(0x80000, 0), vec![FcntlCall::SetCloseOnExec]);
    assert_eq!(calls(0x1, 0), vec![]);
}

#[test]
fn only_the_flags_asked_for_are_applied() {
    let host = OpenFlags::host();
    assert_eq!(
        apply_open_flags(host.for_direct_open(), &host),
        FlagStep::Call(FcntlCall::SetCloseOnExec)
    );
    assert_eq!(apply_open_flags(host.noctty, &host), FlagStep::Applied);
    assert_eq!(
        apply_open_flags(host.nonblock, &host),
        FlagStep::Call(FcntlCall::GetStatusFlags)
    );
    let set = FcntlCall::SetStatusFlags(host.nonblock);
    assert_eq!(
        continue_open_flags(FcntlCall::GetStatusFlags, Ok(0), host.nonblock, &host),
        FlagStep::Call(set)
    );
    assert_eq!(continue_open_flags(set, Ok(0), host.nonblock, &host), FlagStep::Applied);
}

#[test]
fn a_call_that_fails_ends_it() {
    for call in
        [FcntlCall::GetStatusFlags, FcntlCall::SetStatusFlags(1), FcntlCall::SetCloseOnExec]
    {
        assert_eq!(continue_open_flags(call, Err(9), 0x80800, &HOST), FlagStep::Failed(9));
    }
}

#[test]
fn only_the_blocking_flag_changes() {
    assert_eq!(HOST.blocking(0x8802), 0x8002);
    assert_eq!(HOST.blocking(0x8002), 0x8002);
    assert_eq!(HOST.nonblocking(0x8002), 0x8802);
    assert_eq!(HOST.blocking(-1), !0x800);
}
