use vstd::prelude::*;

verus! {

/// `signal_hook::consts::SIGINT`, which is libc's `SIGINT`: 2 on Linux.
#[verifier::external_body]
fn interrupt_signal() -> (r: i32)
    ensures
        r == 2,
{
    signal_hook::consts::SIGINT
}

/// `signal_hook::consts::SIGKILL`, which is libc's `SIGKILL`: 9 on Linux.
#[verifier::external_body]
fn kill_signal() -> (r: i32)
    ensures
        r == 9,
{
    signal_hook::consts::SIGKILL
}

/// Whether a received signal ends the daemon: an interrupt or a kill.
pub fn stops_daemon(signal: i32) -> (r: bool)
    ensures
        r == (signal == 2 || signal == 9),
{
    signal == interrupt_signal() || signal == kill_signal()
}

} // verus!
