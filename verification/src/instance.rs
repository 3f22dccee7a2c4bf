//! The single-instance guard of the tray: binding a Unix socket in the
//! runtime directory is the lock.
//!
//! Taking the lock alternates socket calls and decisions. The decisions are
//! a small state machine here: [`next_lock_step`] takes the step just tried
//! and what the system answered, and says what to try next or how it ended.
//! The program makes the calls.

use vstd::prelude::*;
use crate::autostart::{join_path, joined, opt_chars};

verus! {

/// The basename of the lock socket.
pub const LOCK_NAME: &'static str = "alavai-tray.sock";

/// How taking the lock ended.
#[derive(Debug, Clone, Copy, PartialEq, Eq, Structural)]
pub enum Instance {
    /// This process holds the lock: it runs the tray.
    Primary,
    /// Another tray holds the lock.
    AlreadyRunning,
}

/// The path of the lock socket: in the runtime directory, else in the
/// temporary directory.
pub open spec fn sock_path_spec(runtime_dir: Option<Seq<char>>, temp_dir: Seq<char>) -> Seq<char> {
    match runtime_dir {
        Some(d) => join_path(d, LOCK_NAME@),
        None => join_path(temp_dir, LOCK_NAME@),
    }
}

/// The path of the lock socket, from `XDG_RUNTIME_DIR` (`None` when unset)
/// and the temporary directory.
pub fn sock_path(runtime_dir: Option<&str>, temp_dir: &str) -> (r: String)
    ensures
        r@ == sock_path_spec(opt_chars(runtime_dir), temp_dir@),
{
    match runtime_dir {
        Some(d) => joined(d, LOCK_NAME),
        None => joined(temp_dir, LOCK_NAME),
    }
}

/// What to do next while taking the lock.
#[derive(Debug, Clone, Copy, PartialEq, Eq, Structural)]
pub enum LockStep {
    /// Bind the socket.
    Bind,
    /// The socket file exists: connect to it to see whether a tray answers.
    Probe,
    /// Nobody answered, so the file is stale: remove it and bind again.
    Reclaim,
    /// Done.
    Done(Instance),
}

/// What the system answered to the last step.
#[derive(Debug, Clone, Copy, PartialEq, Eq, Structural)]
pub enum LockEvent {
    /// The bind succeeded; the listener is kept for the life of the process.
    Bound,
    /// The bind failed because the address is in use.
    InUse,
    /// The bind failed for another reason.
    BindFailed,
    /// A tray answered the connection.
    Answered,
    /// Nobody answered the connection.
    NoAnswer,
}

/// The step after `step` once the system answered `event`. A bound socket
/// makes this process the primary; an address in use is probed; an answer
/// means another tray runs; a stale socket is reclaimed, and a failed
/// reclaim defers to the other process. A bind that fails otherwise still
/// runs the tray, unguarded, rather than refuse to start. An answer that
/// does not belong to the step leaves the step as it is.
pub open spec fn lock_next(step: LockStep, event: LockEvent) -> LockStep {
    match (step, event) {
        (LockStep::Bind, LockEvent::Bound) => LockStep::Done(Instance::Primary),
        (LockStep::Bind, LockEvent::InUse) => LockStep::Probe,
        (LockStep::Bind, LockEvent::BindFailed) => LockStep::Done(Instance::Primary),
        (LockStep::Probe, LockEvent::Answered) => LockStep::Done(Instance::AlreadyRunning),
        (LockStep::Probe, LockEvent::NoAnswer) => LockStep::Reclaim,
        (LockStep::Reclaim, LockEvent::Bound) => LockStep::Done(Instance::Primary),
        (LockStep::Reclaim, LockEvent::InUse) => LockStep::Done(Instance::AlreadyRunning),
        (LockStep::Reclaim, LockEvent::BindFailed) => LockStep::Done(Instance::AlreadyRunning),
        _ => step,
    }
}

/// The step after `step` once the system answered `event`.
pub fn next_lock_step(step: LockStep, event: LockEvent) -> (r: LockStep)
    ensures
        r == lock_next(step, event),
{
    match (step, event) {
        (LockStep::Bind, LockEvent::Bound) => LockStep::Done(Instance::Primary),
        (LockStep::Bind, LockEvent::InUse) => LockStep::Probe,
        (LockStep::Bind, LockEvent::BindFailed) => LockStep::Done(Instance::Primary),
        (LockStep::Probe, LockEvent::Answered) => LockStep::Done(Instance::AlreadyRunning),
        (LockStep::Probe, LockEvent::NoAnswer) => LockStep::Reclaim,
        (LockStep::Reclaim, LockEvent::Bound) => LockStep::Done(Instance::Primary),
        (LockStep::Reclaim, LockEvent::InUse) => LockStep::Done(Instance::AlreadyRunning),
        (LockStep::Reclaim, LockEvent::BindFailed) => LockStep::Done(Instance::AlreadyRunning),
        _ => step,
    }
}

} // verus!
