//! Lifecycle coordination: the single global simulation loop.
//!
//! A registry holds the "loop running" flag and the currently active
//! instance id.  Starting an instance records its fresh id and forces the
//! flag on (last-writer-wins: a newer instance supersedes an older one);
//! shutdown is refused for superseded instances, and the loop's exit
//! cleanup clears the flag and confirms completion exactly once.

use vstd::prelude::*;
use crate::errors::EngineError;

verus! {

/// Total wall-clock budget for a shutdown to confirm, in milliseconds.
pub const SHUTDOWN_TIMEOUT_MS: u64 = 5000;

/// Interval between shutdown-confirmation polls, in milliseconds.
pub const SHUTDOWN_POLL_INTERVAL_MS: u64 = 50;

/// The global lifecycle state: one running flag, one active instance id.
pub struct LifecycleRegistry {
    pub loop_running: bool,
    pub active_id: Option<String>,
}

/// The per-instance shutdown flags.
#[derive(Clone, Copy, Debug, PartialEq, Eq, Structural)]
pub struct InstanceFlags {
    pub shutdown_requested: bool,
    pub shutdown_complete: bool,
}

/// The active id at the view level.
pub open spec fn active_view(r: LifecycleRegistry) -> Option<Seq<char>> {
    match r.active_id {
        Some(ref s) => Some(s@),
        None => None,
    }
}

/// Whether the registry would accept a shutdown request from this id.
pub open spec fn accepts_shutdown(r: LifecycleRegistry, id: Seq<char>) -> bool {
    active_view(r) == Some(id)
}

/// One poll of the shutdown confirmation loop.
#[derive(Clone, Copy, Debug, PartialEq, Eq, Structural)]
pub enum ShutdownPoll {
    /// The loop has exited and confirmed completion.
    Confirmed,
    /// Keep polling: the budget is not exhausted.
    KeepWaiting,
    /// The budget ran out without confirmation; non-fatal.
    TimedOut,
}

/// What the given poll attempt (zero-based) concludes.
pub open spec fn spec_poll_outcome(
    loop_running: bool,
    complete: bool,
    attempt: u64,
) -> ShutdownPoll {
    if !loop_running && complete {
        ShutdownPoll::Confirmed
    } else if (attempt + 1) * SHUTDOWN_POLL_INTERVAL_MS >= SHUTDOWN_TIMEOUT_MS {
        ShutdownPoll::TimedOut
    } else {
        ShutdownPoll::KeepWaiting
    }
}

impl InstanceFlags {
    /// Fresh flags: nothing requested, nothing completed.
    pub fn new() -> (r: InstanceFlags)
        ensures
            !r.shutdown_requested,
            !r.shutdown_complete,
    {
        InstanceFlags { shutdown_requested: false, shutdown_complete: false }
    }
}

impl LifecycleRegistry {
    /// A registry with no loop and no active instance.
    pub fn new() -> (r: LifecycleRegistry)
        ensures
            !r.loop_running,
            r.active_id is None,
    {
        LifecycleRegistry { loop_running: false, active_id: None }
    }

    /// The start protocol: records the new id as globally active and forces
    /// the running flag on, superseding any active instance
    /// (last-writer-wins); reports whether a loop was already running.
    pub fn try_activate(&mut self, id: &String) -> (was_running: bool)
        ensures
            was_running == old(self).loop_running,
            final(self).loop_running,
            active_view(*final(self)) == Some(id@),
    {
        let was_running = self.loop_running;
        self.active_id = Some(id.clone());
        self.loop_running = false;
        self.loop_running = true;
        was_running
    }

    /// Whether this id is the globally active one.
    pub fn is_active(&self, id: &String) -> (r: bool)
        ensures
            r == accepts_shutdown(*self, id@),
    {
        match &self.active_id {
            Some(a) => *a == *id,
            None => false,
        }
    }
}

/// The shutdown protocol's first half: a request from a superseded
/// instance is refused with `LifecycleConflict` and changes nothing; a
/// request from the active instance raises its shutdown flag and clears
/// its completion flag, ready for the confirmation polls.
pub fn request_shutdown(
    registry: &LifecycleRegistry,
    instance_id: &String,
    flags: &mut InstanceFlags,
) -> (r: Result<(), EngineError>)
    ensures
        (r is Err) <==> !accepts_shutdown(*registry, instance_id@),
        r matches Err(e) ==> e == EngineError::LifecycleConflict && *final(flags) == *old(flags),
        r is Ok ==> final(flags).shutdown_requested && !final(flags).shutdown_complete,
{
    if !registry.is_active(instance_id) {
        return Err(EngineError::LifecycleConflict);
    }
    flags.shutdown_requested = true;
    flags.shutdown_complete = false;
    Ok(())
}

/// The cleanup that runs exactly once when the loop exits, whatever the
/// exit reason: the global running flag falls, completion is confirmed.
pub fn loop_exit_cleanup(registry: &mut LifecycleRegistry, flags: &mut InstanceFlags)
    ensures
        !final(registry).loop_running,
        final(registry).active_id == old(registry).active_id,
        final(flags).shutdown_complete,
        final(flags).shutdown_requested == old(flags).shutdown_requested,
{
    registry.loop_running = false;
    flags.shutdown_complete = true;
}

/// One poll of the bounded shutdown wait.
pub fn shutdown_poll_step(
    registry: &LifecycleRegistry,
    flags: &InstanceFlags,
    attempt: u64,
) -> (r: ShutdownPoll)
    requires
        attempt < 1_000_000,
    ensures
        r == spec_poll_outcome(registry.loop_running, flags.shutdown_complete, attempt),
        r == ShutdownPoll::Confirmed <==> !registry.loop_running && flags.shutdown_complete,
{
    if !registry.loop_running && flags.shutdown_complete {
        ShutdownPoll::Confirmed
    } else if (attempt + 1) * SHUTDOWN_POLL_INTERVAL_MS >= SHUTDOWN_TIMEOUT_MS {
        ShutdownPoll::TimedOut
    } else {
        ShutdownPoll::KeepWaiting
    }
}

/// Which work the simulation loop performs next.
#[derive(Clone, Copy, Debug, PartialEq, Eq, Structural)]
pub enum TickAction {
    /// Shutdown was requested: leave the loop.
    Exit,
    /// Run the accelerator path (with retry and fallback).
    AcceleratorTick,
    /// Run the processor path directly.
    ProcessorTick,
    /// Physics is disabled: skip this tick.
    Skip,
}

/// The per-iteration decision of the simulation loop.
pub fn next_tick_action(
    shutdown_requested: bool,
    physics_enabled: bool,
    accelerator_available: bool,
) -> (r: TickAction)
    ensures
        r == (if shutdown_requested {
            TickAction::Exit
        } else if !physics_enabled {
            TickAction::Skip
        } else if accelerator_available {
            TickAction::AcceleratorTick
        } else {
            TickAction::ProcessorTick
        }),
{
    if shutdown_requested {
        TickAction::Exit
    } else if !physics_enabled {
        TickAction::Skip
    } else if accelerator_available {
        TickAction::AcceleratorTick
    } else {
        TickAction::ProcessorTick
    }
}

/// What the startup self-test concludes about the accelerator.
#[derive(Clone, Copy, Debug, PartialEq, Eq, Structural)]
pub enum SelfTestAction {
    /// The accelerator passed its test computation: keep it.
    AcceptAccelerator,
    /// The test failed: log it (non-fatal) and attempt a best-effort
    /// reconstruction of a fresh accelerator instance.
    AttemptReinitialize,
    /// No accelerator is present to test; the processor path serves.
    ReportAbsent,
}

/// The decision taken shortly after construction, when the accelerator's
/// lightweight test computation has reported back.
pub fn startup_self_test_action(accelerator_present: bool, test_ok: bool) -> (r: SelfTestAction)
    ensures
        r == (if !accelerator_present {
            SelfTestAction::ReportAbsent
        } else if test_ok {
            SelfTestAction::AcceptAccelerator
        } else {
            SelfTestAction::AttemptReinitialize
        }),
{
    if !accelerator_present {
        SelfTestAction::ReportAbsent
    } else if test_ok {
        SelfTestAction::AcceptAccelerator
    } else {
        SelfTestAction::AttemptReinitialize
    }
}

/// Lifecycle supersession: once instance B is recorded as active, a
/// shutdown request carrying instance A's (different) id is refused, B's
/// own request is accepted, and after the loop's exit cleanup the very
/// first confirmation poll succeeds.
pub proof fn lemma_lifecycle_supersession(
    reg: LifecycleRegistry,
    a_id: Seq<char>,
    b_id: Seq<char>,
    attempt: u64,
)
    requires
        a_id != b_id,
        active_view(reg) == Some(b_id),
        !reg.loop_running,
    ensures
        !accepts_shutdown(reg, a_id),
        accepts_shutdown(reg, b_id),
        forall|complete: bool|
            complete ==> spec_poll_outcome(reg.loop_running, complete, attempt)
                == ShutdownPoll::Confirmed,
{
}

} // verus!
