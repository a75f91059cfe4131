use graph_engine::errors::EngineError;
use graph_engine::lifecycle::{
    loop_exit_cleanup, next_tick_action, request_shutdown, shutdown_poll_step, InstanceFlags,
    LifecycleRegistry, ShutdownPoll, TickAction,
};
use graph_engine::lifecycle::{startup_self_test_action, SelfTestAction};
use graph_engine::retry::{fallback_outcome, RetryDecision, RetryPolicy};

#[test]
fn supersession_makes_the_newest_instance_active() {
    let mut reg = LifecycleRegistry::new();
    let a = String::from("instanceA");
    let b = String::from("instanceB");
    let was = reg.try_activate(&a);
    assert!(!was);
    assert!(reg.loop_running);
    assert!(reg.is_active(&a));
    // Starting B while A runs supersedes A (last-writer-wins).
    let was = reg.try_activate(&b);
    assert!(was);
    assert!(reg.is_active(&b));
    assert!(!reg.is_active(&a));
}

#[test]
fn shutdown_of_a_superseded_instance_is_refused() {
    let mut reg = LifecycleRegistry::new();
    let a = String::from("instanceA");
    let b = String::from("instanceB");
    reg.try_activate(&a);
    let mut flags_a = InstanceFlags::new();
    reg.try_activate(&b);
    let mut flags_b = InstanceFlags::new();
    // A's shutdown is refused and changes nothing.
    match request_shutdown(&reg, &a, &mut flags_a) {
        Err(EngineError::LifecycleConflict) => {}
        _ => panic!("expected LifecycleConflict"),
    }
    assert!(!flags_a.shutdown_requested);
    // B's shutdown is accepted and confirms within the poll budget.
    assert!(request_shutdown(&reg, &b, &mut flags_b).is_ok());
    assert!(flags_b.shutdown_requested);
    loop_exit_cleanup(&mut reg, &mut flags_b);
    assert_eq!(
        shutdown_poll_step(&reg, &flags_b, 0),
        ShutdownPoll::Confirmed
    );
}

#[test]
fn shutdown_poll_times_out_after_the_budget() {
    let reg = LifecycleRegistry {
        loop_running: true,
        active_id: Some(String::from("x")),
    };
    let flags = InstanceFlags {
        shutdown_requested: true,
        shutdown_complete: false,
    };
    assert_eq!(shutdown_poll_step(&reg, &flags, 0), ShutdownPoll::KeepWaiting);
    assert_eq!(shutdown_poll_step(&reg, &flags, 98), ShutdownPoll::KeepWaiting);
    // 100 polls of 50 ms exhaust the 5000 ms budget.
    assert_eq!(shutdown_poll_step(&reg, &flags, 99), ShutdownPoll::TimedOut);
}

#[test]
fn loop_decisions_cover_all_modes() {
    assert_eq!(next_tick_action(true, true, true), TickAction::Exit);
    assert_eq!(next_tick_action(false, false, true), TickAction::Skip);
    assert_eq!(
        next_tick_action(false, true, true),
        TickAction::AcceleratorTick
    );
    assert_eq!(
        next_tick_action(false, true, false),
        TickAction::ProcessorTick
    );
}

#[test]
fn retry_makes_exactly_max_attempts_with_doubling_delays() {
    let policy = RetryPolicy::standard();
    let mut attempts: u32 = 0;
    let mut delays: Vec<u64> = Vec::new();
    // Simulate the accelerator path failing every attempt.
    loop {
        attempts += 1;
        match policy.on_attempt_failure(attempts - 1) {
            RetryDecision::Retry { delay_ms } => delays.push(delay_ms),
            RetryDecision::Fallback => break,
        }
    }
    assert_eq!(attempts, 3);
    assert_eq!(delays, vec![500, 1000]);
}

#[test]
fn fallback_failure_surfaces_the_accelerator_error() {
    let gpu_error = EngineError::ComputationFailure;
    // The processor fallback failing surfaces the last accelerator error.
    let r = fallback_outcome(Err(EngineError::FallbackExhausted), gpu_error);
    assert_eq!(r, Err(EngineError::ComputationFailure));
    // A successful fallback swallows the accelerator error.
    assert_eq!(fallback_outcome(Ok(()), gpu_error), Ok(()));
}

#[test]
fn startup_self_test_decisions() {
    assert_eq!(
        startup_self_test_action(false, false),
        SelfTestAction::ReportAbsent
    );
    assert_eq!(
        startup_self_test_action(true, true),
        SelfTestAction::AcceptAccelerator
    );
    assert_eq!(
        startup_self_test_action(true, false),
        SelfTestAction::AttemptReinitialize
    );
}
