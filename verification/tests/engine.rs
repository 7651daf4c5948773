use echosync::streaming::engine::{
    check_enqueue, check_receive, plan_pause, plan_resume, plan_start, plan_stop, worker_action,
    DeliveryAttempts, DeliveryStep, SendOutcome, WorkerAction,
};
use echosync::streaming::{EngineState, StreamingError};

#[test]
fn lifecycle_start_pause_resume_stop() {
    let s = plan_start(EngineState::Stopped).unwrap();
    assert_eq!(s, EngineState::Running);
    let s = plan_pause(s).unwrap();
    assert_eq!(s, EngineState::Paused);
    let s = plan_resume(s).unwrap();
    assert_eq!(s, EngineState::Running);
    let s = plan_stop(s).unwrap();
    assert_eq!(s, EngineState::Stopped);
}

#[test]
fn start_twice_is_refused() {
    assert_eq!(plan_start(EngineState::Running), Err(StreamingError::EngineAlreadyRunning));
    // A paused engine may be started again.
    assert_eq!(plan_start(EngineState::Paused), Ok(EngineState::Running));
}

#[test]
fn invalid_transitions_carry_their_reason() {
    assert_eq!(
        plan_stop(EngineState::Stopped),
        Err(StreamingError::InvalidState("engine is already stopped".into()))
    );
    assert_eq!(
        plan_pause(EngineState::Paused),
        Err(StreamingError::InvalidState("cannot pause unless the engine is running".into()))
    );
    assert_eq!(
        plan_resume(EngineState::Running),
        Err(StreamingError::InvalidState("cannot resume unless the engine is paused".into()))
    );
    assert_eq!(
        plan_resume(EngineState::Stopped).unwrap_err().to_string(),
        "invalid engine state transition: cannot resume unless the engine is paused"
    );
}

#[test]
fn stopped_engine_refuses_traffic_paused_engine_accepts_it() {
    assert_eq!(check_enqueue(EngineState::Stopped), Err(StreamingError::EngineNotRunning));
    assert_eq!(check_enqueue(EngineState::Paused), Ok(()));
    assert_eq!(check_enqueue(EngineState::Running), Ok(()));
    assert_eq!(check_receive(EngineState::Stopped, 10, 100), Err(StreamingError::EngineNotRunning));
    assert_eq!(check_receive(EngineState::Paused, 100, 100), Ok(()));
    assert_eq!(
        check_receive(EngineState::Running, 101, 100),
        Err(StreamingError::PacketTooLarge { max: 100, actual: 101 })
    );
}

#[test]
fn workers_drain_wait_or_exit() {
    assert_eq!(worker_action(EngineState::Running), WorkerAction::Drain);
    assert_eq!(worker_action(EngineState::Paused), WorkerAction::WaitForChange);
    assert_eq!(worker_action(EngineState::Stopped), WorkerAction::Exit);
}

#[test]
fn delivery_retries_timeouts_then_fails() {
    let mut attempts = DeliveryAttempts::new(2);
    assert_eq!(attempts.record(SendOutcome::TimedOut), DeliveryStep::RetryAfterBackoff);
    assert_eq!(attempts.record(SendOutcome::TimedOut), DeliveryStep::RetryAfterBackoff);
    assert_eq!(
        attempts.record(SendOutcome::TimedOut),
        DeliveryStep::Failed(StreamingError::SendFailed("timed out after 3 attempt(s)".into()))
    );
}

#[test]
fn delivery_succeeds_or_stops_on_closed_receiver() {
    let mut attempts = DeliveryAttempts::new(3);
    assert_eq!(attempts.record(SendOutcome::TimedOut), DeliveryStep::RetryAfterBackoff);
    assert_eq!(attempts.record(SendOutcome::Sent), DeliveryStep::Delivered);
    let mut attempts = DeliveryAttempts::new(3);
    assert_eq!(
        attempts.record(SendOutcome::ReceiverClosed),
        DeliveryStep::Failed(StreamingError::TransportUnavailable)
    );
    let mut once = DeliveryAttempts::new(0);
    assert_eq!(
        once.record(SendOutcome::TimedOut),
        DeliveryStep::Failed(StreamingError::SendFailed("timed out after 1 attempt(s)".into()))
    );
}
