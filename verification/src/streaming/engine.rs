//! The Streaming Engine's decisions, separated from the async plumbing that
//! carries them out: which lifecycle transitions are allowed, when packets
//! may enter the queues, what an outbound worker does in each state, and
//! how a send to the Transport Layer is retried.

use vstd::prelude::*;

use crate::streaming::error::StreamingError;
use crate::text::{decimal, push_decimal, push_str, string_from_chars};

verus! {

/// Lifecycle state of a Streaming Engine.
#[derive(Debug, Clone, Copy, PartialEq, Eq, Structural)]
pub enum EngineState {
    /// No worker is running; queued packets are kept but not forwarded.
    Stopped,
    /// Workers drain the outbound queue and forward packets.
    Running,
    /// Workers are idle; packets may still be queued and received.
    Paused,
}

/// A point-in-time snapshot of the engine's health and throughput.
#[derive(Debug, Clone, PartialEq, Eq, Structural)]
pub struct EngineStatus {
    /// Current lifecycle state.
    pub state: EngineState,
    /// Packets waiting to be handed to the Transport Layer.
    pub outbound_queue_len: usize,
    /// Packets waiting to be pulled by the playback pipeline.
    pub inbound_queue_len: usize,
    /// Packets handed to the Transport Layer since construction.
    pub packets_sent: u64,
    /// Packets accepted from the Transport Layer since construction.
    pub packets_received: u64,
    /// Packets dropped because a queue was full.
    pub packets_dropped: u64,
    /// Packets whose send failed after all retries.
    pub packets_send_failed: u64,
}

/// `r` is `InvalidState` with exactly the message `msg`.
pub open spec fn is_invalid_state(r: StreamingError, msg: Seq<char>) -> bool {
    r matches StreamingError::InvalidState(m) && m@ == msg
}

fn invalid_state(msg: &str) -> (r: StreamingError)
    ensures
        is_invalid_state(r, msg@),
{
    let mut out: Vec<char> = Vec::new();
    push_str(&mut out, msg);
    StreamingError::InvalidState(string_from_chars(&out))
}

/// The state `start` moves the engine to: `Running`, from any state but
/// `Running`, which is refused with `EngineAlreadyRunning`. (Starting a
/// stopped engine again keeps whatever its queues hold.)
pub fn plan_start(state: EngineState) -> (r: Result<EngineState, StreamingError>)
    ensures
        state == EngineState::Running ==> r == Err::<EngineState, StreamingError>(
            StreamingError::EngineAlreadyRunning,
        ),
        state != EngineState::Running ==> r == Ok::<EngineState, StreamingError>(EngineState::Running),
        r is Ok <==> transition(state, LifecycleCommand::Start) is Some,
        r matches Ok(s) ==> transition(state, LifecycleCommand::Start) == Some(s),
{
    match state {
        EngineState::Running => Err(StreamingError::EngineAlreadyRunning),
        _ => Ok(EngineState::Running),
    }
}

/// The state `stop` moves the engine to: `Stopped`, from any state but
/// `Stopped`, which is refused as an invalid transition.
pub fn plan_stop(state: EngineState) -> (r: Result<EngineState, StreamingError>)
    ensures
        state == EngineState::Stopped <==> r is Err,
        r matches Err(e) ==> is_invalid_state(e, "engine is already stopped"@),
        r is Ok <==> transition(state, LifecycleCommand::Stop) is Some,
        r matches Ok(s) ==> transition(state, LifecycleCommand::Stop) == Some(s),
        r matches Ok(s) ==> s == EngineState::Stopped,
{
    match state {
        EngineState::Stopped => Err(invalid_state("engine is already stopped")),
        _ => Ok(EngineState::Stopped),
    }
}

/// The state `pause` moves the engine to: `Paused`, only from `Running`.
pub fn plan_pause(state: EngineState) -> (r: Result<EngineState, StreamingError>)
    ensures
        state != EngineState::Running <==> r is Err,
        r matches Err(e) ==> is_invalid_state(e, "cannot pause unless the engine is running"@),
        r is Ok <==> transition(state, LifecycleCommand::Pause) is Some,
        r matches Ok(s) ==> transition(state, LifecycleCommand::Pause) == Some(s),
        r matches Ok(s) ==> s == EngineState::Paused,
{
    match state {
        EngineState::Running => Ok(EngineState::Paused),
        _ => Err(invalid_state("cannot pause unless the engine is running")),
    }
}

/// The state `resume` moves the engine to: `Running`, only from `Paused`.
pub fn plan_resume(state: EngineState) -> (r: Result<EngineState, StreamingError>)
    ensures
        state != EngineState::Paused <==> r is Err,
        r matches Err(e) ==> is_invalid_state(e, "cannot resume unless the engine is paused"@),
        r is Ok <==> transition(state, LifecycleCommand::Resume) is Some,
        r matches Ok(s) ==> transition(state, LifecycleCommand::Resume) == Some(s),
        r matches Ok(s) ==> s == EngineState::Running,
{
    match state {
        EngineState::Paused => Ok(EngineState::Running),
        _ => Err(invalid_state("cannot resume unless the engine is paused")),
    }
}

/// Whether the outbound queue accepts a packet from the Media Layer in
/// `state`: in every state but `Stopped` (paused engines keep buffering).
pub fn check_enqueue(state: EngineState) -> (r: Result<(), StreamingError>)
    ensures
        state == EngineState::Stopped ==> r == Err::<(), StreamingError>(StreamingError::EngineNotRunning),
        state != EngineState::Stopped ==> r is Ok,
{
    match state {
        EngineState::Stopped => Err(StreamingError::EngineNotRunning),
        _ => Ok(()),
    }
}

/// Whether a packet of `packet_size` bytes from the Transport Layer may
/// enter the inbound queue: the engine must not be stopped, and the size
/// must not exceed `max_packet_size_bytes`.
pub fn check_receive(state: EngineState, packet_size: usize, max_packet_size_bytes: usize) -> (r:
    Result<(), StreamingError>)
    ensures
        state == EngineState::Stopped ==> r == Err::<(), StreamingError>(StreamingError::EngineNotRunning),
        state != EngineState::Stopped && packet_size > max_packet_size_bytes ==> r == Err::<
            (),
            StreamingError,
        >(StreamingError::PacketTooLarge { max: max_packet_size_bytes, actual: packet_size }),
        state != EngineState::Stopped && packet_size <= max_packet_size_bytes ==> r is Ok,
{
    if let EngineState::Stopped = state {
        return Err(StreamingError::EngineNotRunning);
    }
    if packet_size > max_packet_size_bytes {
        return Err(StreamingError::PacketTooLarge { max: max_packet_size_bytes, actual: packet_size });
    }
    Ok(())
}

/// What an outbound worker does next.
#[derive(Debug, Clone, Copy, PartialEq, Eq, Structural)]
pub enum WorkerAction {
    /// Take the next packet from the outbound queue and deliver it.
    Drain,
    /// Sleep until the lifecycle state changes.
    WaitForChange,
    /// Leave the worker loop.
    Exit,
}

/// The worker's move in `state`: deliver while running, wait while paused,
/// exit once stopped.
pub fn worker_action(state: EngineState) -> (r: WorkerAction)
    ensures
        state == EngineState::Running <==> r == WorkerAction::Drain,
        state == EngineState::Paused <==> r == WorkerAction::WaitForChange,
        state == EngineState::Stopped <==> r == WorkerAction::Exit,
        r == worker_action_spec(state),
{
    match state {
        EngineState::Running => WorkerAction::Drain,
        EngineState::Paused => WorkerAction::WaitForChange,
        EngineState::Stopped => WorkerAction::Exit,
    }
}

/// How one attempt to hand a packet to the Transport Layer ended.
#[derive(Debug, Clone, Copy, PartialEq, Eq, Structural)]
pub enum SendOutcome {
    /// The transport channel accepted the packet.
    Sent,
    /// The transport's receiving half has been dropped.
    ReceiverClosed,
    /// The attempt did not finish within the packet timeout.
    TimedOut,
}

/// What follows an attempt.
#[derive(Debug, Clone, PartialEq, Eq)]
pub enum DeliveryStep {
    /// The packet was delivered (counted as sent).
    Delivered,
    /// Delivery failed for good (counted as a failed send).
    Failed(StreamingError),
    /// Wait `retry_backoff`, then try again.
    RetryAfterBackoff,
}

/// The `SendFailed` reason after `attempts` timed-out attempts.
pub open spec fn exhausted_reason(attempts: nat) -> Seq<char> {
    "timed out after "@ + decimal(attempts) + " attempt(s)"@
}

/// The retry budget of one delivery: `max_retry_count` retries after the
/// first attempt, so `max_retry_count + 1` attempts in all.
pub struct DeliveryAttempts {
    max_retry_count: u32,
    attempts_made: u32,
}

impl DeliveryAttempts {
    /// Retry limit of this delivery.
    pub closed spec fn max_retries(&self) -> nat {
        self.max_retry_count as nat
    }

    /// Attempts reported so far.
    pub closed spec fn made(&self) -> nat {
        self.attempts_made as nat
    }

    /// Attempts made never exceed the budget.
    pub closed spec fn wf(&self) -> bool {
        self.max_retry_count < u32::MAX && self.attempts_made <= self.max_retry_count + 1
    }

    /// A fresh budget; `max_retry_count + 1` must fit a `u32`.
    pub fn new(max_retry_count: u32) -> (r: Self)
        requires
            max_retry_count < u32::MAX,
        ensures
            r.wf(),
            r.max_retries() == max_retry_count,
            r.made() == 0,
    {
        DeliveryAttempts { max_retry_count, attempts_made: 0 }
    }

    /// Records the outcome of the next attempt and says what follows: a
    /// sent packet is delivered; a closed receiver fails at once with
    /// `TransportUnavailable`; a timeout is retried until the
    /// `max_retry_count + 1`-th attempt, which fails with `SendFailed`.
    pub fn record(&mut self, outcome: SendOutcome) -> (r: DeliveryStep)
        requires
            old(self).wf(),
            old(self).made() < old(self).max_retries() + 1,
        ensures
            final(self).wf(),
            final(self).max_retries() == old(self).max_retries(),
            final(self).made() == old(self).made() + 1,
            outcome == SendOutcome::Sent ==> r == DeliveryStep::Delivered,
            outcome == SendOutcome::ReceiverClosed ==> r == DeliveryStep::Failed(
                StreamingError::TransportUnavailable,
            ),
            outcome == SendOutcome::TimedOut && final(self).made() < old(self).max_retries() + 1
                ==> r == DeliveryStep::RetryAfterBackoff,
            outcome == SendOutcome::TimedOut && final(self).made() == old(self).max_retries() + 1
                ==> (r matches DeliveryStep::Failed(StreamingError::SendFailed(m)) && m@
                == exhausted_reason(old(self).max_retries() + 1)),
    {
        self.attempts_made = self.attempts_made + 1;
        match outcome {
            SendOutcome::Sent => DeliveryStep::Delivered,
            SendOutcome::ReceiverClosed => DeliveryStep::Failed(StreamingError::TransportUnavailable),
            SendOutcome::TimedOut => {
                if self.attempts_made < self.max_retry_count + 1 {
                    DeliveryStep::RetryAfterBackoff
                } else {
                    let mut out: Vec<char> = Vec::new();
                    push_str(&mut out, "timed out after ");
                    push_decimal(&mut out, (self.max_retry_count as u128) + 1);
                    push_str(&mut out, " attempt(s)");
                    assert(out@ =~= exhausted_reason((self.max_retry_count + 1) as nat));
                    DeliveryStep::Failed(StreamingError::SendFailed(string_from_chars(&out)))
                }
            },
        }
    }
}

/// A lifecycle command of the engine.
#[derive(Debug, Clone, Copy, PartialEq, Eq, Structural)]
pub enum LifecycleCommand {
    Start,
    Stop,
    Pause,
    Resume,
}

/// The state a command leads to, or `None` when the command is refused in
/// `state`.
pub open spec fn transition(state: EngineState, command: LifecycleCommand) -> Option<EngineState> {
    match command {
        LifecycleCommand::Start => if state == EngineState::Running {
            None
        } else {
            Some(EngineState::Running)
        },
        LifecycleCommand::Stop => if state == EngineState::Stopped {
            None
        } else {
            Some(EngineState::Stopped)
        },
        LifecycleCommand::Pause => if state == EngineState::Running {
            Some(EngineState::Paused)
        } else {
            None
        },
        LifecycleCommand::Resume => if state == EngineState::Paused {
            Some(EngineState::Running)
        } else {
            None
        },
    }
}

/// Resuming undoes pausing: whenever `pause` is accepted, `resume` right
/// after it brings the engine back to the state it was in, and the workers
/// go from waiting back to draining.
pub proof fn lemma_pause_resume_round_trip(state: EngineState)
    requires
        transition(state, LifecycleCommand::Pause) is Some,
    ensures
        transition(transition(state, LifecycleCommand::Pause)->0, LifecycleCommand::Resume) == Some(
            state,
        ),
        worker_action_spec(transition(state, LifecycleCommand::Pause)->0) == WorkerAction::WaitForChange,
        worker_action_spec(state) == WorkerAction::Drain,
{
}

/// A stopped engine can always be restarted, and a started one stopped:
/// `start` then `stop` from any state but `Running` ends in `Stopped`.
pub proof fn lemma_restart(state: EngineState)
    requires
        state != EngineState::Running,
    ensures
        transition(state, LifecycleCommand::Start) == Some(EngineState::Running),
        transition(EngineState::Running, LifecycleCommand::Stop) == Some(EngineState::Stopped),
{
}

/// No command is accepted twice in a row: each of `Start`, `Stop`,
/// `Pause` and `Resume` is refused in the state it leads to.
pub proof fn lemma_commands_not_repeatable(state: EngineState, command: LifecycleCommand)
    requires
        transition(state, command) is Some,
    ensures
        transition(transition(state, command)->0, command) is None,
{
}

/// The worker's move in each state, as a function.
pub open spec fn worker_action_spec(state: EngineState) -> WorkerAction {
    match state {
        EngineState::Running => WorkerAction::Drain,
        EngineState::Paused => WorkerAction::WaitForChange,
        EngineState::Stopped => WorkerAction::Exit,
    }
}

} // verus!
