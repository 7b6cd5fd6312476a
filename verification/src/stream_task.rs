//! The decisions of a streaming gateway request, as a state machine: the
//! caller sends the events, reads the adapter's stream, waits between
//! attempts and holds the budget lease; each step here says what to do next.
//!
//! A task announces the selected backend first. Each attempt asks the
//! breaker, then reads the adapter's items: output is passed on, one usage
//! report is passed on (a second one is a protocol violation), a completion
//! or a failure ends the attempt, and a stream that stops without either
//! ends it with a protocol violation. A failed attempt is retried while the
//! retry rules allow; the task ends with one terminal event, and the lease is
//! released exactly once, also when the caller goes away.
use vstd::prelude::*;

use crate::canonical::{gateway_event_of, BackendRawEvent, ChatEvent, ResponseNormalizer};
use crate::chat_types::FinishReason;
use crate::error::{opt_view, GatewayError, GatewayErrorKind};
use crate::reliability::{
    allow_step, can_retry_spec, counts_spec, failure_step, success_step, ReliabilityLayer,
};
use crate::types::BackendCapabilities;

verus! {

/// How an attempt ended.
#[derive(Debug)]
pub enum AttemptEnd {
    Success(FinishReason),
    Failure(GatewayError),
}

/// What to do with one item of the adapter's stream.
#[derive(Debug)]
pub enum StreamAction {
    /// Send the event on.
    Forward(ChatEvent),
    /// Report the usage to the budget, then send it on.
    ForwardUsage(ChatEvent),
    /// The attempt is over.
    EndAttempt(AttemptEnd),
}

/// What the task does after an attempt, or when the breaker refuses one.
#[derive(Debug)]
pub enum TaskAction {
    /// Wait the backoff, then start attempt `attempt`.
    Retry { attempt: u32 },
    /// Send `event`, release the lease where `release_lease` says so, and stop.
    Finish { event: ChatEvent, release_lease: bool },
}

/// The state of one streaming request.
#[derive(Debug)]
pub struct StreamTask {
    pub request_id: String,
    pub backend_id: String,
    pub attempt: u32,
    pub usage_emitted: bool,
    pub emitted_output: bool,
    pub emitted_tool: bool,
    pub lease_held: bool,
    pub finished: bool,
}

/// A non-retryable protocol violation of `backend` with `message`.
pub open spec fn backend_protocol_error(e: GatewayError, backend: Seq<char>, message: Seq<char>) -> bool {
    &&& e.kind == GatewayErrorKind::ProtocolViolation
    &&& e.message@ == message
    &&& !e.retryable
    &&& opt_view(e.backend_id) == Some(backend)
    &&& e.provider_code is None
    &&& e.provider_http_status is None
}

/// `e` is `err` marked as coming from `backend`.
pub open spec fn marked_with_backend(e: GatewayError, err: GatewayError, backend: Seq<char>) -> bool {
    &&& e.kind == err.kind
    &&& e.message == err.message
    &&& e.retryable == err.retryable
    &&& opt_view(e.backend_id) == Some(backend)
    &&& e.provider_code == err.provider_code
    &&& e.provider_http_status == err.provider_http_status
}

/// Whether a backend event is output to the caller.
pub open spec fn raw_is_output(raw: BackendRawEvent) -> bool {
    raw is OutputTextDelta || raw is ToolCallDelta || raw is ToolCallReady
}

/// Whether a backend event is tool output.
pub open spec fn raw_is_tool(raw: BackendRawEvent) -> bool {
    raw is ToolCallDelta || raw is ToolCallReady
}

/// The task after it ended: done, and the lease no longer held.
pub open spec fn ended(before: StreamTask, after: StreamTask) -> bool {
    &&& after.finished
    &&& !after.lease_held
    &&& after.request_id == before.request_id
    &&& after.backend_id == before.backend_id
    &&& after.attempt == before.attempt
}

/// One step of a stream task, with what it gave back: the announcement,
/// the start of an attempt, an item of the adapter's stream, the end of an
/// attempt, or the caller going away (and whether the lease was to be
/// released).
#[derive(Debug)]
pub enum TaskStep {
    Start(ChatEvent),
    Begin(Option<TaskAction>),
    Item(StreamAction),
    End(TaskAction),
    Cancel(bool),
}

/// A terminal event: a completion or a failure.
pub open spec fn terminal_event(ev: ChatEvent) -> bool {
    ev is Completed || ev is Failed
}

/// Neither the announcement nor a terminal event.
pub open spec fn passing_event(ev: ChatEvent) -> bool {
    !(ev is Started) && !terminal_event(ev)
}

/// The lease and the end of the task stay as they were.
pub open spec fn lease_kept(before: StreamTask, after: StreamTask) -> bool {
    after.lease_held == before.lease_held && after.finished == before.finished
}

/// `a` ends the task with a terminal event, releasing the lease if held.
pub open spec fn finishing(before: StreamTask, after: StreamTask, a: TaskAction) -> bool {
    &&& ended(before, after)
    &&& a matches TaskAction::Finish { event, release_lease } && release_lease == before.lease_held
        && terminal_event(event)
}

/// What each step does to the task, its lease and what is sent.
pub open spec fn step_ok(before: StreamTask, after: StreamTask, step: TaskStep) -> bool {
    match step {
        TaskStep::Start(ev) => after == before && ev is Started,
        TaskStep::Begin(None) => lease_kept(before, after),
        TaskStep::Begin(Some(a)) => finishing(before, after, a),
        TaskStep::Item(StreamAction::Forward(ev)) => lease_kept(before, after) && passing_event(ev),
        TaskStep::Item(StreamAction::ForwardUsage(ev)) => lease_kept(before, after) && ev is Usage,
        TaskStep::Item(StreamAction::EndAttempt(_)) => lease_kept(before, after),
        TaskStep::End(TaskAction::Retry { .. }) => lease_kept(before, after),
        TaskStep::End(a) => finishing(before, after, a),
        TaskStep::Cancel(release_lease) => ended(before, after) && release_lease == before.lease_held,
    }
}

/// The events a step sends.
pub open spec fn step_sends(step: TaskStep) -> Seq<ChatEvent> {
    match step {
        TaskStep::Start(ev) => seq![ev],
        TaskStep::Begin(Some(TaskAction::Finish { event, .. })) => seq![event],
        TaskStep::Item(StreamAction::Forward(ev)) => seq![ev],
        TaskStep::Item(StreamAction::ForwardUsage(ev)) => seq![ev],
        TaskStep::End(TaskAction::Finish { event, .. }) => seq![event],
        _ => Seq::empty(),
    }
}

/// Whether a step releases the lease.
pub open spec fn step_releases(step: TaskStep) -> bool {
    match step {
        TaskStep::Begin(Some(TaskAction::Finish { release_lease, .. })) => release_lease,
        TaskStep::End(TaskAction::Finish { release_lease, .. }) => release_lease,
        TaskStep::Cancel(release_lease) => release_lease,
        _ => false,
    }
}

/// The events sent by `steps`, in order.
pub open spec fn sent(steps: Seq<TaskStep>) -> Seq<ChatEvent>
    decreases steps.len(),
{
    if steps.len() == 0 {
        Seq::empty()
    } else {
        sent(steps.drop_last()) + step_sends(steps.last())
    }
}

/// The number of lease releases among `steps`.
pub open spec fn releases(steps: Seq<TaskStep>) -> nat
    decreases steps.len(),
{
    if steps.len() == 0 {
        0
    } else {
        releases(steps.drop_last()) + if step_releases(steps.last()) {
            1nat
        } else {
            0nat
        }
    }
}

impl StreamTask {
    /// A task for request `request_id` on `backend_id`, holding its lease.
    pub fn new(request_id: String, backend_id: String) -> (t: StreamTask)
        ensures
            t.request_id == request_id,
            t.backend_id == backend_id,
            t.attempt == 0,
            !t.usage_emitted,
            !t.emitted_output,
            !t.emitted_tool,
            t.lease_held,
            !t.finished,
    {
        StreamTask {
            request_id,
            backend_id,
            attempt: 0,
            usage_emitted: false,
            emitted_output: false,
            emitted_tool: false,
            lease_held: true,
            finished: false,
        }
    }

    /// The first event of the stream: the request, its backend and model.
    pub fn started(&self, model_id: &str) -> (ev: ChatEvent)
        ensures
            ev matches ChatEvent::Started { request_id, backend_id, model_id: m } && request_id@
                == self.request_id@ && backend_id@ == self.backend_id@ && m@ == model_id@,
            step_ok(*self, *self, TaskStep::Start(ev)),
    {
        ChatEvent::Started {
            request_id: self.request_id.clone(),
            backend_id: self.backend_id.clone(),
            model_id: String::from_str(model_id),
        }
    }

    /// Ends the task with `event`, releasing the lease if it is still held.
    fn finish(&mut self, event: ChatEvent) -> (a: TaskAction)
        ensures
            ended(*old(self), *final(self)),
            final(self).usage_emitted == old(self).usage_emitted,
            final(self).emitted_output == old(self).emitted_output,
            final(self).emitted_tool == old(self).emitted_tool,
            a matches TaskAction::Finish { event: ev, release_lease } && ev == event
                && release_lease == old(self).lease_held,
    {
        let release_lease = self.lease_held;
        self.lease_held = false;
        self.finished = true;
        TaskAction::Finish { event, release_lease }
    }

    /// The caller went away: the task stops, and says whether the lease is
    /// still to be released.
    pub fn cancel(&mut self) -> (release_lease: bool)
        ensures
            step_ok(*old(self), *final(self), TaskStep::Cancel(release_lease)),
            ended(*old(self), *final(self)),
            release_lease == old(self).lease_held,
    {
        let release_lease = self.lease_held;
        self.lease_held = false;
        self.finished = true;
        release_lease
    }

    /// Starts an attempt at `now_ms`: the breaker of the backend is asked,
    /// and a refusal ends the task with the breaker's error.
    pub fn begin_attempt(&mut self, layer: &mut ReliabilityLayer, now_ms: u64) -> (r: Option<TaskAction>)
        ensures
            step_ok(*old(self), *final(self), TaskStep::Begin(r)),
            final(layer).config_spec() == old(layer).config_spec(),
            final(layer).breaker(old(self).backend_id@) == allow_step(
                old(layer).breaker(old(self).backend_id@),
                now_ms,
            ).1,
            forall|b: Seq<char>|
                b != old(self).backend_id@ ==> #[trigger] final(layer).breaker(b) == old(layer).breaker(b),
            final(self).usage_emitted == old(self).usage_emitted,
            match allow_step(old(layer).breaker(old(self).backend_id@), now_ms).0 {
                None => {
                    &&& r is None
                    &&& *final(self) == (StreamTask {
                        emitted_output: false,
                        emitted_tool: false,
                        ..*old(self)
                    })
                },
                Some(_) => {
                    &&& ended(*old(self), *final(self))
                    &&& r matches Some(TaskAction::Finish { event, release_lease })
                    &&& release_lease == old(self).lease_held
                    &&& event matches ChatEvent::Failed { request_id, error }
                    &&& request_id == old(self).request_id
                    &&& error.kind == GatewayErrorKind::CircuitOpen
                    &&& !error.retryable
                    &&& opt_view(error.backend_id) == Some(old(self).backend_id@)
                },
            },
    {
        match layer.ensure_backend_allowed(self.backend_id.as_str(), now_ms) {
            Err(e) => {
                let event = ChatEvent::Failed { request_id: self.request_id.clone(), error: e };
                Some(self.finish(event))
            },
            Ok(()) => {
                self.emitted_output = false;
                self.emitted_tool = false;
                None
            },
        }
    }

    /// What to do with the next item of the adapter's stream: `None` when
    /// the stream stopped, else an event or the adapter's error.
    pub fn on_item(
        &mut self,
        normalizer: &ResponseNormalizer,
        item: Option<Result<BackendRawEvent, GatewayError>>,
    ) -> (a: StreamAction)
        ensures
            step_ok(*old(self), *final(self), TaskStep::Item(a)),
            final(self).request_id == old(self).request_id,
            final(self).backend_id == old(self).backend_id,
            final(self).attempt == old(self).attempt,
            final(self).lease_held == old(self).lease_held,
            final(self).finished == old(self).finished,
            match item {
                None => {
                    &&& a matches StreamAction::EndAttempt(AttemptEnd::Failure(e))
                        && backend_protocol_error(
                        e,
                        old(self).backend_id@,
                        "adapter stream ended without terminal event"@,
                    )
                    &&& *final(self) == *old(self)
                },
                Some(Err(err)) => {
                    &&& a matches StreamAction::EndAttempt(AttemptEnd::Failure(e))
                        && marked_with_backend(e, err, old(self).backend_id@)
                    &&& *final(self) == *old(self)
                },
                Some(Ok(raw)) => {
                    &&& final(self).emitted_output == (old(self).emitted_output || raw_is_output(raw))
                    &&& final(self).emitted_tool == (old(self).emitted_tool || raw_is_tool(raw))
                    &&& match raw {
                        BackendRawEvent::Usage { .. } => if old(self).usage_emitted {
                            &&& a matches StreamAction::EndAttempt(AttemptEnd::Failure(e))
                                && backend_protocol_error(
                                e,
                                old(self).backend_id@,
                                "duplicate usage event received"@,
                            )
                            &&& final(self).usage_emitted
                        } else {
                            &&& a matches StreamAction::ForwardUsage(ev) && gateway_event_of(
                                old(self).request_id,
                                raw,
                                ev,
                            )
                            &&& final(self).usage_emitted
                        },
                        BackendRawEvent::Completed { finish_reason } => {
                            &&& a matches StreamAction::EndAttempt(AttemptEnd::Success(f)) && f
                                == finish_reason
                            &&& final(self).usage_emitted == old(self).usage_emitted
                        },
                        BackendRawEvent::Failed { error } => {
                            &&& a matches StreamAction::EndAttempt(AttemptEnd::Failure(e)) && e == error
                            &&& final(self).usage_emitted == old(self).usage_emitted
                        },
                        _ => {
                            &&& a matches StreamAction::Forward(ev) && gateway_event_of(
                                old(self).request_id,
                                raw,
                                ev,
                            )
                            &&& final(self).usage_emitted == old(self).usage_emitted
                        },
                    }
                },
            },
    {
        match item {
            None => {
                let e = GatewayError::new(
                    GatewayErrorKind::ProtocolViolation,
                    "adapter stream ended without terminal event",
                ).with_retryable(false).with_backend_id(self.backend_id.as_str());
                StreamAction::EndAttempt(AttemptEnd::Failure(e))
            },
            Some(Err(err)) => {
                StreamAction::EndAttempt(
                    AttemptEnd::Failure(err.with_backend_id(self.backend_id.as_str())),
                )
            },
            Some(Ok(raw)) => {
                let mapped = normalizer.map_raw(&self.request_id, raw);
                let event = match mapped {
                    Ok(ev) => ev,
                    Err(err) => {
                        return StreamAction::EndAttempt(
                            AttemptEnd::Failure(err.with_backend_id(self.backend_id.as_str())),
                        );
                    },
                };
                if ResponseNormalizer::is_output_event(&event) {
                    self.emitted_output = true;
                }
                if ResponseNormalizer::is_tool_event(&event) {
                    self.emitted_tool = true;
                }
                match event {
                    ChatEvent::Usage { request_id, usage } => {
                        if self.usage_emitted {
                            let e = GatewayError::new(
                                GatewayErrorKind::ProtocolViolation,
                                "duplicate usage event received",
                            ).with_retryable(false).with_backend_id(self.backend_id.as_str());
                            return StreamAction::EndAttempt(AttemptEnd::Failure(e));
                        }
                        self.usage_emitted = true;
                        StreamAction::ForwardUsage(ChatEvent::Usage { request_id, usage })
                    },
                    ChatEvent::Completed { finish_reason, .. } => {
                        StreamAction::EndAttempt(AttemptEnd::Success(finish_reason))
                    },
                    ChatEvent::Failed { error, .. } => {
                        StreamAction::EndAttempt(AttemptEnd::Failure(error))
                    },
                    other => StreamAction::Forward(other),
                }
            },
        }
    }

    /// After an attempt ended at `now_ms`: a success closes the breaker and
    /// ends the task with the completion; a failure is recorded against the
    /// breaker and retried while the retry rules allow (decided before it is
    /// recorded), else it ends the task.
    pub fn end_attempt(
        &mut self,
        layer: &mut ReliabilityLayer,
        end: AttemptEnd,
        capabilities: &BackendCapabilities,
        adapter_tool_retry_safe: bool,
        now_ms: u64,
    ) -> (a: TaskAction)
        requires
            now_ms + (if old(layer).config_spec().breaker_open_ms == 0 {
                1
            } else {
                old(layer).config_spec().breaker_open_ms as int
            }) <= u64::MAX,
        ensures
            step_ok(*old(self), *final(self), TaskStep::End(a)),
            final(layer).config_spec() == old(layer).config_spec(),
            forall|b: Seq<char>|
                b != old(self).backend_id@ ==> #[trigger] final(layer).breaker(b) == old(layer).breaker(b),
            final(self).usage_emitted == old(self).usage_emitted,
            match end {
                AttemptEnd::Success(f) => {
                    &&& final(layer).breaker(old(self).backend_id@) == success_step(
                        old(layer).breaker(old(self).backend_id@),
                    )
                    &&& ended(*old(self), *final(self))
                    &&& a matches TaskAction::Finish { event, release_lease }
                    &&& release_lease == old(self).lease_held
                    &&& event matches ChatEvent::Completed { request_id, finish_reason }
                    &&& request_id == old(self).request_id
                    &&& finish_reason == f
                },
                AttemptEnd::Failure(err) => {
                    &&& final(layer).breaker(old(self).backend_id@) == if counts_spec(err.kind) {
                        failure_step(
                            old(layer).breaker(old(self).backend_id@),
                            old(layer).config_spec().breaker_failure_threshold,
                            old(layer).config_spec().breaker_open_ms,
                            now_ms,
                        )
                    } else {
                        old(layer).breaker(old(self).backend_id@)
                    }
                    &&& if can_retry_spec(
                        old(layer).config_spec(),
                        err.retryable,
                        old(self).attempt,
                        old(self).emitted_output,
                        old(self).emitted_tool,
                        *capabilities,
                        adapter_tool_retry_safe,
                    ) {
                        &&& a == TaskAction::Retry { attempt: (old(self).attempt + 1) as u32 }
                        &&& *final(self) == (StreamTask {
                            attempt: (old(self).attempt + 1) as u32,
                            ..*old(self)
                        })
                    } else {
                        &&& ended(*old(self), *final(self))
                        &&& a matches TaskAction::Finish { event, release_lease }
                        &&& release_lease == old(self).lease_held
                        &&& event matches ChatEvent::Failed { request_id, error }
                        &&& request_id == old(self).request_id
                        &&& error == err
                    }
                },
            },
    {
        match end {
            AttemptEnd::Success(finish_reason) => {
                layer.record_success(self.backend_id.as_str());
                let event = ChatEvent::Completed { request_id: self.request_id.clone(), finish_reason };
                self.finish(event)
            },
            AttemptEnd::Failure(err) => {
                let can_retry = layer.can_retry(
                    &err,
                    self.attempt,
                    self.emitted_output,
                    self.emitted_tool,
                    capabilities,
                    adapter_tool_retry_safe,
                );
                let counts = ReliabilityLayer::counts_toward_breaker(&err);
                layer.record_failure(self.backend_id.as_str(), counts, now_ms);
                if can_retry {
                    self.attempt = self.attempt + 1;
                    return TaskAction::Retry { attempt: self.attempt };
                }
                let event = ChatEvent::Failed { request_id: self.request_id.clone(), error: err };
                self.finish(event)
            },
        }
    }
}

/// Law: over a whole run of a stream task, from a fresh task that holds
/// its lease, where the announcement comes first and no step is taken once
/// the task has finished: the first event sent is the announcement and no
/// other is; at most one terminal event is sent, and only as the last event
/// and when the task has finished; and the lease is released exactly once
/// by the time the task has finished (by completion, failure, the breaker's
/// refusal or cancellation), and not before.
pub proof fn lemma_stream_run(tasks: Seq<StreamTask>, steps: Seq<TaskStep>)
    requires
        tasks.len() == steps.len() + 1,
        tasks[0].lease_held,
        !tasks[0].finished,
        steps.len() > 0 ==> steps[0] is Start,
        forall|i: int| 0 < i < steps.len() ==> !(#[trigger] steps[i] is Start),
        forall|i: int| 0 <= i < steps.len() ==> step_ok(tasks[i], tasks[i + 1], #[trigger] steps[i]),
        forall|i: int| 0 <= i < steps.len() ==> !(#[trigger] tasks[i]).finished,
    ensures
        releases(steps) + (if tasks.last().lease_held { 1nat } else { 0nat }) == 1,
        tasks.last().finished ==> releases(steps) == 1,
        steps.len() > 0 ==> sent(steps).len() > 0 && sent(steps)[0] is Started,
        forall|j: int| 0 < j < sent(steps).len() ==> !(#[trigger] sent(steps)[j] is Started),
        forall|j: int|
            0 <= j < sent(steps).len() && terminal_event(#[trigger] sent(steps)[j]) ==> j == sent(
                steps,
            ).len() - 1 && tasks.last().finished,
    decreases steps.len(),
{
    if steps.len() > 0 {
        let n = steps.len() as int;
        let ps = steps.drop_last();
        let pt = tasks.drop_last();
        assert forall|i: int| 0 < i < ps.len() implies !(#[trigger] ps[i] is Start) by {
            assert(ps[i] == steps[i]);
        }
        assert forall|i: int| 0 <= i < ps.len() implies step_ok(pt[i], pt[i + 1], #[trigger] ps[i]) by {
            assert(ps[i] == steps[i]);
            assert(pt[i] == tasks[i] && pt[i + 1] == tasks[i + 1]);
        }
        assert forall|i: int| 0 <= i < ps.len() implies !(#[trigger] pt[i]).finished by {
            assert(pt[i] == tasks[i]);
        }
        if n > 1 {
            assert(ps[0] == steps[0]);
        }
        lemma_stream_run(pt, ps);
        let before = tasks[n - 1];
        let after = tasks[n];
        let st = steps[n - 1];
        assert(pt.last() == before);
        assert(steps.last() == st);
        assert(step_ok(before, after, st));
        assert(!before.finished);
        let old_sent = sent(ps);
        let new_sent = sent(steps);
        assert(new_sent == old_sent + step_sends(st));
        assert forall|j: int| 0 <= j < old_sent.len() implies !terminal_event(#[trigger] old_sent[j]) by {
            if terminal_event(old_sent[j]) {
                assert(pt.last().finished);
            }
        }
        assert forall|j: int| 0 <= j < old_sent.len() implies new_sent[j] == #[trigger] old_sent[j] by {}
        if n == 1 {
            assert(old_sent.len() == 0);
        }
    }
}

} // verus!
