//! The attempts of one backend dispatch: the breaker is asked before each
//! attempt, a failure is recorded and retried while the retry rules allow,
//! a success closes the breaker. The caller makes the adapter calls and
//! waits between attempts.
use vstd::prelude::*;

use crate::chat_replies::BackendCompleteResponse;
use crate::completion::TurnResponse;
use crate::error::GatewayError;
use crate::metadata::Metadata;
use crate::reliability::{
    allow_step, can_retry_spec, counts_spec, failure_step, success_step, ReliabilityLayer,
};
use crate::text::{decimal, decimal_seq};
use crate::types::BackendCapabilities;

verus! {

/// The id of the `seq`-th request to `model` of `backend_id`.
pub open spec fn request_id_spec(backend_id: Seq<char>, model: Seq<char>, seq: u64) -> Seq<char> {
    backend_id + "-"@ + model + "-"@ + decimal_seq(seq as nat)
}

pub fn next_request_id(backend_id: &str, model: &str, seq: u64) -> (r: String)
    ensures
        r@ == request_id_spec(backend_id@, model@, seq),
{
    let mut s = String::from_str(backend_id);
    s.append("-");
    s.append(model);
    s.append("-");
    s.append(decimal(seq).as_str());
    s
}

/// The attempt counter of one dispatch.
#[derive(Debug)]
pub struct DispatchAttempts {
    attempt: u32,
}

impl DispatchAttempts {
    pub closed spec fn attempt_spec(&self) -> u32 {
        self.attempt
    }

    pub fn new() -> (d: DispatchAttempts)
        ensures
            d.attempt_spec() == 0,
    {
        DispatchAttempts { attempt: 0 }
    }

    /// The number of the current attempt, from 0.
    pub fn attempt(&self) -> (r: u32)
        ensures
            r == self.attempt_spec(),
    {
        self.attempt
    }

    /// Asks the breaker of `backend_id` before an attempt at `now_ms`; an
    /// error ends the dispatch.
    pub fn begin_attempt(&self, layer: &mut ReliabilityLayer, backend_id: &str, now_ms: u64) -> (r:
        Result<(), GatewayError>)
        ensures
            final(layer).config_spec() == old(layer).config_spec(),
            final(layer).breaker(backend_id@) == allow_step(old(layer).breaker(backend_id@), now_ms).1,
            forall|b: Seq<char>| b != backend_id@ ==> #[trigger] final(layer).breaker(b) == old(
                layer,
            ).breaker(b),
            r is Ok <==> allow_step(old(layer).breaker(backend_id@), now_ms).0 is None,
    {
        layer.ensure_backend_allowed(backend_id, now_ms)
    }

    /// Records that the adapter succeeded.
    pub fn on_success(&self, layer: &mut ReliabilityLayer, backend_id: &str)
        ensures
            final(layer).config_spec() == old(layer).config_spec(),
            final(layer).breaker(backend_id@) == success_step(old(layer).breaker(backend_id@)),
            forall|b: Seq<char>| b != backend_id@ ==> #[trigger] final(layer).breaker(b) == old(
                layer,
            ).breaker(b),
    {
        layer.record_success(backend_id);
    }

    /// Records that the adapter failed with `err` at `now_ms`, and decides:
    /// `None` to retry with the next attempt, or the error to fail with.
    /// Whether to retry is decided before the failure is recorded.
    pub fn on_failure(
        &mut self,
        layer: &mut ReliabilityLayer,
        backend_id: &str,
        err: GatewayError,
        capabilities: &BackendCapabilities,
        adapter_tool_retry_safe: bool,
        now_ms: u64,
    ) -> (r: Option<GatewayError>)
        requires
            now_ms + (if old(layer).config_spec().breaker_open_ms == 0 {
                1
            } else {
                old(layer).config_spec().breaker_open_ms as int
            }) <= u64::MAX,
        ensures
            final(layer).config_spec() == old(layer).config_spec(),
            final(layer).breaker(backend_id@) == if counts_spec(err.kind) {
                failure_step(
                    old(layer).breaker(backend_id@),
                    old(layer).config_spec().breaker_failure_threshold,
                    old(layer).config_spec().breaker_open_ms,
                    now_ms,
                )
            } else {
                old(layer).breaker(backend_id@)
            },
            forall|b: Seq<char>| b != backend_id@ ==> #[trigger] final(layer).breaker(b) == old(
                layer,
            ).breaker(b),
            if can_retry_spec(
                old(layer).config_spec(),
                err.retryable,
                old(self).attempt_spec(),
                false,
                false,
                *capabilities,
                adapter_tool_retry_safe,
            ) {
                &&& r is None
                &&& final(self).attempt_spec() == old(self).attempt_spec() + 1
            } else {
                &&& r == Some(err)
                &&& final(self).attempt_spec() == old(self).attempt_spec()
            },
    {
        let can_retry = layer.can_retry(
            &err,
            self.attempt,
            false,
            false,
            capabilities,
            adapter_tool_retry_safe,
        );
        let counts = ReliabilityLayer::counts_toward_breaker(&err);
        layer.record_failure(backend_id, counts, now_ms);
        if can_retry {
            self.attempt = self.attempt + 1;
            return None;
        }
        Some(err)
    }
}

/// The answer to a turn from a backend's complete response: its output,
/// tool calls, usage and finish reason, no tool continuation pending, and
/// backend metadata that names exactly the backend, the model and the
/// request.
pub fn turn_response_from(
    complete: BackendCompleteResponse,
    backend_id: &str,
    model: &str,
    request_id: &str,
) -> (r: TurnResponse)
    ensures
        r.output_text == complete.output_text,
        r.tool_calls == complete.tool_calls,
        r.usage == complete.usage,
        r.finish_reason == complete.finish_reason,
        !r.pending_tool_call_continuation,
        r.backend_metadata.wf(),
        r.backend_metadata.get_spec("backend_id"@) == Some(backend_id@),
        r.backend_metadata.get_spec("model"@) == Some(model@),
        r.backend_metadata.get_spec("request_id"@) == Some(request_id@),
        forall|k: Seq<char>|
            k != "backend_id"@ && k != "model"@ && k != "request_id"@ ==> #[trigger] r.backend_metadata.get_spec(k)
                is None,
{
    proof {
        reveal_strlit("backend_id");
        reveal_strlit("model");
        reveal_strlit("request_id");
        assert("backend_id"@.len() != "model"@.len());
        assert("request_id"@.len() != "model"@.len());
        assert("backend_id"@[0] != "request_id"@[0]);
    }
    let mut backend_metadata = Metadata::new();
    backend_metadata.insert(String::from_str("backend_id"), String::from_str(backend_id));
    backend_metadata.insert(String::from_str("model"), String::from_str(model));
    backend_metadata.insert(String::from_str("request_id"), String::from_str(request_id));
    TurnResponse {
        output_text: complete.output_text,
        tool_calls: complete.tool_calls,
        pending_tool_call_continuation: false,
        usage: complete.usage,
        finish_reason: complete.finish_reason,
        backend_metadata,
    }
}

/// Law: a dispatch retries only below the configured number of retries, so
/// it makes at most `max_retries + 1` attempts.
pub proof fn lemma_retry_bounded(
    config: crate::types::ReliabilityConfig,
    retryable: bool,
    attempt: u32,
    emitted_output: bool,
    emitted_tool: bool,
    caps: BackendCapabilities,
    safe: bool,
)
    requires
        can_retry_spec(config, retryable, attempt, emitted_output, emitted_tool, caps, safe),
    ensures
        attempt + 1 <= config.max_retries,
{
}

} // verus!
