//! The message store of a chat thread: its messages and pending tool
//! messages, its system prompt mode, its turn counters, and how its context
//! is trimmed and rewritten. No tool message is left leading the context.
use vstd::prelude::*;

use crate::chat_types::{ChatMessage, ChatRole, UsageStats};
use crate::error::{invalid_request, plain_error, GatewayError, GatewayErrorKind};
use crate::text::{decimal, decimal_seq, str_eq, trim, trim_seq};

verus! {

/// Where a range of messages starts or ends.
#[derive(Debug, Clone, Copy, PartialEq, Eq, Structural)]
pub enum MessageBoundarySelector {
    FirstUserMessage,
    LatestAssistantToolBatchEnd,
}

pub open spec fn selector_name(s: MessageBoundarySelector) -> Seq<char> {
    match s {
        MessageBoundarySelector::FirstUserMessage => "FirstUserMessage"@,
        MessageBoundarySelector::LatestAssistantToolBatchEnd => "LatestAssistantToolBatchEnd"@,
    }
}

pub fn selector_text(s: MessageBoundarySelector) -> (r: &'static str)
    ensures
        r@ == selector_name(s),
{
    proof {
        reveal_strlit("FirstUserMessage");
        reveal_strlit("LatestAssistantToolBatchEnd");
    }
    match s {
        MessageBoundarySelector::FirstUserMessage => "FirstUserMessage",
        MessageBoundarySelector::LatestAssistantToolBatchEnd => "LatestAssistantToolBatchEnd",
    }
}

/// The messages between two boundaries, both included.
#[derive(Debug, Clone, Copy, PartialEq, Eq, Structural)]
pub struct MessageRange {
    pub start: MessageBoundarySelector,
    pub end: MessageBoundarySelector,
}

/// What a rewrite does to the thread's system prompt.
#[derive(Debug)]
pub enum SystemPromptUpdate {
    Keep,
    Replace(String),
    Clear,
}

/// A rewrite of a thread's messages and system prompt.
#[derive(Debug)]
pub struct ThreadMessageMutationRequest {
    pub trim_message_range: Option<MessageRange>,
    pub trim_if_resolvable: bool,
    pub system_prompt_update: SystemPromptUpdate,
}

/// What a rewrite did.
#[derive(Debug, Clone, Copy, PartialEq, Eq, Structural)]
pub struct ThreadMessageMutationOutcome {
    pub removed_messages: usize,
    pub remaining_messages: usize,
    pub effective_system_prompt_changed: bool,
}

/// Which system prompt a thread uses.
#[derive(Debug, PartialEq, Eq)]
pub enum ThreadSystemPromptMode {
    UseChatDefault,
    Override(String),
    Cleared,
}

impl ThreadSystemPromptMode {
    /// The prompt in effect: the chat's, the thread's own, or none.
    pub fn resolve(&self, chat_system_prompt: Option<&str>) -> (r: Option<String>)
        ensures
            match *self {
                ThreadSystemPromptMode::UseChatDefault => match chat_system_prompt {
                    Some(p) => r matches Some(s) && s@ == p@,
                    None => r is None,
                },
                ThreadSystemPromptMode::Override(v) => r matches Some(s) && s@ == v@,
                ThreadSystemPromptMode::Cleared => r is None,
            },
    {
        match self {
            ThreadSystemPromptMode::UseChatDefault => match chat_system_prompt {
                Some(p) => Some(String::from_str(p)),
                None => None,
            },
            ThreadSystemPromptMode::Override(value) => Some(value.clone()),
            ThreadSystemPromptMode::Cleared => None,
        }
    }

    /// Applies `update` and says whether the prompt in effect changed as
    /// far as the mode shows; a blank replacement is refused.
    pub fn apply_update(&mut self, update: SystemPromptUpdate) -> (r: Result<bool, GatewayError>)
        ensures
            match update {
                SystemPromptUpdate::Keep => r == Ok::<bool, GatewayError>(false) && *final(self)
                    == *old(self),
                SystemPromptUpdate::Replace(p) => if trim_seq(p@).len() == 0 {
                    &&& r matches Err(e) && plain_error(
                        e,
                        GatewayErrorKind::InvalidRequest,
                        "system_prompt_update.replace must not be empty"@,
                    )
                    &&& *final(self) == *old(self)
                } else {
                    &&& *final(self) matches ThreadSystemPromptMode::Override(v) && v@ == trim_seq(p@)
                    &&& r == Ok::<bool, GatewayError>(
                        match *old(self) {
                            ThreadSystemPromptMode::Override(cur) => cur@ != trim_seq(p@),
                            _ => true,
                        },
                    )
                },
                SystemPromptUpdate::Clear => {
                    &&& *final(self) == ThreadSystemPromptMode::Cleared
                    &&& r == Ok::<bool, GatewayError>(!(*old(self) is Cleared))
                },
            },
    {
        match update {
            SystemPromptUpdate::Keep => Ok(false),
            SystemPromptUpdate::Replace(prompt) => {
                let trimmed = trim(prompt.as_str());
                if trimmed.as_str().unicode_len() == 0 {
                    return Err(invalid_request("system_prompt_update.replace must not be empty"));
                }
                let changed = match self {
                    ThreadSystemPromptMode::Override(current) => !str_eq(
                        current.as_str(),
                        trimmed.as_str(),
                    ),
                    _ => true,
                };
                *self = ThreadSystemPromptMode::Override(trimmed);
                Ok(changed)
            },
            SystemPromptUpdate::Clear => {
                let changed = match self {
                    ThreadSystemPromptMode::Cleared => false,
                    _ => true,
                };
                *self = ThreadSystemPromptMode::Cleared;
                Ok(changed)
            },
        }
    }
}

/// The position of the first user message.
pub open spec fn first_user(ms: Seq<ChatMessage>, i: int) -> Option<int>
    decreases ms.len() - i,
{
    if i < 0 || i >= ms.len() {
        None
    } else if ms[i].role == ChatRole::User {
        Some(i)
    } else {
        first_user(ms, i + 1)
    }
}

/// An assistant message that asked for tool calls.
pub open spec fn is_tool_batch(m: ChatMessage) -> bool {
    m.role == ChatRole::Assistant && m.tool_calls@.len() > 0
}

/// The position of the last assistant message below `n` that asked for
/// tool calls.
pub open spec fn last_tool_batch(ms: Seq<ChatMessage>, n: int) -> Option<int>
    decreases n,
{
    if n <= 0 {
        None
    } else if is_tool_batch(ms[n - 1]) {
        Some(n - 1)
    } else {
        last_tool_batch(ms, n - 1)
    }
}

/// `m` answers one of the calls of the assistant message `a`.
pub open spec fn answers_batch(a: ChatMessage, m: ChatMessage) -> bool {
    m.role == ChatRole::Tool && (m.tool_call_id matches Some(id) && exists|k: int|
        0 <= k < a.tool_calls@.len() && #[trigger] a.tool_calls@[k].id@ == id@)
}

/// The last position of the run of answers to the batch at `a` that starts
/// after `j`, where `j` is already in it.
pub open spec fn batch_end_from(ms: Seq<ChatMessage>, a: int, j: int) -> int
    decreases ms.len() - j,
{
    if j + 1 < ms.len() && 0 <= a < ms.len() && answers_batch(ms[a], ms[j + 1]) {
        batch_end_from(ms, a, j + 1)
    } else {
        j
    }
}

/// The position a boundary selects, if any.
pub open spec fn boundary_spec(ms: Seq<ChatMessage>, s: MessageBoundarySelector) -> Option<int> {
    match s {
        MessageBoundarySelector::FirstUserMessage => first_user(ms, 0),
        MessageBoundarySelector::LatestAssistantToolBatchEnd => match last_tool_batch(
            ms,
            ms.len() as int,
        ) {
            Some(a) => Some(batch_end_from(ms, a, a)),
            None => None,
        },
    }
}

#[verifier::loop_isolation(false)]
fn answers(a: &ChatMessage, m: &ChatMessage) -> (r: bool)
    ensures
        r == answers_batch(*a, *m),
{
    if m.role != ChatRole::Tool {
        return false;
    }
    match &m.tool_call_id {
        None => false,
        Some(id) => {
            let mut k: usize = 0;
            while k < a.tool_calls.len()
                invariant
                    k <= a.tool_calls@.len(),
                    forall|q: int| 0 <= q < k ==> a.tool_calls@[q].id@ != id@,
                decreases a.tool_calls@.len() - k,
            {
                if str_eq(a.tool_calls[k].id.as_str(), id.as_str()) {
                    assert(a.tool_calls@[k as int].id@ == id@);
                    return true;
                }
                k = k + 1;
            }
            false
        },
    }
}

/// The position that `selector` picks in `messages`: the first user
/// message, or the end of the answers that directly follow the latest
/// assistant message with tool calls.
#[verifier::loop_isolation(false)]
pub fn resolve_message_boundary(messages: &Vec<ChatMessage>, selector: MessageBoundarySelector) -> (r:
    Option<usize>)
    ensures
        match boundary_spec(messages@, selector) {
            Some(i) => r == Some(i as usize) && 0 <= i < messages@.len(),
            None => r is None,
        },
{
    match selector {
        MessageBoundarySelector::FirstUserMessage => {
            let mut i: usize = 0;
            while i < messages.len()
                invariant
                    i <= messages@.len(),
                    first_user(messages@, 0) == first_user(messages@, i as int),
                decreases messages@.len() - i,
            {
                if messages[i].role == ChatRole::User {
                    return Some(i);
                }
                i = i + 1;
            }
            None
        },
        MessageBoundarySelector::LatestAssistantToolBatchEnd => {
            let n = messages.len();
            let mut i: usize = n;
            while i > 0
                invariant
                    i <= n,
                    n == messages@.len(),
                    last_tool_batch(messages@, n as int) == last_tool_batch(messages@, i as int),
                decreases i,
            {
                let m = &messages[i - 1];
                if m.role == ChatRole::Assistant && m.tool_calls.len() > 0 {
                    break;
                }
                i = i - 1;
            }
            if i == 0 {
                return None;
            }
            let a = i - 1;
            let mut boundary = a;
            while boundary + 1 < n && answers(&messages[a], &messages[boundary + 1])
                invariant
                    a <= boundary < n,
                    n == messages@.len(),
                    batch_end_from(messages@, a as int, a as int) == batch_end_from(
                        messages@,
                        a as int,
                        boundary as int,
                    ),
                decreases n - boundary,
            {
                boundary = boundary + 1;
            }
            Some(boundary)
        },
    }
}

/// How many tool messages lead `ms`.
pub open spec fn leading_tools(ms: Seq<ChatMessage>) -> nat
    decreases ms.len(),
{
    if ms.len() == 0 || ms[0].role != ChatRole::Tool {
        0
    } else {
        1 + leading_tools(ms.drop_first())
    }
}

proof fn lemma_leading_tools(ms: Seq<ChatMessage>)
    ensures
        leading_tools(ms) <= ms.len(),
        forall|i: int| 0 <= i < leading_tools(ms) ==> (#[trigger] ms[i]).role == ChatRole::Tool,
        leading_tools(ms) < ms.len() ==> ms[leading_tools(ms) as int].role != ChatRole::Tool,
    decreases ms.len(),
{
    if ms.len() > 0 && ms[0].role == ChatRole::Tool {
        lemma_leading_tools(ms.drop_first());
        assert forall|i: int| 0 <= i < leading_tools(ms) implies (#[trigger] ms[i]).role
            == ChatRole::Tool by {
            if i > 0 {
                assert(ms[i] == ms.drop_first()[i - 1]);
            }
        }
        if leading_tools(ms) < ms.len() {
            assert(ms[leading_tools(ms) as int] == ms.drop_first()[leading_tools(ms.drop_first()) as int]);
        }
    }
}

/// Drops the tool messages that lead `messages`, which have lost their
/// calls, and says how many.
pub fn drop_leading_orphan_tool_messages(messages: &mut Vec<ChatMessage>) -> (r: usize)
    ensures
        r == leading_tools(old(messages)@),
        final(messages)@ == old(messages)@.skip(r as int),
{
    let ghost src = messages@;
    proof {
        lemma_leading_tools(src);
    }
    let mut count: usize = 0;
    while count < messages.len() && messages[count].role == ChatRole::Tool
        invariant
            messages@ == src,
            count <= src.len(),
            count <= leading_tools(src),
            forall|i: int| 0 <= i < count ==> (#[trigger] src[i]).role == ChatRole::Tool,
            leading_tools(src) <= src.len(),
            forall|i: int| 0 <= i < leading_tools(src) ==> (#[trigger] src[i]).role == ChatRole::Tool,
            leading_tools(src) < src.len() ==> src[leading_tools(src) as int].role != ChatRole::Tool,
        decreases src.len() - count,
    {
        count = count + 1;
    }
    let mut removed: usize = 0;
    while removed < count
        invariant
            removed <= count,
            count <= src.len(),
            messages@ == src.skip(removed as int),
        decreases count - removed,
    {
        messages.remove(0);
        assert(messages@ =~= src.skip(removed + 1));
        removed = removed + 1;
    }
    count
}

/// What is left of `ms` when at most `max` messages are kept (all, for a
/// zero maximum): the latest ones, without leading tool messages.
pub open spec fn trimmed(ms: Seq<ChatMessage>, max: usize) -> Seq<ChatMessage> {
    if max == 0 || ms.len() <= max {
        ms
    } else {
        let rest = ms.skip(ms.len() - max);
        rest.skip(leading_tools(rest) as int)
    }
}

/// The counters of a thread.
#[derive(Debug, Clone, Copy, PartialEq, Eq, Structural)]
pub struct ThreadMetrics {
    pub turns_total: u64,
    pub tool_calls_total: u64,
    pub tokens_in_total: u64,
    pub tokens_out_total: u64,
    pub failures_total: u64,
    pub last_turn_latency_ms: Option<u64>,
}

/// What a turn is given: its id, the messages it sends, the system prompt
/// in effect, and whether it took the pending tool messages.
#[derive(Debug)]
pub struct PreparedTurn {
    pub turn_id: u64,
    pub messages: Vec<ChatMessage>,
    pub system_prompt: Option<String>,
    pub consumed_pending_tool_messages: bool,
}

/// The public picture of a thread.
#[derive(Debug)]
pub struct ThreadState {
    pub thread_id: String,
    pub next_turn_id: u64,
    pub message_count: usize,
    pub turns_total: u64,
    pub tool_calls_total: u64,
    pub failures_total: u64,
    pub last_turn_latency_ms: Option<u64>,
}

/// The stored messages of one thread.
#[derive(Debug)]
pub struct ThreadData {
    pub messages: Vec<ChatMessage>,
    pub pending_tool_messages: Vec<ChatMessage>,
    pub system_prompt_mode: ThreadSystemPromptMode,
    pub next_turn_id: u64,
    pub metrics: ThreadMetrics,
}

pub open spec fn sat_add(a: u64, b: u64) -> u64 {
    if a + b > u64::MAX {
        u64::MAX
    } else {
        (a + b) as u64
    }
}

/// The turn that `data` prepares for `input`: the stored messages, the
/// pending tool messages, then the input, with the system prompt in effect.
pub open spec fn prepared_for(
    data: ThreadData,
    input: Seq<ChatMessage>,
    chat_system_prompt: Option<&str>,
    r: PreparedTurn,
) -> bool {
    &&& r.turn_id == data.next_turn_id
    &&& r.consumed_pending_tool_messages == (data.pending_tool_messages@.len() > 0)
    &&& r.messages@.len() == data.messages@.len() + data.pending_tool_messages@.len() + input.len()
    &&& forall|i: int|
        0 <= i < data.messages@.len() ==> (#[trigger] r.messages@[i]).same_as(&data.messages@[i])
    &&& forall|j: int|
        0 <= j < data.pending_tool_messages@.len() ==> (#[trigger] r.messages@[data.messages@.len()
            + j]).same_as(&data.pending_tool_messages@[j])
    &&& forall|j: int|
        0 <= j < input.len() ==> (#[trigger] r.messages@[data.messages@.len()
            + data.pending_tool_messages@.len() + j]).same_as(&input[j])
    &&& match data.system_prompt_mode {
        ThreadSystemPromptMode::UseChatDefault => match chat_system_prompt {
            Some(p) => r.system_prompt matches Some(s) && s@ == p@,
            None => r.system_prompt is None,
        },
        ThreadSystemPromptMode::Override(v) => r.system_prompt matches Some(s) && s@ == v@,
        ThreadSystemPromptMode::Cleared => r.system_prompt is None,
    }
}

/// Room for one more turn in the counters that do not saturate.
pub open spec fn has_turn_room(data: ThreadData) -> bool {
    data.next_turn_id < u64::MAX && data.metrics.turns_total < u64::MAX
}

/// `after` is `before` with a successful turn recorded: the pending tool
/// messages it took, then its new messages, join the history; new pending
/// messages replace the old; the context is trimmed and the counters move
/// on.
pub open spec fn success_committed(
    before: ThreadData,
    after: ThreadData,
    max_messages: usize,
    consumed: bool,
    new_messages: Seq<ChatMessage>,
    new_pending: Option<Seq<ChatMessage>>,
    usage: Option<UsageStats>,
    tool_call_count: usize,
    latency_ms: u64,
) -> bool {
    let joined = if consumed {
        before.messages@ + before.pending_tool_messages@ + new_messages
    } else {
        before.messages@ + new_messages
    };
    let (tin, tout) = match usage {
        Some(u) => (
            match u.input_tokens {
                Some(t) => t,
                None => 0u64,
            },
            match u.output_tokens {
                Some(t) => t,
                None => 0u64,
            },
        ),
        None => (0u64, 0u64),
    };
    &&& after.messages@ == trimmed(joined, max_messages)
    &&& after.pending_tool_messages@ == match new_pending {
        Some(p) => p,
        None => if consumed {
            Seq::empty()
        } else {
            before.pending_tool_messages@
        },
    }
    &&& after.system_prompt_mode == before.system_prompt_mode
    &&& after.next_turn_id == before.next_turn_id + 1
    &&& after.metrics == ThreadMetrics {
        turns_total: (before.metrics.turns_total + 1) as u64,
        tool_calls_total: sat_add(before.metrics.tool_calls_total, tool_call_count as u64),
        tokens_in_total: sat_add(before.metrics.tokens_in_total, tin),
        tokens_out_total: sat_add(before.metrics.tokens_out_total, tout),
        failures_total: before.metrics.failures_total,
        last_turn_latency_ms: Some(latency_ms),
    }
}

/// `after` is `before` with a failed turn counted.
pub open spec fn failure_committed(before: ThreadData, after: ThreadData, latency_ms: u64) -> bool {
    &&& after.messages == before.messages
    &&& after.pending_tool_messages == before.pending_tool_messages
    &&& after.system_prompt_mode == before.system_prompt_mode
    &&& after.next_turn_id == before.next_turn_id
    &&& after.metrics == (ThreadMetrics {
        failures_total: sat_add(before.metrics.failures_total, 1),
        last_turn_latency_ms: Some(latency_ms),
        ..before.metrics
    })
}

/// What a rewrite of the thread named `thread_id` does: cut the messages of
/// the requested range (refusing a range that runs backwards, or one that
/// does not resolve unless told to skip it), drop the tool messages that
/// then lead, and apply the system prompt update.
pub open spec fn mutated(
    before: ThreadData,
    after: ThreadData,
    thread_id: Seq<char>,
    request: ThreadMessageMutationRequest,
    r: Result<ThreadMessageMutationOutcome, GatewayError>,
) -> bool {
    let ms = before.messages@;
    let u = request.system_prompt_update;
    match request.trim_message_range {
        None => update_applied(before, after, u, ms, 0, r),
        Some(range) => match resolved_range(ms, range) {
            Some((s, e)) => if s > e {
                &&& r matches Err(err) && plain_error(
                    err,
                    GatewayErrorKind::InvalidRequest,
                    range_order_message(s, e, thread_id),
                )
                &&& after == before
            } else {
                update_applied(before, after, u, cut_range(ms, s, e), cut_count(ms, s, e), r)
            },
            None => if !request.trim_if_resolvable {
                &&& r matches Err(err) && plain_error(
                    err,
                    GatewayErrorKind::InvalidRequest,
                    unresolved_message(range, thread_id),
                )
                &&& after == before
            } else {
                update_applied(before, after, u, ms, 0, r)
            },
        },
    }
}

/// Copies of `ms`.
fn copy_messages(ms: &Vec<ChatMessage>, out: &mut Vec<ChatMessage>)
    ensures
        final(out)@.len() == old(out)@.len() + ms@.len(),
        forall|i: int| 0 <= i < old(out)@.len() ==> final(out)@[i] == old(out)@[i],
        forall|j: int|
            0 <= j < ms@.len() ==> (#[trigger] final(out)@[old(out)@.len() + j]).same_as(&ms@[j]),
{
    let ghost start = out@;
    let mut i: usize = 0;
    while i < ms.len()
        invariant
            i <= ms@.len(),
            out@.len() == start.len() + i,
            forall|q: int| 0 <= q < start.len() ==> out@[q] == start[q],
            forall|j: int| 0 <= j < i ==> (#[trigger] out@[start.len() + j]).same_as(&ms@[j]),
        decreases ms@.len() - i,
    {
        out.push(ms[i].duplicate());
        i = i + 1;
    }
}

impl ThreadData {
    /// An empty thread that uses the chat's system prompt.
    pub fn new() -> (t: ThreadData)
        ensures
            t.messages@.len() == 0,
            t.pending_tool_messages@.len() == 0,
            t.system_prompt_mode == ThreadSystemPromptMode::UseChatDefault,
            t.next_turn_id == 0,
            t.metrics == (ThreadMetrics {
                turns_total: 0,
                tool_calls_total: 0,
                tokens_in_total: 0,
                tokens_out_total: 0,
                failures_total: 0,
                last_turn_latency_ms: None,
            }),
    {
        ThreadData {
            messages: Vec::new(),
            pending_tool_messages: Vec::new(),
            system_prompt_mode: ThreadSystemPromptMode::UseChatDefault,
            next_turn_id: 0,
            metrics: ThreadMetrics {
                turns_total: 0,
                tool_calls_total: 0,
                tokens_in_total: 0,
                tokens_out_total: 0,
                failures_total: 0,
                last_turn_latency_ms: None,
            },
        }
    }

    /// Keeps at most `max_messages` (all, for zero): the latest, and no
    /// leading tool message.
    pub fn trim_context(&mut self, max_messages: usize)
        ensures
            final(self).messages@ == trimmed(old(self).messages@, max_messages),
            final(self).pending_tool_messages == old(self).pending_tool_messages,
            final(self).system_prompt_mode == old(self).system_prompt_mode,
            final(self).next_turn_id == old(self).next_turn_id,
            final(self).metrics == old(self).metrics,
    {
        if max_messages == 0 || self.messages.len() <= max_messages {
            return;
        }
        let ghost src = self.messages@;
        let remove_count = self.messages.len() - max_messages;
        let mut removed: usize = 0;
        while removed < remove_count
            invariant
                removed <= remove_count,
                remove_count <= src.len(),
                self.messages@ == src.skip(removed as int),
                self.pending_tool_messages == old(self).pending_tool_messages,
                self.system_prompt_mode == old(self).system_prompt_mode,
                self.next_turn_id == old(self).next_turn_id,
                self.metrics == old(self).metrics,
            decreases remove_count - removed,
        {
            self.messages.remove(0);
            assert(self.messages@ =~= src.skip(removed + 1));
            removed = removed + 1;
        }
        drop_leading_orphan_tool_messages(&mut self.messages);
    }

    /// The turn to run: the stored messages, the pending tool messages,
    /// then the input, with the system prompt in effect.
    pub fn prepare(&self, input_messages: &Vec<ChatMessage>, chat_system_prompt: Option<&str>) -> (r:
        PreparedTurn)
        ensures
            prepared_for(*self, input_messages@, chat_system_prompt, r),
    {
        let mut messages: Vec<ChatMessage> = Vec::new();
        copy_messages(&self.messages, &mut messages);
        assert forall|i: int| 0 <= i < self.messages@.len() implies (#[trigger] messages@[i]).same_as(
            &self.messages@[i],
        ) by {
            assert(messages@[0 + i] == messages@[i]);
        }
        let consumed = self.pending_tool_messages.len() > 0;
        copy_messages(&self.pending_tool_messages, &mut messages);
        copy_messages(input_messages, &mut messages);
        PreparedTurn {
            turn_id: self.next_turn_id,
            messages,
            system_prompt: self.system_prompt_mode.resolve(chat_system_prompt),
            consumed_pending_tool_messages: consumed,
        }
    }

    /// Records a successful turn: the pending tool messages it took, then
    /// its new messages, join the history; new pending messages replace the
    /// old; the context is trimmed and the counters move on.
    pub fn commit_success(
        &mut self,
        max_messages: usize,
        consumed_pending_tool_messages: bool,
        new_messages: Vec<ChatMessage>,
        new_pending_tool_messages: Option<Vec<ChatMessage>>,
        usage: Option<UsageStats>,
        tool_call_count: usize,
        latency_ms: u64,
    ) -> (r: ThreadMetrics)
        requires
            has_turn_room(*old(self)),
        ensures
            success_committed(
                *old(self),
                *final(self),
                max_messages,
                consumed_pending_tool_messages,
                new_messages@,
                match new_pending_tool_messages {
                    Some(p) => Some(p@),
                    None => None,
                },
                usage,
                tool_call_count,
                latency_ms,
            ),
            r == final(self).metrics,
    {
        let mut new_messages = new_messages;
        if consumed_pending_tool_messages {
            let mut pending: Vec<ChatMessage> = Vec::new();
            std::mem::swap(&mut pending, &mut self.pending_tool_messages);
            self.messages.append(&mut pending);
        }
        self.messages.append(&mut new_messages);
        match new_pending_tool_messages {
            Some(pending) => {
                self.pending_tool_messages = pending;
            },
            None => {},
        }
        self.trim_context(max_messages);
        self.next_turn_id = self.next_turn_id + 1;
        self.metrics.turns_total = self.metrics.turns_total + 1;
        self.metrics.tool_calls_total = self.metrics.tool_calls_total.saturating_add(
            tool_call_count as u64,
        );
        self.metrics.last_turn_latency_ms = Some(latency_ms);
        let (tokens_in, tokens_out) = match &usage {
            Some(u) => (
                match u.input_tokens {
                    Some(t) => t,
                    None => 0,
                },
                match u.output_tokens {
                    Some(t) => t,
                    None => 0,
                },
            ),
            None => (0, 0),
        };
        self.metrics.tokens_in_total = self.metrics.tokens_in_total.saturating_add(tokens_in);
        self.metrics.tokens_out_total = self.metrics.tokens_out_total.saturating_add(tokens_out);
        self.metrics
    }

    /// Records a failed turn.
    pub fn commit_failure(&mut self, latency_ms: u64) -> (r: ThreadMetrics)
        ensures
            failure_committed(*old(self), *final(self), latency_ms),
            r == final(self).metrics,
    {
        self.metrics.failures_total = self.metrics.failures_total.saturating_add(1);
        self.metrics.last_turn_latency_ms = Some(latency_ms);
        self.metrics
    }

    /// The public picture of the thread named `thread_id`.
    pub fn state(&self, thread_id: &str) -> (r: ThreadState)
        ensures
            r.thread_id@ == thread_id@,
            r.next_turn_id == self.next_turn_id,
            r.message_count == self.messages@.len(),
            r.turns_total == self.metrics.turns_total,
            r.tool_calls_total == self.metrics.tool_calls_total,
            r.failures_total == self.metrics.failures_total,
            r.last_turn_latency_ms == self.metrics.last_turn_latency_ms,
    {
        ThreadState {
            thread_id: String::from_str(thread_id),
            next_turn_id: self.next_turn_id,
            message_count: self.messages.len(),
            turns_total: self.metrics.turns_total,
            tool_calls_total: self.metrics.tool_calls_total,
            failures_total: self.metrics.failures_total,
            last_turn_latency_ms: self.metrics.last_turn_latency_ms,
        }
    }
}

/// The positions that `range` resolves to in `ms`, when both ends resolve.
pub open spec fn resolved_range(ms: Seq<ChatMessage>, range: MessageRange) -> Option<(int, int)> {
    match (boundary_spec(ms, range.start), boundary_spec(ms, range.end)) {
        (Some(s), Some(e)) => Some((s, e)),
        _ => None,
    }
}

/// `ms` without the messages from `s` to `e`.
pub open spec fn without_range(ms: Seq<ChatMessage>, s: int, e: int) -> Seq<ChatMessage> {
    ms.take(s) + ms.skip(e + 1)
}

/// What is left of `ms` when the messages from `s` to `e` are cut, with the
/// tool messages that then lead it.
pub open spec fn cut_range(ms: Seq<ChatMessage>, s: int, e: int) -> Seq<ChatMessage> {
    let rest = without_range(ms, s, e);
    rest.skip(leading_tools(rest) as int)
}

/// How many messages that cut removes, saturating.
pub open spec fn cut_count(ms: Seq<ChatMessage>, s: int, e: int) -> int {
    let total = (e - s + 1) + leading_tools(without_range(ms, s, e));
    if total > usize::MAX {
        usize::MAX as int
    } else {
        total
    }
}

/// The refusal of a range whose start lies after its end.
pub open spec fn range_order_message(s: int, e: int, thread_id: Seq<char>) -> Seq<char> {
    "invalid message range: start="@ + decimal_seq(s as nat) + " is after end="@ + decimal_seq(
        e as nat,
    ) + " for thread '"@ + thread_id + "'"@
}

/// The refusal of a range that does not resolve.
pub open spec fn unresolved_message(range: MessageRange, thread_id: Seq<char>) -> Seq<char> {
    "cannot resolve message boundaries '"@ + selector_name(range.start) + "' -> '"@
        + selector_name(range.end) + "' for thread '"@ + thread_id + "'"@
}

/// A replacement prompt that is blank once trimmed.
pub open spec fn blank_replacement(u: SystemPromptUpdate) -> bool {
    u matches SystemPromptUpdate::Replace(p) && trim_seq(p@).len() == 0
}

/// The mode after `u` is applied to `before` (unchanged where it is refused).
pub open spec fn mode_after(
    before: ThreadSystemPromptMode,
    u: SystemPromptUpdate,
    after: ThreadSystemPromptMode,
) -> bool {
    match u {
        SystemPromptUpdate::Keep => after == before,
        SystemPromptUpdate::Replace(p) => if trim_seq(p@).len() == 0 {
            after == before
        } else {
            after matches ThreadSystemPromptMode::Override(v) && v@ == trim_seq(p@)
        },
        SystemPromptUpdate::Clear => after == ThreadSystemPromptMode::Cleared,
    }
}

/// Whether applying `u` to `before` changes the prompt in effect, as far as
/// the mode shows.
pub open spec fn prompt_changed(before: ThreadSystemPromptMode, u: SystemPromptUpdate) -> bool {
    match u {
        SystemPromptUpdate::Keep => false,
        SystemPromptUpdate::Replace(p) => match before {
            ThreadSystemPromptMode::Override(cur) => cur@ != trim_seq(p@),
            _ => true,
        },
        SystemPromptUpdate::Clear => !(before is Cleared),
    }
}

/// After the trim left `kept` and counted `removed`, the update of the
/// system prompt is applied and the outcome reported.
pub open spec fn update_applied(
    before: ThreadData,
    after: ThreadData,
    u: SystemPromptUpdate,
    kept: Seq<ChatMessage>,
    removed: int,
    r: Result<ThreadMessageMutationOutcome, GatewayError>,
) -> bool {
    &&& after.messages@ == kept
    &&& after.pending_tool_messages == before.pending_tool_messages
    &&& after.next_turn_id == before.next_turn_id
    &&& after.metrics == before.metrics
    &&& mode_after(before.system_prompt_mode, u, after.system_prompt_mode)
    &&& if blank_replacement(u) {
        r matches Err(err) && plain_error(
            err,
            GatewayErrorKind::InvalidRequest,
            "system_prompt_update.replace must not be empty"@,
        )
    } else {
        r == Ok::<ThreadMessageMutationOutcome, GatewayError>(
            ThreadMessageMutationOutcome {
                removed_messages: removed as usize,
                remaining_messages: kept.len() as usize,
                effective_system_prompt_changed: prompt_changed(before.system_prompt_mode, u),
            },
        )
    }
}

/// Removes the messages from `s` to `e`.
fn remove_range(messages: &mut Vec<ChatMessage>, s: usize, e: usize)
    requires
        s <= e < old(messages)@.len(),
    ensures
        final(messages)@ == without_range(old(messages)@, s as int, e as int),
{
    let ghost src = messages@;
    let n = messages.len();
    let mut k: usize = 0;
    while k <= e - s
        invariant
            s <= e < src.len(),
            n == src.len(),
            k <= e - s + 1,
            messages@ == src.take(s as int) + src.skip(s + k),
        decreases e - s + 1 - k,
    {
        messages.remove(s);
        assert(messages@ =~= src.take(s as int) + src.skip(s + k + 1));
        k = k + 1;
    }
    assert(messages@ =~= without_range(src, s as int, e as int));
}

fn range_order_error(s: usize, e: usize, thread_id: &str) -> (err: GatewayError)
    ensures
        plain_error(
            err,
            GatewayErrorKind::InvalidRequest,
            range_order_message(s as int, e as int, thread_id@),
        ),
{
    let mut m = String::from_str("invalid message range: start=");
    let sd = decimal(s as u64);
    m.append(sd.as_str());
    m.append(" is after end=");
    let ed = decimal(e as u64);
    m.append(ed.as_str());
    m.append(" for thread '");
    m.append(thread_id);
    m.append("'");
    crate::error::plain(GatewayErrorKind::InvalidRequest, m.as_str())
}

fn unresolved_error(range: MessageRange, thread_id: &str) -> (err: GatewayError)
    ensures
        plain_error(err, GatewayErrorKind::InvalidRequest, unresolved_message(range, thread_id@)),
{
    let mut m = String::from_str("cannot resolve message boundaries '");
    m.append(selector_text(range.start));
    m.append("' -> '");
    m.append(selector_text(range.end));
    m.append("' for thread '");
    m.append(thread_id);
    m.append("'");
    crate::error::plain(GatewayErrorKind::InvalidRequest, m.as_str())
}

impl ThreadData {
    /// Rewrites the thread named `thread_id`: cuts the messages of the
    /// requested range (refusing a range that runs backwards, or one that
    /// does not resolve unless told to skip it), drops the tool messages that
    /// then lead, and applies the system prompt update. The steps are not
    /// undone together: a replacement prompt that is refused as blank is
    /// refused after the range was already cut.
    pub fn mutate_messages(&mut self, thread_id: &str, request: ThreadMessageMutationRequest) -> (r:
        Result<ThreadMessageMutationOutcome, GatewayError>)
        ensures
            mutated(*old(self), *final(self), thread_id@, request, r),
    {
        let mut removed: usize = 0;
        let n = self.messages.len();
        if let Some(range) = request.trim_message_range {
            let start = resolve_message_boundary(&self.messages, range.start);
            let end = resolve_message_boundary(&self.messages, range.end);
            match (start, end) {
                (Some(s), Some(e)) => {
                    if s > e {
                        return Err(range_order_error(s, e, thread_id));
                    }
                    remove_range(&mut self.messages, s, e);
                    let dropped = drop_leading_orphan_tool_messages(&mut self.messages);
                    removed = (e - s + 1).saturating_add(dropped);
                },
                _ => {
                    if !request.trim_if_resolvable {
                        return Err(unresolved_error(range, thread_id));
                    }
                },
            }
        }
        let changed = match self.system_prompt_mode.apply_update(request.system_prompt_update) {
            Ok(c) => c,
            Err(err) => {
                return Err(err);
            },
        };
        Ok(
            ThreadMessageMutationOutcome {
                removed_messages: removed,
                remaining_messages: self.messages.len(),
                effective_system_prompt_changed: changed,
            },
        )
    }
}

/// Law: a trimmed context holds at most the maximum number of messages
/// (for a nonzero maximum) and starts with no tool message when it was
/// cut.
pub proof fn lemma_trimmed_bounded(ms: Seq<ChatMessage>, max: usize)
    requires
        max > 0,
        ms.len() > max,
    ensures
        trimmed(ms, max).len() <= max,
        trimmed(ms, max).len() > 0 ==> trimmed(ms, max)[0].role != ChatRole::Tool,
{
    let rest = ms.skip(ms.len() - max);
    lemma_leading_tools(rest);
    if trimmed(ms, max).len() > 0 {
        assert(trimmed(ms, max)[0] == rest[leading_tools(rest) as int]);
    }
}

/// Law: trimming drops messages from the front only: what is kept is a
/// suffix of the messages, in their order.
pub proof fn lemma_trimmed_is_suffix(ms: Seq<ChatMessage>, max: usize)
    ensures
        trimmed(ms, max).len() <= ms.len(),
        trimmed(ms, max) == ms.skip(ms.len() - trimmed(ms, max).len()),
{
    if max == 0 || ms.len() <= max {
        assert(ms.skip(0) =~= ms);
    } else {
        let rest = ms.skip(ms.len() - max);
        lemma_leading_tools(rest);
        let k = leading_tools(rest) as int;
        assert(rest.skip(k) =~= ms.skip(ms.len() - max + k));
    }
}

} // verus!
