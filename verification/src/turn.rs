//! A turn of a chat thread: its messages, in which every tool call is
//! directly followed by its result, and the bookkeeping of its completion.
use vstd::prelude::*;

use crate::chat_types::{FinishReason, ToolCallResult, ToolCallStatus, UsageStats};
use crate::error::{plain, plain_error, GatewayError, GatewayErrorKind};
use crate::json::{json_quote, json_quoted, JsonText};
use crate::message::{Message, MessageKind, ToolCallMessage, ToolCallResultMessage};
use crate::metadata::Metadata;
use crate::text::{decimal, decimal_seq};

verus! {

/// The first problem in the tool linkage of `msgs`, scanning from `i`.
pub enum LinkageProblem {
    NoResult(Seq<char>),
    NotFollowed(Seq<char>),
    Mismatch(Seq<char>, Seq<char>),
    Dangling(Seq<char>),
}

pub open spec fn linkage_problem(msgs: Seq<Message>, i: int) -> Option<LinkageProblem>
    decreases msgs.len() - i,
{
    if i < 0 || i >= msgs.len() {
        None
    } else {
        match msgs[i] {
            Message::ToolCall(call) => if i + 1 >= msgs.len() {
                Some(LinkageProblem::NoResult(call.call_id@))
            } else {
                match msgs[i + 1] {
                    Message::ToolCallResult(res) => if res.call_id@ != call.call_id@ {
                        Some(LinkageProblem::Mismatch(call.call_id@, res.call_id@))
                    } else {
                        linkage_problem(msgs, i + 2)
                    },
                    _ => Some(LinkageProblem::NotFollowed(call.call_id@)),
                }
            },
            Message::ToolCallResult(res) => Some(LinkageProblem::Dangling(res.call_id@)),
            _ => linkage_problem(msgs, i + 1),
        }
    }
}

/// Every tool call is directly followed by the result with its call id,
/// and no result stands alone.
pub open spec fn linkage_valid(msgs: Seq<Message>) -> bool {
    linkage_problem(msgs, 0) is None
}

/// The message of a linkage error in turn `turn_id`.
pub open spec fn linkage_message(turn_id: u64, p: LinkageProblem) -> Seq<char> {
    let t = "turn "@ + decimal_seq(turn_id as nat);
    match p {
        LinkageProblem::NoResult(c) => t + " is incomplete: tool call '"@ + c + "' has no result"@,
        LinkageProblem::NotFollowed(c) => t + " is incomplete: tool call '"@ + c
            + "' must be followed by ToolCallResultMessage"@,
        LinkageProblem::Mismatch(c, r) => t + " has mismatched tool linkage: call '"@ + c
            + "' != result '"@ + r + "'"@,
        LinkageProblem::Dangling(r) => t + " has dangling ToolCallResultMessage '"@ + r + "'"@,
    }
}

/// A message that is neither a tool call nor a tool result.
pub open spec fn is_plain(m: Message) -> bool {
    !(m is ToolCall) && !(m is ToolCallResult)
}

/// The number of tool calls among `msgs`.
pub open spec fn tool_call_count_spec(msgs: Seq<Message>) -> nat
    decreases msgs.len(),
{
    if msgs.len() == 0 {
        0
    } else {
        tool_call_count_spec(msgs.drop_last()) + if msgs.last() is ToolCall {
            1nat
        } else {
            0nat
        }
    }
}

pub struct Turn {
    turn_id: u64,
    messages: Vec<Message>,
    metadata: Metadata,
    usage: Option<UsageStats>,
    finish_reason: Option<FinishReason>,
    completed: bool,
}

pub struct AppendOutcome {
    pub reset_messages_applied: bool,
}

/// Two message lists that agree message by message.
pub open spec fn same_messages(a: Seq<Message>, b: Seq<Message>) -> bool {
    a.len() == b.len() && forall|i: int| 0 <= i < a.len() ==> #[trigger] a[i].same_as(&b[i])
}

/// A valid list stays valid when a plain message is appended.
proof fn lemma_push_plain(s: Seq<Message>, m: Message, i: int)
    requires
        0 <= i,
        linkage_problem(s, i) is None,
        is_plain(m),
    ensures
        linkage_problem(s.push(m), i) is None,
    decreases s.len() + 1 - i,
{
    let t = s.push(m);
    if i < s.len() {
        assert(t[i] == s[i]);
        match s[i] {
            Message::ToolCall(call) => {
                assert(t[i + 1] == s[i + 1]);
                lemma_push_plain(s, m, i + 2);
            },
            Message::ToolCallResult(_) => {},
            _ => {
                lemma_push_plain(s, m, i + 1);
            },
        }
    } else if i == s.len() {
        assert(t[i] == m);
        assert(linkage_problem(t, i + 1) is None);
    }
}

/// A valid list stays valid when a call and its result are appended.
proof fn lemma_push_pair(s: Seq<Message>, c: Message, r: Message, i: int)
    requires
        0 <= i,
        linkage_problem(s, i) is None,
        c matches Message::ToolCall(call) && r matches Message::ToolCallResult(res) && res.call_id@
            == call.call_id@,
        i <= s.len() || i == s.len() + 2,
    ensures
        linkage_problem(s.push(c).push(r), i) is None,
    decreases s.len() + 2 - i,
{
    let t = s.push(c).push(r);
    if i < s.len() {
        assert(t[i] == s[i]);
        match s[i] {
            Message::ToolCall(call) => {
                assert(t[i + 1] == s[i + 1]);
                lemma_push_pair(s, c, r, i + 2);
            },
            Message::ToolCallResult(_) => {},
            _ => {
                lemma_push_pair(s, c, r, i + 1);
            },
        }
    } else if i == s.len() {
        assert(t[i] == c);
        assert(t[i + 1] == r);
        assert(linkage_problem(t, i + 2) is None);
    }
}

/// Lists that agree message by message have the same tool linkage.
pub proof fn lemma_same_messages_linkage(a: Seq<Message>, b: Seq<Message>, i: int)
    requires
        same_messages(a, b),
        0 <= i,
    ensures
        linkage_problem(a, i) == linkage_problem(b, i),
    decreases a.len() - i,
{
    if i < a.len() {
        assert(a[i].same_as(&b[i]));
        if i + 1 < a.len() {
            assert(a[i + 1].same_as(&b[i + 1]));
        }
        match a[i] {
            Message::ToolCall(_) => {
                if i + 1 < a.len() {
                    lemma_same_messages_linkage(a, b, i + 2);
                }
            },
            Message::ToolCallResult(_) => {},
            _ => {
                lemma_same_messages_linkage(a, b, i + 1);
            },
        }
    }
}

/// A tool result appended to a valid list stands alone.
pub proof fn lemma_push_result_dangles(s: Seq<Message>, m: Message, i: int)
    requires
        0 <= i <= s.len(),
        linkage_problem(s, i) is None,
        m matches Message::ToolCallResult(res),
    ensures
        linkage_problem(s.push(m), i) == Some(LinkageProblem::Dangling(m->ToolCallResult_0.call_id@)),
    decreases s.len() + 1 - i,
{
    let t = s.push(m);
    if i < s.len() {
        assert(t[i] == s[i]);
        match s[i] {
            Message::ToolCall(call) => {
                if i + 1 < s.len() {
                    assert(t[i + 1] == s[i + 1]);
                    lemma_push_result_dangles(s, m, i + 2);
                }
            },
            Message::ToolCallResult(_) => {},
            _ => {
                lemma_push_result_dangles(s, m, i + 1);
            },
        }
    } else {
        assert(t[i] == m);
    }
}

/// In a valid list that ends with a plain message, dropping it leaves a
/// valid list; a valid list never ends with a tool call.
proof fn lemma_valid_last(s: Seq<Message>, i: int)
    requires
        0 <= i,
        s.len() > 0,
        linkage_problem(s, i) is None,
        i < s.len(),
    ensures
        !(s.last() is ToolCall),
        is_plain(s.last()) ==> linkage_problem(s.drop_last(), i) is None,
        s.last() is ToolCallResult ==> s.len() >= 2 && i <= s.len() - 2 && (s[s.len() - 2] matches Message::ToolCall(call)
            && s.last() matches Message::ToolCallResult(res) && res.call_id@ == call.call_id@)
            && linkage_problem(s.subrange(0, s.len() - 2), i) is None,
    decreases s.len() - i,
{
    let n = s.len();
    let d = s.drop_last();
    match s[i] {
        Message::ToolCall(call) => {
            if i + 2 < n {
                lemma_valid_last(s, i + 2);
                if is_plain(s.last()) {
                    assert(d[i] == s[i]);
                    assert(d[i + 1] == s[i + 1]);
                }
                if s.last() is ToolCallResult {
                    let p = s.subrange(0, n - 2);
                    assert(p[i] == s[i]);
                    if i + 2 == n - 2 {
                        assert(linkage_problem(p, i + 2) is None);
                    } else {
                        assert(p[i + 1] == s[i + 1]);
                    }
                }
            } else {
                assert(i + 2 == n);
                let p = s.subrange(0, n - 2);
                assert(linkage_problem(p, i) is None);
            }
        },
        Message::ToolCallResult(_) => {},
        _ => {
            if i + 1 < n {
                lemma_valid_last(s, i + 1);
                if is_plain(s.last()) {
                    assert(d[i] == s[i]);
                    if i + 1 == n - 1 {
                        assert(linkage_problem(d, i + 1) is None);
                    }
                }
                if s.last() is ToolCallResult {
                    let p = s.subrange(0, n - 2);
                    assert(p[i] == s[i]);
                    if i + 1 == n - 2 {
                        assert(linkage_problem(p, i + 1) is None);
                    }
                }
            } else {
                assert(linkage_problem(d, i) is None);
            }
        },
    }
}

impl Turn {
    pub closed spec fn id_spec(&self) -> u64 {
        self.turn_id
    }

    pub closed spec fn messages_spec(&self) -> Seq<Message> {
        self.messages@
    }

    pub closed spec fn metadata_spec(&self) -> Metadata {
        self.metadata
    }

    pub closed spec fn usage_spec(&self) -> Option<UsageStats> {
        self.usage
    }

    pub closed spec fn finish_reason_spec(&self) -> Option<FinishReason> {
        self.finish_reason
    }

    pub closed spec fn completed_spec(&self) -> bool {
        self.completed
    }

    /// The metadata holds each key at most once.
    pub open spec fn wf(&self) -> bool {
        self.metadata_spec().wf()
    }

    pub fn new(turn_id: u64) -> (t: Turn)
        ensures
            t.id_spec() == turn_id,
            t.messages_spec().len() == 0,
            t.metadata_spec().entries().len() == 0,
            t.usage_spec() is None,
            t.finish_reason_spec() is None,
            !t.completed_spec(),
            t.wf(),
    {
        Turn {
            turn_id,
            messages: Vec::new(),
            metadata: Metadata::new(),
            usage: None,
            finish_reason: None,
            completed: false,
        }
    }

    /// Checks that every tool call is directly followed by its result.
    pub fn validate_tool_linkage(&self) -> (r: Result<(), GatewayError>)
        ensures
            match linkage_problem(self.messages_spec(), 0) {
                None => r is Ok,
                Some(p) => r matches Err(e) && plain_error(
                    e,
                    GatewayErrorKind::InvalidRequest,
                    linkage_message(self.id_spec(), p),
                ),
            },
    {
        let msgs = &self.messages;
        let mut index: usize = 0;
        while index < msgs.len()
            invariant
                index <= msgs@.len(),
                msgs@ == self.messages_spec(),
                linkage_problem(msgs@, 0) == linkage_problem(msgs@, index as int),
            decreases msgs@.len() - index,
        {
            match &msgs[index] {
                Message::ToolCall(call) => {
                    if index + 1 >= msgs.len() {
                        let e = no_result_error(self.turn_id, call.call_id.as_str());
                        assert(linkage_problem(msgs@, 0) == Some(
                            LinkageProblem::NoResult(call.call_id@),
                        ));
                        return Err(e);
                    }
                    match &msgs[index + 1] {
                        Message::ToolCallResult(result) => {
                            if !crate::text::str_eq(result.call_id.as_str(), call.call_id.as_str()) {
                                return Err(
                                    mismatch_error(
                                        self.turn_id,
                                        call.call_id.as_str(),
                                        result.call_id.as_str(),
                                    ),
                                );
                            }
                            index = index + 2;
                        },
                        _ => {
                            let e = not_followed_error(self.turn_id, call.call_id.as_str());
                            assert(linkage_problem(msgs@, 0) == Some(
                                LinkageProblem::NotFollowed(call.call_id@),
                            ));
                            return Err(e);
                        },
                    }
                },
                Message::ToolCallResult(result) => {
                    let e = dangling_error(self.turn_id, result.call_id.as_str());
                    assert(linkage_problem(msgs@, 0) == Some(
                        LinkageProblem::Dangling(result.call_id@),
                    ));
                    return Err(e);
                },
                _ => {
                    index = index + 1;
                },
            }
        }
        Ok(())
    }

    /// Appends a message. A tool call needs the outcome of its execution
    /// (the result message and whether the executor reset the messages);
    /// without one the turn is left as it was. After appending, the tool
    /// linkage is checked; an error leaves the appended messages in place.
    pub fn append_one(&mut self, message: Message, execution: Option<(Message, bool)>) -> (r:
        Result<AppendOutcome, GatewayError>)
        requires
            old(self).wf(),
        ensures
            final(self).wf(),
            final(self).id_spec() == old(self).id_spec(),
            final(self).metadata_spec() == old(self).metadata_spec(),
            final(self).usage_spec() == old(self).usage_spec(),
            final(self).finish_reason_spec() == old(self).finish_reason_spec(),
            final(self).completed_spec() == old(self).completed_spec(),
            (message is ToolCall && execution is None) ==> {
                &&& r matches Err(e) && plain_error(
                    e,
                    GatewayErrorKind::InvalidRequest,
                    "ToolCallMessage append requires ToolScheduler"@,
                )
                &&& final(self).messages_spec() == old(self).messages_spec()
            },
            (message is ToolCall && execution is Some) ==> final(self).messages_spec() == old(
                self,
            ).messages_spec().push(message).push(executed_message(execution)),
            !(message is ToolCall) ==> final(self).messages_spec() == old(
                self,
            ).messages_spec().push(message),
            !(message is ToolCall && execution is None) ==> match linkage_problem(
                final(self).messages_spec(),
                0,
            ) {
                None => r matches Ok(o) && o.reset_messages_applied == (message is ToolCall
                    && executed_reset(execution)),
                Some(p) => r matches Err(e) && plain_error(
                    e,
                    GatewayErrorKind::InvalidRequest,
                    linkage_message(old(self).id_spec(), p),
                ),
            },
    {
        let mut reset_messages_applied = false;
        match message {
            Message::ToolCall(call) => {
                match execution {
                    None => {
                        return Err(
                            plain(
                                GatewayErrorKind::InvalidRequest,
                                "ToolCallMessage append requires ToolScheduler",
                            ),
                        );
                    },
                    Some((result, reset)) => {
                        self.messages.push(Message::ToolCall(call));
                        self.messages.push(result);
                        reset_messages_applied = reset;
                    },
                }
            },
            other => {
                self.messages.push(other);
            },
        }
        match self.validate_tool_linkage() {
            Err(e) => Err(e),
            Ok(()) => Ok(AppendOutcome { reset_messages_applied }),
        }
    }

    /// Removes the last logical unit: the last message, or a tool result
    /// together with its call. A result whose call is missing or different
    /// is a protocol violation, and the turn is left as it was.
    pub fn truncate_one(&mut self) -> (r: Result<(), GatewayError>)
        requires
            old(self).wf(),
        ensures
            final(self).wf(),
            final(self).id_spec() == old(self).id_spec(),
            final(self).metadata_spec() == old(self).metadata_spec(),
            final(self).completed_spec() == old(self).completed_spec(),
            truncate_outcome(old(self).messages_spec(), old(self).id_spec(), final(self).messages_spec(), r),
            linkage_valid(old(self).messages_spec()) ==> r is Ok && linkage_valid(
                final(self).messages_spec(),
            ),
    {
        let ghost s = self.messages@;
        if self.messages.len() == 0 {
            return Ok(());
        }
        let n = self.messages.len();
        let tail_is_result = match &self.messages[n - 1] {
            Message::ToolCallResult(_) => true,
            _ => false,
        };
        if tail_is_result {
            if n < 2 {
                proof {
                    if linkage_valid(s) {
                        lemma_valid_last(s, 0);
                    }
                }
                return Err(
                    plain(
                        GatewayErrorKind::ProtocolViolation,
                        "truncate_one cannot remove a standalone tool result",
                    ),
                );
            }
            let pair_ok = match (&self.messages[n - 2], &self.messages[n - 1]) {
                (Message::ToolCall(call), Message::ToolCallResult(result)) => crate::text::str_eq(
                    call.call_id.as_str(),
                    result.call_id.as_str(),
                ),
                _ => false,
            };
            if !pair_ok {
                proof {
                    if linkage_valid(s) {
                        lemma_valid_last(s, 0);
                    }
                }
                return Err(
                    plain(
                        GatewayErrorKind::ProtocolViolation,
                        "truncate_one found a broken tool-call/result boundary",
                    ),
                );
            }
            self.messages.pop();
            self.messages.pop();
            proof {
                assert(self.messages@ =~= s.subrange(0, s.len() - 2));
                if linkage_valid(s) {
                    lemma_valid_last(s, 0);
                }
            }
        } else {
            self.messages.pop();
            proof {
                assert(self.messages@ =~= s.drop_last());
                if linkage_valid(s) {
                    lemma_valid_last(s, 0);
                }
            }
        }
        self.validate_tool_linkage()
    }

    pub fn has_tool_calls(&self) -> (r: bool)
        ensures
            r == exists|i: int|
                0 <= i < self.messages_spec().len() && #[trigger] self.messages_spec()[i] is ToolCall,
    {
        let mut i: usize = 0;
        while i < self.messages.len()
            invariant
                i <= self.messages@.len(),
                forall|j: int| 0 <= j < i ==> !(#[trigger] self.messages@[j] is ToolCall),
            decreases self.messages@.len() - i,
        {
            if self.messages[i].kind() == MessageKind::ToolCall {
                assert(self.messages@[i as int] is ToolCall);
                return true;
            }
            i = i + 1;
        }
        false
    }

    /// Equal field by field, messages and metadata compared by content.
    pub open spec fn same_as(&self, other: &Turn) -> bool {
        &&& self.id_spec() == other.id_spec()
        &&& same_messages(self.messages_spec(), other.messages_spec())
        &&& self.metadata_spec().entries() == other.metadata_spec().entries()
        &&& self.usage_spec() == other.usage_spec()
        &&& self.finish_reason_spec() == other.finish_reason_spec()
        &&& self.completed_spec() == other.completed_spec()
    }

    pub fn duplicate(&self) -> (r: Turn)
        ensures
            r.same_as(self),
    {
        let mut messages: Vec<Message> = Vec::new();
        let mut i: usize = 0;
        while i < self.messages.len()
            invariant
                i <= self.messages@.len(),
                messages@.len() == i,
                forall|j: int| 0 <= j < i ==> #[trigger] messages@[j].same_as(&self.messages@[j]),
            decreases self.messages@.len() - i,
        {
            messages.push(self.messages[i].duplicate());
            i = i + 1;
        }
        Turn {
            turn_id: self.turn_id,
            messages,
            metadata: self.metadata.duplicate(),
            usage: match &self.usage {
                Some(u) => Some(u.duplicate()),
                None => None,
            },
            finish_reason: match &self.finish_reason {
                Some(f) => Some(f.duplicate()),
                None => None,
            },
            completed: self.completed,
        }
    }

    pub fn turn_id(&self) -> (r: u64)
        ensures
            r == self.id_spec(),
    {
        self.turn_id
    }

    pub fn set_turn_id(&mut self, turn_id: u64)
        ensures
            final(self).id_spec() == turn_id,
            final(self).messages_spec() == old(self).messages_spec(),
            final(self).metadata_spec() == old(self).metadata_spec(),
            final(self).usage_spec() == old(self).usage_spec(),
            final(self).finish_reason_spec() == old(self).finish_reason_spec(),
            final(self).completed_spec() == old(self).completed_spec(),
    {
        self.turn_id = turn_id;
    }

    pub fn messages(&self) -> (r: &Vec<Message>)
        ensures
            r@ == self.messages_spec(),
    {
        &self.messages
    }

    pub fn metadata(&self) -> (r: &Metadata)
        ensures
            *r == self.metadata_spec(),
    {
        &self.metadata
    }

    /// Stores a metadata value on the turn.
    pub fn insert_metadata(&mut self, key: String, value: String)
        requires
            old(self).wf(),
        ensures
            final(self).wf(),
            final(self).metadata_spec().get_spec(key@) == Some(value@),
            forall|k: Seq<char>|
                k != key@ ==> final(self).metadata_spec().get_spec(k) == old(
                    self,
                ).metadata_spec().get_spec(k),
            final(self).id_spec() == old(self).id_spec(),
            final(self).messages_spec() == old(self).messages_spec(),
            final(self).usage_spec() == old(self).usage_spec(),
            final(self).finish_reason_spec() == old(self).finish_reason_spec(),
            final(self).completed_spec() == old(self).completed_spec(),
    {
        self.metadata.insert(key, value);
    }

    pub fn usage(&self) -> (r: &Option<UsageStats>)
        ensures
            *r == self.usage_spec(),
    {
        &self.usage
    }

    pub fn finish_reason(&self) -> (r: &Option<FinishReason>)
        ensures
            *r == self.finish_reason_spec(),
    {
        &self.finish_reason
    }

    pub fn completed(&self) -> (r: bool)
        ensures
            r == self.completed_spec(),
    {
        self.completed
    }

    /// Replaces the turn's metadata.
    pub fn set_metadata(&mut self, metadata: Metadata)
        requires
            metadata.wf(),
        ensures
            final(self).wf(),
            final(self).metadata_spec() == metadata,
            final(self).id_spec() == old(self).id_spec(),
            final(self).messages_spec() == old(self).messages_spec(),
            final(self).usage_spec() == old(self).usage_spec(),
            final(self).finish_reason_spec() == old(self).finish_reason_spec(),
            final(self).completed_spec() == old(self).completed_spec(),
    {
        self.metadata = metadata;
    }

    /// Marks the turn complete with its usage and finish reason.
    pub fn finalize(&mut self, usage: Option<UsageStats>, finish_reason: FinishReason)
        ensures
            final(self).usage_spec() == usage,
            final(self).finish_reason_spec() == Some(finish_reason),
            final(self).completed_spec(),
            final(self).id_spec() == old(self).id_spec(),
            final(self).messages_spec() == old(self).messages_spec(),
            final(self).metadata_spec() == old(self).metadata_spec(),
    {
        self.usage = usage;
        self.finish_reason = Some(finish_reason);
        self.completed = true;
    }

    pub fn message_count(&self) -> (r: usize)
        ensures
            r == self.messages_spec().len(),
    {
        self.messages.len()
    }

    pub fn tool_call_count(&self) -> (r: usize)
        ensures
            r == tool_call_count_spec(self.messages_spec()),
    {
        let mut count: usize = 0;
        let mut i: usize = 0;
        while i < self.messages.len()
            invariant
                i <= self.messages@.len(),
                count == tool_call_count_spec(self.messages@.subrange(0, i as int)),
                count <= i,
            decreases self.messages@.len() - i,
        {
            assert(self.messages@.subrange(0, i + 1).drop_last() =~= self.messages@.subrange(
                0,
                i as int,
            ));
            if self.messages[i].kind() == MessageKind::ToolCall {
                count = count + 1;
            }
            i = i + 1;
        }
        assert(self.messages@.subrange(0, i as int) =~= self.messages@);
        count
    }

    /// The payload of each executed tool call, by call id: the last result
    /// given for it.
    pub fn tool_result_payload_by_call_id(&self) -> (r: Metadata)
        ensures
            r.wf(),
            forall|k: Seq<char>|
                #[trigger] r.get_spec(k) == last_result_payload(
                    self.messages_spec(),
                    self.messages_spec().len() as int,
                    k,
                ),
    {
        let mut out = Metadata::new();
        let mut i: usize = 0;
        while i < self.messages.len()
            invariant
                i <= self.messages@.len(),
                out.wf(),
                forall|k: Seq<char>|
                    #[trigger] out.get_spec(k) == last_result_payload(self.messages@, i as int, k),
            decreases self.messages@.len() - i,
        {
            match &self.messages[i] {
                Message::ToolCallResult(result) => {
                    out.insert(result.call_id.clone(), result.payload.text.clone());
                },
                _ => {},
            }
            i = i + 1;
        }
        out
    }
}

/// The payload of the last result among the first `n` messages of `ms`
/// for the call `call_id`.
pub open spec fn last_result_payload(ms: Seq<Message>, n: int, call_id: Seq<char>) -> Option<Seq<char>>
    decreases n,
{
    if n <= 0 {
        None
    } else {
        match ms[n - 1] {
            Message::ToolCallResult(r) => if r.call_id@ == call_id {
                Some(r.payload.text@)
            } else {
                last_result_payload(ms, n - 1, call_id)
            },
            _ => last_result_payload(ms, n - 1, call_id),
        }
    }
}

/// The result message of an execution outcome.
pub open spec fn executed_message(execution: Option<(Message, bool)>) -> Message {
    match execution {
        Some((m, _)) => m,
        None => arbitrary(),
    }
}

/// Whether an execution outcome reset the thread's messages.
pub open spec fn executed_reset(execution: Option<(Message, bool)>) -> bool {
    match execution {
        Some((_, b)) => b,
        None => false,
    }
}

/// The outcome of `truncate_one` on `s` in turn `turn_id`: the list after
/// it and the result.
pub open spec fn truncate_outcome(
    s: Seq<Message>,
    turn_id: u64,
    after: Seq<Message>,
    r: Result<(), GatewayError>,
) -> bool {
    if s.len() == 0 {
        after == s && r is Ok
    } else if s.last() is ToolCallResult {
        if s.len() < 2 {
            &&& after == s
            &&& (r matches Err(e) && plain_error(
                e,
                GatewayErrorKind::ProtocolViolation,
                "truncate_one cannot remove a standalone tool result"@,
            ))
        } else if (s[s.len() - 2] matches Message::ToolCall(call) && s.last() matches Message::ToolCallResult(res)
            && res.call_id@ == call.call_id@) {
            after == s.subrange(0, s.len() - 2) && linkage_result(after, turn_id, r)
        } else {
            &&& after == s
            &&& (r matches Err(e) && plain_error(
                e,
                GatewayErrorKind::ProtocolViolation,
                "truncate_one found a broken tool-call/result boundary"@,
            ))
        }
    } else {
        after == s.drop_last() && linkage_result(after, turn_id, r)
    }
}

/// `r` is what checking the tool linkage of `msgs` gives.
pub open spec fn linkage_result(msgs: Seq<Message>, turn_id: u64, r: Result<(), GatewayError>) -> bool {
    match linkage_problem(msgs, 0) {
        None => r is Ok,
        Some(p) => r matches Err(e) && plain_error(
            e,
            GatewayErrorKind::InvalidRequest,
            linkage_message(turn_id, p),
        ),
    }
}

/// `"turn "` and the turn id.
fn prefix(turn_id: u64) -> (r: String)
    ensures
        r@ == "turn "@ + decimal_seq(turn_id as nat),
{
    let mut r = String::from_str("turn ");
    r.append(decimal(turn_id).as_str());
    r
}

fn no_result_error(turn_id: u64, call_id: &str) -> (e: GatewayError)
    ensures
        plain_error(
            e,
            GatewayErrorKind::InvalidRequest,
            linkage_message(turn_id, LinkageProblem::NoResult(call_id@)),
        ),
{
    let mut m = prefix(turn_id);
    m.append(" is incomplete: tool call '");
    m.append(call_id);
    m.append("' has no result");
    plain(GatewayErrorKind::InvalidRequest, m.as_str())
}

fn not_followed_error(turn_id: u64, call_id: &str) -> (e: GatewayError)
    ensures
        plain_error(
            e,
            GatewayErrorKind::InvalidRequest,
            linkage_message(turn_id, LinkageProblem::NotFollowed(call_id@)),
        ),
{
    let mut m = prefix(turn_id);
    m.append(" is incomplete: tool call '");
    m.append(call_id);
    m.append("' must be followed by ToolCallResultMessage");
    plain(GatewayErrorKind::InvalidRequest, m.as_str())
}

fn mismatch_error(turn_id: u64, call_id: &str, result_id: &str) -> (e: GatewayError)
    ensures
        plain_error(
            e,
            GatewayErrorKind::InvalidRequest,
            linkage_message(turn_id, LinkageProblem::Mismatch(call_id@, result_id@)),
        ),
{
    let mut m = prefix(turn_id);
    m.append(" has mismatched tool linkage: call '");
    m.append(call_id);
    m.append("' != result '");
    m.append(result_id);
    m.append("'");
    plain(GatewayErrorKind::InvalidRequest, m.as_str())
}

fn dangling_error(turn_id: u64, result_id: &str) -> (e: GatewayError)
    ensures
        plain_error(
            e,
            GatewayErrorKind::InvalidRequest,
            linkage_message(turn_id, LinkageProblem::Dangling(result_id@)),
        ),
{
    let mut m = prefix(turn_id);
    m.append(" has dangling ToolCallResultMessage '");
    m.append(result_id);
    m.append("'");
    plain(GatewayErrorKind::InvalidRequest, m.as_str())
}

/// Law: appending a message that is neither a tool call nor a tool result
/// to a turn whose tool linkage is valid keeps it valid.
pub proof fn lemma_append_plain_keeps_linkage(msgs: Seq<Message>, m: Message)
    requires
        linkage_valid(msgs),
        is_plain(m),
    ensures
        linkage_valid(msgs.push(m)),
{
    lemma_push_plain(msgs, m, 0);
}

/// Law: appending a tool call together with the result that carries its
/// call id keeps a valid tool linkage valid.
pub proof fn lemma_append_call_with_result_keeps_linkage(msgs: Seq<Message>, c: Message, r: Message)
    requires
        linkage_valid(msgs),
        c matches Message::ToolCall(call) && r matches Message::ToolCallResult(res) && res.call_id@
            == call.call_id@,
    ensures
        linkage_valid(msgs.push(c).push(r)),
{
    lemma_push_pair(msgs, c, r, 0);
}

/// The result message of a tool execution: the executor's payload and its
/// reset flag, or, when it failed, `{"error":...,"ok":false}` and no reset.
pub open spec fn execution_payload(outcome: Result<(JsonText, bool), GatewayError>) -> Seq<char> {
    match outcome {
        Ok((payload, _)) => payload.text@,
        Err(err) => "{\"error\":"@ + json_quoted(err.message@) + ",\"ok\":false}"@,
    }
}

/// Turns what the tool executor returned for `call` into the result
/// message to append, and whether the executor reset the thread's messages.
pub fn tool_execution_result(
    call: &ToolCallMessage,
    outcome: Result<(JsonText, bool), GatewayError>,
    id: String,
    now_ms: u64,
) -> (r: (Message, bool))
    ensures
        r.0 matches Message::ToolCallResult(res) && res.id == id && res.created_at_ms == now_ms
            && res.call_id == call.call_id && res.name == call.name && res.payload.text@
            == execution_payload(outcome),
        r.1 == match outcome {
            Ok((_, reset)) => reset,
            Err(_) => false,
        },
{
    match outcome {
        Ok((payload, reset)) => (
            Message::ToolCallResult(
                ToolCallResultMessage {
                    id,
                    created_at_ms: now_ms,
                    call_id: call.call_id.clone(),
                    name: call.name.clone(),
                    payload,
                },
            ),
            reset,
        ),
        Err(err) => {
            let mut text = String::from_str("{\"error\":");
            text.append(json_quote(err.message.as_str()).as_str());
            text.append(",\"ok\":false}");
            (
                Message::ToolCallResult(
                    ToolCallResultMessage {
                        id,
                        created_at_ms: now_ms,
                        call_id: call.call_id.clone(),
                        name: call.name.clone(),
                        payload: JsonText { text },
                    },
                ),
                false,
            )
        },
    }
}

/// The call that a tool-call message asks the executor to run.
pub fn tool_call_request(call: &ToolCallMessage) -> (r: ToolCallResult)
    ensures
        r.id == call.call_id,
        r.name == call.name,
        r.arguments_json == call.arguments_json,
        r.status == ToolCallStatus::Ready,
{
    ToolCallResult {
        id: call.call_id.clone(),
        name: call.name.clone(),
        arguments_json: call.arguments_json.clone(),
        status: ToolCallStatus::Ready,
    }
}

/// What the tool executor is asked to run.
#[derive(Debug)]
pub struct ToolExecutionRequest {
    pub chat_id: String,
    pub thread_id: String,
    pub turn_id: u64,
    pub call: ToolCallResult,
}

/// What the tool executor answered.
#[derive(Debug)]
pub struct ToolExecutionResult {
    pub payload: JsonText,
    pub reset_messages_applied: bool,
}

/// Runs the tool calls of one turn of one thread.
#[derive(Debug)]
pub struct ToolScheduler {
    pub chat_id: String,
    pub thread_id: String,
    pub turn_id: u64,
}

impl ToolScheduler {
    pub fn new(chat_id: String, thread_id: String, turn_id: u64) -> (s: ToolScheduler)
        ensures
            s.chat_id == chat_id,
            s.thread_id == thread_id,
            s.turn_id == turn_id,
    {
        ToolScheduler { chat_id, thread_id, turn_id }
    }

    /// The request for the executor to run the call of `call_message`.
    pub fn execution_request(&self, call_message: &ToolCallMessage) -> (r: ToolExecutionRequest)
        ensures
            r.chat_id == self.chat_id,
            r.thread_id == self.thread_id,
            r.turn_id == self.turn_id,
            r.call.id == call_message.call_id,
            r.call.name == call_message.name,
            r.call.arguments_json == call_message.arguments_json,
            r.call.status == ToolCallStatus::Ready,
    {
        ToolExecutionRequest {
            chat_id: self.chat_id.clone(),
            thread_id: self.thread_id.clone(),
            turn_id: self.turn_id,
            call: tool_call_request(call_message),
        }
    }
}

} // verus!
