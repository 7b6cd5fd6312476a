//! The rule that tool messages answer the calls of the assistant message
//! before them: each tool message names a call that the latest assistant
//! message with calls made and no earlier tool message answered, with no
//! system or user message, nor an assistant message without calls, between
//! them.
use vstd::prelude::*;

use crate::chat_types::{ChatMessage, ChatRole};
use crate::error::{plain, plain_error, GatewayError, GatewayErrorKind};
use crate::text::{decimal, decimal_seq, str_eq};

verus! {

/// The ids of the calls of `m`.
pub open spec fn call_ids(m: ChatMessage) -> Set<Seq<char>> {
    Set::new(|id: Seq<char>| exists|k: int| 0 <= k < m.tool_calls@.len() && #[trigger] m.tool_calls@[k].id@ == id)
}

/// The calls still open after the first `n` messages: none after a system
/// or user message or an assistant message without calls; the calls of an
/// assistant message with calls; less each id that a tool message answers.
pub open spec fn open_calls(ms: Seq<ChatMessage>, n: int) -> Option<Set<Seq<char>>>
    decreases n,
{
    if n <= 0 {
        None
    } else {
        let prev = open_calls(ms, n - 1);
        let m = ms[n - 1];
        match m.role {
            ChatRole::Assistant => if m.tool_calls@.len() == 0 {
                None
            } else {
                Some(call_ids(m))
            },
            ChatRole::Tool => match (m.tool_call_id, prev) {
                (Some(id), Some(open)) => Some(open.remove(id@)),
                _ => prev,
            },
            _ => None,
        }
    }
}

/// The message at `i` is a tool message that answers no open call.
pub open spec fn breaks_chain(ms: Seq<ChatMessage>, i: int) -> bool {
    &&& ms[i].role == ChatRole::Tool
    &&& match (ms[i].tool_call_id, open_calls(ms, i)) {
        (Some(id), Some(open)) => !open.contains(id@),
        _ => true,
    }
}

/// The refusal of the tool message at `i`.
pub open spec fn chain_message(ms: Seq<ChatMessage>, i: int) -> Seq<char> {
    let head = "messages with role \"tool\" must be a response to a preceeding message with \"tool_calls\" (index="@
        + decimal_seq(i as nat);
    match ms[i].tool_call_id {
        None => head + ", missing tool_call_id)"@,
        Some(id) => head + ", tool_call_id="@ + id@ + ")"@,
    }
}

/// The ids in `v`, as a set.
pub open spec fn id_set(v: Seq<String>) -> Set<Seq<char>> {
    Set::new(|id: Seq<char>| exists|k: int| 0 <= k < v.len() && #[trigger] v[k]@ == id)
}

fn call_id_list(m: &ChatMessage) -> (r: Vec<String>)
    ensures
        id_set(r@) == call_ids(*m),
{
    let mut r: Vec<String> = Vec::new();
    let mut k: usize = 0;
    while k < m.tool_calls.len()
        invariant
            k <= m.tool_calls@.len(),
            r@.len() == k,
            forall|q: int| 0 <= q < k ==> (#[trigger] r@[q])@ == m.tool_calls@[q].id@,
        decreases m.tool_calls@.len() - k,
    {
        r.push(m.tool_calls[k].id.clone());
        k = k + 1;
    }
    assert forall|id: Seq<char>| #[trigger] id_set(r@).contains(id) == call_ids(*m).contains(id) by {
        if id_set(r@).contains(id) {
            let q = choose|q: int| 0 <= q < r@.len() && #[trigger] r@[q]@ == id;
            assert(m.tool_calls@[q].id@ == id);
        }
        if call_ids(*m).contains(id) {
            let q = choose|q: int| 0 <= q < m.tool_calls@.len() && #[trigger] m.tool_calls@[q].id@ == id;
            assert(r@[q]@ == id);
        }
    }
    assert(id_set(r@) =~= call_ids(*m));
    r
}

fn contains_id(v: &Vec<String>, id: &str) -> (r: bool)
    ensures
        r == id_set(v@).contains(id@),
{
    let mut k: usize = 0;
    while k < v.len()
        invariant
            k <= v@.len(),
            forall|q: int| 0 <= q < k ==> (#[trigger] v@[q])@ != id@,
        decreases v@.len() - k,
    {
        if str_eq(v[k].as_str(), id) {
            assert(v@[k as int]@ == id@);
            return true;
        }
        k = k + 1;
    }
    false
}

fn without_id(v: Vec<String>, id: &str) -> (r: Vec<String>)
    ensures
        id_set(r@) == id_set(v@).remove(id@),
{
    let mut r: Vec<String> = Vec::new();
    let mut k: usize = 0;
    while k < v.len()
        invariant
            k <= v@.len(),
            forall|q: int| 0 <= q < r@.len() ==> (#[trigger] r@[q])@ != id@,
            forall|q: int| #![trigger r@[q]] 0 <= q < r@.len() ==> exists|p: int| 0 <= p < k && (#[trigger] v@[p])@ == r@[q]@,
            forall|p: int| 0 <= p < k && (#[trigger] v@[p])@ != id@ ==> exists|q: int| 0 <= q < r@.len() && (#[trigger] r@[q])@ == v@[p]@,
        decreases v@.len() - k,
    {
        let ghost before = r@;
        if !str_eq(v[k].as_str(), id) {
            r.push(v[k].clone());
            assert(r@[r@.len() - 1]@ == v@[k as int]@);
        }
        assert forall|p: int| 0 <= p < k + 1 && (#[trigger] v@[p])@ != id@ implies exists|q: int|
            0 <= q < r@.len() && (#[trigger] r@[q])@ == v@[p]@ by {
            if p < k {
                let q = choose|q: int| 0 <= q < before.len() && (#[trigger] before[q])@ == v@[p]@;
                assert(r@[q] == before[q]);
            } else {
                assert(r@[r@.len() - 1]@ == v@[p]@);
            }
        }
        k = k + 1;
    }
    assert forall|x: Seq<char>| #[trigger] id_set(r@).contains(x) == id_set(v@).remove(id@).contains(x) by {
        if id_set(r@).contains(x) {
            let q = choose|q: int| 0 <= q < r@.len() && #[trigger] r@[q]@ == x;
            let p = choose|p: int| 0 <= p < v@.len() && (#[trigger] v@[p])@ == r@[q]@;
            assert(v@[p]@ == x);
        }
        if id_set(v@).remove(id@).contains(x) {
            let p = choose|p: int| 0 <= p < v@.len() && #[trigger] v@[p]@ == x;
            assert(v@[p]@ != id@);
        }
    }
    assert(id_set(r@) =~= id_set(v@).remove(id@));
    r
}

fn chain_error(messages: &Vec<ChatMessage>, i: usize) -> (err: GatewayError)
    requires
        i < messages@.len(),
    ensures
        plain_error(err, GatewayErrorKind::InvalidRequest, chain_message(messages@, i as int)),
{
    let mut m = String::from_str(
        "messages with role \"tool\" must be a response to a preceeding message with \"tool_calls\" (index=",
    );
    let digits = decimal(i as u64);
    m.append(digits.as_str());
    match &messages[i].tool_call_id {
        None => {
            m.append(", missing tool_call_id)");
        },
        Some(id) => {
            m.append(", tool_call_id=");
            m.append(id.as_str());
            m.append(")");
        },
    }
    plain(GatewayErrorKind::InvalidRequest, m.as_str())
}

/// Checks that every tool message answers an open call; the first that
/// does not is refused.
pub fn validate_tool_message_chain(messages: &Vec<ChatMessage>) -> (r: Result<(), GatewayError>)
    ensures
        match r {
            Ok(()) => forall|i: int| 0 <= i < messages@.len() ==> !#[trigger] breaks_chain(messages@, i),
            Err(e) => exists|i: int|
                0 <= i < messages@.len() && #[trigger] breaks_chain(messages@, i) && (forall|k: int|
                    0 <= k < i ==> !#[trigger] breaks_chain(messages@, k)) && plain_error(
                    e,
                    GatewayErrorKind::InvalidRequest,
                    chain_message(messages@, i),
                ),
        },
{
    let ghost ms = messages@;
    let mut open: Option<Vec<String>> = None;
    let mut i: usize = 0;
    while i < messages.len()
        invariant
            ms == messages@,
            i <= ms.len(),
            forall|k: int| 0 <= k < i ==> !#[trigger] breaks_chain(ms, k),
            match open {
                None => open_calls(ms, i as int) is None,
                Some(v) => open_calls(ms, i as int) == Some(id_set(v@)),
            },
        decreases ms.len() - i,
    {
        let m = &messages[i];
        match m.role {
            ChatRole::Assistant => {
                if m.tool_calls.len() == 0 {
                    open = None;
                } else {
                    open = Some(call_id_list(m));
                }
            },
            ChatRole::Tool => {
                let id = match &m.tool_call_id {
                    Some(id) => id,
                    None => {
                        assert(breaks_chain(ms, i as int));
                        return Err(chain_error(messages, i));
                    },
                };
                let current = match open {
                    Some(v) => v,
                    None => {
                        assert(breaks_chain(ms, i as int));
                        return Err(chain_error(messages, i));
                    },
                };
                if !contains_id(&current, id.as_str()) {
                    assert(breaks_chain(ms, i as int));
                    return Err(chain_error(messages, i));
                }
                open = Some(without_id(current, id.as_str()));
            },
            ChatRole::System | ChatRole::User => {
                open = None;
            },
        }
        i = i + 1;
    }
    Ok(())
}

} // verus!
