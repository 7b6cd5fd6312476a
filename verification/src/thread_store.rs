//! The store of chats and their threads. A chat lives until its expiry,
//! which each use pushes back by the store's time to live; expired chats are
//! swept when a chat is registered, a thread opened or a turn prepared.
//! Time is given in milliseconds by the caller.
use vstd::prelude::*;

use crate::chat_types::{ChatMessage, UsageStats};
use crate::error::{plain, plain_error, GatewayError, GatewayErrorKind};
use crate::store::{
    failure_committed, has_turn_room, mutated, prepared_for, success_committed, trimmed, PreparedTurn,
    ThreadData, ThreadMessageMutationOutcome, ThreadMessageMutationRequest, ThreadMetrics, ThreadState,
};
use crate::text::{decimal, decimal_seq};

verus! {

/// A thread of a chat, under its id.
#[derive(Debug)]
pub struct ThreadEntry {
    pub thread_id: String,
    pub data: ThreadData,
}

/// A chat: its threads and when it was made and expires.
#[derive(Debug)]
pub struct ChatEntry {
    pub chat_id: String,
    pub threads: Vec<ThreadEntry>,
    pub created_at_ms: u64,
    pub expires_at_ms: u64,
}

/// All chats, the counter of generated thread ids, the time to live and the
/// most messages a thread's context keeps.
#[derive(Debug)]
pub struct ThreadStore {
    pub chats: Vec<ChatEntry>,
    pub thread_seq: u64,
    pub ttl_seconds: u64,
    pub max_turn_context_messages: usize,
}

/// The first position of the chat `id` from `i` on.
pub open spec fn chat_pos_from(cs: Seq<ChatEntry>, id: Seq<char>, i: int) -> Option<int>
    decreases cs.len() - i,
{
    if i < 0 || i >= cs.len() {
        None
    } else if cs[i].chat_id@ == id {
        Some(i)
    } else {
        chat_pos_from(cs, id, i + 1)
    }
}

/// The position of the chat `id`.
pub open spec fn chat_pos(cs: Seq<ChatEntry>, id: Seq<char>) -> Option<int> {
    chat_pos_from(cs, id, 0)
}

/// The first position of the thread `id` from `i` on.
pub open spec fn thread_pos_from(ts: Seq<ThreadEntry>, id: Seq<char>, i: int) -> Option<int>
    decreases ts.len() - i,
{
    if i < 0 || i >= ts.len() {
        None
    } else if ts[i].thread_id@ == id {
        Some(i)
    } else {
        thread_pos_from(ts, id, i + 1)
    }
}

/// The position of the thread `id`.
pub open spec fn thread_pos(ts: Seq<ThreadEntry>, id: Seq<char>) -> Option<int> {
    thread_pos_from(ts, id, 0)
}

/// The chats of `cs` that have not expired at `now`, in order.
pub open spec fn live(cs: Seq<ChatEntry>, now: u64) -> Seq<ChatEntry>
    decreases cs.len(),
{
    if cs.len() == 0 {
        Seq::empty()
    } else if cs.last().expires_at_ms > now {
        live(cs.drop_last(), now).push(cs.last())
    } else {
        live(cs.drop_last(), now)
    }
}

/// The time to live in milliseconds: at least one second.
pub open spec fn ttl_ms(ttl_seconds: u64) -> int {
    if ttl_seconds == 0 {
        1000
    } else {
        ttl_seconds * 1000
    }
}

/// A use at `now` can push an expiry back by the time to live.
pub open spec fn expiry_fits(ttl_seconds: u64, now: u64) -> bool {
    now + ttl_ms(ttl_seconds) <= u64::MAX
}

/// `after` is `before` but for the chat at `i`, whose expiry is `at` and,
/// where `j` is given, whose thread at `j` may hold other data.
pub open spec fn chats_touched(
    before: Seq<ChatEntry>,
    after: Seq<ChatEntry>,
    i: int,
    at: int,
    j: Option<int>,
) -> bool {
    &&& after.len() == before.len()
    &&& forall|k: int| 0 <= k < before.len() && k != i ==> after[k] == before[k]
    &&& after[i].chat_id == before[i].chat_id
    &&& after[i].created_at_ms == before[i].created_at_ms
    &&& after[i].expires_at_ms == at
    &&& match j {
        None => after[i].threads == before[i].threads,
        Some(j) => {
            &&& after[i].threads@.len() == before[i].threads@.len()
            &&& forall|t: int|
                0 <= t < before[i].threads@.len() && t != j ==> after[i].threads@[t]
                    == before[i].threads@[t]
            &&& after[i].threads@[j].thread_id == before[i].threads@[j].thread_id
        },
    }
}

/// The messages after `seed` is added to `ms` (nothing happens for an
/// empty seed): appended, then trimmed.
pub open spec fn seeded(ms: Seq<ChatMessage>, seed: Seq<ChatMessage>, max: usize) -> Seq<ChatMessage> {
    if seed.len() == 0 {
        ms
    } else {
        trimmed(ms + seed, max)
    }
}

/// `after` is `before` with `seed` added to its messages.
pub open spec fn thread_seeded(before: ThreadData, after: ThreadData, seed: Seq<ChatMessage>, max: usize) -> bool {
    &&& after.messages@ == seeded(before.messages@, seed, max)
    &&& after.pending_tool_messages == before.pending_tool_messages
    &&& after.system_prompt_mode == before.system_prompt_mode
    &&& after.next_turn_id == before.next_turn_id
    &&& after.metrics == before.metrics
}

/// A thread that has seen nothing but `messages`.
pub open spec fn fresh_thread(d: ThreadData, messages: Seq<ChatMessage>) -> bool {
    &&& d.messages@ == messages
    &&& d.pending_tool_messages@.len() == 0
    &&& d.system_prompt_mode == crate::store::ThreadSystemPromptMode::UseChatDefault
    &&& d.next_turn_id == 0
    &&& d.metrics == (ThreadMetrics {
        turns_total: 0,
        tool_calls_total: 0,
        tokens_in_total: 0,
        tokens_out_total: 0,
        failures_total: 0,
        last_turn_latency_ms: None,
    })
}

/// The public picture `s` of the thread `thread_id` holding `d`.
pub open spec fn state_of(d: ThreadData, thread_id: Seq<char>, s: ThreadState) -> bool {
    &&& s.thread_id@ == thread_id
    &&& s.next_turn_id == d.next_turn_id
    &&& s.message_count == d.messages@.len()
    &&& s.turns_total == d.metrics.turns_total
    &&& s.tool_calls_total == d.metrics.tool_calls_total
    &&& s.failures_total == d.metrics.failures_total
    &&& s.last_turn_latency_ms == d.metrics.last_turn_latency_ms
}

/// The counter after one generated id; it wraps at its end.
pub open spec fn next_seq(n: u64) -> u64 {
    if n == u64::MAX {
        0
    } else {
        (n + 1) as u64
    }
}

/// `after` is `before` but for the chat at `i`, whose expiry is `at` and
/// which has one thread more, at its end.
pub open spec fn chat_grown(before: Seq<ChatEntry>, after: Seq<ChatEntry>, i: int, at: int) -> bool {
    &&& after.len() == before.len()
    &&& forall|k: int| 0 <= k < before.len() && k != i ==> after[k] == before[k]
    &&& after[i].chat_id == before[i].chat_id
    &&& after[i].created_at_ms == before[i].created_at_ms
    &&& after[i].expires_at_ms == at
    &&& after[i].threads@.len() == before[i].threads@.len() + 1
    &&& after[i].threads@.take(before[i].threads@.len() as int) == before[i].threads@
}

/// The refusal of an unknown chat.
pub open spec fn chat_missing(chat_id: Seq<char>) -> Seq<char> {
    "chat '"@ + chat_id + "' not found"@
}

/// The refusal of an unknown thread.
pub open spec fn thread_missing(thread_id: Seq<char>) -> Seq<char> {
    "thread '"@ + thread_id + "' not found"@
}

/// The id generated from the counter value `n`.
pub open spec fn generated_thread_id(n: u64) -> Seq<char> {
    "thread-"@ + decimal_seq(n as nat)
}

/// Every thread of every chat has room for one more turn.
pub open spec fn turns_have_room(cs: Seq<ChatEntry>) -> bool {
    forall|i: int, j: int|
        0 <= i < cs.len() && 0 <= j < cs[i].threads@.len() ==> has_turn_room(
            #[trigger] cs[i].threads@[j].data,
        )
}

fn find_chat(chats: &Vec<ChatEntry>, id: &str) -> (r: Option<usize>)
    ensures
        match chat_pos(chats@, id@) {
            Some(i) => r matches Some(k) && k == i && 0 <= i < chats@.len(),
            None => r is None,
        },
{
    let mut i: usize = 0;
    while i < chats.len()
        invariant
            i <= chats@.len(),
            chat_pos(chats@, id@) == chat_pos_from(chats@, id@, i as int),
        decreases chats@.len() - i,
    {
        if crate::text::str_eq(chats[i].chat_id.as_str(), id) {
            return Some(i);
        }
        i = i + 1;
    }
    None
}

fn find_thread(threads: &Vec<ThreadEntry>, id: &str) -> (r: Option<usize>)
    ensures
        match thread_pos(threads@, id@) {
            Some(j) => r matches Some(k) && k == j && 0 <= j < threads@.len(),
            None => r is None,
        },
{
    let mut j: usize = 0;
    while j < threads.len()
        invariant
            j <= threads@.len(),
            thread_pos(threads@, id@) == thread_pos_from(threads@, id@, j as int),
        decreases threads@.len() - j,
    {
        if crate::text::str_eq(threads[j].thread_id.as_str(), id) {
            return Some(j);
        }
        j = j + 1;
    }
    None
}

fn missing(prefix: &str, id: &str) -> (err: GatewayError)
    ensures
        plain_error(err, GatewayErrorKind::InvalidRequest, prefix@ + id@ + "' not found"@),
{
    let mut m = String::from_str(prefix);
    m.append(id);
    m.append("' not found");
    plain(GatewayErrorKind::InvalidRequest, m.as_str())
}

impl ThreadStore {
    /// An empty store; a time to live of zero counts as one second.
    pub fn new(ttl_seconds: u64, max_turn_context_messages: usize) -> (s: ThreadStore)
        ensures
            s.chats@.len() == 0,
            s.thread_seq == 1,
            s.ttl_seconds == ttl_seconds,
            s.max_turn_context_messages == max_turn_context_messages,
    {
        ThreadStore { chats: Vec::new(), thread_seq: 1, ttl_seconds, max_turn_context_messages }
    }

    /// When a chat used at `now_ms` expires.
    fn expiry(&self, now_ms: u64) -> (r: u64)
        requires
            expiry_fits(self.ttl_seconds, now_ms),
        ensures
            r == now_ms + ttl_ms(self.ttl_seconds),
    {
        let secs: u64 = if self.ttl_seconds == 0 {
            1
        } else {
            self.ttl_seconds
        };
        now_ms + secs * 1000
    }

    /// Drops the chats that have expired at `now_ms`.
    pub fn sweep_expired(&mut self, now_ms: u64)
        ensures
            final(self).chats@ == live(old(self).chats@, now_ms),
            final(self).thread_seq == old(self).thread_seq,
            final(self).ttl_seconds == old(self).ttl_seconds,
            final(self).max_turn_context_messages == old(self).max_turn_context_messages,
    {
        let ghost cs = self.chats@;
        let mut rest: Vec<ChatEntry> = Vec::new();
        std::mem::swap(&mut rest, &mut self.chats);
        let n = rest.len();
        let mut k: usize = 0;
        while k < n
            invariant
                n == cs.len(),
                k <= n,
                rest@ == cs.skip(k as int),
                self.chats@ == live(cs.take(k as int), now_ms),
                self.thread_seq == old(self).thread_seq,
                self.ttl_seconds == old(self).ttl_seconds,
                self.max_turn_context_messages == old(self).max_turn_context_messages,
            decreases n - k,
        {
            let c = rest.remove(0);
            proof {
                assert(cs.take(k + 1).drop_last() =~= cs.take(k as int));
                assert(cs.take(k + 1).last() == cs[k as int]);
                assert(rest@ =~= cs.skip(k + 1));
            }
            if c.expires_at_ms > now_ms {
                self.chats.push(c);
            }
            k = k + 1;
        }
        assert(cs.take(n as int) =~= cs);
    }

    /// Registers the chat `chat_id`, or pushes its expiry back if it is
    /// there, after the expired chats are swept.
    pub fn register_chat(&mut self, chat_id: &str, now_ms: u64)
        requires
            expiry_fits(old(self).ttl_seconds, now_ms),
        ensures
            ({
                let cs = live(old(self).chats@, now_ms);
                let at = now_ms + ttl_ms(old(self).ttl_seconds);
                match chat_pos(cs, chat_id@) {
                    Some(i) => chats_touched(cs, final(self).chats@, i, at, None),
                    None => {
                        &&& final(self).chats@.len() == cs.len() + 1
                        &&& final(self).chats@.take(cs.len() as int) == cs
                        &&& final(self).chats@.last().chat_id@ == chat_id@
                        &&& final(self).chats@.last().threads@.len() == 0
                        &&& final(self).chats@.last().created_at_ms == now_ms
                        &&& final(self).chats@.last().expires_at_ms == at
                    },
                }
            }),
            final(self).thread_seq == old(self).thread_seq,
            final(self).ttl_seconds == old(self).ttl_seconds,
            final(self).max_turn_context_messages == old(self).max_turn_context_messages,
    {
        self.sweep_expired(now_ms);
        let ghost cs = self.chats@;
        let at = self.expiry(now_ms);
        match find_chat(&self.chats, chat_id) {
            Some(i) => {
                let mut c = self.chats.remove(i);
                c.expires_at_ms = at;
                self.chats.insert(i, c);
                assert(self.chats@ =~= cs.update(i as int, c));
            },
            None => {
                self.chats.push(
                    ChatEntry {
                        chat_id: String::from_str(chat_id),
                        threads: Vec::new(),
                        created_at_ms: now_ms,
                        expires_at_ms: at,
                    },
                );
                assert(self.chats@.take(cs.len() as int) =~= cs);
            },
        }
    }

    /// Drops the chat `chat_id` and its threads.
    pub fn remove_chat(&mut self, chat_id: &str)
        ensures
            final(self).chats@ == match chat_pos(old(self).chats@, chat_id@) {
                Some(i) => old(self).chats@.remove(i),
                None => old(self).chats@,
            },
            final(self).thread_seq == old(self).thread_seq,
            final(self).ttl_seconds == old(self).ttl_seconds,
            final(self).max_turn_context_messages == old(self).max_turn_context_messages,
    {
        match find_chat(&self.chats, chat_id) {
            Some(i) => {
                self.chats.remove(i);
            },
            None => {},
        }
    }

    /// The next generated thread id.
    fn next_thread_id(&mut self) -> (r: String)
        ensures
            r@ == generated_thread_id(old(self).thread_seq),
            final(self).thread_seq == next_seq(old(self).thread_seq),
            final(self).chats == old(self).chats,
            final(self).ttl_seconds == old(self).ttl_seconds,
            final(self).max_turn_context_messages == old(self).max_turn_context_messages,
    {
        let value = self.thread_seq;
        self.thread_seq = value.wrapping_add(1);
        let mut id = String::from_str("thread-");
        let digits = decimal(value);
        id.append(digits.as_str());
        id
    }

    /// Opens the thread `thread_id` (a generated id where none is given) of
    /// the chat `chat_id`, creating it where it is new, and adds the seed
    /// messages to it; the expired chats are swept first and the chat's
    /// expiry is pushed back.
    pub fn open_thread(
        &mut self,
        chat_id: &str,
        thread_id: Option<String>,
        seed_messages: Vec<ChatMessage>,
        now_ms: u64,
    ) -> (r: Result<String, GatewayError>)
        requires
            expiry_fits(old(self).ttl_seconds, now_ms),
        ensures
            ({
                let cs = live(old(self).chats@, now_ms);
                let at = now_ms + ttl_ms(old(self).ttl_seconds);
                let max = old(self).max_turn_context_messages;
                match chat_pos(cs, chat_id@) {
                    None => {
                        &&& r matches Err(e) && plain_error(
                            e,
                            GatewayErrorKind::InvalidRequest,
                            chat_missing(chat_id@),
                        )
                        &&& final(self).chats@ == cs
                        &&& final(self).thread_seq == old(self).thread_seq
                    },
                    Some(i) => {
                        let id = match thread_id {
                            Some(t) => t@,
                            None => generated_thread_id(old(self).thread_seq),
                        };
                        &&& r matches Ok(t) && t@ == id
                        &&& final(self).thread_seq == match thread_id {
                            Some(_) => old(self).thread_seq,
                            None => next_seq(old(self).thread_seq),
                        }
                        &&& match thread_pos(cs[i].threads@, id) {
                            Some(j) => {
                                &&& chats_touched(cs, final(self).chats@, i, at, Some(j))
                                &&& thread_seeded(
                                    cs[i].threads@[j].data,
                                    final(self).chats@[i].threads@[j].data,
                                    seed_messages@,
                                    max,
                                )
                            },
                            None => {
                                let t = final(self).chats@[i].threads@.last();
                                &&& chat_grown(cs, final(self).chats@, i, at)
                                &&& t.thread_id@ == id
                                &&& fresh_thread(t.data, seeded(Seq::empty(), seed_messages@, max))
                            },
                        }
                    },
                }
            }),
            final(self).ttl_seconds == old(self).ttl_seconds,
            final(self).max_turn_context_messages == old(self).max_turn_context_messages,
    {
        self.sweep_expired(now_ms);
        let ghost cs = self.chats@;
        let i = match find_chat(&self.chats, chat_id) {
            Some(i) => i,
            None => {
                return Err(missing("chat '", chat_id));
            },
        };
        let at = self.expiry(now_ms);
        let id: String = match thread_id {
            Some(t) => t,
            None => self.next_thread_id(),
        };
        let max = self.max_turn_context_messages;
        let mut seed = seed_messages;
        let has_seed = seed.len() > 0;
        let mut c = self.chats.remove(i);
        let ghost c0 = c;
        c.expires_at_ms = at;
        match find_thread(&c.threads, id.as_str()) {
            Some(j) => {
                let mut e = c.threads.remove(j);
                if has_seed {
                    e.data.messages.append(&mut seed);
                    e.data.trim_context(max);
                }
                c.threads.insert(j, e);
                assert(c.threads@ =~= c0.threads@.update(j as int, e));
            },
            None => {
                let mut data = ThreadData::new();
                assert(data.messages@ =~= Seq::<ChatMessage>::empty());
                if has_seed {
                    data.messages.append(&mut seed);
                    data.trim_context(max);
                }
                c.threads.push(ThreadEntry { thread_id: id.clone(), data });
                assert(c.threads@.take(c0.threads@.len() as int) =~= c0.threads@);
            },
        }
        self.chats.insert(i, c);
        assert(self.chats@ =~= cs.update(i as int, c));
        Ok(id)
    }

    /// The turn to run on the thread `thread_id` of the chat `chat_id`;
    /// the expired chats are swept first and the chat's expiry is pushed
    /// back.
    pub fn prepare_turn(
        &mut self,
        chat_id: &str,
        thread_id: &str,
        input_messages: &Vec<ChatMessage>,
        chat_system_prompt: Option<&str>,
        now_ms: u64,
    ) -> (r: Result<PreparedTurn, GatewayError>)
        requires
            expiry_fits(old(self).ttl_seconds, now_ms),
        ensures
            ({
                let cs = live(old(self).chats@, now_ms);
                let at = now_ms + ttl_ms(old(self).ttl_seconds);
                match chat_pos(cs, chat_id@) {
                    None => {
                        &&& r matches Err(e) && plain_error(
                            e,
                            GatewayErrorKind::InvalidRequest,
                            chat_missing(chat_id@),
                        )
                        &&& final(self).chats@ == cs
                    },
                    Some(i) => {
                        &&& chats_touched(cs, final(self).chats@, i, at, None)
                        &&& match thread_pos(cs[i].threads@, thread_id@) {
                            None => r matches Err(e) && plain_error(
                                e,
                                GatewayErrorKind::InvalidRequest,
                                thread_missing(thread_id@),
                            ),
                            Some(j) => r matches Ok(p) && prepared_for(
                                cs[i].threads@[j].data,
                                input_messages@,
                                chat_system_prompt,
                                p,
                            ),
                        }
                    },
                }
            }),
            final(self).thread_seq == old(self).thread_seq,
            final(self).ttl_seconds == old(self).ttl_seconds,
            final(self).max_turn_context_messages == old(self).max_turn_context_messages,
    {
        self.sweep_expired(now_ms);
        let ghost cs = self.chats@;
        let i = match find_chat(&self.chats, chat_id) {
            Some(i) => i,
            None => {
                return Err(missing("chat '", chat_id));
            },
        };
        let at = self.expiry(now_ms);
        let mut c = self.chats.remove(i);
        c.expires_at_ms = at;
        let r = match find_thread(&c.threads, thread_id) {
            Some(j) => Ok(c.threads[j].data.prepare(input_messages, chat_system_prompt)),
            None => Err(missing("thread '", thread_id)),
        };
        self.chats.insert(i, c);
        assert(self.chats@ =~= cs.update(i as int, c));
        r
    }

    /// Records a successful turn on the thread `thread_id` of the chat
    /// `chat_id`, pushing the chat's expiry back, and gives the thread's
    /// counters.
    pub fn commit_turn_success(
        &mut self,
        chat_id: &str,
        thread_id: &str,
        consumed_pending_tool_messages: bool,
        new_messages: Vec<ChatMessage>,
        new_pending_tool_messages: Option<Vec<ChatMessage>>,
        usage: Option<UsageStats>,
        tool_call_count: usize,
        latency_ms: u64,
        now_ms: u64,
    ) -> (r: Result<ThreadMetrics, GatewayError>)
        requires
            expiry_fits(old(self).ttl_seconds, now_ms),
            turns_have_room(old(self).chats@),
        ensures
            ({
                let cs = old(self).chats@;
                let at = now_ms + ttl_ms(old(self).ttl_seconds);
                match chat_pos(cs, chat_id@) {
                    None => {
                        &&& r matches Err(e) && plain_error(
                            e,
                            GatewayErrorKind::InvalidRequest,
                            chat_missing(chat_id@),
                        )
                        &&& final(self).chats@ == cs
                    },
                    Some(i) => match thread_pos(cs[i].threads@, thread_id@) {
                        None => {
                            &&& r matches Err(e) && plain_error(
                                e,
                                GatewayErrorKind::InvalidRequest,
                                thread_missing(thread_id@),
                            )
                            &&& chats_touched(cs, final(self).chats@, i, at, None)
                        },
                        Some(j) => {
                            let after = final(self).chats@[i].threads@[j].data;
                            &&& chats_touched(cs, final(self).chats@, i, at, Some(j))
                            &&& success_committed(
                                cs[i].threads@[j].data,
                                after,
                                old(self).max_turn_context_messages,
                                consumed_pending_tool_messages,
                                new_messages@,
                                match new_pending_tool_messages {
                                    Some(p) => Some(p@),
                                    None => None,
                                },
                                usage,
                                tool_call_count,
                                latency_ms,
                            )
                            &&& r == Ok::<ThreadMetrics, GatewayError>(after.metrics)
                        },
                    },
                }
            }),
            final(self).thread_seq == old(self).thread_seq,
            final(self).ttl_seconds == old(self).ttl_seconds,
            final(self).max_turn_context_messages == old(self).max_turn_context_messages,
    {
        let ghost cs = self.chats@;
        let i = match find_chat(&self.chats, chat_id) {
            Some(i) => i,
            None => {
                return Err(missing("chat '", chat_id));
            },
        };
        let at = self.expiry(now_ms);
        let max = self.max_turn_context_messages;
        let mut c = self.chats.remove(i);
        let ghost c0 = c;
        c.expires_at_ms = at;
        let r = match find_thread(&c.threads, thread_id) {
            Some(j) => {
                let mut e = c.threads.remove(j);
                assert(has_turn_room(cs[i as int].threads@[j as int].data));
                let m = e.data.commit_success(
                    max,
                    consumed_pending_tool_messages,
                    new_messages,
                    new_pending_tool_messages,
                    usage,
                    tool_call_count,
                    latency_ms,
                );
                c.threads.insert(j, e);
                assert(c.threads@ =~= c0.threads@.update(j as int, e));
                Ok(m)
            },
            None => Err(missing("thread '", thread_id)),
        };
        self.chats.insert(i, c);
        assert(self.chats@ =~= cs.update(i as int, c));
        r
    }

    /// Counts a failed turn on the thread `thread_id` of the chat
    /// `chat_id` and gives the thread's counters; the expiry stays.
    pub fn commit_turn_failure(&mut self, chat_id: &str, thread_id: &str, latency_ms: u64) -> (r:
        Result<ThreadMetrics, GatewayError>)
        ensures
            ({
                let cs = old(self).chats@;
                match chat_pos(cs, chat_id@) {
                    None => {
                        &&& r matches Err(e) && plain_error(
                            e,
                            GatewayErrorKind::InvalidRequest,
                            chat_missing(chat_id@),
                        )
                        &&& final(self).chats@ == cs
                    },
                    Some(i) => match thread_pos(cs[i].threads@, thread_id@) {
                        None => {
                            &&& r matches Err(e) && plain_error(
                                e,
                                GatewayErrorKind::InvalidRequest,
                                thread_missing(thread_id@),
                            )
                            &&& final(self).chats@ == cs
                        },
                        Some(j) => {
                            let after = final(self).chats@[i].threads@[j].data;
                            &&& chats_touched(cs, final(self).chats@, i, cs[i].expires_at_ms as int, Some(j))
                            &&& failure_committed(cs[i].threads@[j].data, after, latency_ms)
                            &&& r == Ok::<ThreadMetrics, GatewayError>(after.metrics)
                        },
                    },
                }
            }),
            final(self).thread_seq == old(self).thread_seq,
            final(self).ttl_seconds == old(self).ttl_seconds,
            final(self).max_turn_context_messages == old(self).max_turn_context_messages,
    {
        let ghost cs = self.chats@;
        let i = match find_chat(&self.chats, chat_id) {
            Some(i) => i,
            None => {
                return Err(missing("chat '", chat_id));
            },
        };
        let j = match find_thread(&self.chats[i].threads, thread_id) {
            Some(j) => j,
            None => {
                return Err(missing("thread '", thread_id));
            },
        };
        let mut c = self.chats.remove(i);
        let ghost c0 = c;
        let mut e = c.threads.remove(j);
        let m = e.data.commit_failure(latency_ms);
        c.threads.insert(j, e);
        assert(c.threads@ =~= c0.threads@.update(j as int, e));
        self.chats.insert(i, c);
        assert(self.chats@ =~= cs.update(i as int, c));
        Ok(m)
    }

    /// The public picture of the thread `thread_id` of the chat `chat_id`.
    pub fn thread_state(&self, chat_id: &str, thread_id: &str) -> (r: Result<ThreadState, GatewayError>)
        ensures
            match chat_pos(self.chats@, chat_id@) {
                None => r matches Err(e) && plain_error(
                    e,
                    GatewayErrorKind::InvalidRequest,
                    chat_missing(chat_id@),
                ),
                Some(i) => match thread_pos(self.chats@[i].threads@, thread_id@) {
                    None => r matches Err(e) && plain_error(
                        e,
                        GatewayErrorKind::InvalidRequest,
                        thread_missing(thread_id@),
                    ),
                    Some(j) => r matches Ok(s) && state_of(
                        self.chats@[i].threads@[j].data,
                        thread_id@,
                        s,
                    ),
                },
            },
    {
        let i = match find_chat(&self.chats, chat_id) {
            Some(i) => i,
            None => {
                return Err(missing("chat '", chat_id));
            },
        };
        let j = match find_thread(&self.chats[i].threads, thread_id) {
            Some(j) => j,
            None => {
                return Err(missing("thread '", thread_id));
            },
        };
        Ok(self.chats[i].threads[j].data.state(thread_id))
    }

    /// Rewrites the messages and system prompt of the thread `thread_id`
    /// of the chat `chat_id` as `ThreadData::mutate_messages` does, pushing
    /// the chat's expiry back. Despite the name, the steps are not undone
    /// together: a blank replacement prompt is refused after the range was
    /// already cut.
    pub fn mutate_thread_messages_atomically(
        &mut self,
        chat_id: &str,
        thread_id: &str,
        request: ThreadMessageMutationRequest,
        now_ms: u64,
    ) -> (r: Result<ThreadMessageMutationOutcome, GatewayError>)
        requires
            expiry_fits(old(self).ttl_seconds, now_ms),
        ensures
            ({
                let cs = old(self).chats@;
                let at = now_ms + ttl_ms(old(self).ttl_seconds);
                match chat_pos(cs, chat_id@) {
                    None => {
                        &&& r matches Err(e) && plain_error(
                            e,
                            GatewayErrorKind::InvalidRequest,
                            chat_missing(chat_id@),
                        )
                        &&& final(self).chats@ == cs
                    },
                    Some(i) => match thread_pos(cs[i].threads@, thread_id@) {
                        None => {
                            &&& r matches Err(e) && plain_error(
                                e,
                                GatewayErrorKind::InvalidRequest,
                                thread_missing(thread_id@),
                            )
                            &&& chats_touched(cs, final(self).chats@, i, at, None)
                        },
                        Some(j) => {
                            &&& chats_touched(cs, final(self).chats@, i, at, Some(j))
                            &&& mutated(
                                cs[i].threads@[j].data,
                                final(self).chats@[i].threads@[j].data,
                                thread_id@,
                                request,
                                r,
                            )
                        },
                    },
                }
            }),
            final(self).thread_seq == old(self).thread_seq,
            final(self).ttl_seconds == old(self).ttl_seconds,
            final(self).max_turn_context_messages == old(self).max_turn_context_messages,
    {
        let ghost cs = self.chats@;
        let i = match find_chat(&self.chats, chat_id) {
            Some(i) => i,
            None => {
                return Err(missing("chat '", chat_id));
            },
        };
        let at = self.expiry(now_ms);
        let mut c = self.chats.remove(i);
        let ghost c0 = c;
        c.expires_at_ms = at;
        let r = match find_thread(&c.threads, thread_id) {
            Some(j) => {
                let mut e = c.threads.remove(j);
                let out = e.data.mutate_messages(thread_id, request);
                c.threads.insert(j, e);
                assert(c.threads@ =~= c0.threads@.update(j as int, e));
                out
            },
            None => Err(missing("thread '", thread_id)),
        };
        self.chats.insert(i, c);
        assert(self.chats@ =~= cs.update(i as int, c));
        r
    }
}

proof fn lemma_chat_pos_same(cs: Seq<ChatEntry>, after: Seq<ChatEntry>, c: Seq<char>, i: int, k: int)
    requires
        0 <= k <= i < cs.len(),
        after.len() == cs.len(),
        forall|m: int| 0 <= m < i ==> after[m] == cs[m],
        after[i].chat_id == cs[i].chat_id,
        cs[i].chat_id@ == c,
    ensures
        chat_pos_from(after, c, k) == chat_pos_from(cs, c, k),
    decreases i - k,
{
    if k < i {
        lemma_chat_pos_same(cs, after, c, i, k + 1);
        assert(after[k] == cs[k]);
    }
}

proof fn lemma_thread_pos_same(ts: Seq<ThreadEntry>, us: Seq<ThreadEntry>, id: Seq<char>, j: int, k: int)
    requires
        0 <= k <= j,
        j <= ts.len(),
        j <= us.len(),
        forall|m: int| 0 <= m < j ==> us[m] == ts[m],
        j < ts.len() && j < us.len() ==> us[j].thread_id == ts[j].thread_id,
        j < ts.len() ==> ts[j].thread_id@ == id && j < us.len(),
        j == ts.len() ==> thread_pos_from(ts, id, j) is None,
        j == ts.len() && j < us.len() ==> us[j].thread_id@ == id,
    ensures
        j < ts.len() ==> thread_pos_from(us, id, k) == thread_pos_from(ts, id, k),
        j == ts.len() && j < us.len() ==> thread_pos_from(us, id, k) is Some || thread_pos_from(ts, id, k) is Some,
    decreases j - k,
{
    if k < j {
        lemma_thread_pos_same(ts, us, id, j, k + 1);
        assert(us[k] == ts[k]);
    }
}

/// Law: after a thread is opened on a chat, that chat is still found under
/// its id, at the same place, and the opened thread is found in it; so the
/// turns prepared, committed or rewritten on it next find it.
pub proof fn lemma_opened_thread_found(
    cs: Seq<ChatEntry>,
    after: Seq<ChatEntry>,
    chat_id: Seq<char>,
    i: int,
    at: int,
    id: Seq<char>,
)
    requires
        chat_pos(cs, chat_id) == Some(i),
        match thread_pos(cs[i].threads@, id) {
            Some(j) => chats_touched(cs, after, i, at, Some(j)),
            None => chat_grown(cs, after, i, at) && after[i].threads@.last().thread_id@ == id,
        },
    ensures
        chat_pos(after, chat_id) == Some(i),
        thread_pos(after[i].threads@, id) is Some,
{
    lemma_chat_pos_found(cs, chat_id, 0);
    lemma_chat_pos_same(cs, after, chat_id, i, 0);
    let ts = cs[i].threads@;
    let us = after[i].threads@;
    match thread_pos(ts, id) {
        Some(j) => {
            lemma_thread_pos_found(ts, id, 0);
            lemma_thread_pos_same(ts, us, id, j, 0);
            assert(thread_pos_from(ts, id, j) == Some(j));
            assert(thread_pos_from(us, id, j) == Some(j));
        },
        None => {
            let n = ts.len() as int;
            assert forall|m: int| 0 <= m < n implies us[m] == ts[m] by {
                assert(us.take(n)[m] == us[m]);
            }
            lemma_thread_pos_none(ts, id, 0);
            lemma_thread_pos_same(ts, us, id, n, 0);
            assert(thread_pos_from(us, id, n) == Some(n));
        },
    }
}

proof fn lemma_chat_pos_found(cs: Seq<ChatEntry>, c: Seq<char>, k: int)
    requires
        0 <= k,
        chat_pos_from(cs, c, k) is Some,
    ensures
        k <= chat_pos_from(cs, c, k)->0 < cs.len(),
        cs[chat_pos_from(cs, c, k)->0].chat_id@ == c,
    decreases cs.len() - k,
{
    if k < cs.len() && cs[k].chat_id@ != c {
        lemma_chat_pos_found(cs, c, k + 1);
    }
}

proof fn lemma_thread_pos_found(ts: Seq<ThreadEntry>, id: Seq<char>, k: int)
    requires
        0 <= k,
        thread_pos_from(ts, id, k) is Some,
    ensures
        k <= thread_pos_from(ts, id, k)->0 < ts.len(),
        ts[thread_pos_from(ts, id, k)->0].thread_id@ == id,
        forall|m: int| k <= m < thread_pos_from(ts, id, k)->0 ==> ts[m].thread_id@ != id,
    decreases ts.len() - k,
{
    if k < ts.len() && ts[k].thread_id@ != id {
        lemma_thread_pos_found(ts, id, k + 1);
    }
}

proof fn lemma_thread_pos_none(ts: Seq<ThreadEntry>, id: Seq<char>, k: int)
    requires
        0 <= k <= ts.len(),
        thread_pos_from(ts, id, k) is None,
    ensures
        forall|m: int| k <= m < ts.len() ==> ts[m].thread_id@ != id,
        thread_pos_from(ts, id, ts.len() as int) is None,
    decreases ts.len() - k,
{
    if k < ts.len() {
        lemma_thread_pos_none(ts, id, k + 1);
    }
}

} // verus!
