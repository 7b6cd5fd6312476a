//! The end of an OpenAI-compatible event stream: the events of each batch
//! of frames are sent on in order, and when the stream is done (`[DONE]`,
//! or the bytes run out) a completion with the `stop` reason is added only
//! where the backend sent no finish reason of its own.
use vstd::prelude::*;

use crate::canonical::BackendRawEvent;
use crate::chat_types::FinishReason;

verus! {

/// Whether `s` holds a completion.
pub open spec fn has_completed(s: Seq<BackendRawEvent>) -> bool {
    exists|i: int| 0 <= i < s.len() && #[trigger] s[i] is Completed
}

/// The number of completions in `s`.
pub open spec fn count_completed(s: Seq<BackendRawEvent>) -> nat
    decreases s.len(),
{
    if s.len() == 0 {
        0
    } else {
        count_completed(s.drop_last()) + if s.last() is Completed {
            1nat
        } else {
            0nat
        }
    }
}

/// What is added when the stream is done: the `stop` completion where none
/// was sent yet.
pub open spec fn closing(saw_terminal: bool, done: bool) -> Seq<BackendRawEvent> {
    if done && !saw_terminal {
        seq![BackendRawEvent::Completed { finish_reason: FinishReason::Stop }]
    } else {
        Seq::empty()
    }
}

/// The events of `batches`, one after the other.
pub open spec fn flatten(batches: Seq<Seq<BackendRawEvent>>) -> Seq<BackendRawEvent>
    decreases batches.len(),
{
    if batches.len() == 0 {
        Seq::empty()
    } else {
        flatten(batches.drop_last()) + batches.last()
    }
}

/// The events sent for `batches` that are not the last, and whether a
/// completion was among them, starting with none seen.
pub open spec fn stream_run(batches: Seq<Seq<BackendRawEvent>>) -> (Seq<BackendRawEvent>, bool)
    decreases batches.len(),
{
    if batches.len() == 0 {
        (Seq::empty(), false)
    } else {
        let (sent, saw) = stream_run(batches.drop_last());
        let b = batches.last();
        (sent + b + closing(saw || has_completed(b), false), saw || has_completed(b))
    }
}

/// Sends on the events of one batch of frames: `saw_terminal` records
/// whether a completion has been sent, and when `done` a `stop` completion
/// is added where none has been.
pub fn forward_stream_events(saw_terminal: &mut bool, events: Vec<BackendRawEvent>, done: bool) -> (out: Vec<
    BackendRawEvent,
>)
    ensures
        *final(saw_terminal) == (*old(saw_terminal) || has_completed(events@)),
        out@ == events@ + closing(*final(saw_terminal), done),
{
    let mut i: usize = 0;
    let mut found = false;
    while i < events.len()
        invariant
            i <= events@.len(),
            found <==> exists|j: int| 0 <= j < i && #[trigger] events@[j] is Completed,
        decreases events@.len() - i,
    {
        match &events[i] {
            BackendRawEvent::Completed { .. } => {
                found = true;
            },
            _ => {},
        }
        i = i + 1;
    }
    if found {
        *saw_terminal = true;
    }
    let mut out = events;
    if done && !*saw_terminal {
        out.push(BackendRawEvent::Completed { finish_reason: FinishReason::Stop });
    }
    out
}

/// The byte stream ran out: the `stop` completion where none was sent.
pub fn close_stream(saw_terminal: bool) -> (r: Option<BackendRawEvent>)
    ensures
        r matches Some(e) ==> seq![e] == closing(saw_terminal, true),
        r is None <==> saw_terminal,
{
    if saw_terminal {
        None
    } else {
        Some(BackendRawEvent::Completed { finish_reason: FinishReason::Stop })
    }
}

proof fn lemma_count_concat(a: Seq<BackendRawEvent>, b: Seq<BackendRawEvent>)
    ensures
        count_completed(a + b) == count_completed(a) + count_completed(b),
    decreases b.len(),
{
    if b.len() > 0 {
        assert((a + b).drop_last() =~= a + b.drop_last());
        assert((a + b).last() == b.last());
        lemma_count_concat(a, b.drop_last());
    } else {
        assert(a + b =~= a);
    }
}

proof fn lemma_has_completed_count(s: Seq<BackendRawEvent>)
    ensures
        has_completed(s) <==> count_completed(s) > 0,
    decreases s.len(),
{
    if s.len() > 0 {
        lemma_has_completed_count(s.drop_last());
        if has_completed(s.drop_last()) {
            let i = choose|i: int| 0 <= i < s.drop_last().len() && #[trigger] s.drop_last()[i] is Completed;
            assert(s[i] is Completed);
        }
        if has_completed(s) && !(s.last() is Completed) {
            let i = choose|i: int| 0 <= i < s.len() && #[trigger] s[i] is Completed;
            assert(s.drop_last()[i] is Completed);
        }
        if s.last() is Completed {
            assert(s[s.len() - 1] is Completed);
        }
    }
}

proof fn lemma_has_completed_concat(a: Seq<BackendRawEvent>, b: Seq<BackendRawEvent>)
    ensures
        has_completed(a + b) == (has_completed(a) || has_completed(b)),
{
    lemma_count_concat(a, b);
    lemma_has_completed_count(a);
    lemma_has_completed_count(b);
    lemma_has_completed_count(a + b);
}

/// Law: over a whole stream whose events come in `batches`, what is sent
/// before the end is every event of the backend in order, with nothing
/// added; the end then adds one `stop` completion exactly when the backend
/// sent none, so the stream carries as many completions as the backend
/// sent, and exactly one where it sent at most one.
pub proof fn lemma_stream_ends_with_one_completion(batches: Seq<Seq<BackendRawEvent>>)
    ensures
        stream_run(batches).0 == flatten(batches),
        stream_run(batches).1 == has_completed(flatten(batches)),
        count_completed(flatten(batches) + closing(stream_run(batches).1, true)) == if count_completed(
            flatten(batches),
        ) == 0 {
            1
        } else {
            count_completed(flatten(batches))
        },
    decreases batches.len(),
{
    if batches.len() > 0 {
        lemma_stream_ends_with_one_completion(batches.drop_last());
        lemma_has_completed_concat(flatten(batches.drop_last()), batches.last());
        assert(stream_run(batches).0 =~= flatten(batches));
    }
    let s = flatten(batches);
    lemma_has_completed_count(s);
    lemma_count_concat(s, closing(stream_run(batches).1, true));
    let stop = seq![BackendRawEvent::Completed { finish_reason: FinishReason::Stop }];
    assert(count_completed(stop) == 1) by {
        assert(stop.drop_last() =~= Seq::<BackendRawEvent>::empty());
        assert(count_completed(stop.drop_last()) == 0);
        assert(stop.last() is Completed);
    }
    assert(count_completed(Seq::<BackendRawEvent>::empty()) == 0);
}

} // verus!
