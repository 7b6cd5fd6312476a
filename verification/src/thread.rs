//! A chat thread's history: its turns, its system prompt and the id of the
//! next turn; how turns are appended, found, kept or dropped when the
//! context is rewritten, and what is sent to a backend.
use vstd::prelude::*;

use crate::chat_types::{ChatMessage, ChatRole, ContentPart};
use crate::error::{plain, plain_error, GatewayError, GatewayErrorKind};
use crate::message::{chat_message_of, Message};
use crate::metadata::{parse_u64, parse_u64_spec, Metadata};
use crate::types::copy_opt_string;
use crate::text::{decimal, decimal_seq, trim, trim_seq};
use crate::thread_types::{SystemPromptAction, ThreadContextRequest, ThreadContextResult, TurnQuery, TurnRef, TurnRetentionPolicy, TurnSummary};
use crate::turn::{lemma_same_messages_linkage, linkage_message, linkage_problem, linkage_valid, tool_call_count_spec, Turn};

verus! {

/// The ids of `turns`, in order.
pub open spec fn turn_ids_of(turns: Seq<Turn>) -> Seq<u64> {
    turns.map_values(|t: Turn| t.id_spec())
}

/// The first id of `ids` that already occurred before it.
pub open spec fn first_duplicate(ids: Seq<u64>) -> Option<u64>
    decreases ids.len(),
{
    if ids.len() == 0 {
        None
    } else {
        match first_duplicate(ids.drop_last()) {
            Some(d) => Some(d),
            None => if ids.drop_last().contains(ids.last()) {
                Some(ids.last())
            } else {
                None
            },
        }
    }
}

/// The first id of `selected` that `source` does not hold.
pub open spec fn first_missing(source: Seq<u64>, selected: Seq<u64>) -> Option<u64>
    decreases selected.len(),
{
    if selected.len() == 0 {
        None
    } else {
        match first_missing(source, selected.drop_last()) {
            Some(m) => Some(m),
            None => if source.contains(selected.last()) {
                None
            } else {
                Some(selected.last())
            },
        }
    }
}

pub open spec fn duplicate_id_message(id: u64) -> Seq<char> {
    "duplicate turn_id '"@ + decimal_seq(id as nat) + "' in retention policy"@
}

pub open spec fn missing_id_message(id: u64) -> Seq<char> {
    "turn_id '"@ + decimal_seq(id as nat) + "' not found in source thread"@
}

/// Whether the turn at position `i` of a thread with turn ids `ids` is kept.
pub open spec fn retention_keeps(ids: Seq<u64>, policy: TurnRetentionPolicy, i: int) -> bool {
    match policy {
        TurnRetentionPolicy::KeepAll => true,
        TurnRetentionPolicy::KeepLastTurns { count } => i >= ids.len() - (if count < ids.len() {
            count as int
        } else {
            ids.len() as int
        }),
        TurnRetentionPolicy::KeepSelectedTurnIds { turn_ids } => turn_ids@.contains(ids[i]),
        TurnRetentionPolicy::DropAll => false,
    }
}

/// The positions below `n` that a policy keeps, in order.
pub open spec fn kept_positions(ids: Seq<u64>, policy: TurnRetentionPolicy, n: int) -> Seq<int>
    decreases n,
{
    if n <= 0 {
        Seq::empty()
    } else if retention_keeps(ids, policy, n - 1) {
        kept_positions(ids, policy, n - 1).push(n - 1)
    } else {
        kept_positions(ids, policy, n - 1)
    }
}

/// The error a retention policy gives on a thread with turn ids `ids`.
pub open spec fn retention_error(ids: Seq<u64>, policy: TurnRetentionPolicy) -> Option<Seq<char>> {
    match policy {
        TurnRetentionPolicy::KeepSelectedTurnIds { turn_ids } => match first_duplicate(turn_ids@) {
            Some(d) => Some(duplicate_id_message(d)),
            None => match first_missing(ids, turn_ids@) {
                Some(m) => Some(missing_id_message(m)),
                None => None,
            },
        },
        _ => None,
    }
}

/// `picked` holds copies of the turns of `source` at `positions`.
pub open spec fn picks(picked: Seq<Turn>, source: Seq<Turn>, positions: Seq<int>) -> bool {
    &&& picked.len() == positions.len()
    &&& forall|j: int|
        0 <= j < positions.len() ==> 0 <= #[trigger] positions[j] < source.len() && picked[j].same_as(
            &source[positions[j]],
        )
}

/// `ids` without the ids that `kept` holds, in order.
pub open spec fn without_ids(ids: Seq<u64>, kept: Seq<u64>) -> Seq<u64>
    decreases ids.len(),
{
    if ids.len() == 0 {
        Seq::empty()
    } else if kept.contains(ids.last()) {
        without_ids(ids.drop_last(), kept)
    } else {
        without_ids(ids.drop_last(), kept).push(ids.last())
    }
}

/// The largest id of `ids`, 0 for none.
pub open spec fn max_id(ids: Seq<u64>) -> u64
    decreases ids.len(),
{
    if ids.len() == 0 {
        0
    } else if ids.last() > max_id(ids.drop_last()) {
        ids.last()
    } else {
        max_id(ids.drop_last())
    }
}

/// The id after the largest of `ids`, saturating at `u64::MAX`.
pub open spec fn next_id_after(ids: Seq<u64>) -> u64 {
    if max_id(ids) == u64::MAX {
        u64::MAX
    } else {
        (max_id(ids) + 1) as u64
    }
}

proof fn lemma_first_duplicate_prefix(s: Seq<u64>, k: int)
    requires
        0 <= k <= s.len(),
        first_duplicate(s.take(k)) is Some,
    ensures
        first_duplicate(s) == first_duplicate(s.take(k)),
    decreases s.len(),
{
    if k == s.len() {
        assert(s.take(k) =~= s);
    } else {
        assert(s.drop_last().take(k) =~= s.take(k));
        lemma_first_duplicate_prefix(s.drop_last(), k);
    }
}

proof fn lemma_first_missing_prefix(source: Seq<u64>, s: Seq<u64>, k: int)
    requires
        0 <= k <= s.len(),
        first_missing(source, s.take(k)) is Some,
    ensures
        first_missing(source, s) == first_missing(source, s.take(k)),
    decreases s.len(),
{
    if k == s.len() {
        assert(s.take(k) =~= s);
    } else {
        assert(s.drop_last().take(k) =~= s.take(k));
        lemma_first_missing_prefix(source, s.drop_last(), k);
    }
}

proof fn lemma_kept_positions_same_selection(ids: Seq<u64>, a: Vec<u64>, b: Vec<u64>, n: int)
    requires
        a@ == b@,
    ensures
        kept_positions(ids, TurnRetentionPolicy::KeepSelectedTurnIds { turn_ids: a }, n)
            == kept_positions(ids, TurnRetentionPolicy::KeepSelectedTurnIds { turn_ids: b }, n),
    decreases n,
{
    if n > 0 {
        lemma_kept_positions_same_selection(ids, a, b, n - 1);
    }
}

fn contains_id(ids: &Vec<u64>, id: u64) -> (r: bool)
    ensures
        r == ids@.contains(id),
{
    let mut i: usize = 0;
    while i < ids.len()
        invariant
            i <= ids@.len(),
            forall|j: int| 0 <= j < i ==> ids@[j] != id,
        decreases ids@.len() - i,
    {
        if ids[i] == id {
            assert(ids@[i as int] == id);
            return true;
        }
        i = i + 1;
    }
    false
}

/// Refuses a list of turn ids that names one id twice.
pub fn ensure_unique_turn_ids(turn_ids: &Vec<u64>) -> (r: Result<(), GatewayError>)
    ensures
        match first_duplicate(turn_ids@) {
            None => r is Ok,
            Some(d) => r matches Err(e) && plain_error(
                e,
                GatewayErrorKind::InvalidRequest,
                duplicate_id_message(d),
            ),
        },
{
    let mut i: usize = 0;
    while i < turn_ids.len()
        invariant
            i <= turn_ids@.len(),
            first_duplicate(turn_ids@.take(i as int)) is None,
        decreases turn_ids@.len() - i,
    {
        let id = turn_ids[i];
        let mut j: usize = 0;
        while j < i
            invariant
                i < turn_ids@.len(),
                j <= i,
                id == turn_ids@[i as int],
                first_duplicate(turn_ids@.take(i as int)) is None,
                forall|k: int| 0 <= k < j ==> turn_ids@[k] != id,
            decreases i - j,
        {
            if turn_ids[j] == id {
                proof {
                    let p = turn_ids@.take(i + 1);
                    assert(p.drop_last() =~= turn_ids@.take(i as int));
                    assert(p.drop_last()[j as int] == id);
                    assert(p.last() == id);
                    assert(first_duplicate(p) == Some(id));
                    lemma_first_duplicate_prefix(turn_ids@, i + 1);
                }
                let mut m = String::from_str("duplicate turn_id '");
                m.append(decimal(id).as_str());
                m.append("' in retention policy");
                return Err(plain(GatewayErrorKind::InvalidRequest, m.as_str()));
            }
            j = j + 1;
        }
        proof {
            let p = turn_ids@.take(i + 1);
            assert(p.drop_last() =~= turn_ids@.take(i as int));
            assert(!p.drop_last().contains(p.last()));
        }
        i = i + 1;
    }
    assert(turn_ids@.take(turn_ids@.len() as int) =~= turn_ids@);
    Ok(())
}

/// The ids of `turns`, in order.
pub fn turn_id_list(turns: &Vec<Turn>) -> (r: Vec<u64>)
    ensures
        r@ == turn_ids_of(turns@),
{
    let mut out: Vec<u64> = Vec::new();
    let mut i: usize = 0;
    while i < turns.len()
        invariant
            i <= turns@.len(),
            out@ == turn_ids_of(turns@.take(i as int)),
        decreases turns@.len() - i,
    {
        out.push(turns[i].turn_id());
        assert(turn_ids_of(turns@.take(i + 1)) =~= turn_ids_of(turns@.take(i as int)).push(
            turns@[i as int].id_spec(),
        ));
        i = i + 1;
    }
    assert(turns@.take(turns@.len() as int) =~= turns@);
    out
}

/// Copies of the turns that a policy keeps, in source order.
fn copy_kept(source_turns: &Vec<Turn>, retention: &TurnRetentionPolicy) -> (r: Vec<Turn>)
    ensures
        picks(
            r@,
            source_turns@,
            kept_positions(turn_ids_of(source_turns@), *retention, source_turns@.len() as int),
        ),
{
    let n = source_turns.len();
    let ghost ids = turn_ids_of(source_turns@);
    let mut out: Vec<Turn> = Vec::new();
    let mut i: usize = 0;
    while i < n
        invariant
            n == source_turns@.len(),
            i <= n,
            ids == turn_ids_of(source_turns@),
            picks(out@, source_turns@, kept_positions(ids, *retention, i as int)),
        decreases n - i,
    {
        let keep = match retention {
            TurnRetentionPolicy::KeepAll => true,
            TurnRetentionPolicy::KeepLastTurns { count } => {
                let keep_count = if *count < n {
                    *count
                } else {
                    n
                };
                i >= n - keep_count
            },
            TurnRetentionPolicy::KeepSelectedTurnIds { turn_ids } => contains_id(
                turn_ids,
                source_turns[i].turn_id(),
            ),
            TurnRetentionPolicy::DropAll => false,
        };
        assert(keep == retention_keeps(ids, *retention, i as int));
        if keep {
            let t = source_turns[i].duplicate();
            out.push(t);
        }
        i = i + 1;
    }
    out
}

/// Copies of the turns whose ids `selected_turn_ids` names, in source order;
/// an error names the first selected id that no turn has.
pub fn select_turns_in_source_order(source_turns: &Vec<Turn>, selected_turn_ids: &Vec<u64>) -> (r:
    Result<Vec<Turn>, GatewayError>)
    ensures
        match first_missing(turn_ids_of(source_turns@), selected_turn_ids@) {
            Some(m) => r matches Err(e) && plain_error(
                e,
                GatewayErrorKind::InvalidRequest,
                missing_id_message(m),
            ),
            None => r matches Ok(v) && picks(
                v@,
                source_turns@,
                kept_positions(
                    turn_ids_of(source_turns@),
                    TurnRetentionPolicy::KeepSelectedTurnIds { turn_ids: *selected_turn_ids },
                    source_turns@.len() as int,
                ),
            ),
        },
{
    let existing = turn_id_list(source_turns);
    let mut i: usize = 0;
    while i < selected_turn_ids.len()
        invariant
            i <= selected_turn_ids@.len(),
            existing@ == turn_ids_of(source_turns@),
            first_missing(existing@, selected_turn_ids@.take(i as int)) is None,
        decreases selected_turn_ids@.len() - i,
    {
        let id = selected_turn_ids[i];
        let ghost p = selected_turn_ids@.take(i + 1);
        assert(p.drop_last() =~= selected_turn_ids@.take(i as int));
        if !contains_id(&existing, id) {
            proof {
                assert(first_missing(existing@, p) == Some(id));
                lemma_first_missing_prefix(existing@, selected_turn_ids@, i + 1);
            }
            let mut m = String::from_str("turn_id '");
            m.append(decimal(id).as_str());
            m.append("' not found in source thread");
            return Err(plain(GatewayErrorKind::InvalidRequest, m.as_str()));
        }
        i = i + 1;
    }
    assert(selected_turn_ids@.take(selected_turn_ids@.len() as int) =~= selected_turn_ids@);
    let turn_ids = copy_ids(selected_turn_ids);
    proof {
        lemma_kept_positions_same_selection(
            existing@,
            turn_ids,
            *selected_turn_ids,
            source_turns@.len() as int,
        );
    }
    let policy = TurnRetentionPolicy::KeepSelectedTurnIds { turn_ids };
    Ok(copy_kept(source_turns, &policy))
}

fn copy_ids(ids: &Vec<u64>) -> (r: Vec<u64>)
    ensures
        r@ == ids@,
{
    let mut out: Vec<u64> = Vec::new();
    let mut i: usize = 0;
    while i < ids.len()
        invariant
            i <= ids@.len(),
            out@ == ids@.take(i as int),
        decreases ids@.len() - i,
    {
        out.push(ids[i]);
        assert(out@ =~= ids@.take(i + 1));
        i = i + 1;
    }
    assert(ids@.take(ids@.len() as int) =~= ids@);
    out
}

/// Copies of the turns that a retention policy keeps, in source order.
pub fn select_turns_by_retention(source_turns: &Vec<Turn>, retention: &TurnRetentionPolicy) -> (r:
    Result<Vec<Turn>, GatewayError>)
    ensures
        match retention_error(turn_ids_of(source_turns@), *retention) {
            Some(msg) => r matches Err(e) && plain_error(e, GatewayErrorKind::InvalidRequest, msg),
            None => r matches Ok(v) && picks(
                v@,
                source_turns@,
                kept_positions(turn_ids_of(source_turns@), *retention, source_turns@.len() as int),
            ),
        },
{
    match retention {
        TurnRetentionPolicy::KeepSelectedTurnIds { turn_ids } => {
            match ensure_unique_turn_ids(turn_ids) {
                Err(e) => Err(e),
                Ok(()) => select_turns_in_source_order(source_turns, turn_ids),
            }
        },
        _ => Ok(copy_kept(source_turns, retention)),
    }
}

/// The ids of `source_turn_ids` that `kept_turn_ids` does not hold, in order.
pub fn dropped_turn_ids_from_source(source_turn_ids: &Vec<u64>, kept_turn_ids: &Vec<u64>) -> (r: Vec<u64>)
    ensures
        r@ == without_ids(source_turn_ids@, kept_turn_ids@),
{
    let mut out: Vec<u64> = Vec::new();
    let mut i: usize = 0;
    while i < source_turn_ids.len()
        invariant
            i <= source_turn_ids@.len(),
            out@ == without_ids(source_turn_ids@.take(i as int), kept_turn_ids@),
        decreases source_turn_ids@.len() - i,
    {
        let id = source_turn_ids[i];
        assert(source_turn_ids@.take(i + 1).drop_last() =~= source_turn_ids@.take(i as int));
        if !contains_id(kept_turn_ids, id) {
            out.push(id);
        }
        i = i + 1;
    }
    assert(source_turn_ids@.take(source_turn_ids@.len() as int) =~= source_turn_ids@);
    out
}

/// The id after the largest turn id, 1 for no turns.
pub fn next_turn_id_from_turns(turns: &Vec<Turn>) -> (r: u64)
    ensures
        r == next_id_after(turn_ids_of(turns@)),
{
    let mut max: u64 = 0;
    let mut i: usize = 0;
    while i < turns.len()
        invariant
            i <= turns@.len(),
            max == max_id(turn_ids_of(turns@.take(i as int))),
        decreases turns@.len() - i,
    {
        let id = turns[i].turn_id();
        let ghost prev = turn_ids_of(turns@.take(i as int));
        assert(turn_ids_of(turns@.take(i + 1)) =~= prev.push(id));
        assert(prev.push(id).drop_last() =~= prev);
        if id > max {
            max = id;
        }
        i = i + 1;
    }
    assert(turns@.take(turns@.len() as int) =~= turns@);
    max.saturating_add(1)
}

/// The system prompt after `action`: kept, cleared, or replaced by the
/// trimmed new prompt, which may not be blank.
pub fn apply_system_prompt_action(current: Option<String>, action: &SystemPromptAction) -> (r: Result<
    Option<String>,
    GatewayError,
>)
    ensures
        match action {
            SystemPromptAction::Keep => r == Ok::<Option<String>, GatewayError>(current),
            SystemPromptAction::Clear => r == Ok::<Option<String>, GatewayError>(None),
            SystemPromptAction::Replace { prompt } => if trim_seq(prompt@).len() == 0 {
                r matches Err(e) && plain_error(
                    e,
                    GatewayErrorKind::InvalidRequest,
                    "system prompt cannot be empty for replace action"@,
                )
            } else {
                r matches Ok(Some(p)) && p@ == trim_seq(prompt@)
            },
        },
{
    match action {
        SystemPromptAction::Keep => Ok(current),
        SystemPromptAction::Clear => Ok(None),
        SystemPromptAction::Replace { prompt } => {
            let trimmed = trim(prompt.as_str());
            if trimmed.as_str().unicode_len() == 0 {
                return Err(
                    plain(
                        GatewayErrorKind::InvalidRequest,
                        "system prompt cannot be empty for replace action",
                    ),
                );
            }
            Ok(Some(trimmed))
        },
    }
}

/// The `tick` a metadata map carries, 0 where it holds none or no number.
pub fn metadata_tick(metadata: &Metadata) -> (r: u64)
    ensures
        r == match metadata.get_spec("tick"@) {
            Some(v) => match parse_u64_spec(v) {
                Some(n) => n,
                None => 0,
            },
            None => 0,
        },
{
    match metadata.get("tick") {
        Some(v) => match parse_u64(v.as_str()) {
            Some(n) => n,
            None => 0,
        },
        None => 0,
    }
}

/// The parent span a metadata map names: `parent_span_id`, else `request_id`.
pub fn metadata_parent_span_id(metadata: &Metadata) -> (r: Option<String>)
    ensures
        match metadata.get_spec("parent_span_id"@) {
            Some(v) => r matches Some(s) && s@ == v,
            None => match metadata.get_spec("request_id"@) {
                Some(v) => r matches Some(s) && s@ == v,
                None => r is None,
            },
        },
{
    match metadata.get("parent_span_id") {
        Some(v) => Some(v.clone()),
        None => match metadata.get("request_id") {
            Some(v) => Some(v.clone()),
            None => None,
        },
    }
}

/// The trimmed `context_reason` of a metadata map, if it is not blank.
pub fn metadata_context_reason(metadata: &Metadata) -> (r: Option<String>)
    ensures
        match metadata.get_spec("context_reason"@) {
            Some(v) => if trim_seq(v).len() == 0 {
                r is None
            } else {
                r matches Some(s) && s@ == trim_seq(v)
            },
            None => r is None,
        },
{
    match metadata.get("context_reason") {
        Some(v) => {
            let trimmed = trim(v.as_str());
            if trimmed.as_str().unicode_len() == 0 {
                None
            } else {
                Some(trimmed)
            }
        },
        None => None,
    }
}

/// `new` is `old` renumbered to `index + 1`; a turn whose id changed
/// records its former id under `source_turn_id`.
pub open spec fn reindexed(old: Turn, new: Turn, index: int) -> bool {
    &&& new.id_spec() == index + 1
    &&& new.messages_spec() == old.messages_spec()
    &&& new.usage_spec() == old.usage_spec()
    &&& new.finish_reason_spec() == old.finish_reason_spec()
    &&& new.completed_spec() == old.completed_spec()
    &&& new.wf()
    &&& if old.id_spec() == index + 1 {
        new.metadata_spec() == old.metadata_spec()
    } else {
        &&& new.metadata_spec().get_spec("source_turn_id"@) == Some(
            decimal_seq(old.id_spec() as nat),
        )
        &&& forall|k: Seq<char>|
            k != "source_turn_id"@ ==> new.metadata_spec().get_spec(k)
                == old.metadata_spec().get_spec(k)
    }
}

/// Renumbers the turns 1, 2, ... in order.
pub fn reindex_turn_ids(turns: &mut Vec<Turn>)
    requires
        forall|i: int| 0 <= i < old(turns)@.len() ==> (#[trigger] old(turns)@[i]).wf(),
    ensures
        final(turns)@.len() == old(turns)@.len(),
        forall|i: int|
            0 <= i < old(turns)@.len() ==> reindexed(old(turns)@[i], #[trigger] final(turns)@[i], i),
{
    let mut rest: Vec<Turn> = Vec::new();
    std::mem::swap(&mut rest, turns);
    let ghost src = rest@;
    let total = rest.len();
    let mut index: usize = 0;
    while rest.len() > 0
        invariant
            index + rest@.len() == src.len(),
            src.len() == total,
            rest@ == src.skip(index as int),
            turns@.len() == index,
            forall|i: int| 0 <= i < src.len() ==> (#[trigger] src[i]).wf(),
            forall|i: int| 0 <= i < index ==> reindexed(src[i], #[trigger] turns@[i], i),
        decreases rest@.len(),
    {
        let mut turn = rest.remove(0);
        assert(turn == src[index as int]);
        assert(rest@ =~= src.skip(index + 1));
        let source_turn_id = turn.turn_id();
        let reindexed_turn_id: u64 = index as u64 + 1;
        turn.set_turn_id(reindexed_turn_id);
        if source_turn_id != reindexed_turn_id {
            turn.insert_metadata(String::from_str("source_turn_id"), decimal(source_turn_id));
        }
        turns.push(turn);
        index = index + 1;
    }
}

/// The position of the first turn whose tool linkage is broken.
pub open spec fn first_broken_turn(turns: Seq<Turn>) -> Option<int>
    decreases turns.len(),
{
    if turns.len() == 0 {
        None
    } else {
        match first_broken_turn(turns.drop_last()) {
            Some(k) => Some(k),
            None => if linkage_valid(turns.last().messages_spec()) {
                None
            } else {
                Some(turns.len() - 1)
            },
        }
    }
}

/// The error that the first broken turn of `turns` gives.
pub open spec fn broken_turn_error(turns: Seq<Turn>, k: int, e: GatewayError) -> bool {
    match linkage_problem(turns[k].messages_spec(), 0) {
        Some(p) => plain_error(
            e,
            GatewayErrorKind::InvalidRequest,
            linkage_message(turns[k].id_spec(), p),
        ),
        None => false,
    }
}

proof fn lemma_first_broken_none(turns: Seq<Turn>, i: int)
    requires
        first_broken_turn(turns) is None,
        0 <= i < turns.len(),
    ensures
        linkage_valid(turns[i].messages_spec()),
    decreases turns.len(),
{
    if i < turns.len() - 1 {
        lemma_first_broken_none(turns.drop_last(), i);
    }
}

proof fn lemma_first_broken_prefix(turns: Seq<Turn>, k: int)
    requires
        0 <= k <= turns.len(),
        first_broken_turn(turns.take(k)) is Some,
    ensures
        first_broken_turn(turns) == first_broken_turn(turns.take(k)),
    decreases turns.len(),
{
    if k == turns.len() {
        assert(turns.take(k) =~= turns);
    } else {
        assert(turns.drop_last().take(k) =~= turns.take(k));
        lemma_first_broken_prefix(turns.drop_last(), k);
    }
}

/// Every turn is well formed with a valid tool linkage, the turn ids rise
/// strictly, and each lies below `next`.
pub open spec fn turns_wf(t: Seq<Turn>, next: u64) -> bool {
    &&& forall|i: int| 0 <= i < t.len() ==> (#[trigger] t[i]).wf() && linkage_valid(t[i].messages_spec())
    &&& forall|i: int, j: int| 0 <= i < j < t.len() ==> #[trigger] t[i].id_spec() < #[trigger] t[j].id_spec()
    &&& forall|i: int| 0 <= i < t.len() ==> (#[trigger] t[i]).id_spec() < next
}

/// The kept positions rise strictly and lie below `n`.
proof fn lemma_kept_positions_sorted(ids: Seq<u64>, policy: TurnRetentionPolicy, n: int)
    requires
        0 <= n,
    ensures
        forall|j: int|
            0 <= j < kept_positions(ids, policy, n).len() ==> 0 <= #[trigger] kept_positions(
                ids,
                policy,
                n,
            )[j] < n,
        forall|j: int, k: int|
            0 <= j < k < kept_positions(ids, policy, n).len() ==> #[trigger] kept_positions(
                ids,
                policy,
                n,
            )[j] < #[trigger] kept_positions(ids, policy, n)[k],
    decreases n,
{
    if n > 0 {
        lemma_kept_positions_sorted(ids, policy, n - 1);
        let prev = kept_positions(ids, policy, n - 1);
        let cur = kept_positions(ids, policy, n);
        if retention_keeps(ids, policy, n - 1) {
            assert(cur == prev.push(n - 1));
            assert forall|j: int| 0 <= j < cur.len() implies 0 <= #[trigger] cur[j] < n by {
                if j < prev.len() {
                    assert(cur[j] == prev[j]);
                }
            }
            assert forall|j: int, k: int| 0 <= j < k < cur.len() implies #[trigger] cur[j]
                < #[trigger] cur[k] by {
                assert(cur[j] == prev[j]);
                if k < prev.len() {
                    assert(cur[k] == prev[k]);
                }
            }
        }
    }
}

/// Every id is at most the largest, which is 0 or one of the ids.
proof fn lemma_max_id(ids: Seq<u64>)
    ensures
        forall|i: int| 0 <= i < ids.len() ==> #[trigger] ids[i] <= max_id(ids),
        max_id(ids) == 0 || ids.contains(max_id(ids)),
    decreases ids.len(),
{
    if ids.len() > 0 {
        lemma_max_id(ids.drop_last());
        assert forall|i: int| 0 <= i < ids.len() implies #[trigger] ids[i] <= max_id(ids) by {
            if i < ids.len() - 1 {
                assert(ids[i] == ids.drop_last()[i]);
            }
        }
        if max_id(ids) != 0 && max_id(ids) != ids.last() {
            let k = choose|k: int| 0 <= k < ids.drop_last().len() && ids.drop_last()[k] == max_id(ids);
            assert(ids[k] == max_id(ids));
        }
    }
}

/// Copies of the turns of a well-formed history at rising positions form a
/// well-formed history whose next id follows the largest kept id.
proof fn lemma_picked_wf(old: Seq<Turn>, next: u64, new: Seq<Turn>, pos: Seq<int>)
    requires
        turns_wf(old, next),
        picks(new, old, pos),
        forall|j: int, k: int| 0 <= j < k < pos.len() ==> #[trigger] pos[j] < #[trigger] pos[k],
    ensures
        turns_wf(new, next_id_after(turn_ids_of(new))),
        turn_ids_of(new) == pos.map_values(|p: int| old[p].id_spec()),
{
    assert forall|j: int| 0 <= j < new.len() implies (#[trigger] new[j]).wf() && linkage_valid(
        new[j].messages_spec(),
    ) by {
        let o = old[pos[j]];
        assert(new[j].same_as(&o));
        assert(o.wf() && linkage_valid(o.messages_spec()));
        lemma_same_messages_linkage(new[j].messages_spec(), o.messages_spec(), 0);
    }
    assert forall|j: int, k: int| 0 <= j < k < new.len() implies #[trigger] new[j].id_spec()
        < #[trigger] new[k].id_spec() by {
        assert(pos[j] < pos[k]);
        assert(new[j].same_as(&old[pos[j]]));
        assert(new[k].same_as(&old[pos[k]]));
    }
    let ids = turn_ids_of(new);
    lemma_max_id(ids);
    if max_id(ids) != 0 {
        let k = choose|k: int| 0 <= k < ids.len() && ids[k] == max_id(ids);
        assert(new[k].same_as(&old[pos[k]]));
        assert(old[pos[k]].id_spec() < next);
    }
    assert forall|j: int| 0 <= j < new.len() implies (#[trigger] new[j]).id_spec() < next_id_after(
        ids,
    ) by {
        assert(ids[j] == new[j].id_spec());
    }
    assert forall|j: int| 0 <= j < pos.len() implies #[trigger] ids[j] == pos.map_values(
        |p: int| old[p].id_spec(),
    )[j] by {
        assert(new[j].same_as(&old[pos[j]]));
    }
    assert(ids =~= pos.map_values(|p: int| old[p].id_spec()));
}

/// A turn holds at least one tool call.
pub open spec fn has_tool_call(t: Turn) -> bool {
    exists|i: int| 0 <= i < t.messages_spec().len() && #[trigger] t.messages_spec()[i] is ToolCall
}

/// A turn passes every filter that a query sets.
pub open spec fn query_matches(t: Turn, q: TurnQuery) -> bool {
    &&& (q.has_tool_calls matches Some(expected) ==> has_tool_call(t) == expected)
    &&& (q.min_turn_id matches Some(min) ==> t.id_spec() >= min)
    &&& (q.max_turn_id matches Some(max) ==> t.id_spec() <= max)
}

/// The positions below `n` of the turns that a query matches, in order.
pub open spec fn matching_positions(turns: Seq<Turn>, q: TurnQuery, n: int) -> Seq<int>
    decreases n,
{
    if n <= 0 {
        Seq::empty()
    } else if query_matches(turns[n - 1], q) {
        matching_positions(turns, q, n - 1).push(n - 1)
    } else {
        matching_positions(turns, q, n - 1)
    }
}

/// How many of `found` matches a query returns.
pub open spec fn limited(found: int, limit: Option<usize>) -> int {
    match limit {
        Some(l) => if l < found {
            l as int
        } else {
            found
        },
        None => found,
    }
}

/// The summary of a turn.
pub open spec fn summary_of(t: Turn) -> TurnSummary {
    TurnSummary {
        turn_id: t.id_spec(),
        message_count: t.messages_spec().len() as usize,
        tool_call_count: tool_call_count_spec(t.messages_spec()) as usize,
        completed: t.completed_spec(),
    }
}

/// A replace action whose prompt is blank.
pub open spec fn replace_is_blank(a: SystemPromptAction) -> bool {
    a matches SystemPromptAction::Replace { prompt } && trim_seq(prompt@).len() == 0
}

/// `new` is the system prompt after applying `a` to `current`.
pub open spec fn prompt_applied(current: Option<String>, a: SystemPromptAction, new: Option<String>) -> bool {
    match a {
        SystemPromptAction::Keep => new == current,
        SystemPromptAction::Clear => new is None,
        SystemPromptAction::Replace { prompt } => new matches Some(p) && p@ == trim_seq(prompt@),
    }
}

/// `res` reports the turns kept from a thread with turn ids `source` as
/// `kept`, the rest as dropped.
pub open spec fn reports_context(
    res: ThreadContextResult,
    source: Seq<u64>,
    kept: Seq<u64>,
    request: ThreadContextRequest,
) -> bool {
    &&& res.kept_turn_ids@ == kept
    &&& res.dropped_turn_ids@ == without_ids(source, kept)
    &&& res.continuation_dropped == request.drop_unfinished_continuation
}

proof fn lemma_matching_positions_range(turns: Seq<Turn>, q: TurnQuery, n: int)
    requires
        0 <= n <= turns.len(),
    ensures
        forall|k: int|
            0 <= k < matching_positions(turns, q, n).len() ==> 0 <= #[trigger] matching_positions(
                turns,
                q,
                n,
            )[k] < n,
    decreases n,
{
    if n > 0 {
        lemma_matching_positions_range(turns, q, n - 1);
        let prev = matching_positions(turns, q, n - 1);
        let cur = matching_positions(turns, q, n);
        if query_matches(turns[n - 1], q) {
            assert forall|k: int| 0 <= k < cur.len() implies 0 <= #[trigger] cur[k] < n by {
                if k < prev.len() {
                    assert(cur[k] == prev[k]);
                }
            }
        }
    }
}

/// The messages of `turns`, turn after turn.
pub open spec fn history_messages(turns: Seq<Turn>) -> Seq<Message>
    decreases turns.len(),
{
    if turns.len() == 0 {
        Seq::empty()
    } else {
        history_messages(turns.drop_last()) + turns.last().messages_spec()
    }
}

/// A system message whose one part is the text `prompt`.
pub open spec fn is_system_prompt_message(c: ChatMessage, prompt: String) -> bool {
    &&& c.role == ChatRole::System
    &&& c.parts@ == seq![ContentPart::Text { text: prompt }]
    &&& c.tool_call_id is None
    &&& c.tool_name is None
    &&& c.tool_calls@.len() == 0
}

/// `r` is what a turn sends: the system prompt, if any, then the history's
/// messages as chat messages, then copies of the input messages.
pub open spec fn is_dispatch_for(
    system_prompt: Option<String>,
    turns: Seq<Turn>,
    input: Seq<ChatMessage>,
    r: Seq<ChatMessage>,
) -> bool {
    let sys: int = if system_prompt is Some {
        1
    } else {
        0
    };
    let h = history_messages(turns);
    &&& r.len() == sys + h.len() + input.len()
    &&& (system_prompt matches Some(p) ==> is_system_prompt_message(r[0], p))
    &&& forall|k: int| 0 <= k < h.len() ==> chat_message_of(h[k], #[trigger] r[sys + k])
    &&& forall|j: int| 0 <= j < input.len() ==> (#[trigger] r[sys + h.len() + j]).same_as(&input[j])
}

/// The history of one chat thread.
pub struct ThreadState {
    turns: Vec<Turn>,
    system_prompt: Option<String>,
    next_turn_id: u64,
}

impl ThreadState {
    pub closed spec fn turns_spec(&self) -> Seq<Turn> {
        self.turns@
    }

    pub closed spec fn system_prompt_spec(&self) -> Option<String> {
        self.system_prompt
    }

    pub closed spec fn next_turn_id_spec(&self) -> u64 {
        self.next_turn_id
    }

    /// Every turn is well formed with a valid tool linkage, the turn ids
    /// rise strictly, and each lies below the id of the next turn.
    pub open spec fn wf(&self) -> bool {
        turns_wf(self.turns_spec(), self.next_turn_id_spec())
    }

    /// A thread seeded with `seed_turns`: each must have a valid tool
    /// linkage; they are renumbered 1, 2, ... and the next turn follows them.
    pub fn open(seed_turns: Vec<Turn>, system_prompt: Option<String>) -> (r: Result<
        ThreadState,
        GatewayError,
    >)
        requires
            forall|i: int| 0 <= i < seed_turns@.len() ==> (#[trigger] seed_turns@[i]).wf(),
            seed_turns@.len() < u64::MAX,
        ensures
            match first_broken_turn(seed_turns@) {
                Some(k) => r matches Err(e) && broken_turn_error(seed_turns@, k, e),
                None => r matches Ok(t) && {
                    &&& t.wf()
                    &&& t.turns_spec().len() == seed_turns@.len()
                    &&& forall|i: int|
                        0 <= i < seed_turns@.len() ==> reindexed(
                            seed_turns@[i],
                            #[trigger] t.turns_spec()[i],
                            i,
                        )
                    &&& t.next_turn_id_spec() == seed_turns@.len() + 1
                    &&& t.system_prompt_spec() == system_prompt
                },
            },
    {
        let mut turns = seed_turns;
        let mut i: usize = 0;
        while i < turns.len()
            invariant
                i <= turns@.len(),
                turns@ == seed_turns@,
                first_broken_turn(turns@.take(i as int)) is None,
            decreases turns@.len() - i,
        {
            let ghost p = turns@.take(i + 1);
            assert(p.drop_last() =~= turns@.take(i as int));
            match turns[i].validate_tool_linkage() {
                Err(e) => {
                    proof {
                        assert(first_broken_turn(p) == Some(i as int));
                        lemma_first_broken_prefix(turns@, i + 1);
                    }
                    return Err(e);
                },
                Ok(()) => {},
            }
            i = i + 1;
        }
        assert(turns@.take(turns@.len() as int) =~= turns@);
        let n = turns.len();
        reindex_turn_ids(&mut turns);
        let state = ThreadState { turns, system_prompt, next_turn_id: n as u64 + 1 };
        proof {
            let t = state.turns@;
            assert forall|i: int| 0 <= i < t.len() implies (#[trigger] t[i]).wf() && linkage_valid(
                t[i].messages_spec(),
            ) by {
                assert(reindexed(seed_turns@[i], t[i], i));
                lemma_first_broken_none(seed_turns@, i);
            }
            assert forall|i: int, j: int| 0 <= i < j < t.len() implies #[trigger] t[i].id_spec()
                < #[trigger] t[j].id_spec() by {
                assert(reindexed(seed_turns@[i], t[i], i));
                assert(reindexed(seed_turns@[j], t[j], j));
            }
            assert forall|i: int| 0 <= i < t.len() implies (#[trigger] t[i]).id_spec()
                < state.next_turn_id by {
                assert(reindexed(seed_turns@[i], t[i], i));
            }
        }
        Ok(state)
    }

    pub fn turns(&self) -> (r: &Vec<Turn>)
        ensures
            r@ == self.turns_spec(),
    {
        &self.turns
    }

    pub fn system_prompt(&self) -> (r: &Option<String>)
        ensures
            *r == self.system_prompt_spec(),
    {
        &self.system_prompt
    }

    pub fn next_turn_id(&self) -> (r: u64)
        ensures
            r == self.next_turn_id_spec(),
    {
        self.next_turn_id
    }

    /// Appends a finished turn. Its tool linkage must be valid and its id
    /// must be the next turn id; the next id then moves on by one,
    /// saturating at `u64::MAX`.
    pub fn append_turn(&mut self, turn: Turn) -> (r: Result<(), GatewayError>)
        ensures
            match linkage_problem(turn.messages_spec(), 0) {
                Some(p) => {
                    &&& r matches Err(e) && plain_error(
                        e,
                        GatewayErrorKind::InvalidRequest,
                        linkage_message(turn.id_spec(), p),
                    )
                    &&& *final(self) == *old(self)
                },
                None => if turn.id_spec() != old(self).next_turn_id_spec() {
                    &&& r matches Err(e) && plain_error(
                        e,
                        GatewayErrorKind::InvalidRequest,
                        out_of_sequence_message(turn.id_spec(), old(self).next_turn_id_spec()),
                    )
                    &&& *final(self) == *old(self)
                } else {
                    &&& r is Ok
                    &&& final(self).turns_spec() == old(self).turns_spec().push(turn)
                    &&& final(self).next_turn_id_spec() == saturating_next(old(self).next_turn_id_spec())
                    &&& final(self).system_prompt_spec() == old(self).system_prompt_spec()
                },
            },
            (old(self).wf() && turn.wf() && old(self).next_turn_id_spec() < u64::MAX) ==> final(self).wf(),
    {
        match turn.validate_tool_linkage() {
            Err(e) => {
                return Err(e);
            },
            Ok(()) => {},
        }
        if turn.turn_id() != self.next_turn_id {
            let mut m = String::from_str("turn_id '");
            m.append(decimal(turn.turn_id()).as_str());
            m.append("' is out of sequence; expected '");
            m.append(decimal(self.next_turn_id).as_str());
            m.append("'");
            return Err(plain(GatewayErrorKind::InvalidRequest, m.as_str()));
        }
        let ghost before = self.turns@;
        let ghost added = turn;
        self.turns.push(turn);
        self.next_turn_id = self.next_turn_id.saturating_add(1);
        proof {
            let t = self.turns@;
            assert(t == before.push(added));
            assert(before == old(self).turns_spec());
            assert(linkage_valid(added.messages_spec()));
            if old(self).wf() && added.wf() && old(self).next_turn_id < u64::MAX {
                assert forall|i: int| 0 <= i < t.len() implies (#[trigger] t[i]).wf() && linkage_valid(
                    t[i].messages_spec(),
                ) by {
                    if i < before.len() {
                        assert(t[i] == before[i]);
                        assert(before[i].wf() && linkage_valid(before[i].messages_spec()));
                    } else {
                        assert(t[i] == added);
                    }
                }
                assert forall|i: int, j: int| 0 <= i < j < t.len() implies #[trigger] t[i].id_spec()
                    < #[trigger] t[j].id_spec() by {
                    assert(t[i] == before[i]);
                    if j < before.len() {
                        assert(t[j] == before[j]);
                    }
                }
                assert forall|i: int| 0 <= i < t.len() implies (#[trigger] t[i]).id_spec()
                    < self.next_turn_id by {
                    if i < before.len() {
                        assert(t[i] == before[i]);
                        assert(before[i].id_spec() < old(self).next_turn_id);
                    } else {
                        assert(t[i] == added);
                    }
                }
            }
        }
        Ok(())
    }

    /// References to the turns that match `query`, in order, at most
    /// `query.limit` of them.
    pub fn find_turns(&self, query: &TurnQuery) -> (r: Vec<TurnRef>)
        ensures
            r@.len() == limited(
                matching_positions(self.turns_spec(), *query, self.turns_spec().len() as int).len() as int,
                query.limit,
            ),
            forall|j: int|
                0 <= j < r@.len() ==> {
                    let p = matching_positions(
                        self.turns_spec(),
                        *query,
                        self.turns_spec().len() as int,
                    )[j];
                    &&& (#[trigger] r@[j]).index == p
                    &&& r@[j].turn_id == self.turns_spec()[p].id_spec()
                },
    {
        let ghost t = self.turns@;
        let mut out: Vec<TurnRef> = Vec::new();
        let mut i: usize = 0;
        while i < self.turns.len()
            invariant
                i <= t.len(),
                t == self.turns@,
                out@.len() == matching_positions(t, *query, i as int).len(),
                forall|j: int|
                    0 <= j < out@.len() ==> {
                        let p = matching_positions(t, *query, i as int)[j];
                        &&& (#[trigger] out@[j]).index == p
                        &&& out@[j].turn_id == t[p].id_spec()
                    },
            decreases t.len() - i,
        {
            let turn = &self.turns[i];
            let tool_ok = match query.has_tool_calls {
                Some(expected) => turn.has_tool_calls() == expected,
                None => true,
            };
            let min_ok = match query.min_turn_id {
                Some(min_id) => turn.turn_id() >= min_id,
                None => true,
            };
            let max_ok = match query.max_turn_id {
                Some(max_id) => turn.turn_id() <= max_id,
                None => true,
            };
            assert(tool_ok && min_ok && max_ok <==> query_matches(t[i as int], *query));
            let ghost prev = matching_positions(t, *query, i as int);
            if tool_ok && min_ok && max_ok {
                out.push(TurnRef { turn_id: turn.turn_id(), index: i });
                assert(matching_positions(t, *query, i + 1) == prev.push(i as int));
            }
            i = i + 1;
        }
        match query.limit {
            Some(limit) => {
                out.truncate(limit);
            },
            None => {},
        }
        out
    }

    /// The summaries of the turns that match `query`, in order, at most
    /// `query.limit` of them.
    pub fn query_turns(&self, query: &TurnQuery) -> (r: Vec<TurnSummary>)
        ensures
            r@.len() == limited(
                matching_positions(self.turns_spec(), *query, self.turns_spec().len() as int).len() as int,
                query.limit,
            ),
            forall|j: int|
                0 <= j < r@.len() ==> #[trigger] r@[j] == summary_of(
                    self.turns_spec()[matching_positions(
                        self.turns_spec(),
                        *query,
                        self.turns_spec().len() as int,
                    )[j]],
                ),
    {
        let refs = self.find_turns(query);
        let ghost pos = matching_positions(self.turns@, *query, self.turns@.len() as int);
        proof {
            lemma_matching_positions_range(self.turns@, *query, self.turns@.len() as int);
        }
        let mut out: Vec<TurnSummary> = Vec::new();
        let mut j: usize = 0;
        while j < refs.len()
            invariant
                j <= refs@.len(),
                out@.len() == j,
                refs@.len() <= pos.len(),
                forall|k: int| 0 <= k < pos.len() ==> 0 <= #[trigger] pos[k] < self.turns@.len(),
                forall|k: int| 0 <= k < refs@.len() ==> (#[trigger] refs@[k]).index == pos[k],
                forall|k: int| 0 <= k < j ==> #[trigger] out@[k] == summary_of(self.turns@[pos[k]]),
            decreases refs@.len() - j,
        {
            let index = refs[j].index;
            assert(index == pos[j as int]);
            let turn = &self.turns[index];
            out.push(
                TurnSummary {
                    turn_id: turn.turn_id(),
                    message_count: turn.message_count(),
                    tool_call_count: turn.tool_call_count(),
                    completed: turn.completed(),
                },
            );
            j = j + 1;
        }
        out
    }

    /// What a turn sends to the backend: the system prompt, if any, then
    /// every message of the history, then the new input messages.
    pub fn build_dispatch_messages(&self, input_messages: &Vec<ChatMessage>) -> (r: Vec<ChatMessage>)
        ensures
            is_dispatch_for(self.system_prompt_spec(), self.turns_spec(), input_messages@, r@),
    {
        let mut messages: Vec<ChatMessage> = Vec::new();
        match &self.system_prompt {
            Some(system_prompt) => {
                let mut parts: Vec<ContentPart> = Vec::new();
                parts.push(ContentPart::Text { text: system_prompt.clone() });
                messages.push(
                    ChatMessage {
                        role: ChatRole::System,
                        parts,
                        tool_call_id: None,
                        tool_name: None,
                        tool_calls: Vec::new(),
                    },
                );
                assert(messages@[0].parts@ =~= seq![ContentPart::Text { text: *system_prompt }]);
            },
            None => {},
        }
        let ghost sys: int = messages@.len() as int;
        let mut t: usize = 0;
        while t < self.turns.len()
            invariant
                t <= self.turns@.len(),
                sys == (if self.system_prompt is Some {
                    1int
                } else {
                    0int
                }),
                messages@.len() == sys + history_messages(self.turns@.take(t as int)).len(),
                self.system_prompt matches Some(p) ==> is_system_prompt_message(messages@[0], p),
                forall|k: int|
                    0 <= k < history_messages(self.turns@.take(t as int)).len() ==> chat_message_of(
                        history_messages(self.turns@.take(t as int))[k],
                        #[trigger] messages@[sys + k],
                    ),
            decreases self.turns@.len() - t,
        {
            let ghost before = history_messages(self.turns@.take(t as int));
            let ghost start = messages@.len();
            let msgs = self.turns[t as usize].messages();
            assert(self.turns@.take(t + 1).drop_last() =~= self.turns@.take(t as int));
            assert(history_messages(self.turns@.take(t + 1)) == before + msgs@);
            let mut m: usize = 0;
            while m < msgs.len()
                invariant
                    m <= msgs@.len(),
                    messages@.len() == start + m,
                    start == sys + before.len(),
                    sys == (if self.system_prompt is Some {
                        1int
                    } else {
                        0int
                    }),
                    self.system_prompt matches Some(p) ==> is_system_prompt_message(messages@[0], p),
                    forall|k: int| 0 <= k < before.len() ==> chat_message_of(
                        before[k],
                        #[trigger] messages@[sys + k],
                    ),
                    forall|k: int| 0 <= k < m ==> chat_message_of(
                        msgs@[k],
                        #[trigger] messages@[start + k],
                    ),
                decreases msgs@.len() - m,
            {
                let c = msgs[m].to_chat_message();
                messages.push(c);
                m = m + 1;
            }
            proof {
                let after = history_messages(self.turns@.take(t + 1));
                assert forall|k: int| 0 <= k < after.len() implies chat_message_of(
                    after[k],
                    #[trigger] messages@[sys + k],
                ) by {
                    if k < before.len() {
                        assert(after[k] == before[k]);
                    } else {
                        assert(after[k] == msgs@[k - before.len()]);
                        assert(messages@[sys + k] == messages@[start + (k - before.len())]);
                    }
                }
            }
            t = t + 1;
        }
        assert(self.turns@.take(self.turns@.len() as int) =~= self.turns@);
        let ghost h_len = messages@.len() - sys;
        let mut j: usize = 0;
        while j < input_messages.len()
            invariant
                j <= input_messages@.len(),
                messages@.len() == sys + h_len + j,
                sys == (if self.system_prompt is Some {
                    1int
                } else {
                    0int
                }),
                h_len == history_messages(self.turns@).len(),
                self.system_prompt matches Some(p) ==> is_system_prompt_message(messages@[0], p),
                forall|k: int| 0 <= k < h_len ==> chat_message_of(
                    history_messages(self.turns@)[k],
                    #[trigger] messages@[sys + k],
                ),
                forall|k: int| 0 <= k < j ==> (#[trigger] messages@[sys + h_len + k]).same_as(
                    &input_messages@[k],
                ),
            decreases input_messages@.len() - j,
        {
            messages.push(input_messages[j].duplicate());
            j = j + 1;
        }
        messages
    }

    /// Adds a completed turn, numbered by the next turn id, and moves the
    /// next id on by one, saturating at `u64::MAX`.
    pub fn commit_turn(&mut self, turn: Turn)
        ensures
            final(self).turns_spec() == old(self).turns_spec().push(turn),
            final(self).next_turn_id_spec() == saturating_next(old(self).next_turn_id_spec()),
            final(self).system_prompt_spec() == old(self).system_prompt_spec(),
            (old(self).wf() && turn.wf() && linkage_valid(turn.messages_spec()) && turn.id_spec()
                == old(self).next_turn_id_spec() && old(self).next_turn_id_spec() < u64::MAX)
                ==> final(self).wf(),
    {
        let ghost before = self.turns@;
        let ghost added = turn;
        self.turns.push(turn);
        self.next_turn_id = self.next_turn_id.saturating_add(1);
        proof {
            let t = self.turns@;
            assert(t == before.push(added));
            assert(before == old(self).turns_spec());
            if old(self).wf() && added.wf() && linkage_valid(added.messages_spec()) && added.id_spec()
                == old(self).next_turn_id && old(self).next_turn_id < u64::MAX {
                assert forall|i: int| 0 <= i < t.len() implies (#[trigger] t[i]).wf() && linkage_valid(
                    t[i].messages_spec(),
                ) by {
                    if i < before.len() {
                        assert(t[i] == before[i]);
                        assert(before[i].wf() && linkage_valid(before[i].messages_spec()));
                    } else {
                        assert(t[i] == added);
                    }
                }
                assert forall|i: int, j: int| 0 <= i < j < t.len() implies #[trigger] t[i].id_spec()
                    < #[trigger] t[j].id_spec() by {
                    assert(t[i] == before[i]);
                    if j < before.len() {
                        assert(t[j] == before[j]);
                    }
                }
                assert forall|i: int| 0 <= i < t.len() implies (#[trigger] t[i]).id_spec()
                    < self.next_turn_id by {
                    if i < before.len() {
                        assert(t[i] == before[i]);
                        assert(before[i].id_spec() < old(self).next_turn_id);
                    } else {
                        assert(t[i] == added);
                    }
                }
            }
        }
    }

    /// Keeps the turns that the request's retention policy selects, moves
    /// the next turn id past the largest kept id and applies the request's
    /// system prompt action. A blank replacement prompt is refused after the
    /// turns were replaced, leaving the prompt as it was.
    pub fn rewrite_context(&mut self, request: &ThreadContextRequest) -> (r: Result<
        ThreadContextResult,
        GatewayError,
    >)
        ensures
            match retention_error(turn_ids_of(old(self).turns_spec()), request.retention) {
                Some(msg) => {
                    &&& r matches Err(e) && plain_error(e, GatewayErrorKind::InvalidRequest, msg)
                    &&& *final(self) == *old(self)
                },
                None => {
                    &&& picks(
                        final(self).turns_spec(),
                        old(self).turns_spec(),
                        kept_positions(
                            turn_ids_of(old(self).turns_spec()),
                            request.retention,
                            old(self).turns_spec().len() as int,
                        ),
                    )
                    &&& final(self).next_turn_id_spec() == next_id_after(
                        turn_ids_of(final(self).turns_spec()),
                    )
                    &&& if replace_is_blank(request.system_prompt) {
                        &&& r matches Err(e) && plain_error(
                            e,
                            GatewayErrorKind::InvalidRequest,
                            "system prompt cannot be empty for replace action"@,
                        )
                        &&& final(self).system_prompt_spec() == old(self).system_prompt_spec()
                    } else {
                        &&& r matches Ok(res) && reports_context(
                            res,
                            turn_ids_of(old(self).turns_spec()),
                            turn_ids_of(final(self).turns_spec()),
                            *request,
                        )
                        &&& prompt_applied(
                            old(self).system_prompt_spec(),
                            request.system_prompt,
                            final(self).system_prompt_spec(),
                        )
                    }
                },
            },
            old(self).wf() ==> final(self).wf(),
    {
        let source_turn_ids = turn_id_list(&self.turns);
        let selected = match select_turns_by_retention(&self.turns, &request.retention) {
            Err(e) => {
                return Err(e);
            },
            Ok(v) => v,
        };
        let kept_turn_ids = turn_id_list(&selected);
        let dropped_turn_ids = dropped_turn_ids_from_source(&source_turn_ids, &kept_turn_ids);
        let next_turn_id = next_turn_id_from_turns(&selected);
        proof {
            let ids = turn_ids_of(self.turns@);
            lemma_kept_positions_sorted(ids, request.retention, ids.len() as int);
            if self.wf() {
                lemma_picked_wf(
                    self.turns@,
                    self.next_turn_id,
                    selected@,
                    kept_positions(ids, request.retention, ids.len() as int),
                );
            }
        }
        self.turns = selected;
        self.next_turn_id = next_turn_id;
        let current = copy_opt_string(&self.system_prompt);
        match apply_system_prompt_action(current, &request.system_prompt) {
            Err(e) => Err(e),
            Ok(prompt) => {
                self.system_prompt = prompt;
                Ok(
                    ThreadContextResult {
                        kept_turn_ids,
                        dropped_turn_ids,
                        continuation_dropped: request.drop_unfinished_continuation,
                    },
                )
            },
        }
    }

    /// A new history made of copies of the turns that the request's
    /// retention policy selects, with the request's system prompt action
    /// applied; the next turn id follows the largest kept id.
    pub fn derive_context(&self, request: &ThreadContextRequest) -> (r: Result<
        (ThreadState, ThreadContextResult),
        GatewayError,
    >)
        ensures
            match retention_error(turn_ids_of(self.turns_spec()), request.retention) {
                Some(msg) => r matches Err(e) && plain_error(
                    e,
                    GatewayErrorKind::InvalidRequest,
                    msg,
                ),
                None => if replace_is_blank(request.system_prompt) {
                    r matches Err(e) && plain_error(
                        e,
                        GatewayErrorKind::InvalidRequest,
                        "system prompt cannot be empty for replace action"@,
                    )
                } else {
                    r matches Ok((t, res)) && {
                        &&& picks(
                            t.turns_spec(),
                            self.turns_spec(),
                            kept_positions(
                                turn_ids_of(self.turns_spec()),
                                request.retention,
                                self.turns_spec().len() as int,
                            ),
                        )
                        &&& t.next_turn_id_spec() == next_id_after(turn_ids_of(t.turns_spec()))
                        &&& prompt_applied(
                            self.system_prompt_spec(),
                            request.system_prompt,
                            t.system_prompt_spec(),
                        )
                        &&& reports_context(
                            res,
                            turn_ids_of(self.turns_spec()),
                            turn_ids_of(t.turns_spec()),
                            *request,
                        )
                        &&& (self.wf() ==> t.wf())
                    }
                },
            },
    {
        let source_turn_ids = turn_id_list(&self.turns);
        let selected = match select_turns_by_retention(&self.turns, &request.retention) {
            Err(e) => {
                return Err(e);
            },
            Ok(v) => v,
        };
        let kept_turn_ids = turn_id_list(&selected);
        let dropped_turn_ids = dropped_turn_ids_from_source(&source_turn_ids, &kept_turn_ids);
        let current = copy_opt_string(&self.system_prompt);
        let system_prompt = match apply_system_prompt_action(current, &request.system_prompt) {
            Err(e) => {
                return Err(e);
            },
            Ok(prompt) => prompt,
        };
        let next_turn_id = next_turn_id_from_turns(&selected);
        proof {
            let ids = turn_ids_of(self.turns@);
            lemma_kept_positions_sorted(ids, request.retention, ids.len() as int);
            if self.wf() {
                lemma_picked_wf(
                    self.turns@,
                    self.next_turn_id,
                    selected@,
                    kept_positions(ids, request.retention, ids.len() as int),
                );
            }
        }
        let state = ThreadState { turns: selected, system_prompt, next_turn_id };
        Ok(
            (
                state,
                ThreadContextResult {
                    kept_turn_ids,
                    dropped_turn_ids,
                    continuation_dropped: request.drop_unfinished_continuation,
                },
            ),
        )
    }
}

/// `id + 1`, saturating at `u64::MAX`.
pub open spec fn saturating_next(id: u64) -> u64 {
    if id == u64::MAX {
        u64::MAX
    } else {
        (id + 1) as u64
    }
}

pub open spec fn out_of_sequence_message(turn_id: u64, expected: u64) -> Seq<char> {
    "turn_id '"@ + decimal_seq(turn_id as nat) + "' is out of sequence; expected '"@ + decimal_seq(
        expected as nat,
    ) + "'"@
}

proof fn lemma_keep_last_prefix(ids: Seq<u64>, count: usize, j: int)
    requires
        0 <= j <= ids.len(),
    ensures
        ({
            let n = ids.len() as int;
            let m = if count < n { count as int } else { n };
            let ks = kept_positions(ids, TurnRetentionPolicy::KeepLastTurns { count }, j);
            &&& ks.len() == if j <= n - m { 0 } else { j - (n - m) }
            &&& forall|k: int| 0 <= k < ks.len() ==> ks[k] == n - m + k
        }),
    decreases j,
{
    if j > 0 {
        lemma_keep_last_prefix(ids, count, j - 1);
    }
}

/// Law: keeping the last `count` turns of a thread of `n` turns keeps
/// exactly the last `min(count, n)` of them, in order: with `count` at least
/// `n`, every turn is kept, and with `count` 0, none.
pub proof fn lemma_keep_last_turns(ids: Seq<u64>, count: usize)
    ensures
        ({
            let n = ids.len() as int;
            let m = if count < n { count as int } else { n };
            let ks = kept_positions(ids, TurnRetentionPolicy::KeepLastTurns { count }, n);
            &&& ks.len() == m
            &&& forall|k: int| 0 <= k < m ==> ks[k] == n - m + k
            &&& count >= n ==> ks =~= Seq::new(n as nat, |i: int| i)
            &&& count == 0 ==> ks.len() == 0
        }),
{
    lemma_keep_last_prefix(ids, count, ids.len() as int);
}

} // verus!
