//! How an author's record file changes when a message's reactions change,
//! and how a deleted message is traced back to its author's file.

use vstd::prelude::*;
use crate::record::{Entry, MsgData, entries};

verus! {

/// Whether some record of `s` is about message `id`.
pub open spec fn has_message(s: Seq<Entry>, id: u64) -> bool {
    exists|i: int| 0 <= i < s.len() && (#[trigger] s[i]).id == id
}

/// The record a message gets when it is first flagged.
pub open spec fn fresh_entry(id: u64, reaction: u64, msg: Seq<char>) -> Entry {
    Entry { id, reaction, msg, jailed: false }
}

/// `e`, with the new count and text if it is about message `id`.
pub open spec fn refresh_one(e: Entry, id: u64, reaction: u64, msg: Seq<char>) -> Entry {
    if e.id == id {
        Entry { id: e.id, reaction, msg, jailed: e.jailed }
    } else {
        e
    }
}

/// `s` with every record of message `id` given the new count and text.
pub open spec fn refresh(s: Seq<Entry>, id: u64, reaction: u64, msg: Seq<char>) -> Seq<Entry> {
    s.map_values(|e: Entry| refresh_one(e, id, reaction, msg))
}

/// Whether record `e` is about another message than `id`.
pub open spec fn other_message(e: Entry, id: u64) -> bool {
    e.id != id
}

/// `s` without the records of message `id`, the others in their order.
pub open spec fn without(s: Seq<Entry>, id: u64) -> Seq<Entry> {
    s.filter(|e: Entry| other_message(e, id))
}

/// The records after message `id` was seen with `reaction` reactions and
/// text `msg`: a recorded message gets the new count and text, or is
/// dropped when the count is zero; a new message is added at the end
/// when its count is positive.
pub open spec fn after_reaction(s: Seq<Entry>, id: u64, reaction: u64, msg: Seq<char>) -> Seq<
    Entry,
> {
    if has_message(s, id) {
        if reaction == 0 {
            without(s, id)
        } else {
            refresh(s, id, reaction, msg)
        }
    } else if reaction > 0 {
        s.push(fresh_entry(id, reaction, msg))
    } else {
        s
    }
}

/// The record that a newly flagged message gets: not jailed yet.
pub fn new_entry(msg_id: u64, reaction_count: u64, msg: &str) -> (m: MsgData)
    ensures
        m@ == fresh_entry(msg_id, reaction_count, msg@),
{
    MsgData::new(msg_id, reaction_count, String::from_str(msg), false)
}

/// Whether some record of `data` is about message `msg_id`.
pub fn contains_message(data: &Vec<MsgData>, msg_id: u64) -> (b: bool)
    ensures
        b == has_message(entries(data@), msg_id),
{
    let mut i: usize = 0;
    while i < data.len()
        invariant
            i <= data@.len(),
            forall|j: int| 0 <= j < i ==> data@[j]@.id != msg_id,
        decreases data.len() - i,
    {
        if data[i].id() == msg_id {
            assert(entries(data@)[i as int].id == msg_id);
            return true;
        }
        i = i + 1;
    }
    assert forall|j: int| 0 <= j < entries(data@).len() implies (#[trigger] entries(
        data@,
    )[j]).id != msg_id by {
        assert(entries(data@)[j] == data@[j]@);
    }
    false
}

/// Drops every record of message `msg_id`, keeping the others in their
/// order; tells whether there was one.
pub fn remove_message(data: &mut Vec<MsgData>, msg_id: u64) -> (removed: bool)
    ensures
        removed == has_message(entries(old(data)@), msg_id),
        entries(final(data)@) == without(entries(old(data)@), msg_id),
{
    let removed = contains_message(data, msg_id);
    let mut old_data: Vec<MsgData> = Vec::new();
    std::mem::swap(&mut old_data, data);
    let ghost s = entries(old_data@);
    let mut out: Vec<MsgData> = Vec::new();
    for e in it: old_data
        invariant
            it.seq() == old_data@,
            s == entries(old_data@),
            entries(out@) == without(s.take(it.index() as int), msg_id),
    {
        let ghost k = it.index() as int;
        proof {
            assert(s.take(k + 1) =~= s.take(k).push(e@));
            s.take(k).lemma_filter_push(e@, |x: Entry| other_message(x, msg_id));
        }
        if e.id() != msg_id {
            out.push(e);
        }
        assert(entries(out@) =~= without(s.take(k + 1), msg_id));
    }
    assert(s.take(s.len() as int) =~= s);
    *data = out;
    removed
}


/// Gives every record of message `msg_id` the new count and text.
fn refresh_message(data: &mut Vec<MsgData>, msg_id: u64, reaction_count: u64, msg: &str)
    ensures
        entries(final(data)@) == refresh(entries(old(data)@), msg_id, reaction_count, msg@),
{
    let mut old_data: Vec<MsgData> = Vec::new();
    std::mem::swap(&mut old_data, data);
    let ghost s = entries(old_data@);
    let mut out: Vec<MsgData> = Vec::new();
    for e in it: old_data
        invariant
            it.seq() == old_data@,
            s == entries(old_data@),
            entries(out@) == refresh(s.take(it.index() as int), msg_id, reaction_count, msg@),
    {
        let ghost k = it.index() as int;
        proof {
            assert(s.take(k + 1) =~= s.take(k).push(e@));
            assert(refresh(s.take(k + 1), msg_id, reaction_count, msg@) =~= refresh(
                s.take(k),
                msg_id,
                reaction_count,
                msg@,
            ).push(refresh_one(e@, msg_id, reaction_count, msg@)));
        }
        if e.id() == msg_id {
            out.push(e.refreshed(reaction_count, String::from_str(msg)));
        } else {
            out.push(e);
        }
        assert(entries(out@) =~= refresh(s.take(k + 1), msg_id, reaction_count, msg@));
    }
    assert(s.take(s.len() as int) =~= s);
    *data = out;
}

/// Records that message `msg_id`, with text `msg`, now has `reaction_count`
/// reactions: a recorded message gets the new count and text, or its
/// records are dropped when the count is zero; a message not yet recorded
/// is added at the end when the count is positive.
pub fn record_reaction(data: &mut Vec<MsgData>, msg_id: u64, reaction_count: u64, msg: &str)
    ensures
        entries(final(data)@) == after_reaction(entries(old(data)@), msg_id, reaction_count, msg@),
{
    let found = contains_message(data, msg_id);
    if found {
        if reaction_count == 0 {
            remove_message(data, msg_id);
        } else {
            refresh_message(data, msg_id, reaction_count, msg);
        }
    } else if reaction_count > 0 {
        data.push(new_entry(msg_id, reaction_count, msg));
        assert(entries(data@) =~= entries(old(data)@).push(fresh_entry(msg_id, reaction_count, msg@)));
    }
}


/// Whether no two records of `s` are about the same message.
pub open spec fn distinct_ids(s: Seq<Entry>) -> bool {
    forall|i: int, j: int| 0 <= i < j < s.len() ==> (#[trigger] s[i]).id != (#[trigger] s[j]).id
}

/// Dropping the records of a message that has none changes nothing.
pub proof fn lemma_without_absent(s: Seq<Entry>, id: u64)
    requires
        !has_message(s, id),
    ensures
        without(s, id) == s,
    decreases s.len(),
{
    reveal(Seq::filter);
    if s.len() > 0 {
        assert(!has_message(s.drop_last(), id)) by {
            if has_message(s.drop_last(), id) {
                let i = choose|i: int| 0 <= i < s.drop_last().len() && (#[trigger] s.drop_last()[i]).id == id;
                assert(s[i].id == id);
            }
        }
        lemma_without_absent(s.drop_last(), id);
        assert(s.last().id != id) by {
            assert(s[s.len() - 1].id != id);
        }
        assert(s.drop_last().push(s.last()) =~= s);
    }
}

/// No record of message `id` is left after its records are dropped.
pub proof fn lemma_without_clears(s: Seq<Entry>, id: u64)
    ensures
        !has_message(without(s, id), id),
{
    let pred = |e: Entry| other_message(e, id);
    assert forall|i: int| 0 <= i < without(s, id).len() implies (#[trigger] without(s, id)[i]).id
        != id by {
        s.lemma_filter_pred(pred, i);
    }
}

/// Dropping the records of a message keeps every record of another message.
pub proof fn lemma_without_keeps_others(s: Seq<Entry>, id: u64, e: Entry)
    requires
        s.contains(e),
        e.id != id,
    ensures
        without(s, id).contains(e),
{
    let i = choose|i: int| 0 <= i < s.len() && s[i] == e;
    s.lemma_filter_contains(|x: Entry| other_message(x, id), i);
}

/// Dropping a message's records twice is dropping them once.
pub proof fn lemma_remove_idempotent(s: Seq<Entry>, id: u64)
    ensures
        without(without(s, id), id) == without(s, id),
{
    lemma_without_clears(s, id);
    lemma_without_absent(without(s, id), id);
}

/// Giving a message's records a new count does not change the other
/// messages' records.
proof fn lemma_without_refresh(s: Seq<Entry>, id: u64, reaction: u64, msg: Seq<char>)
    ensures
        without(refresh(s, id, reaction, msg), id) == without(s, id),
    decreases s.len(),
{
    reveal(Seq::filter);
    if s.len() > 0 {
        lemma_without_refresh(s.drop_last(), id, reaction, msg);
        assert(refresh(s, id, reaction, msg).drop_last() =~= refresh(s.drop_last(), id, reaction, msg));
    }
}

/// Refreshing records leaves the records of a message that has none as
/// they were.
proof fn lemma_refresh_absent(s: Seq<Entry>, id: u64, reaction: u64, msg: Seq<char>)
    requires
        !has_message(s, id),
    ensures
        refresh(s, id, reaction, msg) == s,
{
    assert forall|i: int| 0 <= i < s.len() implies #[trigger] refresh(s, id, reaction, msg)[i]
        == s[i] by {
        assert(s[i].id != id);
    }
    assert(refresh(s, id, reaction, msg) =~= s);
}

/// A zero count drops the message's records, exactly as deleting it does.
pub proof fn lemma_zero_count_removes(s: Seq<Entry>, id: u64, msg: Seq<char>)
    ensures
        after_reaction(s, id, 0, msg) == without(s, id),
        !has_message(after_reaction(s, id, 0, msg), id),
{
    if !has_message(s, id) {
        lemma_without_absent(s, id);
    }
    lemma_without_clears(s, id);
}

/// After a positive count is recorded for a message, the records hold that
/// message, and every record of it has the new count and text.
pub proof fn lemma_recorded_count_visible(s: Seq<Entry>, id: u64, reaction: u64, msg: Seq<char>)
    requires
        reaction > 0,
    ensures
        has_message(after_reaction(s, id, reaction, msg), id),
        forall|i: int|
            0 <= i < after_reaction(s, id, reaction, msg).len() && (#[trigger] after_reaction(
                s,
                id,
                reaction,
                msg,
            )[i]).id == id ==> after_reaction(s, id, reaction, msg)[i].reaction == reaction
                && after_reaction(s, id, reaction, msg)[i].msg == msg,
{
    let t = after_reaction(s, id, reaction, msg);
    if has_message(s, id) {
        let i = choose|i: int| 0 <= i < s.len() && (#[trigger] s[i]).id == id;
        assert(t[i].id == id);
    } else {
        assert(t[s.len() as int].id == id);
        assert forall|i: int| 0 <= i < t.len() && (#[trigger] t[i]).id == id implies t[i].reaction
            == reaction && t[i].msg == msg by {
            if i < s.len() {
                assert(t[i] == s[i]);
            }
        }
    }
}

/// Recording a count for one message leaves the records of every other
/// message as they were, in their order.
pub proof fn lemma_other_messages_untouched(s: Seq<Entry>, id: u64, reaction: u64, msg: Seq<char>)
    ensures
        without(after_reaction(s, id, reaction, msg), id) == without(s, id),
{
    if has_message(s, id) {
        if reaction == 0 {
            lemma_remove_idempotent(s, id);
        } else {
            lemma_without_refresh(s, id, reaction, msg);
        }
    } else if reaction > 0 {
        s.lemma_filter_push(fresh_entry(id, reaction, msg), |e: Entry| other_message(e, id));
    }
}

/// Recording the same count and text twice is recording it once.
pub proof fn lemma_reaction_idempotent(s: Seq<Entry>, id: u64, reaction: u64, msg: Seq<char>)
    ensures
        after_reaction(after_reaction(s, id, reaction, msg), id, reaction, msg) == after_reaction(
            s,
            id,
            reaction,
            msg,
        ),
{
    let t = after_reaction(s, id, reaction, msg);
    if has_message(s, id) {
        if reaction == 0 {
            lemma_without_clears(s, id);
        } else {
            let i = choose|i: int| 0 <= i < s.len() && (#[trigger] s[i]).id == id;
            assert(t[i].id == id);
            assert(refresh(t, id, reaction, msg) =~= t);
        }
    } else if reaction > 0 {
        assert(t[s.len() as int].id == id);
        lemma_refresh_absent(s, id, reaction, msg);
        assert(refresh(t, id, reaction, msg) =~= t) by {
            assert forall|i: int| 0 <= i < t.len() implies #[trigger] refresh(t, id, reaction, msg)[i]
                == t[i] by {
                if i < s.len() {
                    assert(refresh(s, id, reaction, msg)[i] == s[i]);
                }
            }
        }
    }
}

/// Dropping a message's records keeps the others distinct.
proof fn lemma_without_distinct(s: Seq<Entry>, id: u64)
    requires
        distinct_ids(s),
    ensures
        distinct_ids(without(s, id)),
    decreases s.len(),
{
    reveal(Seq::filter);
    if s.len() > 0 {
        let rest = s.drop_last();
        assert(distinct_ids(rest)) by {
            assert forall|i: int, j: int| 0 <= i < j < rest.len() implies (#[trigger] rest[i]).id
                != (#[trigger] rest[j]).id by {
                assert(rest[i] == s[i] && rest[j] == s[j]);
            }
        }
        lemma_without_distinct(rest, id);
        let w = without(rest, id);
        if other_message(s.last(), id) {
            assert forall|i: int| 0 <= i < w.len() implies (#[trigger] w[i]).id != s.last().id by {
                let pred = |e: Entry| other_message(e, id);
                assert(w.contains(w[i]));
                rest.lemma_filter_contains_rev(pred, w[i]);
                let k = choose|k: int| 0 <= k < rest.len() && rest[k] == w[i];
                assert(s[k] == w[i]);
                assert(s[k].id != s[s.len() - 1].id);
            }
            let t = w.push(s.last());
            assert(without(s, id) == t);
            assert forall|i: int, j: int| 0 <= i < j < t.len() implies (#[trigger] t[i]).id
                != (#[trigger] t[j]).id by {
                if j < w.len() {
                    assert(t[i] == w[i] && t[j] == w[j]);
                } else {
                    assert(t[i] == w[i]);
                }
            }
        }
    }
}

/// No message is ever recorded twice: recording a count keeps the records
/// of a file about distinct messages.
pub proof fn lemma_ids_stay_distinct(s: Seq<Entry>, id: u64, reaction: u64, msg: Seq<char>)
    requires
        distinct_ids(s),
    ensures
        distinct_ids(after_reaction(s, id, reaction, msg)),
{
    let t = after_reaction(s, id, reaction, msg);
    if has_message(s, id) {
        if reaction == 0 {
            lemma_without_distinct(s, id);
        } else {
            assert forall|i: int, j: int| 0 <= i < j < t.len() implies (#[trigger] t[i]).id
                != (#[trigger] t[j]).id by {
                assert(t[i].id == s[i].id && t[j].id == s[j].id);
            }
        }
    } else if reaction > 0 {
        assert forall|i: int, j: int| 0 <= i < j < t.len() implies (#[trigger] t[i]).id
            != (#[trigger] t[j]).id by {
            if j < s.len() {
                assert(t[i] == s[i] && t[j] == s[j]);
            } else {
                assert(t[i] == s[i]);
                assert(s[i].id != id);
            }
        }
    }
}

} // verus!
