//! Text record files: one line per flagged message, of the form
//! `id: <message>, reactions: <count>, msg: <text>`.

use vstd::prelude::*;
use crate::decimal::{i64_text, signed_decimal};
use crate::text::{chars_of, starts_with};

verus! {

/// The text of each string of `v`.
pub open spec fn texts(v: Seq<String>) -> Seq<Seq<char>> {
    v.map_values(|l: String| l@)
}

/// How a line of a text record file begins for message `msg_id`.
pub open spec fn message_prefix(msg_id: i64) -> Seq<char> {
    "id: "@ + signed_decimal(msg_id as int)
}

/// The line that records message `msg_id` with its reaction count and text.
pub open spec fn entry_text(msg_id: i64, reaction_count: i16, msg: Seq<char>) -> Seq<char> {
    message_prefix(msg_id) + ", reactions: "@ + signed_decimal(reaction_count as int)
        + ", msg: "@ + msg
}

/// Whether `line` is taken for a line of message `msg_id`: it begins with
/// the message's prefix.
pub open spec fn is_message_line(line: Seq<char>, msg_id: i64) -> bool {
    message_prefix(msg_id).is_prefix_of(line)
}

/// Whether `line` is not taken for a line of message `msg_id`.
pub open spec fn is_other_line(line: Seq<char>, msg_id: i64) -> bool {
    !is_message_line(line, msg_id)
}

/// `line`, or the new line when it is taken for a line of message `msg_id`.
pub open spec fn replace_line(line: Seq<char>, msg_id: i64, new_line: Seq<char>) -> Seq<char> {
    if is_message_line(line, msg_id) {
        new_line
    } else {
        line
    }
}

/// Whether some line of `ls` is taken for a line of message `msg_id`.
pub open spec fn has_message_line(ls: Seq<Seq<char>>, msg_id: i64) -> bool {
    exists|i: int| 0 <= i < ls.len() && is_message_line(#[trigger] ls[i], msg_id)
}

/// The lines of a text record file after message `msg_id` was seen with
/// `reaction_count` reactions and text `msg`. A positive count replaces
/// every line of the message by the new line, or adds the new line at the
/// end when there is none; any other count drops the message's lines.
pub open spec fn lines_after(ls: Seq<Seq<char>>, msg_id: i64, reaction_count: i16, msg: Seq<char>) -> Seq<
    Seq<char>,
> {
    let new_line = entry_text(msg_id, reaction_count, msg);
    if reaction_count > 0 {
        let replaced = ls.map_values(|l: Seq<char>| replace_line(l, msg_id, new_line));
        if has_message_line(ls, msg_id) {
            replaced
        } else {
            replaced.push(new_line)
        }
    } else {
        ls.filter(|l: Seq<char>| is_other_line(l, msg_id))
    }
}

/// The start of every line of message `msg_id`.
pub fn message_prefix_text(msg_id: i64) -> (s: String)
    ensures
        s@ == message_prefix(msg_id),
{
    let mut s = String::new();
    s.append("id: ");
    let id = i64_text(msg_id);
    s.append(id.as_str());
    s
}

/// The line that records message `msg_id` with its reaction count and
/// text, without the line break.
pub fn entry_line(msg_id: i64, reaction_count: i16, msg: &str) -> (s: String)
    ensures
        s@ == entry_text(msg_id, reaction_count, msg@),
{
    let mut s = message_prefix_text(msg_id);
    s.append(", reactions: ");
    let count = i64_text(reaction_count as i64);
    s.append(count.as_str());
    s.append(", msg: ");
    s.append(msg);
    s
}

/// The lines of a text record file after message `msg_id` was seen with
/// `reaction_count` reactions and text `msg`.
pub fn update_lines(lines: Vec<String>, msg_id: i64, reaction_count: i16, msg: &str) -> (r: Vec<
    String,
>)
    ensures
        texts(r@) == lines_after(texts(lines@), msg_id, reaction_count, msg@),
{
    let ghost ls = texts(lines@);
    let prefix_text = message_prefix_text(msg_id);
    let prefix = chars_of(prefix_text.as_str());
    let new_line = entry_line(msg_id, reaction_count, msg);
    let ghost nl = new_line@;
    let mut found = false;
    let mut out: Vec<String> = Vec::new();
    for line in it: lines
        invariant
            it.seq() == lines@,
            ls == texts(lines@),
            prefix@ == message_prefix(msg_id),
            nl == new_line@,
            nl == entry_text(msg_id, reaction_count, msg@),
            found == has_message_line(ls.take(it.index() as int), msg_id),
            reaction_count > 0 ==> texts(out@) == ls.take(it.index() as int).map_values(
                |l: Seq<char>| replace_line(l, msg_id, nl),
            ),
            reaction_count <= 0 ==> texts(out@) == ls.take(it.index() as int).filter(
                |l: Seq<char>| is_other_line(l, msg_id),
            ),
    {
        let ghost k = it.index() as int;
        let ghost before = ls.take(k);
        proof {
            assert(ls.take(k + 1) =~= before.push(line@));
            before.lemma_filter_push(line@, |l: Seq<char>| is_other_line(l, msg_id));
        }
        let line_chars = chars_of(line.as_str());
        let hit = starts_with(&line_chars, &prefix);
        assert(hit == is_message_line(line@, msg_id));
        if hit {
            found = true;
            if reaction_count > 0 {
                out.push(new_line.clone());
            }
        } else {
            out.push(line);
        }
        proof {
            let after = ls.take(k + 1);
            assert(found == has_message_line(after, msg_id)) by {
                if has_message_line(after, msg_id) && !hit {
                    let j = choose|j: int| 0 <= j < after.len() && is_message_line(#[trigger] after[j], msg_id);
                    assert(j < k);
                    assert(before[j] == after[j]);
                }
                if has_message_line(before, msg_id) {
                    let j = choose|j: int| 0 <= j < before.len() && is_message_line(#[trigger] before[j], msg_id);
                    assert(after[j] == before[j]);
                }
                if hit {
                    assert(is_message_line(after[k], msg_id));
                }
            }
            if reaction_count > 0 {
                assert(after.map_values(|l: Seq<char>| replace_line(l, msg_id, nl)) =~= before.map_values(
                    |l: Seq<char>| replace_line(l, msg_id, nl),
                ).push(replace_line(line@, msg_id, nl)));
                assert(texts(out@) =~= after.map_values(|l: Seq<char>| replace_line(l, msg_id, nl)));
            } else {
                assert(texts(out@) =~= after.filter(|l: Seq<char>| is_other_line(l, msg_id)));
            }
        }
    }
    proof {
        assert(ls.take(ls.len() as int) =~= ls);
    }
    if !found && reaction_count > 0 {
        out.push(new_line);
        assert(texts(out@) =~= lines_after(ls, msg_id, reaction_count, msg@));
    }
    out
}


/// The line recording a message is taken for a line of that message.
pub proof fn lemma_entry_line_is_message_line(msg_id: i64, reaction_count: i16, msg: Seq<char>)
    ensures
        is_message_line(entry_text(msg_id, reaction_count, msg), msg_id),
{
    let p = message_prefix(msg_id);
    let t = entry_text(msg_id, reaction_count, msg);
    assert(t =~= p + (", reactions: "@ + signed_decimal(reaction_count as int) + ", msg: "@ + msg));
    assert(t.subrange(0, p.len() as int) =~= p);
}

/// Keeping the lines that are not taken for message `msg_id` keeps all of
/// a list that has none of the message's lines.
proof fn lemma_filter_keeps_all(ls: Seq<Seq<char>>, msg_id: i64)
    requires
        !has_message_line(ls, msg_id),
    ensures
        ls.filter(|l: Seq<char>| is_other_line(l, msg_id)) == ls,
    decreases ls.len(),
{
    reveal(Seq::filter);
    if ls.len() > 0 {
        assert(!has_message_line(ls.drop_last(), msg_id)) by {
            if has_message_line(ls.drop_last(), msg_id) {
                let j = choose|j: int| 0 <= j < ls.drop_last().len() && is_message_line(#[trigger] ls.drop_last()[j], msg_id);
                assert(ls[j] == ls.drop_last()[j]);
            }
        }
        lemma_filter_keeps_all(ls.drop_last(), msg_id);
        assert(!is_message_line(ls[ls.len() - 1], msg_id));
        assert(ls.drop_last().push(ls.last()) =~= ls);
    }
}

/// No kept line is taken for message `msg_id`.
proof fn lemma_filter_clears(ls: Seq<Seq<char>>, msg_id: i64)
    ensures
        !has_message_line(ls.filter(|l: Seq<char>| is_other_line(l, msg_id)), msg_id),
{
    let pred = |l: Seq<char>| is_other_line(l, msg_id);
    let f = ls.filter(pred);
    assert forall|i: int| 0 <= i < f.len() implies !is_message_line(#[trigger] f[i], msg_id) by {
        ls.lemma_filter_pred(pred, i);
    }
}

/// Replacing a message's lines by a line of that message leaves the other
/// lines as they were.
proof fn lemma_replace_keeps_others(ls: Seq<Seq<char>>, msg_id: i64, new_line: Seq<char>)
    requires
        is_message_line(new_line, msg_id),
    ensures
        ls.map_values(|l: Seq<char>| replace_line(l, msg_id, new_line)).filter(
            |l: Seq<char>| is_other_line(l, msg_id),
        ) == ls.filter(|l: Seq<char>| is_other_line(l, msg_id)),
    decreases ls.len(),
{
    reveal(Seq::filter);
    if ls.len() > 0 {
        lemma_replace_keeps_others(ls.drop_last(), msg_id, new_line);
        assert(ls.map_values(|l: Seq<char>| replace_line(l, msg_id, new_line)).drop_last()
            =~= ls.drop_last().map_values(|l: Seq<char>| replace_line(l, msg_id, new_line)));
    }
}

/// After a positive count, the file holds the message's new line; after
/// any other count, it holds no line of the message.
pub proof fn lemma_update_lines_outcome(ls: Seq<Seq<char>>, msg_id: i64, reaction_count: i16, msg: Seq<char>)
    ensures
        reaction_count > 0 ==> lines_after(ls, msg_id, reaction_count, msg).contains(
            entry_text(msg_id, reaction_count, msg),
        ),
        reaction_count <= 0 ==> !has_message_line(lines_after(ls, msg_id, reaction_count, msg), msg_id),
{
    let nl = entry_text(msg_id, reaction_count, msg);
    let t = lines_after(ls, msg_id, reaction_count, msg);
    if reaction_count > 0 {
        if has_message_line(ls, msg_id) {
            let j = choose|j: int| 0 <= j < ls.len() && is_message_line(#[trigger] ls[j], msg_id);
            assert(t[j] == nl);
        } else {
            assert(t[ls.len() as int] == nl);
        }
    } else {
        lemma_filter_clears(ls, msg_id);
    }
}

/// Updating a file for a message leaves every line not taken for that
/// message as it was, in its order.
pub proof fn lemma_update_lines_keeps_others(ls: Seq<Seq<char>>, msg_id: i64, reaction_count: i16, msg: Seq<char>)
    ensures
        lines_after(ls, msg_id, reaction_count, msg).filter(|l: Seq<char>| is_other_line(l, msg_id))
            == ls.filter(|l: Seq<char>| is_other_line(l, msg_id)),
{
    let nl = entry_text(msg_id, reaction_count, msg);
    let pred = |l: Seq<char>| is_other_line(l, msg_id);
    if reaction_count > 0 {
        lemma_entry_line_is_message_line(msg_id, reaction_count, msg);
        lemma_replace_keeps_others(ls, msg_id, nl);
        let replaced = ls.map_values(|l: Seq<char>| replace_line(l, msg_id, nl));
        replaced.lemma_filter_push(nl, pred);
    } else {
        lemma_filter_clears(ls, msg_id);
        lemma_filter_keeps_all(ls.filter(pred), msg_id);
    }
}

/// Updating a file twice for the same message, count and text is updating
/// it once.
pub proof fn lemma_update_lines_idempotent(ls: Seq<Seq<char>>, msg_id: i64, reaction_count: i16, msg: Seq<char>)
    ensures
        lines_after(lines_after(ls, msg_id, reaction_count, msg), msg_id, reaction_count, msg)
            == lines_after(ls, msg_id, reaction_count, msg),
{
    let nl = entry_text(msg_id, reaction_count, msg);
    let t = lines_after(ls, msg_id, reaction_count, msg);
    if reaction_count > 0 {
        lemma_entry_line_is_message_line(msg_id, reaction_count, msg);
        lemma_update_lines_outcome(ls, msg_id, reaction_count, msg);
        let j = choose|j: int| 0 <= j < t.len() && t[j] == nl;
        assert(is_message_line(t[j], msg_id));
        assert(has_message_line(t, msg_id));
        assert(t.map_values(|l: Seq<char>| replace_line(l, msg_id, nl)) =~= t);
    } else {
        lemma_filter_clears(ls, msg_id);
        lemma_filter_keeps_all(t, msg_id);
    }
}

} // verus!
