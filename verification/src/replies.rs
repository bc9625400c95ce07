//! The texts the bot posts in channels and answers to commands with.

use vstd::prelude::*;
use crate::decimal::{decimal, i64_text, signed_decimal, u64_text};

verus! {

/// The announcement that a message's author was jailed for it.
pub open spec fn jail_announcement_text(author: Seq<char>, content: Seq<char>) -> Seq<char> {
    "El mensaje por el que el usuario: @"@ + author + " fue llevado al pozo fue "@ + content
}

/// The announcement that an author was freed.
pub open spec fn release_announcement_text(author: Seq<char>) -> Seq<char> {
    "El prisionero fue liberado: @"@ + author + " "@
}

/// The answer to the `age` command.
pub open spec fn age_text(name: Seq<char>, created_at: Seq<char>) -> Seq<char> {
    name + "'s account was created at "@ + created_at
}

/// The answer to the `set_amount_reaction` command.
pub open spec fn amount_text(new_amount: i32) -> Seq<char> {
    "amount_reaction actualizado a: "@ + signed_decimal(new_amount as int)
}

/// The answer to the `msgdate` command when the message cannot be fetched.
pub open spec fn fetch_failed_text(error: Seq<char>) -> Seq<char> {
    "No se pudo obtener el mensaje: "@ + error
}

/// One reaction as the `msgdate` command lists it: how it shows, how many
/// times it was given, and its encoded form.
#[derive(Debug, Clone)]
pub struct ReactionLine {
    pub shown: String,
    pub count: u64,
    pub data: String,
}

/// The text of one listed reaction.
pub open spec fn reaction_line_text(r: ReactionLine) -> Seq<char> {
    "\n"@ + r.shown@ + ": "@ + decimal(r.count as nat) + " as bytes: "@ + r.data@ + " \n"@
}

/// The texts of the listed reactions, one after the other.
pub open spec fn reaction_lines_text(rs: Seq<ReactionLine>) -> Seq<char>
    decreases rs.len(),
{
    if rs.len() == 0 {
        seq![]
    } else {
        reaction_lines_text(rs.drop_last()) + reaction_line_text(rs.last())
    }
}

/// How the `msgdate` command lists a message's reactions.
pub open spec fn reactions_text(rs: Seq<ReactionLine>) -> Seq<char> {
    if rs.len() == 0 {
        "No tiene reacciones"@
    } else {
        reaction_lines_text(rs)
    }
}

/// The answer to the `msgdate` command.
pub open spec fn msgdate_text(
    author: Seq<char>,
    timestamp: Seq<char>,
    content: Seq<char>,
    reactions: Seq<char>,
) -> Seq<char> {
    "El mensaje fue enviado por "@ + author + " el "@ + timestamp + " y su contenido es: \n"@
        + content + " \n y tiene estas reacciones: "@ + reactions
}

/// The announcement that `author` was jailed for the message `content`.
pub fn jail_announcement(author: &str, content: &str) -> (s: String)
    ensures
        s@ == jail_announcement_text(author@, content@),
{
    let mut s = String::from_str("El mensaje por el que el usuario: @");
    s.append(author);
    s.append(" fue llevado al pozo fue ");
    s.append(content);
    s
}

/// The announcement that `author` was freed.
pub fn release_announcement(author: &str) -> (s: String)
    ensures
        s@ == release_announcement_text(author@),
{
    let mut s = String::from_str("El prisionero fue liberado: @");
    s.append(author);
    s.append(" ");
    s
}

/// The answer to the `age` command for a user `name` created at
/// `created_at`.
pub fn age_response(name: &str, created_at: &str) -> (s: String)
    ensures
        s@ == age_text(name@, created_at@),
{
    let mut s = String::from_str(name);
    s.append("'s account was created at ");
    s.append(created_at);
    s
}

/// The answer to the `set_amount_reaction` command.
pub fn amount_response(new_amount: i32) -> (s: String)
    ensures
        s@ == amount_text(new_amount),
{
    let mut s = String::from_str("amount_reaction actualizado a: ");
    let n = i64_text(new_amount as i64);
    s.append(n.as_str());
    s
}

/// The answer to the `msgdate` command when the message cannot be fetched.
pub fn fetch_failed_response(error: &str) -> (s: String)
    ensures
        s@ == fetch_failed_text(error@),
{
    let mut s = String::from_str("No se pudo obtener el mensaje: ");
    s.append(error);
    s
}

/// How the `msgdate` command lists a message's reactions.
pub fn reactions_listing(reactions: &Vec<ReactionLine>) -> (s: String)
    ensures
        s@ == reactions_text(reactions@),
{
    if reactions.len() == 0 {
        return String::from_str("No tiene reacciones");
    }
    let mut s = String::new();
    let mut i: usize = 0;
    while i < reactions.len()
        invariant
            i <= reactions@.len(),
            s@ == reaction_lines_text(reactions@.take(i as int)),
        decreases reactions.len() - i,
    {
        let r = &reactions[i];
        proof {
            assert(reactions@.take(i + 1).drop_last() =~= reactions@.take(i as int));
        }
        s.append("\n");
        s.append(r.shown.as_str());
        s.append(": ");
        let count = u64_text(r.count);
        s.append(count.as_str());
        s.append(" as bytes: ");
        s.append(r.data.as_str());
        s.append(" \n");
        i = i + 1;
        assert(s@ =~= reaction_lines_text(reactions@.take(i as int)));
    }
    assert(reactions@.take(reactions@.len() as int) =~= reactions@);
    s
}

/// The answer to the `msgdate` command: who sent the message and when,
/// what it says, and its reactions as `reactions_listing` lists them.
pub fn msgdate_response(author: &str, timestamp: &str, content: &str, reactions: &str) -> (s: String)
    ensures
        s@ == msgdate_text(author@, timestamp@, content@, reactions@),
{
    let mut s = String::from_str("El mensaje fue enviado por ");
    s.append(author);
    s.append(" el ");
    s.append(timestamp);
    s.append(" y su contenido es: \n");
    s.append(content);
    s.append(" \n y tiene estas reacciones: ");
    s.append(reactions);
    s
}


/// The listed reactions of a non-empty list begin with a line break.
proof fn lemma_lines_start_with_break(rs: Seq<ReactionLine>)
    requires
        rs.len() > 0,
    ensures
        reaction_lines_text(rs).len() > 0,
        reaction_lines_text(rs)[0] == '\n',
    decreases rs.len(),
{
    reveal_strlit("\n");
    let l = reaction_line_text(rs.last());
    assert(l[0] == '\n');
    if rs.len() > 1 {
        lemma_lines_start_with_break(rs.drop_last());
        let a = reaction_lines_text(rs.drop_last());
        assert((a + l)[0] == a[0]);
    } else {
        assert(rs.drop_last() =~= Seq::<ReactionLine>::empty());
        assert(reaction_lines_text(rs.drop_last()) =~= Seq::<char>::empty());
        assert(reaction_lines_text(rs) =~= l);
    }
}

/// How `msgdate` lists reactions: "No tiene reacciones" exactly when there
/// are none; otherwise one line per reaction, in order, each a line break,
/// how it shows, `: `, its count in decimal, ` as bytes: `, its encoded
/// form and ` \n`; so one reaction gives its one line, and a reaction added
/// at the end of a non-empty list adds its line at the end.
pub proof fn lemma_reactions_listing(rs: Seq<ReactionLine>, r: ReactionLine)
    ensures
        reactions_text(rs) == "No tiene reacciones"@ <==> rs.len() == 0,
        reactions_text(seq![r]) == "\n"@ + r.shown@ + ": "@ + decimal(r.count as nat)
            + " as bytes: "@ + r.data@ + " \n"@,
        rs.len() > 0 ==> reactions_text(rs.push(r)) == reactions_text(rs) + "\n"@ + r.shown@
            + ": "@ + decimal(r.count as nat) + " as bytes: "@ + r.data@ + " \n"@,
{
    reveal_strlit("No tiene reacciones");
    if rs.len() > 0 {
        lemma_lines_start_with_break(rs);
        assert(reactions_text(rs)[0] != "No tiene reacciones"@[0]);
        assert(rs.push(r).drop_last() =~= rs);
        assert(reactions_text(rs.push(r)) =~= reactions_text(rs) + "\n"@ + r.shown@ + ": "@
            + decimal(r.count as nat) + " as bytes: "@ + r.data@ + " \n"@);
    }
    assert(seq![r].drop_last() =~= Seq::<ReactionLine>::empty());
    assert(reaction_lines_text(seq![r].drop_last()) =~= Seq::<char>::empty());
    assert(reaction_lines_text(seq![r]) =~= reaction_line_text(r));
    assert(reactions_text(seq![r]) =~= "\n"@ + r.shown@ + ": "@ + decimal(r.count as nat)
        + " as bytes: "@ + r.data@ + " \n"@);
}

} // verus!
