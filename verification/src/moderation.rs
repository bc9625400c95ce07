//! The jail rules: what the bot does when reactions are added to or taken
//! from a message, and when a flagged message is deleted.

use vstd::prelude::*;
use crate::reactions::{ReactionCount, count_entries, entries_for, key_emoji, reaction_key};

verus! {

/// How many cross (or key) reactions it takes to jail (or free) an author.
pub const JAIL_VOTES: u32 = 2;

/// What asking whether a message's author already has the jail role gave.
#[derive(Debug, Clone, Copy, PartialEq, Eq, Structural)]
pub enum RoleCheck {
    /// The message was not sent in a server, so nothing was asked.
    NotInGuild,
    /// The question could not be answered.
    Failed,
    /// The answer: whether the author has the jail role.
    Answered(bool),
}

/// What to do after a cross was added to a message.
#[derive(Debug, Clone, Copy, PartialEq, Eq, Structural)]
pub struct CrossAddPlan {
    /// Record the message, with its cross count, in its author's file.
    pub record: bool,
    /// Jail the author: give the jail role, announce it, lock the message
    /// and take the normal role away.
    pub jail: bool,
}

/// What to do after a cross was added to a message that now has
/// `reaction_count` crosses: an author not yet in jail gets the message
/// recorded, and is jailed once the count reaches the threshold; nothing
/// happens to one already in jail, or when the role could not be checked
/// or the message is not in a server.
pub fn cross_add_plan(role_check: RoleCheck, reaction_count: u32) -> (p: CrossAddPlan)
    ensures
        p.record == (role_check == RoleCheck::Answered(false)),
        p.jail == (role_check == RoleCheck::Answered(false) && reaction_count >= JAIL_VOTES),
{
    match role_check {
        RoleCheck::Answered(false) => CrossAddPlan {
            record: true,
            jail: reaction_count >= JAIL_VOTES,
        },
        _ => CrossAddPlan { record: false, jail: false },
    }
}

/// Whether to free a message's author after a key was added to it, the
/// message now having `reaction_count` keys: only a jailed author is freed,
/// once the count reaches the threshold.
pub fn key_add_release(role_check: RoleCheck, reaction_count: u32) -> (release: bool)
    ensures
        release == (role_check == RoleCheck::Answered(true) && reaction_count >= JAIL_VOTES),
{
    match role_check {
        RoleCheck::Answered(true) => reaction_count >= JAIL_VOTES,
        _ => false,
    }
}

/// How an author's record of a message changes when a cross is taken away.
#[derive(Debug, Clone, Copy, PartialEq, Eq, Structural)]
pub enum RecordChange {
    /// Drop the message's records.
    Delete,
    /// Record the message with this count.
    Update(u64),
}

/// How the record of a message changes when a cross is taken away from
/// it: the count taken is the number of the message's reaction entries for
/// the key emoji; none drops the record.
pub fn cross_removal_change(reactions: &Vec<ReactionCount>) -> (c: RecordChange)
    ensures
        entries_for(reactions@, key_emoji()) == 0 ==> c == RecordChange::Delete,
        entries_for(reactions@, key_emoji()) > 0 ==> c == RecordChange::Update(
            entries_for(reactions@, key_emoji()) as u64,
        ),
{
    let key = reaction_key();
    let n = count_entries(reactions, &key);
    if n == 0 {
        RecordChange::Delete
    } else {
        RecordChange::Update(n as u64)
    }
}

/// The server roles that a jailed author loses when a flagged message is
/// deleted: those of the server's roles that the author has, in the
/// server's order.
pub fn roles_to_strip(guild_roles: &Vec<u64>, member_roles: &Vec<u64>) -> (r: Vec<u64>)
    ensures
        r@ == guild_roles@.filter(|role: u64| member_roles@.contains(role)),
{
    let ghost pred = |role: u64| member_roles@.contains(role);
    let mut out: Vec<u64> = Vec::new();
    let mut i: usize = 0;
    while i < guild_roles.len()
        invariant
            i <= guild_roles@.len(),
            pred == (|role: u64| member_roles@.contains(role)),
            out@ == guild_roles@.take(i as int).filter(pred),
        decreases guild_roles.len() - i,
    {
        let role = guild_roles[i];
        proof {
            assert(guild_roles@.take(i + 1) =~= guild_roles@.take(i as int).push(role));
            guild_roles@.take(i as int).lemma_filter_push(role, pred);
        }
        let mut has = false;
        let mut j: usize = 0;
        while j < member_roles.len()
            invariant
                j <= member_roles@.len(),
                has == (exists|k: int| 0 <= k < j && member_roles@[k] == role),
            decreases member_roles.len() - j,
        {
            if member_roles[j] == role {
                has = true;
            }
            j = j + 1;
        }
        assert(has == member_roles@.contains(role));
        if has {
            out.push(role);
        }
        i = i + 1;
    }
    assert(guild_roles@.take(guild_roles@.len() as int) =~= guild_roles@);
    out
}

} // verus!
