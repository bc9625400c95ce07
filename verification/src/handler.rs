//! The bot's event handler: which rule a reaction event goes to.

use vstd::prelude::*;
use crate::reactions::{
    ReactionCount, ReactionKind, count_of, cross_emoji, find_count, key_emoji, reaction_key,
    reaction_x, same_reaction,
};

verus! {

/// The role of jailed members.
pub const JAIL_ROLE: u64 = 1272597370902679604;

/// The role of members in good standing.
pub const NORMAL_ROLE: u64 = 1277372356590829589;

/// The folder that holds one record file per author.
pub const RECORD_FOLDER: &'static str = "mi_carpeta";

/// The reaction threshold that the `set_amount_reaction` command starts from.
pub const DEFAULT_AMOUNT_REACTION: i32 = 15;

/// Where an added reaction goes.
#[derive(Debug, Clone, Copy, PartialEq, Eq, Structural)]
pub enum AddRoute {
    /// The message carries no reaction of that emoji.
    Missing,
    /// A cross, with the message's cross count.
    Cross(u32),
    /// A key, with the message's key count.
    Key(u32),
    /// Some other emoji.
    Ignored,
}

/// Where a removed reaction goes.
#[derive(Debug, Clone, Copy, PartialEq, Eq, Structural)]
pub enum RemoveRoute {
    Cross,
    Key,
    Ignored,
}

/// The bot's event handler.
#[derive(Debug, Clone, Copy)]
pub struct Handler;

impl Handler {
    /// Where a reaction of emoji `emoji` added to a message with reactions
    /// `reactions` goes: the count is that of the message's first entry
    /// for the emoji.
    pub fn route_reaction_add(&self, emoji: &ReactionKind, reactions: &Vec<ReactionCount>) -> (r:
        AddRoute)
        requires
            count_of(reactions@, emoji@) matches Some(c) ==> c <= u32::MAX,
        ensures
            count_of(reactions@, emoji@) is None ==> r == AddRoute::Missing,
            count_of(reactions@, emoji@) matches Some(c) ==> r == (if emoji@ == cross_emoji() {
                AddRoute::Cross(c as u32)
            } else if emoji@ == key_emoji() {
                AddRoute::Key(c as u32)
            } else {
                AddRoute::Ignored
            }),
    {
        match find_count(reactions, emoji) {
            None => AddRoute::Missing,
            Some(c) => {
                let count = c as u32;
                if same_reaction(emoji, &reaction_x()) {
                    AddRoute::Cross(count)
                } else if same_reaction(emoji, &reaction_key()) {
                    AddRoute::Key(count)
                } else {
                    AddRoute::Ignored
                }
            },
        }
    }

    /// Where a reaction of emoji `emoji` taken from a message goes.
    pub fn route_reaction_remove(&self, emoji: &ReactionKind) -> (r: RemoveRoute)
        ensures
            r == (if emoji@ == cross_emoji() {
                RemoveRoute::Cross
            } else if emoji@ == key_emoji() {
                RemoveRoute::Key
            } else {
                RemoveRoute::Ignored
            }),
    {
        if same_reaction(emoji, &reaction_x()) {
            RemoveRoute::Cross
        } else if same_reaction(emoji, &reaction_key()) {
            RemoveRoute::Key
        } else {
            RemoveRoute::Ignored
        }
    }
}

} // verus!
