//! The records kept for each flagged message.

use vstd::prelude::*;

verus! {

/// What a record says: the message, its reaction count, its text, and
/// whether its author was jailed for it.
pub ghost struct Entry {
    pub id: u64,
    pub reaction: u64,
    pub msg: Seq<char>,
    pub jailed: bool,
}

/// One flagged message in an author's record file.
#[derive(Debug, Clone)]
pub struct MsgData {
    id: u64,
    reaction: u64,
    msg: String,
    jailed: bool,
}

impl View for MsgData {
    type V = Entry;

    closed spec fn view(&self) -> Entry {
        Entry { id: self.id, reaction: self.reaction, msg: self.msg@, jailed: self.jailed }
    }
}

impl MsgData {
    /// A record with the given fields.
    pub fn new(id: u64, reaction: u64, msg: String, jailed: bool) -> (m: MsgData)
        ensures
            m@ == (Entry { id, reaction, msg: msg@, jailed }),
    {
        MsgData { id, reaction, msg, jailed }
    }

    /// The message's id.
    pub fn id(&self) -> (r: u64)
        ensures
            r == self@.id,
    {
        self.id
    }

    /// How many reactions the message had when it was last recorded.
    pub fn reaction(&self) -> (r: u64)
        ensures
            r == self@.reaction,
    {
        self.reaction
    }

    /// The message's text.
    pub fn msg(&self) -> (r: &str)
        ensures
            r@ == self@.msg,
    {
        self.msg.as_str()
    }

    /// Whether the author was jailed for the message.
    pub fn jailed(&self) -> (r: bool)
        ensures
            r == self@.jailed,
    {
        self.jailed
    }

    /// The same record with a new reaction count and text.
    pub fn refreshed(self, reaction: u64, msg: String) -> (m: MsgData)
        ensures
            m@ == (Entry { id: self@.id, reaction, msg: msg@, jailed: self@.jailed }),
    {
        MsgData { id: self.id, reaction, msg, jailed: self.jailed }
    }

    /// The record's fields: id, reaction count, text and jailed flag.
    pub fn into_parts(self) -> (r: (u64, u64, String, bool))
        ensures
            r.0 == self@.id,
            r.1 == self@.reaction,
            r.2@ == self@.msg,
            r.3 == self@.jailed,
    {
        (self.id, self.reaction, self.msg, self.jailed)
    }
}

/// A message as the bot's data structures describe it.
#[derive(Debug, Clone)]
pub struct MsgDate {
    id: u64,
    reaction: u64,
    msg: String,
    jailed: bool,
}

impl View for MsgDate {
    type V = Entry;

    closed spec fn view(&self) -> Entry {
        Entry { id: self.id, reaction: self.reaction, msg: self.msg@, jailed: self.jailed }
    }
}

impl MsgDate {
    /// A description with the given fields.
    pub fn new(id: u64, reaction: u64, msg: String, jailed: bool) -> (m: MsgDate)
        ensures
            m@ == (Entry { id, reaction, msg: msg@, jailed }),
    {
        MsgDate { id, reaction, msg, jailed }
    }

    /// The message's id.
    pub fn id(&self) -> (r: u64)
        ensures
            r == self@.id,
    {
        self.id
    }

    /// The message's reaction count.
    pub fn reaction(&self) -> (r: u64)
        ensures
            r == self@.reaction,
    {
        self.reaction
    }

    /// The message's text.
    pub fn msg(&self) -> (r: &str)
        ensures
            r@ == self@.msg,
    {
        self.msg.as_str()
    }

    /// Whether the author is jailed for the message.
    pub fn jailed(&self) -> (r: bool)
        ensures
            r == self@.jailed,
    {
        self.jailed
    }
}

/// What a list of records says, record by record.
pub open spec fn entries(s: Seq<MsgData>) -> Seq<Entry> {
    s.map_values(|m: MsgData| m@)
}

} // verus!
