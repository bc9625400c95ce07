//! Reactions on messages: which emoji they are, and how many of each a
//! message carries.

use vstd::prelude::*;

verus! {

/// The emoji of a reaction: one of a server's own emoji, or a Unicode one.
#[derive(Debug, Clone)]
pub enum ReactionKind {
    /// A server's own emoji.
    Custom { animated: bool, id: u64, name: Option<String> },
    /// A Unicode emoji, by its text.
    Unicode(String),
}

/// What a reaction's emoji is.
pub ghost enum Emoji {
    Custom { animated: bool, id: u64, name: Option<Seq<char>> },
    Unicode(Seq<char>),
}

/// The text of an optional name.
pub open spec fn name_view(name: Option<String>) -> Option<Seq<char>> {
    match name {
        Some(n) => Some(n@),
        None => None,
    }
}

impl View for ReactionKind {
    type V = Emoji;

    open spec fn view(&self) -> Emoji {
        match self {
            ReactionKind::Custom { animated, id, name } => Emoji::Custom {
                animated: *animated,
                id: *id,
                name: name_view(*name),
            },
            ReactionKind::Unicode(s) => Emoji::Unicode(s@),
        }
    }
}

/// One kind of reaction on a message, and how many times it was given.
#[derive(Debug, Clone)]
pub struct ReactionCount {
    pub kind: ReactionKind,
    pub count: u64,
}

/// The cross that votes a message's author into jail.
pub open spec fn cross_emoji() -> Emoji {
    Emoji::Unicode("❌"@)
}

/// The key that votes a jailed author free.
pub open spec fn key_emoji() -> Emoji {
    Emoji::Unicode("🔑"@)
}

/// The lock the bot puts on a message that jailed its author.
pub open spec fn lock_emoji() -> Emoji {
    Emoji::Unicode("🔒"@)
}

/// The old key the bot puts on a message that freed its author.
pub open spec fn released_emoji() -> Emoji {
    Emoji::Unicode("🗝️"@)
}

/// The cross reaction.
pub fn reaction_x() -> (r: ReactionKind)
    ensures
        r@ == cross_emoji(),
{
    ReactionKind::Unicode(String::from_str("❌"))
}

/// The key reaction.
pub fn reaction_key() -> (r: ReactionKind)
    ensures
        r@ == key_emoji(),
{
    ReactionKind::Unicode(String::from_str("🔑"))
}

/// The lock reaction.
pub fn reaction_lock() -> (r: ReactionKind)
    ensures
        r@ == lock_emoji(),
{
    ReactionKind::Unicode(String::from_str("🔒"))
}

/// The old key reaction.
pub fn reaction_released() -> (r: ReactionKind)
    ensures
        r@ == released_emoji(),
{
    ReactionKind::Unicode(String::from_str("🗝️"))
}

/// Whether two reactions are the same emoji, as `==` on them answers.
pub fn same_reaction(a: &ReactionKind, b: &ReactionKind) -> (r: bool)
    ensures
        r == (a@ == b@),
{
    match (a, b) {
        (
            ReactionKind::Custom { animated: a1, id: i1, name: n1 },
            ReactionKind::Custom { animated: a2, id: i2, name: n2 },
        ) => {
            let names_equal = match (n1, n2) {
                (Some(x), Some(y)) => *x == *y,
                (None, None) => true,
                _ => false,
            };
            *a1 == *a2 && *i1 == *i2 && names_equal
        },
        (ReactionKind::Unicode(x), ReactionKind::Unicode(y)) => *x == *y,
        _ => false,
    }
}

/// The emoji of each counted reaction.
pub open spec fn emojis(rs: Seq<ReactionCount>) -> Seq<Emoji> {
    rs.map_values(|r: ReactionCount| r.kind@)
}

/// The index of the first reaction of `rs` with emoji `e`, or `rs.len()`.
pub open spec fn first_index(rs: Seq<ReactionCount>, e: Emoji) -> int
    decreases rs.len(),
{
    if rs.len() == 0 {
        0
    } else if rs[0].kind@ == e {
        0
    } else {
        1 + first_index(rs.drop_first(), e)
    }
}

/// How many times `e` was given, by the first entry of `rs` for it, if any.
pub open spec fn count_of(rs: Seq<ReactionCount>, e: Emoji) -> Option<u64> {
    let i = first_index(rs, e);
    if i < rs.len() {
        Some(rs[i].count)
    } else {
        None
    }
}

proof fn lemma_first_index_step(rs: Seq<ReactionCount>, e: Emoji, i: int)
    requires
        0 <= i < rs.len(),
        forall|j: int| 0 <= j < i ==> rs[j].kind@ != e,
    ensures
        first_index(rs, e) == i + first_index(rs.skip(i), e),
    decreases i,
{
    if i > 0 {
        assert(rs.skip(1).skip(i - 1) =~= rs.skip(i));
        assert(rs.drop_first() =~= rs.skip(1));
        lemma_first_index_step(rs.drop_first(), e, i - 1);
    } else {
        assert(rs.skip(0) =~= rs);
    }
}

proof fn lemma_first_index_absent(rs: Seq<ReactionCount>, e: Emoji)
    requires
        forall|j: int| 0 <= j < rs.len() ==> rs[j].kind@ != e,
    ensures
        first_index(rs, e) == rs.len(),
    decreases rs.len(),
{
    if rs.len() > 0 {
        lemma_first_index_absent(rs.drop_first(), e);
    }
}

/// The count of the first entry of `reactions` for emoji `emoji`, if any.
pub fn find_count(reactions: &Vec<ReactionCount>, emoji: &ReactionKind) -> (r: Option<u64>)
    ensures
        r == count_of(reactions@, emoji@),
{
    let mut i: usize = 0;
    while i < reactions.len()
        invariant
            i <= reactions@.len(),
            forall|j: int| 0 <= j < i ==> reactions@[j].kind@ != emoji@,
        decreases reactions.len() - i,
    {
        if same_reaction(&reactions[i].kind, emoji) {
            proof {
                lemma_first_index_step(reactions@, emoji@, i as int);
            }
            return Some(reactions[i].count);
        }
        i = i + 1;
    }
    proof {
        lemma_first_index_absent(reactions@, emoji@);
    }
    None
}

/// Whether a counted reaction is the emoji `e`.
pub open spec fn is_emoji(r: ReactionCount, e: Emoji) -> bool {
    r.kind@ == e
}

/// How many entries of `rs` are for emoji `e`.
pub open spec fn entries_for(rs: Seq<ReactionCount>, e: Emoji) -> nat {
    rs.filter(|r: ReactionCount| is_emoji(r, e)).len()
}

/// How many entries of `reactions` are for emoji `emoji` (one per emoji
/// on a message, so 0 or 1 there).
pub fn count_entries(reactions: &Vec<ReactionCount>, emoji: &ReactionKind) -> (n: usize)
    ensures
        n == entries_for(reactions@, emoji@),
{
    let ghost pred = |r: ReactionCount| is_emoji(r, emoji@);
    let mut n: usize = 0;
    let mut i: usize = 0;
    while i < reactions.len()
        invariant
            i <= reactions@.len(),
            pred == (|r: ReactionCount| is_emoji(r, emoji@)),
            n == reactions@.take(i as int).filter(pred).len(),
            n <= i,
        decreases reactions.len() - i,
    {
        proof {
            assert(reactions@.take(i + 1) =~= reactions@.take(i as int).push(reactions@[i as int]));
            reactions@.take(i as int).lemma_filter_push(reactions@[i as int], pred);
        }
        if same_reaction(&reactions[i].kind, emoji) {
            n = n + 1;
        }
        i = i + 1;
    }
    assert(reactions@.take(reactions@.len() as int) =~= reactions@);
    n
}


/// Counting the entries for an emoji: an empty list has none, and an entry
/// added at either end of a list adds one exactly when it is for that emoji.
pub proof fn lemma_entries_for_counts(rs: Seq<ReactionCount>, r: ReactionCount, e: Emoji)
    ensures
        entries_for(Seq::<ReactionCount>::empty(), e) == 0,
        entries_for(seq![r] + rs, e) == entries_for(rs, e) + (if r.kind@ == e {
            1nat
        } else {
            0nat
        }),
        entries_for(rs.push(r), e) == entries_for(rs, e) + (if r.kind@ == e {
            1nat
        } else {
            0nat
        }),
        entries_for(rs, e) <= rs.len(),
{
    let pred = |x: ReactionCount| is_emoji(x, e);
    reveal_with_fuel(Seq::filter, 2);
    assert(seq![r].drop_last() =~= Seq::<ReactionCount>::empty());
    Seq::filter_distributes_over_add(seq![r], rs, pred);
    rs.lemma_filter_push(r, pred);
    rs.lemma_filter_len(pred);
}

/// The entries for an emoji are as many as the positions of the list that
/// hold that emoji: all of them when every entry is for it, none when no
/// entry is.
pub proof fn lemma_entries_for_extremes(rs: Seq<ReactionCount>, e: Emoji)
    ensures
        (forall|i: int| 0 <= i < rs.len() ==> (#[trigger] rs[i]).kind@ == e) ==> entries_for(rs, e)
            == rs.len(),
        (forall|i: int| 0 <= i < rs.len() ==> (#[trigger] rs[i]).kind@ != e) ==> entries_for(rs, e)
            == 0,
        (exists|i: int| 0 <= i < rs.len() && (#[trigger] rs[i]).kind@ == e) ==> entries_for(rs, e)
            > 0,
    decreases rs.len(),
{
    if rs.len() > 0 {
        let rest = rs.drop_last();
        lemma_entries_for_extremes(rest, e);
        lemma_entries_for_counts(rest, rs.last(), e);
        assert(rest.push(rs.last()) =~= rs);
        assert((forall|i: int| 0 <= i < rs.len() ==> (#[trigger] rs[i]).kind@ == e) ==> (forall|
            i: int,
        | 0 <= i < rest.len() ==> (#[trigger] rest[i]).kind@ == e)) by {
            assert forall|i: int| 0 <= i < rest.len() implies rest[i] == rs[i] by {}
        }
        assert((forall|i: int| 0 <= i < rs.len() ==> (#[trigger] rs[i]).kind@ != e) ==> (forall|
            i: int,
        | 0 <= i < rest.len() ==> (#[trigger] rest[i]).kind@ != e)) by {
            assert forall|i: int| 0 <= i < rest.len() implies rest[i] == rs[i] by {}
        }
        if exists|i: int| 0 <= i < rs.len() && (#[trigger] rs[i]).kind@ == e {
            let i = choose|i: int| 0 <= i < rs.len() && (#[trigger] rs[i]).kind@ == e;
            if i < rest.len() {
                assert(rest[i] == rs[i]);
            }
        }
    } else {
        reveal(Seq::filter);
        assert(rs =~= Seq::<ReactionCount>::empty());
    }
}

} // verus!
