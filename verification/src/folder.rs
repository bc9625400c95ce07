//! The record folder: one file per author, named after the author's id,
//! and the search for the author of a deleted message.

use vstd::prelude::*;
use crate::decimal::{decimal, i64_text, lemma_parse_decimal_roundtrip, lemma_decimal_digits, parse_u64, parse_u64_spec, signed_decimal};
use crate::record::{Entry, MsgData, entries};
use crate::store::{after_reaction, contains_message, has_message, lemma_recorded_count_visible};
use crate::text::{chars_of, slice_equals, trim, trim_bounds};

verus! {

/// The index of the last `.` of `s`, or -1 when there is none.
pub open spec fn last_dot(s: Seq<char>) -> int
    decreases s.len(),
{
    if s.len() == 0 {
        -1
    } else if s.last() == '.' {
        s.len() - 1
    } else {
        last_dot(s.drop_last())
    }
}

/// Whether a file name has no extension: it has no `.` but maybe a
/// leading one, or it is `..`.
pub open spec fn no_extension(name: Seq<char>) -> bool {
    last_dot(name) <= 0 || name == seq!['.', '.']
}

/// A file name's stem, as `Path::file_stem` gives it: all before the
/// last `.`.
pub open spec fn file_stem(name: Seq<char>) -> Seq<char> {
    if no_extension(name) {
        name
    } else {
        name.take(last_dot(name))
    }
}

/// A file name's extension, as `Path::extension` gives it, and the empty
/// text where there is none: all after the last `.`.
pub open spec fn file_extension(name: Seq<char>) -> Seq<char> {
    if no_extension(name) {
        seq![]
    } else {
        name.skip(last_dot(name) + 1)
    }
}

/// The author whose records a file of the folder holds: the file name
/// has extension `ext`, and its stem is the author's id.
pub open spec fn file_author(name: Seq<char>, ext: Seq<char>) -> Option<u64> {
    if file_extension(name) == ext {
        parse_u64_spec(file_stem(name))
    } else {
        None
    }
}

/// The author of the first file, in the order given, whose name has
/// extension `ext` and an author id for stem, and whose contents `holds`.
pub open spec fn first_author<T>(
    files: Seq<(Seq<char>, T)>,
    ext: Seq<char>,
    holds: spec_fn(T) -> bool,
) -> Option<u64>
    decreases files.len(),
{
    if files.len() == 0 {
        None
    } else if file_author(files[0].0, ext) is Some && holds(files[0].1) {
        file_author(files[0].0, ext)
    } else {
        first_author(files.drop_first(), ext, holds)
    }
}

proof fn lemma_last_dot_bounds(s: Seq<char>)
    ensures
        -1 <= last_dot(s) < s.len(),
        last_dot(s) >= 0 ==> s[last_dot(s)] == '.',
        forall|j: int| last_dot(s) < j < s.len() ==> s[j] != '.',
    decreases s.len(),
{
    if s.len() > 0 && s.last() != '.' {
        lemma_last_dot_bounds(s.drop_last());
        assert forall|j: int| last_dot(s) < j < s.len() implies s[j] != '.' by {
            if j < s.len() - 1 {
                assert(s[j] == s.drop_last()[j]);
            }
        }
    }
}

proof fn lemma_last_dot_scan(s: Seq<char>, k: int)
    requires
        0 <= k <= s.len(),
        forall|j: int| k <= j < s.len() ==> s[j] != '.',
    ensures
        last_dot(s) == last_dot(s.take(k)),
    decreases s.len() - k,
{
    if k < s.len() {
        lemma_last_dot_scan(s, k + 1);
        assert(s.take(k + 1).drop_last() =~= s.take(k));
    } else {
        assert(s.take(k) =~= s);
    }
}

/// The author id that a folder file's name stands for, when its extension
/// is `ext`.
pub fn user_id_from_file_name(name: &str, ext: &str) -> (r: Option<u64>)
    ensures
        r == file_author(name@, ext@),
{
    let cs = chars_of(name);
    let wanted = chars_of(ext);
    let len = cs.len();
    let mut k: usize = len;
    while k > 0 && cs[k - 1] != '.'
        invariant
            k <= len == cs@.len(),
            cs@ == name@,
            forall|j: int| k <= j < len ==> cs@[j] != '.',
        decreases k,
    {
        k = k - 1;
    }
    proof {
        lemma_last_dot_scan(cs@, k as int);
        if k > 0 {
            assert(cs@.take(k as int).last() == '.');
        } else {
            assert(cs@.take(0).len() == 0);
        }
    }
    let ghost dot = last_dot(cs@);
    assert(dot == k - 1);
    let is_parent = len == 2 && cs[0] == '.' && cs[1] == '.';
    assert(is_parent == (cs@ == seq!['.', '.'])) by {
        if cs@ == seq!['.', '.'] {
            assert(cs@[0] == '.' && cs@[1] == '.');
        }
        if is_parent {
            assert(cs@ =~= seq!['.', '.']);
        }
    }
    if k <= 1 || is_parent {
        if wanted.len() != 0 {
            return None;
        }
        assert(wanted@ =~= Seq::<char>::empty());
        parse_u64(name)
    } else {
        if !slice_equals(&cs, k, len, &wanted) {
            assert(cs@.subrange(k as int, len as int) =~= cs@.skip(k as int));
            return None;
        }
        assert(cs@.subrange(k as int, len as int) =~= cs@.skip(k as int));
        let stem = name.substring_char(0, k - 1);
        assert(stem@ =~= name@.take(k - 1));
        parse_u64(stem)
    }
}

/// What the author files of the folder hold: each file's name and records.
pub open spec fn store_files(files: Seq<(String, Vec<MsgData>)>) -> Seq<(Seq<char>, Seq<Entry>)> {
    files.map_values(|f: (String, Vec<MsgData>)| (f.0@, entries(f.1@)))
}

/// The author whose `.json` record file holds message `msg_id`: the first
/// such file, in the order given.
pub fn find_author_in_store(files: &Vec<(String, Vec<MsgData>)>, msg_id: u64) -> (r: Option<u64>)
    ensures
        r == first_author(store_files(files@), "json"@, |s: Seq<Entry>| has_message(s, msg_id)),
{
    let ghost fs = store_files(files@);
    let ghost holds = |s: Seq<Entry>| has_message(s, msg_id);
    let mut i: usize = 0;
    assert(fs.skip(0) =~= fs);
    while i < files.len()
        invariant
            i <= files@.len() == fs.len(),
            fs == store_files(files@),
            holds == (|s: Seq<Entry>| has_message(s, msg_id)),
            first_author(fs, "json"@, holds) == first_author(fs.skip(i as int), "json"@, holds),
        decreases files.len() - i,
    {
        let file = &files[i];
        assert(fs.skip(i as int)[0] == fs[i as int]);
        assert(fs.skip(i as int).drop_first() =~= fs.skip(i + 1));
        let author = user_id_from_file_name(file.0.as_str(), "json");
        if let Some(user) = author {
            if contains_message(&file.1, msg_id) {
                return Some(user);
            }
        }
        i = i + 1;
    }
    None
}

/// Whether a line of a text record file names message `msg_id`: the line,
/// trimmed, is the message's id.
pub open spec fn line_names_message(line: Seq<char>, msg_id: u64) -> bool {
    trim(line) == decimal(msg_id as nat)
}

/// Whether some line of `lines` names message `msg_id`.
pub open spec fn lines_name_message(lines: Seq<Seq<char>>, msg_id: u64) -> bool {
    exists|i: int| 0 <= i < lines.len() && line_names_message(#[trigger] lines[i], msg_id)
}

/// Whether `line`, trimmed, is the id of message `msg_id`.
pub fn names_message(line: &str, msg_id: u64) -> (b: bool)
    ensures
        b == line_names_message(line@, msg_id),
{
    let cs = chars_of(line);
    let (start, end) = trim_bounds(&cs);
    let id_text = crate::decimal::u64_text(msg_id);
    let id_chars = chars_of(id_text.as_str());
    slice_equals(&cs, start, end, &id_chars)
}

/// What the text author files of the folder hold: each file's name and
/// lines.
pub open spec fn text_files(files: Seq<(String, Vec<String>)>) -> Seq<(Seq<char>, Seq<Seq<char>>)> {
    files.map_values(|f: (String, Vec<String>)| (f.0@, f.1@.map_values(|l: String| l@)))
}

/// Whether some line of `lines` names message `msg_id`.
fn any_line_names(lines: &Vec<String>, msg_id: u64) -> (b: bool)
    ensures
        b == lines_name_message(lines@.map_values(|l: String| l@), msg_id),
{
    let ghost ls = lines@.map_values(|l: String| l@);
    let mut i: usize = 0;
    while i < lines.len()
        invariant
            i <= lines@.len() == ls.len(),
            ls == lines@.map_values(|l: String| l@),
            forall|j: int| 0 <= j < i ==> !line_names_message(#[trigger] ls[j], msg_id),
        decreases lines.len() - i,
    {
        if names_message(lines[i].as_str(), msg_id) {
            assert(line_names_message(ls[i as int], msg_id));
            return true;
        }
        i = i + 1;
    }
    false
}

/// The author whose `.txt` record file has a line naming message `msg_id`:
/// the first such file, in the order given.
pub fn find_author_in_lines(files: &Vec<(String, Vec<String>)>, msg_id: u64) -> (r: Option<u64>)
    ensures
        r == first_author(
            text_files(files@),
            "txt"@,
            |ls: Seq<Seq<char>>| lines_name_message(ls, msg_id),
        ),
{
    let ghost fs = text_files(files@);
    let ghost holds = |ls: Seq<Seq<char>>| lines_name_message(ls, msg_id);
    let mut i: usize = 0;
    assert(fs.skip(0) =~= fs);
    while i < files.len()
        invariant
            i <= files@.len() == fs.len(),
            fs == text_files(files@),
            holds == (|ls: Seq<Seq<char>>| lines_name_message(ls, msg_id)),
            first_author(fs, "txt"@, holds) == first_author(fs.skip(i as int), "txt"@, holds),
        decreases files.len() - i,
    {
        let file = &files[i];
        assert(fs.skip(i as int)[0] == fs[i as int]);
        assert(fs.skip(i as int).drop_first() =~= fs.skip(i + 1));
        let author = user_id_from_file_name(file.0.as_str(), "txt");
        if let Some(user) = author {
            if any_line_names(&file.1, msg_id) {
                return Some(user);
            }
        }
        i = i + 1;
    }
    None
}


/// The name of an author's record file: the author's id, a `.`, and the
/// extension.
pub open spec fn record_file_name_text(author: i64, ext: Seq<char>) -> Seq<char> {
    signed_decimal(author as int) + seq!['.'] + ext
}

/// The name of the record file of `author`, with extension `ext`, as
/// `format!("{}.{}", author, ext)` writes it.
pub fn record_file_name(author: i64, ext: &str) -> (s: String)
    ensures
        s@ == record_file_name_text(author, ext@),
{
    let mut s = i64_text(author);
    proof { reveal_strlit("."); }
    s.append(".");
    s.append(ext);
    s
}

/// An author's record file is found again as that author's: the name of
/// the file of an author with a non-negative id, for an extension without
/// a `.`, stands for that author.
pub proof fn lemma_record_file_name_author(author: i64, ext: Seq<char>)
    requires
        author >= 0,
        forall|j: int| 0 <= j < ext.len() ==> ext[j] != '.',
    ensures
        file_author(record_file_name_text(author, ext), ext) == Some(author as u64),
{
    let d = decimal(author as nat);
    let name = record_file_name_text(author, ext);
    lemma_decimal_digits(author as nat);
    assert(forall|j: int| d.len() + 1 <= j < name.len() ==> name[j] == ext[j - d.len() - 1]);
    lemma_last_dot_scan(name, d.len() as int + 1);
    assert(name.take(d.len() as int + 1) =~= d.push('.'));
    assert(d.push('.').drop_last() =~= d);
    assert(last_dot(name) == d.len());
    assert(name != seq!['.', '.']) by {
        assert(crate::decimal::is_digit(d[0]));
        assert(name[0] == d[0]);
    }
    assert(file_stem(name) =~= d);
    assert(file_extension(name) =~= ext);
    lemma_parse_decimal_roundtrip(author as u64);
}


/// The search returns the author of file `i` when that file qualifies and
/// no earlier one does.
pub proof fn lemma_first_author_at<T>(
    files: Seq<(Seq<char>, T)>,
    ext: Seq<char>,
    holds: spec_fn(T) -> bool,
    i: int,
)
    requires
        0 <= i < files.len(),
        file_author(files[i].0, ext) is Some,
        holds(files[i].1),
        forall|j: int|
            0 <= j < i ==> !(file_author(#[trigger] files[j].0, ext) is Some && holds(files[j].1)),
    ensures
        first_author(files, ext, holds) == file_author(files[i].0, ext),
    decreases i,
{
    if i > 0 {
        let rest = files.drop_first();
        assert(!(file_author(files[0].0, ext) is Some && holds(files[0].1)));
        assert forall|j: int| 0 <= j < i - 1 implies !(file_author(#[trigger] rest[j].0, ext) is Some
            && holds(rest[j].1)) by {
            assert(rest[j] == files[j + 1]);
        }
        lemma_first_author_at(rest, ext, holds, i - 1);
    }
}

/// A deleted message is traced back to its author: once a positive count
/// was recorded for message `id` in the `.json` file of an author with a
/// non-negative id, a search of the folder finds that author, unless an
/// earlier file in the search order holds the message too.
pub proof fn lemma_recorded_message_traced(
    files: Seq<(Seq<char>, Seq<Entry>)>,
    i: int,
    author: i64,
    before: Seq<Entry>,
    id: u64,
    reaction: u64,
    msg: Seq<char>,
)
    requires
        0 <= i < files.len(),
        author >= 0,
        reaction > 0,
        files[i] == (record_file_name_text(author, "json"@), after_reaction(before, id, reaction, msg)),
        forall|j: int|
            0 <= j < i ==> !(file_author(#[trigger] files[j].0, "json"@) is Some && has_message(
                files[j].1,
                id,
            )),
    ensures
        first_author(files, "json"@, |s: Seq<Entry>| has_message(s, id)) == Some(author as u64),
{
    reveal_strlit("json");
    lemma_record_file_name_author(author, "json"@);
    lemma_recorded_count_visible(before, id, reaction, msg);
    let holds = |s: Seq<Entry>| has_message(s, id);
    assert forall|j: int| 0 <= j < i implies !(file_author(#[trigger] files[j].0, "json"@) is Some
        && holds(files[j].1)) by {}
    lemma_first_author_at(files, "json"@, holds, i);
}

} // verus!
