use reaction_jail::record::MsgData;
use reaction_jail::store::{contains_message, new_entry, record_reaction, remove_message};

fn entry(id: u64, reaction: u64, msg: &str, jailed: bool) -> MsgData {
    MsgData::new(id, reaction, msg.to_string(), jailed)
}

fn summary(data: &[MsgData]) -> Vec<(u64, u64, String, bool)> {
    data.iter()
        .map(|m| (m.id(), m.reaction(), m.msg().to_string(), m.jailed()))
        .collect()
}

#[test]
fn new_entry_is_not_jailed() {
    let m = new_entry(5, 2, "hola");
    assert_eq!((m.id(), m.reaction(), m.msg(), m.jailed()), (5, 2, "hola", false));
}

#[test]
fn first_reaction_adds_a_record_at_the_end() {
    let mut data = vec![entry(1, 1, "a", false)];
    record_reaction(&mut data, 2, 1, "b");
    assert_eq!(
        summary(&data),
        vec![(1, 1, "a".to_string(), false), (2, 1, "b".to_string(), false)]
    );
}

#[test]
fn zero_count_for_unknown_message_changes_nothing() {
    let mut data = vec![entry(1, 1, "a", false)];
    record_reaction(&mut data, 2, 0, "b");
    assert_eq!(summary(&data), vec![(1, 1, "a".to_string(), false)]);
}

#[test]
fn new_count_updates_count_and_text_and_keeps_jailed() {
    let mut data = vec![entry(1, 1, "a", true), entry(2, 1, "b", false)];
    record_reaction(&mut data, 1, 3, "edited");
    assert_eq!(
        summary(&data),
        vec![(1, 3, "edited".to_string(), true), (2, 1, "b".to_string(), false)]
    );
}

#[test]
fn zero_count_drops_the_record() {
    let mut data = vec![entry(1, 1, "a", false), entry(2, 1, "b", false), entry(3, 4, "c", true)];
    record_reaction(&mut data, 2, 0, "b");
    assert_eq!(
        summary(&data),
        vec![(1, 1, "a".to_string(), false), (3, 4, "c".to_string(), true)]
    );
}

#[test]
fn recording_twice_is_recording_once() {
    let mut once = vec![entry(1, 1, "a", false)];
    record_reaction(&mut once, 7, 2, "x");
    let mut twice = vec![entry(1, 1, "a", false)];
    record_reaction(&mut twice, 7, 2, "x");
    record_reaction(&mut twice, 7, 2, "x");
    assert_eq!(summary(&once), summary(&twice));
}

#[test]
fn other_messages_are_untouched() {
    let mut data = vec![entry(1, 1, "a", false), entry(2, 5, "b", true), entry(3, 1, "c", false)];
    record_reaction(&mut data, 2, 9, "z");
    let others: Vec<_> = summary(&data).into_iter().filter(|e| e.0 != 2).collect();
    assert_eq!(others, vec![(1, 1, "a".to_string(), false), (3, 1, "c".to_string(), false)]);
}

#[test]
fn ids_stay_distinct() {
    let mut data = Vec::new();
    for (id, count) in [(1u64, 1u64), (2, 1), (1, 2), (3, 1), (2, 0), (1, 3), (4, 1)] {
        record_reaction(&mut data, id, count, "m");
    }
    let ids: Vec<u64> = data.iter().map(|m| m.id()).collect();
    assert_eq!(ids, vec![1, 3, 4]);
    assert_eq!(data[0].reaction(), 3);
}

#[test]
fn remove_message_reports_and_drops() {
    let mut data = vec![entry(1, 1, "a", false), entry(2, 1, "b", false), entry(1, 2, "dup", false)];
    assert!(remove_message(&mut data, 1));
    assert_eq!(summary(&data), vec![(2, 1, "b".to_string(), false)]);
    assert!(!remove_message(&mut data, 1));
    assert_eq!(summary(&data), vec![(2, 1, "b".to_string(), false)]);
}

#[test]
fn zero_count_removes_like_delete() {
    let base = vec![entry(1, 1, "a", false), entry(2, 1, "b", false)];
    let mut by_count = base.clone();
    record_reaction(&mut by_count, 1, 0, "ignored");
    let mut by_delete = base.clone();
    remove_message(&mut by_delete, 1);
    assert_eq!(summary(&by_count), summary(&by_delete));
}

#[test]
fn contains_message_finds_ids() {
    let data = vec![entry(1, 1, "a", false), entry(9, 1, "b", false)];
    assert!(contains_message(&data, 9));
    assert!(!contains_message(&data, 2));
    assert!(!contains_message(&Vec::new(), 2));
}
