use reaction_jail::lines::{entry_line, message_prefix_text, update_lines};

fn strings(v: &[&str]) -> Vec<String> {
    v.iter().map(|s| s.to_string()).collect()
}

#[test]
fn entry_line_format() {
    assert_eq!(entry_line(123, 2, "hola mundo"), "id: 123, reactions: 2, msg: hola mundo");
    assert_eq!(entry_line(-5, -1, ""), "id: -5, reactions: -1, msg: ");
    assert_eq!(message_prefix_text(77), "id: 77");
}

#[test]
fn positive_count_replaces_the_line() {
    let lines = strings(&["id: 1, reactions: 1, msg: a", "id: 2, reactions: 1, msg: b"]);
    let out = update_lines(lines, 2, 3, "bb");
    assert_eq!(out, strings(&["id: 1, reactions: 1, msg: a", "id: 2, reactions: 3, msg: bb"]));
}

#[test]
fn positive_count_appends_a_new_line() {
    let lines = strings(&["id: 1, reactions: 1, msg: a"]);
    let out = update_lines(lines, 5, 1, "e");
    assert_eq!(out, strings(&["id: 1, reactions: 1, msg: a", "id: 5, reactions: 1, msg: e"]));
}

#[test]
fn zero_or_negative_count_drops_the_line() {
    let lines = strings(&["id: 1, reactions: 1, msg: a", "id: 2, reactions: 1, msg: b"]);
    assert_eq!(update_lines(lines.clone(), 1, 0, "a"), strings(&["id: 2, reactions: 1, msg: b"]));
    assert_eq!(update_lines(lines.clone(), 1, -3, "a"), strings(&["id: 2, reactions: 1, msg: b"]));
    assert_eq!(update_lines(lines.clone(), 9, 0, "a"), lines);
}

#[test]
fn prefix_match_takes_longer_ids_too() {
    let lines = strings(&["id: 12, reactions: 1, msg: a", "other text"]);
    let out = update_lines(lines, 1, 2, "n");
    assert_eq!(out, strings(&["id: 1, reactions: 2, msg: n", "other text"]));
}

#[test]
fn updating_twice_is_updating_once() {
    let lines = strings(&["id: 1, reactions: 1, msg: a", "junk"]);
    for (id, count) in [(1i64, 2i16), (3, 1), (1, 0), (3, -2)] {
        let once = update_lines(lines.clone(), id, count, "m");
        let twice = update_lines(once.clone(), id, count, "m");
        assert_eq!(once, twice);
    }
}

#[test]
fn other_lines_are_kept_in_order() {
    let lines = strings(&["x", "id: 4, reactions: 1, msg: d", "y", "z"]);
    let out = update_lines(lines, 4, 2, "dd");
    let others: Vec<String> = out.into_iter().filter(|l| !l.starts_with("id: 4")).collect();
    assert_eq!(others, strings(&["x", "y", "z"]));
}
