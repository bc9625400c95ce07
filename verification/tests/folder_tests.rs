use reaction_jail::folder::{
    find_author_in_lines, find_author_in_store, names_message, record_file_name,
    user_id_from_file_name,
};
use reaction_jail::record::MsgData;

#[test]
fn file_names_of_authors() {
    assert_eq!(user_id_from_file_name("123.json", "json"), Some(123));
    assert_eq!(user_id_from_file_name("123.txt", "json"), None);
    assert_eq!(user_id_from_file_name("123", "json"), None);
    assert_eq!(user_id_from_file_name("abc.json", "json"), None);
    assert_eq!(user_id_from_file_name("1.2.json", "json"), None);
    assert_eq!(user_id_from_file_name(".json", "json"), None);
    assert_eq!(user_id_from_file_name("+8.txt", "txt"), Some(8));
    assert_eq!(user_id_from_file_name("8.", ""), Some(8));
    assert_eq!(user_id_from_file_name("8", ""), Some(8));
}

#[test]
fn record_file_names_round_trip() {
    assert_eq!(record_file_name(42, "json"), "42.json");
    assert_eq!(record_file_name(-3, "txt"), "-3.txt");
    let name = record_file_name(987654321, "json");
    assert_eq!(user_id_from_file_name(&name, "json"), Some(987654321));
}

#[test]
fn trimmed_line_names_message() {
    assert!(names_message("  42\t\n", 42));
    assert!(names_message("42", 42));
    assert!(!names_message("420", 42));
    assert!(!names_message("id: 42, reactions: 1, msg: x", 42));
    assert!(names_message("\u{3000}7\u{a0}", 7));
}

fn data(ids: &[u64]) -> Vec<MsgData> {
    ids.iter().map(|&id| MsgData::new(id, 1, "m".to_string(), false)).collect()
}

#[test]
fn store_search_finds_first_author_file() {
    let files = vec![
        ("notes.json".to_string(), data(&[5])),
        ("10.txt".to_string(), data(&[5])),
        ("11.json".to_string(), data(&[1, 2])),
        ("12.json".to_string(), data(&[5])),
        ("13.json".to_string(), data(&[5])),
    ];
    assert_eq!(find_author_in_store(&files, 5), Some(12));
    assert_eq!(find_author_in_store(&files, 2), Some(11));
    assert_eq!(find_author_in_store(&files, 99), None);
}

#[test]
fn text_search_compares_whole_trimmed_lines() {
    let files = vec![
        ("20.txt".to_string(), vec!["id: 5, reactions: 1, msg: m".to_string()]),
        ("21.txt".to_string(), vec!["x".to_string(), " 5 ".to_string()]),
        ("22.json".to_string(), vec!["5".to_string()]),
    ];
    assert_eq!(find_author_in_lines(&files, 5), Some(21));
    assert_eq!(find_author_in_lines(&files, 6), None);
}

#[test]
fn recorded_message_is_traced_to_its_author() {
    let mut data = Vec::new();
    reaction_jail::store::record_reaction(&mut data, 555, 1, "malo");
    let files = vec![
        ("3.json".to_string(), Vec::new()),
        (record_file_name(4, "json"), data),
    ];
    assert_eq!(find_author_in_store(&files, 555), Some(4));
}
