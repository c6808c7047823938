use rust_learn::sj::hashmaps::{demo_update, entry_or_insert, table_get, word_counts};

#[test]
fn word_count_lines() {
    assert_eq!(demo_update(), vec!["{\"hello\": 1, \"world\": 2, \"wonderful\": 1}", "Success!"]);
}

#[test]
fn counts_of_words() {
    assert_eq!(word_counts("a b  a\tc\na"), vec![("a", 3), ("b", 1), ("c", 1)]);
    assert!(word_counts("   ").is_empty());
}

#[test]
fn entry_found_or_inserted() {
    let mut t = vec![("Blue", 20)];
    assert_eq!(entry_or_insert(&mut t, "Yellow", 30), 1);
    assert_eq!(entry_or_insert(&mut t, "Yellow", 20), 1);
    assert_eq!(entry_or_insert(&mut t, "Blue", 5), 0);
    assert_eq!(t, vec![("Blue", 20), ("Yellow", 30)]);
    assert_eq!(table_get(&t, "Yellow"), Some(30));
    assert_eq!(table_get(&t, "Red"), None);
}
