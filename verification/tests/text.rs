use cairo_toolkit::text::{chars_of, concat3, decimal, same_text};
use cairo_toolkit::unordered_hash_map::UnorderedHashMap;

#[test]
fn concat3_puts_three_pieces_in_a_row() {
    assert_eq!(concat3("mod ", "hello", ";"), "mod hello;");
    assert_eq!(concat3("", "", ""), "");
}

#[test]
fn chars_of_lists_the_characters() {
    assert_eq!(chars_of("a€b"), vec!['a', '€', 'b']);
    assert!(chars_of("").is_empty());
}

#[test]
fn same_text_compares_characters() {
    assert!(same_text("lib", "lib"));
    assert!(!same_text("lib", "Lib"));
    assert!(!same_text("lib", "libs"));
}

#[test]
fn unordered_hash_map_holds_one_value_for_a_key() {
    let mut map = UnorderedHashMap::<u64, String>::default();
    assert!(map.is_empty());
    assert_eq!(map.insert(1, "one".to_string()), None);
    assert_eq!(map.insert(1, "uno".to_string()), Some("one".to_string()));
    assert_eq!(map.insert(2, "two".to_string()), None);
    assert_eq!(map.len(), 2);
    assert_eq!(map.get(&1), Some(&"uno".to_string()));
    assert_eq!(map.get(&3), None);
    assert!(map.contains_key(&2));
    assert!(!map.contains_key(&3));
    assert!(!map.is_empty());
}

#[test]
fn decimal_writes_a_number_without_leading_zeros() {
    assert_eq!(decimal(0), "0");
    assert_eq!(decimal(7), "7");
    assert_eq!(decimal(10), "10");
    assert_eq!(decimal(1234567890), "1234567890");
    assert_eq!(decimal(u64::MAX), "18446744073709551615");
}
