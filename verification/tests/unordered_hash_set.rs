use cairo_toolkit::unordered_hash_set::UnorderedHashSet;

fn set_of(items: &[u64]) -> UnorderedHashSet<u64> {
    UnorderedHashSet::from_iter(items.to_vec())
}

#[test]
fn insert_reports_whether_the_key_is_new() {
    let mut set = UnorderedHashSet::<u64>::default();
    assert!(set.is_empty());
    assert!(set.insert(7));
    assert!(!set.insert(7));
    assert!(set.insert(8));
    assert_eq!(set.len(), 2);
    assert!(set.contains(&7));
    assert!(!set.contains(&9));
}

#[test]
fn remove_reports_whether_the_key_was_there() {
    let mut set = set_of(&[1, 2, 3]);
    assert!(set.remove(&2));
    assert!(!set.remove(&2));
    assert_eq!(set, set_of(&[1, 3]));
}

#[test]
fn extend_adds_every_item_once() {
    let mut set = set_of(&[1]);
    set.extend(vec![2, 2, 3, 1]);
    assert_eq!(set, set_of(&[1, 2, 3]));
    set.extend_unordered(set_of(&[3, 4]));
    assert_eq!(set, set_of(&[1, 2, 3, 4]));
    set.clear();
    assert!(set.is_empty());
    assert_eq!(set.len(), 0);
}

#[test]
fn intersect_union_and_difference() {
    let a = set_of(&[1, 2, 3]);
    let b = set_of(&[2, 3, 4]);
    assert_eq!(a.intersect(&b), set_of(&[2, 3]));
    assert_eq!(a.union(&b), set_of(&[1, 2, 3, 4]));
    assert_eq!(&a - &b, set_of(&[1]));
    assert_eq!(&b - &a, set_of(&[4]));
    assert_eq!(a.difference(&b), set_of(&[1]));
    assert_eq!(a.clone(), a);
}

#[test]
fn disjoint_union_of_sets_that_share_nothing() {
    let a = set_of(&[1, 2]);
    let b = set_of(&[3]);
    assert!(a.is_disjoint(&b));
    assert!(!a.is_disjoint(&set_of(&[2, 5])));
    assert_eq!(a.disjoint_union(&b), set_of(&[1, 2, 3]));
}

#[test]
fn intersection_of_no_sets_is_none() {
    let none: Vec<UnorderedHashSet<u64>> = Vec::new();
    assert!(UnorderedHashSet::intersection(&none).is_none());
}

#[test]
fn intersection_keeps_what_every_set_holds() {
    let sets = vec![set_of(&[1, 2, 3, 4]), set_of(&[2, 3, 4, 5]), set_of(&[0, 3, 4])];
    assert_eq!(UnorderedHashSet::intersection(&sets), Some(set_of(&[3, 4])));
    assert_eq!(UnorderedHashSet::intersection(&sets[..1]), Some(set_of(&[1, 2, 3, 4])));
}

#[test]
fn counts_the_sets_that_hold_each_element() {
    let sets = vec![set_of(&[1, 2]), set_of(&[2, 3]), set_of(&[2])];
    let counts = UnorderedHashSet::counts(&sets);
    assert_eq!(counts.len(), 3);
    assert_eq!(counts.get(&1), Some(&1));
    assert_eq!(counts.get(&2), Some(&3));
    assert_eq!(counts.get(&3), Some(&1));
    assert_eq!(counts.get(&4), None);
    assert!(!counts.contains_key(&4));
}

#[test]
fn string_keys_work_through_borrowed_lookups() {
    let mut set = UnorderedHashSet::<String>::default();
    set.insert("a".to_string());
    assert!(set.contains("a"));
    assert!(set.remove("a"));
    assert!(set.is_empty());
}
