use dog_tv::table::RetainedTable;

#[test]
fn overwrite_leaves_exactly_one_entry() {
    // inserting two values under the same name keeps one entry: the second
    let mut t: RetainedTable<u32> = RetainedTable::new();
    t.insert(String::from("points"), 1);
    t.insert(String::from("points"), 2);
    assert_eq!(t.len(), 1);
    assert_eq!(t.get(&String::from("points")), Some(&2));
}

#[test]
fn overwrite_keeps_insertion_order() {
    let mut t: RetainedTable<u32> = RetainedTable::new();
    t.insert(String::from("a"), 1);
    t.insert(String::from("b"), 2);
    t.insert(String::from("a"), 3);
    assert_eq!(t.len(), 2);
    assert_eq!(t.key_at(0), "a");
    assert_eq!(t.key_at(1), "b");
    assert_eq!(*t.value_at(0), 3);
    assert_eq!(*t.value_at(1), 2);
}

#[test]
fn lookup_of_unused_name_is_none() {
    let mut t: RetainedTable<u32> = RetainedTable::new();
    t.insert(String::from("a"), 1);
    assert!(t.get(&String::from("zebra")).is_none());
    assert!(!t.contains_key(&String::from("zebra")));
    assert!(t.contains_key(&String::from("a")));
}

#[test]
fn value_at_mut_rebinds_in_place() {
    let mut t: RetainedTable<u32> = RetainedTable::new();
    t.insert(String::from("a"), 1);
    t.insert(String::from("b"), 2);
    *t.value_at_mut(1) = 20;
    assert_eq!(*t.value_at(1), 20);
    assert_eq!(*t.value_at(0), 1);
    assert_eq!(t.len(), 2);
}
