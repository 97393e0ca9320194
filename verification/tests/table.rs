use badger_backend::principal::PrincipalId;
use badger_backend::table::{duplicate_all, List, Record, Table};

fn text(s: &str) -> String {
    String::from(s)
}

#[test]
fn new_table_is_empty() {
    let t: Table<u128, String> = Table::new();
    assert_eq!(t.len(), 0);
    assert_eq!(t.get(&1), None);
    assert!(!t.contains_key(&1));
    assert_eq!(t.find(&1), None);
    assert_eq!(t.largest_key(), 0);
    assert_eq!(t.values(), Vec::<String>::new());
}

#[test]
fn put_appends_new_keys_in_order() {
    let mut t: Table<u128, String> = Table::new();
    t.put(5, text("five"));
    t.put(2, text("two"));
    t.put(9, text("nine"));
    assert_eq!(t.len(), 3);
    assert_eq!(t.values(), vec![text("five"), text("two"), text("nine")]);
    assert_eq!(*t.key_at(0), 5);
    assert_eq!(*t.key_at(1), 2);
    assert_eq!(*t.key_at(2), 9);
    assert_eq!(t.value_at(1), "two");
    assert_eq!(t.find(&9), Some(2));
    assert_eq!(t.get(&2), Some(&text("two")));
    assert_eq!(t.largest_key(), 9);
}

#[test]
fn put_replaces_in_place() {
    let mut t: Table<u128, String> = Table::new();
    t.put(5, text("five"));
    t.put(2, text("two"));
    t.put(5, text("FIVE"));
    assert_eq!(t.len(), 2);
    assert_eq!(t.values(), vec![text("FIVE"), text("two")]);
    assert_eq!(t.get(&5), Some(&text("FIVE")));
}

#[test]
fn remove_takes_the_entry_out() {
    let mut t: Table<u128, String> = Table::new();
    t.put(1, text("a"));
    t.put(2, text("b"));
    t.put(3, text("c"));
    assert!(t.remove(&2));
    assert!(!t.remove(&2));
    assert_eq!(t.len(), 2);
    assert_eq!(t.values(), vec![text("a"), text("c")]);
    assert_eq!(t.get(&2), None);
    assert_eq!(t.largest_key(), 3);
}

#[test]
fn merge_overwrites_and_appends() {
    let mut s: Table<u128, String> = Table::new();
    s.put(1, text("a"));
    s.put(2, text("b"));
    let mut t: Table<u128, String> = Table::new();
    t.put(3, text("c"));
    t.put(1, text("A"));
    s.merge(&t);
    assert_eq!(s.values(), vec![text("A"), text("b"), text("c")]);
    assert_eq!(*s.key_at(2), 3);
    // The table merged from is as it was.
    assert_eq!(t.values(), vec![text("c"), text("A")]);
}

#[test]
fn merge_into_empty_gives_the_table_back() {
    let mut t: Table<u128, String> = Table::new();
    t.put(3, text("c"));
    t.put(1, text("a"));
    let mut s: Table<u128, String> = Table::new();
    s.merge(&t);
    assert_eq!(s, t);
    assert_eq!(t.duplicate(), t);
}

#[test]
fn principal_keys_are_compared_by_bytes() {
    let a = PrincipalId::from_slice(&[1]).unwrap();
    let b = PrincipalId::from_slice(&[2]).unwrap();
    let mut t: Table<PrincipalId, String> = Table::new();
    t.put(a.clone(), text("a"));
    t.put(b.clone(), text("b"));
    t.put(PrincipalId::from_slice(&[1]).unwrap(), text("again"));
    assert_eq!(t.len(), 2);
    assert_eq!(t.get(&a), Some(&text("again")));
    assert_eq!(t.get(&b), Some(&text("b")));
    assert_eq!(t.get(&PrincipalId::from_slice(&[3]).unwrap()), None);
}

#[test]
fn list_contains_by_view() {
    let list = List {
        items: vec![
            PrincipalId::from_slice(&[1]).unwrap(),
            PrincipalId::from_slice(&[2, 2]).unwrap(),
        ],
    };
    assert!(list.contains(&PrincipalId::from_slice(&[2, 2]).unwrap()));
    assert!(!list.contains(&PrincipalId::from_slice(&[2]).unwrap()));
    let empty: List<PrincipalId> = List { items: Vec::new() };
    assert!(!empty.contains(&PrincipalId::from_slice(&[1]).unwrap()));
    assert_eq!(list.duplicate(), list);
}

#[test]
fn duplicate_all_copies_each_item() {
    let v = vec![text("x"), text("y")];
    assert_eq!(duplicate_all(&v), v);
    assert_eq!(duplicate_all(&Vec::<u128>::new()), Vec::<u128>::new());
}
