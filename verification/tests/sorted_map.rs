use docat::sorted_map::SortedMap;
use docat::text::{chars_of, clone_texts, compare_text, TextOrder};

#[test]
fn text_order_is_lexicographic() {
    assert_eq!(compare_text("a", "b"), TextOrder::Before);
    assert_eq!(compare_text("b", "a"), TextOrder::After);
    assert_eq!(compare_text("abc", "abc"), TextOrder::Same);
    assert_eq!(compare_text("ab", "abc"), TextOrder::Before);
    assert_eq!(compare_text("abc", "ab"), TextOrder::After);
    assert_eq!(compare_text("", ""), TextOrder::Same);
    assert_eq!(compare_text("", "a"), TextOrder::Before);
    assert_eq!(compare_text("Z", "a"), TextOrder::Before);
    assert_eq!(compare_text("z", "é"), TextOrder::Before);
}

#[test]
fn text_order_agrees_with_the_order_of_strings() {
    let samples = ["", "a", "ab", "abc", "b", "B", "é", "日本", "zz", "a b", "a-b", "a_b", "10", "9"];
    for a in samples {
        for b in samples {
            let expected = if a < b {
                TextOrder::Before
            } else if a == b {
                TextOrder::Same
            } else {
                TextOrder::After
            };
            assert_eq!(compare_text(a, b), expected);
        }
    }
}

#[test]
fn characters_and_copies() {
    assert_eq!(chars_of("héllo"), vec!['h', 'é', 'l', 'l', 'o']);
    assert!(chars_of("").is_empty());
    let list = vec!["a".to_string(), "".to_string(), "b c".to_string()];
    assert_eq!(clone_texts(&list), list);
}

#[test]
fn entries_are_kept_in_key_order() {
    let mut m: SortedMap<u32> = SortedMap::new();
    assert!(m.is_empty());
    for (k, v) in [("web", 3), ("api", 1), ("db", 2), ("zeta", 4), ("alpha", 0)] {
        m.insert(k.to_string(), v);
    }
    assert_eq!(m.len(), 5);
    assert!(!m.is_empty());
    let keys: Vec<String> = (0..m.len()).map(|i| m.key_at(i).clone()).collect();
    assert_eq!(keys, vec!["alpha", "api", "db", "web", "zeta"]);
    let values: Vec<u32> = (0..m.len()).map(|i| *m.value_at(i)).collect();
    assert_eq!(values, vec![0, 1, 2, 3, 4]);
}

#[test]
fn insert_replaces_and_remove_takes_out() {
    let mut m: SortedMap<u32> = SortedMap::new();
    m.insert("a".to_string(), 1);
    m.insert("b".to_string(), 2);
    m.insert("a".to_string(), 10);
    assert_eq!(m.len(), 2);
    assert_eq!(m.get("a"), Some(&10));
    assert_eq!(m.get("c"), None);
    assert!(m.contains_key("b"));
    assert!(!m.contains_key("c"));
    assert_eq!(m.position("b"), Some(1));
    assert_eq!(m.position("c"), None);
    assert_eq!(m.remove("a"), Some(10));
    assert_eq!(m.remove("a"), None);
    assert_eq!(m.len(), 1);
    assert_eq!(m.key_at(0), "b");
}

#[test]
fn values_can_be_changed_in_place() {
    let mut m: SortedMap<Vec<u32>> = SortedMap::new();
    m.insert("a".to_string(), vec![1]);
    m.insert("b".to_string(), vec![2]);
    m.value_at_mut(1).push(3);
    assert_eq!(m.get("b"), Some(&vec![2, 3]));
    assert_eq!(m.get("a"), Some(&vec![1]));
    let copy = m.clone();
    assert_eq!(copy, m);
}
