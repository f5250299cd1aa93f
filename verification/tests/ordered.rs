use which_llm::ordered::{standing, SortedMap, Standing};

fn chars(s: &str) -> Vec<char> {
    s.chars().collect()
}

#[test]
fn standing_is_dictionary_order_by_character() {
    assert_eq!(standing(&chars("a"), &chars("b")), Standing::Before);
    assert_eq!(standing(&chars("b"), &chars("a")), Standing::After);
    assert_eq!(standing(&chars("ab"), &chars("ab")), Standing::Same);
    assert_eq!(standing(&chars(""), &chars("")), Standing::Same);
    assert_eq!(standing(&chars(""), &chars("a")), Standing::Before);
    assert_eq!(standing(&chars("ab"), &chars("a")), Standing::After);
    assert_eq!(standing(&chars("Z"), &chars("a")), Standing::Before);
    assert_eq!(standing(&chars("a-b"), &chars("a_b")), Standing::Before);
    for (a, b) in [("é", "z"), ("a", "é"), ("😀", "ｚ"), ("abc", "abd"), ("", "x")] {
        let expected = match a.cmp(b) {
            std::cmp::Ordering::Less => Standing::Before,
            std::cmp::Ordering::Equal => Standing::Same,
            std::cmp::Ordering::Greater => Standing::After,
        };
        assert_eq!(standing(&chars(a), &chars(b)), expected);
    }
}

#[test]
fn sorted_map_keeps_keys_in_order_and_replaces() {
    let mut map: SortedMap<u32> = SortedMap::new();
    assert_eq!(map.len(), 0);
    assert!(map.get("a").is_none());
    map.insert("m".to_string(), 1);
    map.insert("a".to_string(), 2);
    map.insert("z".to_string(), 3);
    map.insert("b".to_string(), 4);
    assert_eq!(map.len(), 4);
    let keys: Vec<&str> = (0..map.len()).map(|i| map.key_at(i)).collect();
    assert_eq!(keys, vec!["a", "b", "m", "z"]);
    let values: Vec<u32> = (0..map.len()).map(|i| *map.value_at(i)).collect();
    assert_eq!(values, vec![2, 4, 1, 3]);
    map.insert("m".to_string(), 9);
    assert_eq!(map.len(), 4);
    assert_eq!(map.get("m"), Some(&9));
    assert_eq!(map.get("a"), Some(&2));
    assert_eq!(map.get("zz"), None);
    assert_eq!(map.get(""), None);
    map.insert(String::new(), 0);
    assert_eq!(map.key_at(0), "");
    assert_eq!(map.get(""), Some(&0));
}
