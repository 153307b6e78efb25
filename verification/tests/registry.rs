use pinochle::registry::Registry;

#[test]
fn a_name_gets_its_entry_when_it_is_first_asked_for() {
    let mut registry: Registry<u32> = Registry::new();
    assert_eq!(registry.len(), 0);
    assert_eq!(registry.get(&"red".to_string()), None);
    assert_eq!(*registry.get_or_insert_with("red".to_string(), || 1), 1);
    assert_eq!(*registry.get_or_insert_with("blue".to_string(), || 2), 2);
    assert_eq!(*registry.get_or_insert_with("red".to_string(), || 3), 1);
    assert_eq!(registry.len(), 2);
    assert_eq!(registry.get(&"red".to_string()), Some(&1));
    assert_eq!(registry.get(&"blue".to_string()), Some(&2));
    assert_eq!(registry.get(&"green".to_string()), None);
    assert_eq!(registry.get(&"".to_string()), None);
}

#[test]
fn an_entry_is_made_only_where_there_is_none() {
    let mut registry: Registry<String> = Registry::new();
    let mut made = 0;
    for _ in 0..3 {
        registry.get_or_insert_with("table".to_string(), || {
            made += 1;
            "first".to_string()
        });
    }
    assert_eq!(made, 1);
    assert_eq!(registry.len(), 1);
}
