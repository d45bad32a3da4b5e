use embprop::vocab::Vocab;

#[test]
fn test_get_set() {
    let mut vocab = Vocab::new(0);

    let nodes = vec![
        ("feat".to_string(), "abc".to_string()),
        ("feat".to_string(), "efg".to_string()),
        ("title".to_string(), "foobarbaz".to_string()),
    ];

    let node_ids: Vec<_> = nodes
        .iter()
        .map(|(nt, n)| vocab.get_or_insert(nt.clone(), n.clone()))
        .collect();

    nodes.iter().zip(node_ids.iter()).for_each(|((nt, n), node_id)| {
        // Assert lookups get the correct node_ids
        let expected = Some(node_id.clone());
        let ret = vocab.get_node_id(nt.clone(), n.clone());
        assert_eq!(expected, ret);

        // Assert node ids retrieve the correct node type/name
        let expected = Some(((*nt).clone(), (*n).clone()));
        let ret = vocab.get_name(*node_id);
        assert_eq!(expected, ret);
    });
}

#[test]
fn insertion_idempotent_and_injective() {
    let mut vocab = Vocab::new(0);
    let a1 = vocab.get_or_insert("feat".to_string(), "alpha".to_string());
    let b1 = vocab.get_or_insert("feat".to_string(), "beta".to_string());
    let a2 = vocab.get_or_insert("feat".to_string(), "alpha".to_string());
    let c1 = vocab.get_or_insert("title".to_string(), "alpha".to_string());

    // identical (category, name) pairs map to identical ids
    assert_eq!(a1, a2);
    // distinct pairs map to distinct ids
    assert_ne!(a1, b1);
    assert_ne!(a1, c1);
    assert_ne!(b1, c1);
    // len counts distinct pairs only
    assert_eq!(vocab.len(), 3);
}

#[test]
fn distinct_identities_are_not_identical() {
    let a = Vocab::new(1);
    let b = Vocab::new(2);
    assert!(!a.is_identical(&b));
    assert!(a.is_identical(&a));
}

#[test]
fn translation_between_vocabularies() {
    let mut from = Vocab::new(1);
    let mut to = Vocab::new(2);
    from.get_or_insert("feat".to_string(), "x".to_string());
    from.get_or_insert("feat".to_string(), "y".to_string());
    to.get_or_insert("feat".to_string(), "y".to_string());

    // an id of `to` is looked up here by its (type, name) pair
    assert_eq!(from.translate_node(&to, 0), Some(1));
    // a pair absent from the target vocabulary cannot be translated
    assert_eq!(to.translate_node(&from, 0), None);
    // same pair, different id in the target vocabulary
    let table = from.create_translation_table(&to);
    assert_eq!(table, vec![None, Some(0)]);
    // identical instances translate every id to itself
    let same = from.create_translation_table(&from);
    assert_eq!(same, vec![Some(0), Some(1)]);
}
