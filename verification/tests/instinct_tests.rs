use cuda_biology::Instinct;

#[test]
fn all_lists_each_instinct_in_id_order() {
    let all = Instinct::all();
    assert_eq!(all.len(), 10);
    for (k, i) in all.iter().enumerate() {
        assert_eq!(i.id() as usize, k);
    }
    assert_eq!(all[0], Instinct::Survive);
    assert_eq!(all[6], Instinct::Rest);
    assert_eq!(all[9], Instinct::Socialize);
}

#[test]
fn ids_and_lookup_roundtrip() {
    for i in Instinct::all() {
        assert_eq!(Instinct::from_id(i.id()), Some(*i));
    }
    for n in 0u8..10 {
        assert_eq!(Instinct::from_id(n).unwrap().id(), n);
    }
}

#[test]
fn unknown_ids_give_none() {
    assert_eq!(Instinct::from_id(10), None);
    assert_eq!(Instinct::from_id(42), None);
    assert_eq!(Instinct::from_id(255), None);
}

#[test]
fn exact_ids() {
    assert_eq!(Instinct::Survive.id(), 0);
    assert_eq!(Instinct::Navigate.id(), 2);
    assert_eq!(Instinct::Defend.id(), 5);
    assert_eq!(Instinct::Create.id(), 8);
    assert_eq!(Instinct::from_id(3), Some(Instinct::Communicate));
    assert_eq!(Instinct::from_id(7), Some(Instinct::Play));
}

#[test]
fn names() {
    let expected = [
        "survive", "perceive", "navigate", "communicate", "learn", "defend", "rest", "play",
        "create", "socialize",
    ];
    for (i, n) in Instinct::all().iter().zip(expected.iter()) {
        assert_eq!(i.name(), *n);
    }
}

#[test]
fn names_are_distinct() {
    let all = Instinct::all();
    for a in all {
        for b in all {
            assert_eq!(a.name() == b.name(), a == b);
        }
    }
}
