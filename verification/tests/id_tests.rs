use livedoc::id::{Id, IdType, LiveFileId, LiveNodePtr};

#[test]
fn from_str_hashes_known_values() {
    // exact values of the multi-round mix hash, masked to 63 bits
    assert_eq!(Id::from_str("Frame").0, 0x1089dc884c000376);
    assert_eq!(Id::from_str("walk").0, 0x27e2b9c6647fa006);
    assert_eq!(Id::from_str("crate").0, 0x55f84848348ff3d2);
    assert_eq!(Id::from_str("").0, 0xd6e8feb86659fd9);
}

#[test]
fn from_str_is_deterministic_and_single() {
    let a = Id::from_str("button");
    let b = Id::from_str("button");
    assert_eq!(a, b);
    assert!(a.is_single());
    assert!(matches!(a.to_type(), IdType::Single(_)));
}

#[test]
fn exactly_one_class_holds_per_id() {
    let ids = [
        Id::from_str("x"),
        Id::empty(),
        Id::multi(4, 2),
        Id::number(77),
        Id::node_ptr(LiveFileId::index(3), LiveNodePtr { level: 1, index: 9 }),
        Id::single(0x7fff_ffff_ffff_ffff),
    ];
    for id in ids {
        let mut classes = 0;
        if id.is_single() {
            classes += 1;
        }
        if id.is_empty() {
            classes += 1;
        }
        if id.is_multi() {
            classes += 1;
        }
        if id.is_number() {
            classes += 1;
        }
        if id.is_node_ptr() {
            classes += 1;
        }
        assert_eq!(classes, 1);
    }
}

#[test]
fn multi_round_trips_through_get_multi() {
    let id = Id::multi(5, 3);
    assert!(id.is_multi());
    assert_eq!(id.get_multi(), (5, 3));
    let wide = Id::multi(0xffff_ffff, 0x1fff_ffff);
    assert_eq!(wide.get_multi(), (0xffff_ffff, 0x1fff_ffff));
}

#[test]
fn classify_unpacks_every_variant() {
    match Id::multi(7, 2).to_type() {
        IdType::Multi { index, count } => {
            assert_eq!(index, 7);
            assert_eq!(count, 2);
        },
        other => panic!("wrong class {:?}", other),
    }
    match Id::number(41).to_type() {
        IdType::Number(v) => assert_eq!(v, 41),
        other => panic!("wrong class {:?}", other),
    }
    assert!(matches!(Id::empty().to_type(), IdType::Empty));
    let ptr = LiveNodePtr { level: 2, index: 11 };
    let file = LiveFileId::index(6);
    match Id::node_ptr(file, ptr).to_type() {
        IdType::NodePtr { file_id, ptr: p } => {
            assert_eq!(file_id, file);
            assert_eq!(p, ptr);
        },
        other => panic!("wrong class {:?}", other),
    }
}

#[test]
fn single_masks_to_63_bits() {
    let id = Id::single(0xffff_ffff_ffff_ffff);
    assert!(id.is_single());
    assert_eq!(id.get_single(), 0x7fff_ffff_ffff_ffff);
}

#[test]
fn number_masks_to_61_bits() {
    let id = Id::number(0xffff_ffff_ffff_ffff);
    assert!(id.is_number());
    match id.to_type() {
        IdType::Number(v) => assert_eq!(v, 0x1fff_ffff_ffff_ffff),
        other => panic!("wrong class {:?}", other),
    }
}

#[test]
fn file_id_round_trips_and_truncates() {
    assert_eq!(LiveFileId::index(513).to_index(), 513);
    assert_eq!(LiveFileId::index(0x10001).to_index(), 1);
}
