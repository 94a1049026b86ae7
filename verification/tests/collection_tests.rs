use dynwinrt::vector_pod::{CallbackShape, CallbackSlot, PodVtableCache};
use dynwinrt::map::{find_key_index, Insertion, MapEntries};
use dynwinrt::property_value::{payload_kind, unbox_step, PropertyValueKind, UnboxStep, E_NOINTERFACE};
use dynwinrt::vector::{
    first_failure, normalize_value_word, ItemIterator, VectorChange, VectorItems,
    COLLECTION_CHANGE_ITEM_CHANGED, COLLECTION_CHANGE_ITEM_INSERTED,
    COLLECTION_CHANGE_ITEM_REMOVED, COLLECTION_CHANGE_RESET, E_BOUNDS, E_NOTIMPL,
};

#[test]
fn vector_items_follow_the_ivector_contract() {
    let mut items = VectorItems::new(vec![10, 20, 30]);
    assert_eq!(items.size(), 3);
    assert_eq!(items.get_at(1), Ok(20));
    assert_eq!(items.get_at(3), Err(E_BOUNDS));
    assert_eq!(items.check_set_at(3, false), Err(E_BOUNDS));
    assert_eq!(items.check_set_at(3, true), Err(E_BOUNDS));
    assert_eq!(items.check_set_at(0, true), Err(E_NOTIMPL));
    assert_eq!(items.check_set_at(0, false), Ok(()));
    assert_eq!(
        items.set_at(0, 11),
        (10, VectorChange { collection_change: COLLECTION_CHANGE_ITEM_CHANGED, index: 0 })
    );
    assert_eq!(items.check_insert_at(3, false), Ok(()));
    assert_eq!(items.check_insert_at(4, false), Err(E_BOUNDS));
    assert_eq!(
        items.insert_at(3, 40),
        VectorChange { collection_change: COLLECTION_CHANGE_ITEM_INSERTED, index: 3 }
    );
    assert_eq!(items.snapshot(), vec![11, 20, 30, 40]);
    assert_eq!(
        items.remove_at(1),
        Ok((20, VectorChange { collection_change: COLLECTION_CHANGE_ITEM_REMOVED, index: 1 }))
    );
    assert_eq!(items.remove_at(9), Err(E_BOUNDS));
    assert_eq!(
        items.append(50),
        VectorChange { collection_change: COLLECTION_CHANGE_ITEM_INSERTED, index: 3 }
    );
    assert_eq!(
        items.remove_at_end(),
        Ok((50, VectorChange { collection_change: COLLECTION_CHANGE_ITEM_REMOVED, index: 3 }))
    );
    assert_eq!(items.get_many(1, 5), vec![30, 40]);
    assert_eq!(items.get_many(3, 5), Vec::<usize>::new());
    assert_eq!(items.get_many(4, 5), Vec::<usize>::new());
    assert_eq!(items.get_many(0, 2), vec![11, 30]);
    assert_eq!(items.index_of(&vec![false, true, true]), (1, true));
    assert_eq!(items.index_of(&vec![false, false, false]), (0, false));
    let (old, change) = items.replace_all(vec![7, 8]);
    assert_eq!(old, vec![11, 30, 40]);
    assert_eq!(change, VectorChange { collection_change: COLLECTION_CHANGE_RESET, index: 0 });
    assert_eq!(VectorItems::check_replace_all(2, true), Err(E_NOTIMPL));
    assert_eq!(VectorItems::check_replace_all(0, true), Ok(()));
    let (removed, change) = items.clear();
    assert_eq!(removed, vec![7, 8]);
    assert_eq!(change.collection_change, COLLECTION_CHANGE_RESET);
    assert_eq!(items.size(), 0);
    assert_eq!(items.remove_at_end(), Err(E_BOUNDS));
}

#[test]
fn iterators_walk_their_snapshot_once() {
    let mut iterator = ItemIterator::new(vec![1, 2, 3]);
    assert_eq!(iterator.get_current(), Ok(1));
    assert!(iterator.has_current());
    assert!(iterator.move_next());
    assert_eq!(iterator.get_many(5), vec![2, 3]);
    assert!(!iterator.has_current());
    assert_eq!(iterator.get_current(), Err(E_BOUNDS));
    assert!(!iterator.move_next());
    assert_eq!(iterator.get_many(5), Vec::<usize>::new());
    assert_eq!(iterator.into_items(), vec![1, 2, 3]);
}

#[test]
fn change_handlers_report_the_first_failure() {
    assert_eq!(first_failure(&vec![]), 0);
    assert_eq!(first_failure(&vec![0, 1]), 0);
    assert_eq!(first_failure(&vec![0, -5, -7]), -5);
    assert_eq!(normalize_value_word(0x1_0203, 1), 0x03);
    assert_eq!(normalize_value_word(0x1_0203, 2), 0x0203);
    assert_eq!(normalize_value_word(usize::MAX, 0), usize::MAX);
    assert_eq!(normalize_value_word(usize::MAX, std::mem::size_of::<usize>()), usize::MAX);
}

#[test]
fn map_keys_match_by_boxed_string_then_by_identity() {
    let keys = vec![100, 200, 300];
    let texts = vec![Some("a".to_string()), None, Some("c".to_string())];
    assert_eq!(find_key_index(&keys, &texts, 999, &Some("c".to_string())), Some(2));
    assert_eq!(find_key_index(&keys, &texts, 300, &Some("x".to_string())), None);
    assert_eq!(find_key_index(&keys, &texts, 200, &None), Some(1));
    assert_eq!(find_key_index(&keys, &texts, 999, &None), None);

    let mut map = MapEntries::new();
    let texts: Vec<Option<String>> = vec![];
    assert_eq!(
        map.insert(1, 10, &Some("k".to_string()), &texts),
        Insertion { replaced: false, released_value: None }
    );
    let texts = vec![Some("k".to_string())];
    assert_eq!(
        map.insert(2, 20, &Some("k".to_string()), &texts),
        Insertion { replaced: true, released_value: Some(10) }
    );
    assert_eq!(map.size(), 1);
    assert_eq!(map.lookup(2, &Some("k".to_string()), &texts), Ok(20));
    assert!(map.has_key(7, &Some("k".to_string()), &texts));
    assert!(map.has_key(1, &None, &vec![None]));
    assert_eq!(map.keys(), &vec![1]);
    assert_eq!(map.lookup(5, &Some("z".to_string()), &texts), Err(E_BOUNDS));
    assert_eq!(map.remove(5, &Some("z".to_string()), &texts), Err(E_BOUNDS));
    assert_eq!(map.remove(1, &Some("k".to_string()), &texts), Ok((1, 20)));
    assert_eq!(map.size(), 0);
    map.insert(3, 30, &None, &vec![]);
    let (keys, values) = map.clear();
    assert_eq!((keys, values), (vec![3], vec![30]));
}

#[test]
fn property_types_with_payloads_round_trip() {
    assert_eq!(payload_kind(1), Some(PropertyValueKind::UInt8));
    assert_eq!(payload_kind(12), Some(PropertyValueKind::String));
    assert_eq!(payload_kind(1037), Some(PropertyValueKind::InspectableArray));
    for unsupported in [0, 13, 20, 1044, 2000, -1] {
        assert_eq!(payload_kind(unsupported), None);
    }
    assert_eq!(PropertyValueKind::RectArray.property_type(), 1043);
    assert_eq!(PropertyValueKind::Guid.property_type(), 16);
    assert_eq!(unbox_step(true, false, Ok(())), Ok(UnboxStep::Null));
    assert_eq!(unbox_step(false, false, Ok(())), Ok(UnboxStep::NotPropertyValue));
    assert_eq!(unbox_step(false, true, Err(E_NOINTERFACE)), Ok(UnboxStep::NotPropertyValue));
    assert_eq!(unbox_step(false, true, Err(-5)), Err(-5));
    assert_eq!(unbox_step(false, true, Ok(())), Ok(UnboxStep::ReadPayload));
}

#[test]
fn removal_takes_the_first_matching_entry() {
    let mut map = MapEntries::new();
    map.insert(1, 10, &None, &vec![]);
    map.insert(2, 20, &None, &vec![None]);
    let texts = vec![Some("same".to_string()), Some("same".to_string())];
    assert_eq!(map.remove(9, &Some("same".to_string()), &texts), Ok((1, 10)));
    assert_eq!(map.keys(), &vec![2]);
    assert_eq!(map.remove(9, &Some("same".to_string()), &vec![Some("same".to_string())]), Ok((2, 20)));
    assert_eq!(map.size(), 0);
}

#[test]
fn pod_vector_plans_are_made_once_per_element_signature() {
    let mut cache = PodVtableCache::new();
    let point = cache.get_or_plan("struct(Windows.Foundation.Point;f4;f4)", 8);
    assert_eq!(point.element_size, 8);
    assert_eq!(point.vector_index_of, CallbackSlot { slot: 9, shape: CallbackShape::Lookup });
    assert_eq!(point.vector_set_at, CallbackSlot { slot: 10, shape: CallbackShape::Indexed });
    assert_eq!(point.vector_insert_at, CallbackSlot { slot: 11, shape: CallbackShape::Indexed });
    assert_eq!(point.vector_append, CallbackSlot { slot: 13, shape: CallbackShape::Append });
    assert_eq!(point.live_index_of, CallbackSlot { slot: 8, shape: CallbackShape::Lookup });
    assert_eq!(point.snapshot_index_of, CallbackSlot { slot: 8, shape: CallbackShape::Lookup });
    let again = cache.get_or_plan("struct(Windows.Foundation.Point;f4;f4)", 99);
    assert_eq!(again, point);
    let rect = cache.get_or_plan("struct(Windows.Foundation.Rect;f4;f4;f4;f4)", 16);
    assert_eq!(rect.element_size, 16);
}
