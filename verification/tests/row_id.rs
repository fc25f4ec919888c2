use authentication::domain::row_id::RowID;

fn ids() -> (RowID, RowID, RowID) {
    (
        RowID::from(0x0190_71c5_a31c_7a0e_befa_5947_0212_2e75),
        RowID::from(0x0190_71c5_a31d_7a0e_befa_5947_0212_2e75),
        RowID::from(0x0190_71c5_a31e_7000_8000_0000_0000_0000),
    )
}

#[test]
fn test_rowid_new_creates_uuid_v7() {
    let row_id = RowID::new();
    assert_eq!(row_id.version_num(), 7);
}

#[test]
fn test_rowid_equality() {
    let row_id1 = RowID::new();
    let row_id2 = RowID(row_id1.0);
    assert_eq!(row_id1, row_id2);
}

#[test]
fn test_from_uuid_for_rowid() {
    let uuid = uuid::Uuid::now_v7();
    let row_id = RowID::from(uuid.as_u128());
    assert_eq!(row_id.into_uuid(), uuid.as_u128());
}

#[test]
fn test_from_str_for_rowid_valid() {
    let uuid = uuid::Uuid::now_v7();
    let uuid_str = uuid.to_string();
    let row_id = RowID::from_str(&uuid_str).unwrap();
    assert_eq!(row_id.0, uuid.as_u128());
}

#[test]
fn test_from_str_for_rowid_invalid() {
    let invalid_str = "not-a-uuid";
    let result = RowID::from_str(invalid_str);
    assert!(result.is_err());
}

#[test]
fn test_rowid_ordering() {
    let (id1, id2, id3) = ids();
    assert!(id1 < id2);
    assert!(id2 < id3);
    assert!(id1 < id3);
}

#[test]
fn new_ids_follow_each_other() {
    let id1 = RowID::new();
    let id2 = RowID::new();
    assert!(id1 != id2);
}

#[test]
fn test_sort_ascending() {
    let (id1, id2, id3) = ids();
    let mut v = vec![id3, id1, id2];
    RowID::sort_ascending(&mut v);
    assert_eq!(v, vec![id1, id2, id3]);
}

#[test]
fn test_sort_descending() {
    let (id1, id2, id3) = ids();
    let mut v = vec![id1, id3, id2];
    RowID::sort_descending(&mut v);
    assert_eq!(v, vec![id3, id2, id1]);
}

#[test]
fn test_sorted_ascending() {
    let (id1, id2, id3) = ids();
    let sorted = RowID::sorted_ascending(vec![id3, id1, id2]);
    assert_eq!(sorted, vec![id1, id2, id3]);
}

#[test]
fn test_sorted_descending() {
    let (id1, id2, id3) = ids();
    let sorted = RowID::sorted_descending(vec![id1, id3, id2]);
    assert_eq!(sorted, vec![id3, id2, id1]);
}

#[test]
fn test_min_max() {
    let (id1, id2, id3) = ids();
    let v = vec![id2, id1, id3];
    assert_eq!(RowID::min(&v).unwrap(), id1);
    assert_eq!(RowID::max(&v).unwrap(), id3);
}

#[test]
fn test_min_max_empty() {
    let v: Vec<RowID> = vec![];
    assert!(RowID::min(&v).is_none());
    assert!(RowID::max(&v).is_none());
}

#[test]
fn test_is_before_after() {
    let (id1, id2, _) = ids();
    assert!(id1.is_before(&id2));
    assert!(!id2.is_before(&id1));
    assert!(id2.is_after(&id1));
    assert!(!id1.is_after(&id2));
}

#[test]
fn test_equality() {
    let id = RowID::new();
    let same_id = RowID(id.0);
    assert!(!(id.is_before(&same_id)));
    assert!(!(id.is_after(&same_id)));
    assert_eq!(id, same_id);
}

#[test]
fn test_large_collection_sorting() {
    let mut v: Vec<RowID> = (0..1000).map(|_| RowID::new()).collect();
    let unsorted_ids = v.clone();
    RowID::sort_descending(&mut v);
    for i in 0..v.len() - 1 {
        assert!(v[i] >= v[i + 1]);
    }
    let mut expected_sorted = unsorted_ids;
    expected_sorted.sort();
    v.sort();
    assert_eq!(v, expected_sorted);
}

#[test]
fn sorting_keeps_duplicates() {
    let (id1, id2, _) = ids();
    let sorted = RowID::sorted_ascending(vec![id2, id1, id2, id1]);
    assert_eq!(sorted, vec![id1, id1, id2, id2]);
}

#[test]
fn new_row_id_is_version_7_rfc_4122() {
    let id = RowID::new();
    assert_eq!((id.0 >> 76) & 0xf, 7);
    assert_eq!((id.0 >> 62) & 0x3, 2);
}
