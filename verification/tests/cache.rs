use monsoon::cache::{availability, load, storage_outcome, CacheError, Inserted, Key, Stored, TypedTree};
use monsoon::show::ShowId;

fn temp_tree() -> (sled::Db, sled::Tree) {
    let db = sled::Config::new().temporary(true).open().unwrap();
    let tree = db.open_tree(b"shows").unwrap();
    (db, tree)
}

fn put(t: &mut TypedTree<ShowId, u64>, value: u64) -> ShowId {
    match t.insert(value, 64).unwrap() {
        Inserted::At(k) => k,
        Inserted::NoFreeId(_) => panic!("no free id among 64 random numbers"),
    }
}

#[test]
fn insert_then_get() {
    let (_db, tree) = temp_tree();
    let (mut t, report) = TypedTree::<ShowId, u64>::new(tree);
    assert_eq!((report.unreadable, report.dropped), (0, 0));
    let id = put(&mut t, 42);
    assert_eq!(t.get(id), Some(&42));
    assert_eq!(t.get(ShowId(id.0.wrapping_add(1))), None);
}

#[test]
fn sequential_inserts_take_distinct_ids() {
    let (_db, tree) = temp_tree();
    let (mut t, _) = TypedTree::<ShowId, u64>::new(tree);
    let mut ids: Vec<u64> = (0..50).map(|v| put(&mut t, v).0).collect();
    ids.sort();
    ids.dedup();
    assert_eq!(ids.len(), 50);
    assert_eq!(t.enumerate().len(), 50);
}

#[test]
fn an_id_in_the_tree_is_not_available() {
    let (_db, tree) = temp_tree();
    let (mut t, _) = TypedTree::<u64, u64>::new(tree);
    assert_eq!(t.is_available(5).unwrap(), true);
    assert_eq!(t.insert_at(5, 1).unwrap(), 5);
    assert_eq!(t.is_available(5).unwrap(), false);
    assert_eq!(t.is_available(6).unwrap(), true);
    assert_eq!(t.available_id(0).unwrap(), None);
    let free = t.available_id(8).unwrap().unwrap();
    assert_ne!(free, 5);
    match t.insert(9, 0).unwrap() {
        Inserted::NoFreeId(v) => assert_eq!(v, 9),
        Inserted::At(_) => panic!("no attempt was allowed"),
    }
    assert_eq!(t.enumerate().len(), 1);
}

#[test]
fn flush_and_reopen_gives_the_same_map() {
    let (_db, tree) = temp_tree();
    let (mut t, _) = TypedTree::<ShowId, u64>::new(tree);
    let a = put(&mut t, 1);
    let b = put(&mut t, 2);
    let c = put(&mut t, 3);
    assert_eq!(t.update_with(b, |v| (v + 20, v)).unwrap(), Some(2));
    assert_eq!(t.drop(c).unwrap(), Some(3));
    t.flush_all().unwrap();
    let mut before: Vec<(u64, u64)> = t.enumerate().into_iter().map(|(k, v)| (k.0, *v)).collect();
    before.sort();
    let tree = t.close().unwrap();
    let (t, report) = TypedTree::<ShowId, u64>::new(tree);
    assert_eq!((report.unreadable, report.dropped), (0, 0));
    let mut after: Vec<(u64, u64)> = t.enumerate().into_iter().map(|(k, v)| (k.0, *v)).collect();
    after.sort();
    assert_eq!(before, after);
    let mut expected = vec![(a.0, 1), (b.0, 22)];
    expected.sort();
    assert_eq!(after, expected);
}

#[test]
fn update_writes_through() {
    let (_db, tree) = temp_tree();
    let probe = tree.clone();
    let (mut t, _) = TypedTree::<u64, u64>::new(tree);
    t.insert_at(1, 10).unwrap();
    assert_eq!(probe.get(1u64.to_le_bytes()).unwrap().unwrap().to_vec(), 10u64.to_le_bytes().to_vec());
    assert_eq!(t.update_with(1, |v| (v * 3, "done")).unwrap(), Some("done"));
    assert_eq!(t.get(1), Some(&30));
    assert_eq!(probe.get(1u64.to_le_bytes()).unwrap().unwrap().to_vec(), 30u64.to_le_bytes().to_vec());
    assert_eq!(t.update_with(2, |v| (v, ())).unwrap(), None);
    assert_eq!(probe.len(), 1);
    t.flush(1).unwrap();
    t.flush(2).unwrap();
    assert_eq!(probe.len(), 1);
}

#[test]
fn drop_removes_from_both() {
    let (_db, tree) = temp_tree();
    let probe = tree.clone();
    let (mut t, _) = TypedTree::<u64, u64>::new(tree);
    t.insert_at(1, 10).unwrap();
    t.insert_at(2, 20).unwrap();
    assert_eq!(t.drop(1).unwrap(), Some(10));
    assert_eq!(t.drop(1).unwrap(), None);
    assert_eq!(t.get(1), None);
    assert_eq!(t.get(2), Some(&20));
    assert!(probe.get(1u64.to_le_bytes()).unwrap().is_none());
    assert!(probe.get(2u64.to_le_bytes()).unwrap().is_some());
}

#[test]
fn foreign_entries_are_dropped_on_open() {
    let (_db, tree) = temp_tree();
    tree.insert(7u64.to_le_bytes(), 70u64.to_le_bytes().to_vec()).unwrap();
    tree.insert(b"short", vec![1, 2, 3]).unwrap();
    tree.insert(8u64.to_le_bytes(), vec![1, 2, 3]).unwrap();
    let (t, report) = TypedTree::<u64, u64>::new(tree);
    assert_eq!((report.unreadable, report.dropped), (0, 2));
    assert_eq!(t.get(7), Some(&70));
    assert_eq!(t.get(8), None);
    assert_eq!(t.enumerate().len(), 1);
}

#[test]
fn keys_and_values_as_bytes() {
    assert_eq!(ShowId(9).id(), 9);
    assert_eq!(ShowId::from_id(9), ShowId(9));
    assert_eq!(<u64 as Key>::from_id(3).id(), 3);
    assert_eq!(258u64.encode(), vec![2, 1, 0, 0, 0, 0, 0, 0]);
    assert_eq!(<u64 as Stored>::decode(&[2, 1, 0, 0, 0, 0, 0, 0]), Some(258));
    assert_eq!(<u64 as Stored>::decode(&[2, 1]), None);
}

#[test]
fn nothing_in_memory_nothing_to_fail() {
    let (_db, tree) = temp_tree();
    tree.insert(b"foreign", vec![1]).unwrap();
    let probe = tree.clone();
    let (mut t, _) = TypedTree::<u64, u64>::new(tree);
    assert!(t.flush(1).is_ok());
    assert!(t.flush_all().is_ok());
    assert!(matches!(t.drop(1), Ok(None)));
    assert!(matches!(t.insert(5, 0), Ok(Inserted::NoFreeId(5))));
    assert!(matches!(t.available_id(0), Ok(None)));
    assert!(t.available_id(1).unwrap().is_some());
    let back = t.close().unwrap();
    assert_eq!(back.len(), 1);
    assert_eq!(probe.get(b"foreign").unwrap().unwrap().to_vec(), vec![1]);
}

#[test]
fn what_the_tree_says_is_passed_on() {
    assert!(matches!(storage_outcome::<u8>(Ok(3)), Ok(3)));
    let failed = storage_outcome::<u8>(Err(sled::Error::Unsupported("no".to_string())));
    assert!(matches!(failed, Err(CacheError::Storage(sled::Error::Unsupported(m))) if m == "no"));
    assert!(matches!(availability(Ok(None)), Ok(true)));
    assert!(matches!(availability(Ok(Some(vec![1]))), Ok(false)));
    let failed = availability(Err(sled::Error::Unsupported("no".to_string())));
    assert!(matches!(failed, Err(CacheError::Storage(sled::Error::Unsupported(m))) if m == "no"));
}

#[test]
fn the_entries_that_decode_are_loaded() {
    let k = |n: u64| n.to_le_bytes().to_vec();
    let read = vec![
        Ok((k(1), k(10))),
        Ok((b"short".to_vec(), k(5))),
        Ok((k(2), vec![1, 2, 3])),
        Ok((k(3), k(30))),
        Ok((k(1), k(11))),
        Ok((b"nine bytes".to_vec(), vec![])),
        Err(sled::Error::Unsupported("gone".to_string())),
    ];
    let (map, report) = load::<u64>(&read);
    assert_eq!((report.unreadable, report.dropped), (1, 3));
    let mut got: Vec<(u64, u64)> = map.into_iter().collect();
    got.sort();
    assert_eq!(got, vec![(1, 11), (3, 30)]);
    let (map, report) = load::<u64>(&vec![]);
    assert!(map.is_empty());
    assert_eq!((report.unreadable, report.dropped), (0, 0));
}

#[test]
fn opening_with_undecodable_values() {
    let (_db, tree) = temp_tree();
    for n in 0..20u64 {
        let value = if n % 3 == 0 { vec![9] } else { (n * 2).to_le_bytes().to_vec() };
        tree.insert(n.to_le_bytes(), value).unwrap();
    }
    let (t, report) = TypedTree::<u64, u64>::new(tree);
    assert_eq!((report.unreadable, report.dropped), (0, 7));
    let mut got: Vec<(u64, u64)> = t.enumerate().into_iter().map(|(k, v)| (k, *v)).collect();
    got.sort();
    let expected: Vec<(u64, u64)> = (0..20u64).filter(|n| n % 3 != 0).map(|n| (n, n * 2)).collect();
    assert_eq!(got, expected);
}

#[test]
fn reopening_gives_the_same_map() {
    let (_db, tree) = temp_tree();
    let (mut t, _) = TypedTree::<ShowId, u64>::new(tree);
    for v in 0..30 {
        put(&mut t, v);
    }
    let first = put(&mut t, 100);
    assert_eq!(t.update_with(first, |v| (v + 1, ())).unwrap(), Some(()));
    let mut before: Vec<(u64, u64)> = t.enumerate().into_iter().map(|(k, v)| (k.0, *v)).collect();
    before.sort();
    let (again, report) = t.reopen().unwrap();
    assert_eq!((report.unreadable, report.dropped), (0, 0));
    let mut after: Vec<(u64, u64)> = again.enumerate().into_iter().map(|(k, v)| (k.0, *v)).collect();
    after.sort();
    assert_eq!(before, after);
    assert_eq!(after.len(), 31);
    assert_eq!(again.get(first), Some(&101));
}
