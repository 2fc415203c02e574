use monsoon::storage::{read_span, resize, take_file, write_span, InMemStorageFactory, StorageError};

#[test]
fn new_storage_has_empty_files() {
    let s = InMemStorageFactory.create(3);
    assert_eq!(s.file_count(), 3);
    assert_eq!(s.file_len(0), Some(0));
    assert_eq!(s.file_len(3), None);
}

#[test]
fn write_then_read_back() {
    let mut s = InMemStorageFactory.create(2);
    assert_eq!(s.init(), Ok(()));
    assert_eq!(s.ensure_file_length(1, 8), Ok(()));
    assert_eq!(s.pread_exact(1, 0, 8), Ok(vec![0; 8]));
    assert_eq!(s.pwrite_all(1, 2, &[1, 2, 3]), Ok(()));
    assert_eq!(s.pread_exact(1, 0, 8), Ok(vec![0, 0, 1, 2, 3, 0, 0, 0]));
    assert_eq!(s.pread_exact(1, 3, 2), Ok(vec![2, 3]));
    assert_eq!(s.file_len(0), Some(0));
}

#[test]
fn out_of_range_spans_fail() {
    let mut s = InMemStorageFactory.create(1);
    s.ensure_file_length(0, 4).unwrap();
    assert_eq!(s.pread_exact(0, 2, 3), Err(StorageError::OutOfBounds));
    assert_eq!(s.pread_exact(0, 5, 0), Err(StorageError::OutOfBounds));
    assert_eq!(s.pread_exact(0, 4, 0), Ok(vec![]));
    assert_eq!(s.pread_exact(0, u64::MAX, 1), Err(StorageError::OutOfBounds));
    assert_eq!(s.pwrite_all(0, 3, &[1, 2]), Err(StorageError::OutOfBounds));
    assert_eq!(s.pread_exact(0, 0, 4), Ok(vec![0; 4]));
    assert_eq!(s.pread_exact(1, 0, 0), Err(StorageError::NoSuchFile));
    assert_eq!(s.pwrite_all(1, 0, &[]), Err(StorageError::NoSuchFile));
    assert_eq!(s.ensure_file_length(1, 1), Err(StorageError::NoSuchFile));
    assert_eq!(s.remove_file(1), Err(StorageError::NoSuchFile));
}

#[test]
fn resize_cuts_and_fills() {
    let mut s = InMemStorageFactory.create(1);
    s.ensure_file_length(0, 3).unwrap();
    s.pwrite_all(0, 0, &[7, 8, 9]).unwrap();
    s.ensure_file_length(0, 5).unwrap();
    assert_eq!(s.pread_exact(0, 0, 5), Ok(vec![7, 8, 9, 0, 0]));
    s.ensure_file_length(0, 2).unwrap();
    assert_eq!(s.pread_exact(0, 0, 2), Ok(vec![7, 8]));
    assert_eq!(s.file_len(0), Some(2));
}

#[test]
fn remove_file_empties_it() {
    let mut s = InMemStorageFactory.create(2);
    s.ensure_file_length(0, 3).unwrap();
    s.ensure_file_length(1, 2).unwrap();
    assert_eq!(s.remove_file(0), Ok(()));
    assert_eq!(s.file_len(0), Some(0));
    assert_eq!(s.file_len(1), Some(2));
    assert_eq!(s.file_count(), 2);
    assert_eq!(s.remove_directory_if_empty(), Ok(()));
}

#[test]
fn take_moves_every_buffer() {
    let mut s = InMemStorageFactory.create(2);
    s.ensure_file_length(0, 2).unwrap();
    s.pwrite_all(0, 0, &[5, 6]).unwrap();
    let taken = s.take();
    assert_eq!(taken.file_count(), 2);
    assert_eq!(taken.pread_exact(0, 0, 2), Ok(vec![5, 6]));
    assert_eq!(taken.file_len(1), Some(0));
    assert_eq!(s.file_count(), 2);
    assert_eq!(s.file_len(0), Some(0));
}

#[test]
fn spans_of_one_buffer() {
    let mut f = vec![1u8, 2, 3, 4];
    assert_eq!(read_span(&f, 1, 2), Ok(vec![2, 3]));
    assert_eq!(read_span(&f, 1, 4), Err(StorageError::OutOfBounds));
    assert_eq!(write_span(&mut f, 3, &[9]), Ok(()));
    assert_eq!(f, vec![1, 2, 3, 9]);
    assert_eq!(write_span(&mut f, 4, &[9]), Err(StorageError::OutOfBounds));
    assert_eq!(f, vec![1, 2, 3, 9]);
    resize(&mut f, 6);
    assert_eq!(f, vec![1, 2, 3, 9, 0, 0]);
    resize(&mut f, 1);
    assert_eq!(f, vec![1]);
}

#[test]
fn a_file_is_taken_whole() {
    let mut f = vec![1u8, 2, 3];
    assert_eq!(take_file(&mut f), vec![1, 2, 3]);
    assert!(f.is_empty());
    assert!(take_file(&mut f).is_empty());
}
