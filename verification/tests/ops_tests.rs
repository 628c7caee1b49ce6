//! Tests for the directory operations: listing with classification,
//! single and recursive deletion, their error taxonomy, and the tolerance
//! of recursive deletion for already-missing paths.

use posixio::backend::PosixBackend;
use posixio::path::StoragePath;
use posixio::{BlockLocation, StorageError, StorageFileType};

fn root() -> StoragePath {
    StoragePath::root()
}

/// Creates, finalizes and checkpoints a file of `size` bytes at `name`.
fn put_file(be: &mut PosixBackend, name: &StoragePath, size: usize, fill: u8) {
    let mut w = be.create_named(name).expect("create");
    w.write_block(be, vec![fill; size]).expect("write");
    let (mut r, _) = w.complete(be).expect("complete");
    r.mark_for_checkpoint();
    r.release(be);
}

#[test]
fn delete_recursive_missing_path_is_ok_repeatedly() {
    let mut be = PosixBackend::new(root());
    let p = root().child(b"nope".to_vec()).child(b"deeper".to_vec());
    assert!(be.delete_recursive(&p).is_ok());
    assert!(be.delete_recursive(&p).is_ok());
    assert!(be.delete_recursive(&p).is_ok());
    assert_eq!(be.usage(), 0);
    // The plain delete, by contrast, reports the missing path.
    assert!(matches!(be.delete(&p), Err(StorageError::NotFound)));
}

#[test]
fn delete_recursive_on_plain_file_equals_delete() {
    // Two backends brought to the same state; one file deleted recursively
    // on the first, plainly on the second.
    let name = root().child(b"plain".to_vec());
    let mut be1 = PosixBackend::new(root());
    put_file(&mut be1, &name, 123, 0xaa);
    let mut be2 = PosixBackend::new(root());
    put_file(&mut be2, &name, 123, 0xaa);

    assert!(be1.delete_recursive(&name).is_ok());
    assert!(be2.delete(&name).is_ok());
    assert_eq!(be1.usage(), be2.usage());
    assert_eq!(be1.usage(), 0);
    assert!(matches!(be1.open(&name), Err(StorageError::NotFound)));
    assert!(matches!(be2.open(&name), Err(StorageError::NotFound)));
    assert_eq!(be1.list(&root()).unwrap().len(), 0);
    assert_eq!(be2.list(&root()).unwrap().len(), 0);
}

#[test]
fn list_classifies_children() {
    let mut be = PosixBackend::new(root());
    let dir_a = root().child(b"a".to_vec());
    put_file(&mut be, &dir_a.child(b"f1".to_vec()), 10, 1);
    put_file(&mut be, &dir_a.child(b"f2".to_vec()), 20, 2);
    put_file(&mut be, &root().child(b"top".to_vec()), 5, 3);

    let mut top = be.list(&root()).expect("list root");
    top.sort_by(|x, y| x.0.cmp(&y.0));
    assert_eq!(top.len(), 2);
    assert_eq!(top[0].0, b"a".to_vec());
    assert!(matches!(top[0].1, StorageFileType::Directory));
    assert_eq!(top[1].0, b"top".to_vec());
    assert!(matches!(top[1].1, StorageFileType::File { size: 5 }));

    let mut inside = be.list(&dir_a).expect("list a");
    inside.sort_by(|x, y| x.0.cmp(&y.0));
    assert_eq!(inside.len(), 2);
    assert_eq!(inside[0].0, b"f1".to_vec());
    assert!(matches!(inside[0].1, StorageFileType::File { size: 10 }));
    assert_eq!(inside[1].0, b"f2".to_vec());
    assert!(matches!(inside[1].1, StorageFileType::File { size: 20 }));
}

#[test]
fn delete_recursive_removes_subtree_and_usage() {
    let mut be = PosixBackend::new(root());
    let dir_a = root().child(b"a".to_vec());
    put_file(&mut be, &dir_a.child(b"b".to_vec()).child(b"f".to_vec()), 100, 1);
    put_file(&mut be, &dir_a.child(b"g".to_vec()), 50, 2);
    put_file(&mut be, &root().child(b"keep".to_vec()), 7, 3);
    assert_eq!(be.usage(), 157);

    assert!(be.delete_recursive(&dir_a).is_ok());
    assert_eq!(be.usage(), 7);
    assert!(matches!(
        be.open(&dir_a.child(b"g".to_vec())),
        Err(StorageError::NotFound)
    ));
    let top = be.list(&root()).expect("list root");
    assert_eq!(top.len(), 1);
    assert_eq!(top[0].0, b"keep".to_vec());
}

#[test]
fn error_taxonomy() {
    let mut be = PosixBackend::new(root());
    let f = root().child(b"f".to_vec());
    put_file(&mut be, &f, 10, 1);

    // A file cannot be an ancestor directory.
    let under_file = f.child(b"child".to_vec());
    assert!(matches!(
        be.create_named(&under_file),
        Err(StorageError::NotADirectory)
    ));

    // Opening or listing what is not there.
    let missing = root().child(b"missing".to_vec());
    assert!(matches!(be.open(&missing), Err(StorageError::NotFound)));
    assert!(matches!(be.list(&missing), Err(StorageError::NotFound)));

    // Listing a plain file.
    assert!(matches!(be.list(&f), Err(StorageError::NotADirectory)));

    // A directory cannot be deleted by the single-file delete.
    let dir = root().child(b"d".to_vec());
    put_file(&mut be, &dir.child(b"inner".to_vec()), 1, 1);
    assert!(matches!(be.delete(&dir), Err(StorageError::Other)));
    // But the recursive delete removes it.
    assert!(be.delete_recursive(&dir).is_ok());

    // Opening a directory is not a read of a regular file.
    let dir2 = root().child(b"d2".to_vec());
    put_file(&mut be, &dir2.child(b"inner".to_vec()), 1, 1);
    assert!(matches!(be.open(&dir2), Err(StorageError::Other)));
}

#[test]
fn read_block_rejects_short_reads() {
    let mut be = PosixBackend::new(root());
    let name = root().child(b"f".to_vec());
    put_file(&mut be, &name, 10, 0x5a);
    let r = be.open(&name).unwrap();
    assert_eq!(
        r.read_block(BlockLocation { offset: 0, size: 10 }).unwrap(),
        vec![0x5au8; 10]
    );
    assert_eq!(
        r.read_block(BlockLocation { offset: 4, size: 6 }).unwrap(),
        vec![0x5au8; 6]
    );
    // One byte past the end: a short read, surfaced as an error.
    assert!(matches!(
        r.read_block(BlockLocation { offset: 4, size: 7 }),
        Err(StorageError::Other)
    ));
    assert!(matches!(
        r.read_block(BlockLocation { offset: 11, size: 0 }),
        Err(StorageError::Other)
    ));
}

#[test]
fn concurrent_style_reads_share_one_handle() {
    // Reads are positional and mutate nothing: interleaved reads of
    // disjoint and overlapping locations through one handle all return
    // exact bytes.
    let mut be = PosixBackend::new(root());
    let name = root().child(b"f".to_vec());
    let mut w = be.create_named(&name).unwrap();
    let mut data: Vec<u8> = Vec::new();
    for i in 0..1000usize {
        data.push((i % 251) as u8);
    }
    w.write_block(&mut be, data.clone()).unwrap();
    let (r, _) = w.complete(&mut be).unwrap();
    let first = r.read_block(BlockLocation { offset: 0, size: 500 }).unwrap();
    let second = r.read_block(BlockLocation { offset: 500, size: 500 }).unwrap();
    let overlap = r.read_block(BlockLocation { offset: 250, size: 500 }).unwrap();
    assert_eq!(first, data[0..500].to_vec());
    assert_eq!(second, data[500..1000].to_vec());
    assert_eq!(overlap, data[250..750].to_vec());
}
