//! Scenario tests for the file lifecycle: nested creation with read-back,
//! abandoned writers, flush-threshold behavior, and usage accounting.

use posixio::backend::PosixBackend;
use posixio::path::StoragePath;
use posixio::{BlockLocation, StorageError, FLUSH_THRESHOLD, MAX_PENDING_BLOCKS};

fn root() -> StoragePath {
    StoragePath::root()
}

#[test]
fn scenario_nested_create_write_read() {
    let mut be = PosixBackend::new(root());
    let name = root().child(b"a".to_vec()).child(b"b".to_vec()).child(b"f".to_vec());
    let mut w = be.create_named(&name).expect("create a/b/f");
    let block1 = vec![0x41u8; 1000];
    let block2 = vec![0x42u8; 2000];
    assert_eq!(w.write_block(&mut be, block1.clone()).unwrap(), block1);
    assert_eq!(w.write_block(&mut be, block2.clone()).unwrap(), block2);
    let (reader, rname) = w.complete(&mut be).expect("complete");
    assert!(rname.path_eq(&name));
    assert_eq!(reader.get_size().unwrap(), 3000);

    let r2 = be.open(&name).expect("open finalized a/b/f");
    assert_eq!(
        r2.read_block(BlockLocation { offset: 0, size: 1000 }).unwrap(),
        block1
    );
    assert_eq!(
        r2.read_block(BlockLocation { offset: 1000, size: 2000 }).unwrap(),
        block2
    );
    assert_eq!(r2.get_size().unwrap(), 3000);
}

#[test]
fn scenario_dropped_writer_leaves_nothing() {
    let mut be = PosixBackend::new(root());
    let before = be.usage();
    let name = root().child(b"x".to_vec());
    let mut w = be.create_named(&name).expect("create x");
    w.write_block(&mut be, vec![7u8; 10]).unwrap();
    w.flush(&mut be);
    w.abandon(&mut be);
    let children = be.list(&root()).expect("list root");
    assert_eq!(children.len(), 0);
    assert_eq!(be.usage(), before);
    assert!(matches!(be.open(&name), Err(StorageError::NotFound)));
}

#[test]
fn byte_threshold_flushes_before_complete() {
    let mut be = PosixBackend::new(root());
    let name = root().child(b"big".to_vec());
    let mut w = be.create_named(&name).unwrap();
    let threshold = FLUSH_THRESHOLD as usize;
    w.write_block(&mut be, vec![0u8; threshold]).unwrap();
    // Queued but not yet flushed: the tally has not moved.
    assert_eq!(be.usage(), 0);
    // The next block finds the queue at the threshold: a flush runs first,
    // observable as a usage increment strictly before complete().
    w.write_block(&mut be, vec![1u8; 1]).unwrap();
    assert_eq!(be.usage(), threshold as i64);
    let (reader, _) = w.complete(&mut be).unwrap();
    assert_eq!(be.usage(), (threshold + 1) as i64);
    assert_eq!(reader.get_size().unwrap(), (threshold + 1) as u64);
    let tail = reader
        .read_block(BlockLocation { offset: threshold as u64, size: 1 })
        .unwrap();
    assert_eq!(tail, vec![1u8]);
}

#[test]
fn block_count_threshold_flushes() {
    let mut be = PosixBackend::new(root());
    let name = root().child(b"many".to_vec());
    let mut w = be.create_named(&name).unwrap();
    for i in 0..MAX_PENDING_BLOCKS {
        w.write_block(&mut be, vec![(i % 256) as u8; 1]).unwrap();
    }
    // The queue holds the vectored-write limit, but nothing is flushed yet.
    assert_eq!(be.usage(), 0);
    w.write_block(&mut be, vec![9u8; 1]).unwrap();
    assert_eq!(be.usage(), MAX_PENDING_BLOCKS as i64);
    let (reader, _) = w.complete(&mut be).unwrap();
    assert_eq!(reader.get_size().unwrap(), (MAX_PENDING_BLOCKS + 1) as u64);
}

#[test]
fn usage_reflects_checkpointed_bytes_and_abandonment() {
    let mut be = PosixBackend::new(root());

    // Two checkpointed files totaling 800 bytes.
    let f1 = root().child(b"f1".to_vec());
    let mut w = be.create_named(&f1).unwrap();
    w.write_block(&mut be, vec![1u8; 300]).unwrap();
    let (mut r1, _) = w.complete(&mut be).unwrap();
    r1.mark_for_checkpoint();
    r1.release(&mut be);
    assert_eq!(be.usage(), 300);

    let f2 = root().child(b"f2".to_vec());
    let mut w = be.create_named(&f2).unwrap();
    w.write_block(&mut be, vec![2u8; 500]).unwrap();
    let (mut r2, _) = w.complete(&mut be).unwrap();
    r2.mark_for_checkpoint();
    r2.release(&mut be);
    assert_eq!(be.usage(), 800);

    // A writer that flushed 100 bytes and is then abandoned: the tally
    // returns to its pre-write value once the handle is released.
    let f3 = root().child(b"f3".to_vec());
    let mut w = be.create_named(&f3).unwrap();
    w.write_block(&mut be, vec![3u8; 100]).unwrap();
    w.flush(&mut be);
    assert_eq!(be.usage(), 900);
    w.abandon(&mut be);
    assert_eq!(be.usage(), 800);

    // Deleting one checkpointed file removes exactly its bytes.
    be.delete(&f1).expect("delete f1");
    assert_eq!(be.usage(), 500);
}

#[test]
fn finalized_but_unkept_file_is_deleted_on_release() {
    let mut be = PosixBackend::new(root());
    let name = root().child(b"tmp".to_vec());
    let mut w = be.create_named(&name).unwrap();
    w.write_block(&mut be, vec![5u8; 64]).unwrap();
    let (reader, _) = w.complete(&mut be).unwrap();
    assert_eq!(be.usage(), 64);
    // Freshly produced data stays deletable-on-drop until checkpointed.
    reader.release(&mut be);
    assert!(matches!(be.open(&name), Err(StorageError::NotFound)));
    assert_eq!(be.usage(), 0);
}

#[test]
fn provisional_name_is_visible_until_complete() {
    let mut be = PosixBackend::new(root());
    let name = root().child(b"f".to_vec());
    let mut w = be.create_named(&name).unwrap();
    w.write_block(&mut be, vec![1u8; 8]).unwrap();
    w.flush(&mut be);
    // Until complete() the final name does not resolve; the provisional
    // marker name does.
    assert!(matches!(be.open(&name), Err(StorageError::NotFound)));
    let children = be.list(&root()).unwrap();
    assert_eq!(children.len(), 1);
    assert_eq!(children[0].0, b"f.mut".to_vec());
    let (_, rname) = w.complete(&mut be).unwrap();
    assert!(rname.path_eq(&name));
    let children = be.list(&root()).unwrap();
    assert_eq!(children.len(), 1);
    assert_eq!(children[0].0, b"f".to_vec());
}

#[test]
fn create_truncates_existing_file() {
    let mut be = PosixBackend::new(root());
    let name = root().child(b"f".to_vec());
    let mut w = be.create_named(&name).unwrap();
    w.write_block(&mut be, vec![1u8; 100]).unwrap();
    let (mut r, _) = w.complete(&mut be).unwrap();
    r.mark_for_checkpoint();
    r.release(&mut be);

    let mut w = be.create_named(&name).unwrap();
    w.write_block(&mut be, vec![2u8; 3]).unwrap();
    let (mut r, _) = w.complete(&mut be).unwrap();
    r.mark_for_checkpoint();
    r.release(&mut be);

    let r = be.open(&name).unwrap();
    assert_eq!(r.get_size().unwrap(), 3);
    assert_eq!(
        r.read_block(BlockLocation { offset: 0, size: 3 }).unwrap(),
        vec![2u8; 3]
    );
}

#[test]
fn file_identities_are_minted_monotonically() {
    let mut be = PosixBackend::new(root());
    let a = root().child(b"a".to_vec());
    let b = root().child(b"b".to_vec());
    let wa = be.create_named(&a).unwrap();
    let wb = be.create_named(&b).unwrap();
    assert_eq!(wa.file_id(), 0);
    assert_eq!(wb.file_id(), 1);
    let (ra, _) = wa.complete(&mut be).unwrap();
    assert_eq!(ra.file_id(), 0);
    let rb = be.open(&a).unwrap();
    assert_eq!(rb.file_id(), 2);
}
