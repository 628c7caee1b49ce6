//! Whole-lifecycle tests: write a file in blocks, finalize it, read every
//! block back, and check that checkpointing keeps the file while plain
//! release deletes it and returns the usage tally to zero.

use posixio::backend::PosixBackend;
use posixio::path::StoragePath;
use posixio::{BlockLocation, StorageError};

fn file_name() -> StoragePath {
    StoragePath::root().child(b"test.dat".to_vec())
}

/// Writes one file of the given block sizes, finalizes it, reads each
/// block back at its recorded offset, then either checkpoints the file
/// (it must survive release, with the tally unchanged) or releases it
/// unkept (it must be gone, with the tally back at zero).
fn test_backend(sizes: &[usize], keep: bool) {
    let mut be = PosixBackend::new(StoragePath::root());
    assert_eq!(be.usage(), 0);
    let name = file_name();
    let mut w = be.create_named(&name).expect("create");

    let mut blocks: Vec<Vec<u8>> = Vec::new();
    let mut total: usize = 0;
    for (i, sz) in sizes.iter().enumerate() {
        let mut block: Vec<u8> = Vec::with_capacity(*sz);
        for j in 0..*sz {
            block.push(((i + j) % 251) as u8);
        }
        let returned = w.write_block(&mut be, block.clone()).expect("write_block");
        assert_eq!(returned, block);
        total += *sz;
        blocks.push(block);
    }

    let (mut reader, returned_name) = w.complete(&mut be).expect("complete");
    assert!(returned_name.path_eq(&name));
    assert_eq!(reader.get_size().unwrap(), total as u64);
    assert_eq!(be.usage(), total as i64);

    let mut offset: u64 = 0;
    for block in &blocks {
        let got = reader
            .read_block(BlockLocation { offset, size: block.len() })
            .expect("read_block");
        assert_eq!(&got, block);
        offset += block.len() as u64;
    }

    if keep {
        reader.mark_for_checkpoint();
        reader.release(&mut be);
        assert_eq!(be.usage(), total as i64);
        let r2 = be.open(&name).expect("open after checkpoint");
        assert_eq!(r2.get_size().unwrap(), total as u64);
        r2.release(&mut be);
        assert_eq!(be.usage(), total as i64);
    } else {
        reader.release(&mut be);
        assert!(matches!(be.open(&name), Err(StorageError::NotFound)));
        assert_eq!(be.usage(), 0);
    }
}

fn random_sizes() -> Vec<usize> {
    let mut sizes: Vec<usize> = Vec::new();
    let mut state: u64 = 0x9e3779b97f4a7c15;
    for _ in 0..200 {
        state = state
            .wrapping_mul(6364136223846793005)
            .wrapping_add(1442695040888963407);
        sizes.push(((state >> 33) % 5000) as usize);
    }
    sizes
}

/// Write 10 MiB total in 1 KiB chunks, enough to cross the 1 MiB flush
/// threshold many times, and keep the result.
#[test]
fn sequential_1024() {
    test_backend(&[1024; 1024 * 10], true)
}

/// Verify that files get deleted if not marked for a checkpoint.
#[test]
fn delete_1024() {
    test_backend(&[1024; 1024 * 10], false)
}

#[test]
fn sequential_random() {
    test_backend(&random_sizes(), true);
}

#[test]
fn empty() {
    test_backend(&[], true);
}
