use schred::walker::decimal_string;
use schred::{DataGenerator, PassKind, ShredError, ShredOptions, Shredder, TargetKind, Visit, BLOCK_SIZE};

/// A deterministic byte sequence that is far from all zeros.
fn noisy_bytes(len: usize) -> Vec<u8> {
    let mut state: u32 = 0x2545_f491;
    let mut out = Vec::with_capacity(len);
    for _ in 0..len {
        state ^= state << 13;
        state ^= state >> 17;
        state ^= state << 5;
        out.push((state % 251) as u8 + 1);
    }
    out
}

/// Runs every pass of `shredder` over an in-memory file, letting each write
/// take at most `max_write` bytes. Returns the length of every write made.
fn shred_in_memory(shredder: &Shredder, file: &mut Vec<u8>, max_write: usize) -> Result<Vec<usize>, ShredError> {
    let mut job = shredder.file_shred(file.len());
    let mut writes = Vec::new();
    while !job.is_done() {
        let mut pos = 0usize;
        while !job.pass_complete() {
            job.prepare_block()?;
            let n = job.chunk_len().min(max_write);
            file[pos..pos + n].copy_from_slice(&job.block()[..n]);
            pos += n;
            writes.push(n);
            job.record_written(n)?;
        }
        job.finish_pass();
    }
    Ok(writes)
}

/// An in-memory file tree.
enum Node {
    File(Vec<u8>),
    Dir(Vec<Node>),
}

/// Shreds `node` as the file system driver does; returns whether the node
/// was removed.
fn shred_tree(shredder: &Shredder, node: &mut Node) -> Result<bool, ShredError> {
    let kind = match node {
        Node::File(_) => TargetKind::File,
        Node::Dir(_) => TargetKind::Directory,
    };
    match shredder.visit(kind)? {
        Visit::ShredFile => {
            if let Node::File(bytes) = node {
                shred_in_memory(shredder, bytes, usize::MAX)?;
            }
            Ok(shredder.removes_after())
        }
        Visit::ExpandDirectory => {
            if let Node::Dir(children) = node {
                let mut kept = Vec::new();
                for mut child in children.drain(..) {
                    if !shred_tree(shredder, &mut child)? {
                        kept.push(child);
                    }
                }
                *children = kept;
                Ok(shredder.removes_after() && children.is_empty())
            } else {
                Ok(false)
            }
        }
    }
}

fn verbose_defaults() -> ShredOptions {
    ShredOptions { verbose: true, ..Default::default() }
}

#[test]
fn directory_without_recursive() {
    let s = Shredder::new(ShredOptions::default());
    assert!(s.visit(TargetKind::Directory).is_err());
}

#[test]
fn path_doesnt_exist() {
    let s = Shredder::new(ShredOptions::default());
    assert!(s.visit(TargetKind::Absent).is_err());
}

#[test]
fn shred_32kib_file() {
    let s = Shredder::new(verbose_defaults());
    let mut file = noisy_bytes(32768);
    shred_in_memory(&s, &mut file, usize::MAX).unwrap();
    assert!(file.iter().all(|&b| b == 0));
}

#[test]
fn shred_43001_byte_file() {
    let s = Shredder::new(verbose_defaults());
    let mut file = noisy_bytes(43001);
    shred_in_memory(&s, &mut file, usize::MAX).unwrap();
    assert_eq!(file.len(), 43001);
    assert!(file.iter().all(|&b| b == 0));
}

#[test]
fn deallocate_after_shred() {
    let s = Shredder::new(ShredOptions { verbose: true, deallocate: true, ..Default::default() });
    let mut file = Node::File(noisy_bytes(32768));
    assert!(shred_tree(&s, &mut file).unwrap());
}

#[test]
fn explicit_passes_43001_bytes_end_zeroed() {
    let s = Shredder::new(ShredOptions {
        verbose: false,
        deallocate: false,
        recursive: false,
        zero_passes: 1,
        rand_passes: 2,
    });
    let mut file = noisy_bytes(43001);
    let writes = shred_in_memory(&s, &mut file, usize::MAX).unwrap();
    assert_eq!(writes, vec![16384, 16384, 10233, 16384, 16384, 10233, 16384, 16384, 10233]);
    assert_eq!(file.len(), 43001);
    assert!(file.iter().all(|&b| b == 0));
}

#[test]
fn zero_only_pass_with_deallocate_removes_file() {
    let s = Shredder::new(ShredOptions {
        verbose: false,
        deallocate: true,
        recursive: false,
        zero_passes: 1,
        rand_passes: 0,
    });
    let mut file = Node::File(noisy_bytes(32768));
    assert!(shred_tree(&s, &mut file).unwrap());
}

#[test]
fn directory_with_one_file_is_removed() {
    let s = Shredder::new(ShredOptions { recursive: true, deallocate: true, ..Default::default() });
    let mut dir = Node::Dir(vec![Node::File(noisy_bytes(1000))]);
    assert!(shred_tree(&s, &mut dir).unwrap());
}

#[test]
fn nested_tree_is_removed_entirely() {
    let s = Shredder::new(ShredOptions { recursive: true, deallocate: true, ..Default::default() });
    let mut tree = Node::Dir(vec![
        Node::File(noisy_bytes(10)),
        Node::Dir(vec![Node::File(noisy_bytes(20000)), Node::Dir(vec![])]),
        Node::File(Vec::new()),
    ]);
    assert!(shred_tree(&s, &mut tree).unwrap());
}

#[test]
fn recursive_without_deallocate_keeps_tree_and_zeroes_files() {
    let s = Shredder::new(ShredOptions { recursive: true, ..Default::default() });
    let mut tree = Node::Dir(vec![Node::File(noisy_bytes(300)), Node::Dir(vec![Node::File(noisy_bytes(17000))])]);
    assert!(!shred_tree(&s, &mut tree).unwrap());
    match &tree {
        Node::Dir(children) => {
            assert_eq!(children.len(), 2);
            match &children[0] {
                Node::File(bytes) => assert!(bytes.len() == 300 && bytes.iter().all(|&b| b == 0)),
                Node::Dir(_) => panic!("expected a file"),
            }
        }
        Node::File(_) => panic!("expected a directory"),
    }
}

#[test]
fn reshredding_zero_file_keeps_it_zero() {
    let s = Shredder::new(ShredOptions::default());
    let mut file = vec![0u8; 20000];
    shred_in_memory(&s, &mut file, usize::MAX).unwrap();
    assert_eq!(file, vec![0u8; 20000]);
    shred_in_memory(&s, &mut file, usize::MAX).unwrap();
    assert_eq!(file, vec![0u8; 20000]);
}

#[test]
fn short_writes_still_cover_the_file() {
    let s = Shredder::new(ShredOptions { rand_passes: 1, zero_passes: 2, ..Default::default() });
    let mut file = noisy_bytes(5000);
    let writes = shred_in_memory(&s, &mut file, 1500).unwrap();
    assert_eq!(writes, vec![1500, 1500, 1500, 500, 1500, 1500, 1500, 500, 1500, 1500, 1500, 500]);
    assert!(file.iter().all(|&b| b == 0));
}

#[test]
fn empty_plan_leaves_file_unchanged() {
    let s = Shredder::new(ShredOptions { rand_passes: 0, zero_passes: 0, ..Default::default() });
    let original = noisy_bytes(700);
    let mut file = original.clone();
    let writes = shred_in_memory(&s, &mut file, usize::MAX).unwrap();
    assert!(writes.is_empty());
    assert_eq!(file, original);
}

#[test]
fn empty_file_needs_no_write() {
    let s = Shredder::new(ShredOptions::default());
    let mut file = Vec::new();
    let writes = shred_in_memory(&s, &mut file, usize::MAX).unwrap();
    assert!(writes.is_empty());
    assert!(file.is_empty());
}

#[test]
fn random_only_plan_changes_the_file() {
    let s = Shredder::new(ShredOptions { rand_passes: 1, zero_passes: 0, ..Default::default() });
    let mut file = vec![0u8; 4096];
    shred_in_memory(&s, &mut file, usize::MAX).unwrap();
    assert_eq!(file.len(), 4096);
    assert!(file.iter().any(|&b| b != 0));
}

#[test]
fn plan_puts_random_passes_first() {
    let s = Shredder::new(ShredOptions { rand_passes: 2, zero_passes: 3, ..Default::default() });
    let mut job = s.file_shred(10);
    assert_eq!(job.total_passes(), 5);
    let mut kinds = Vec::new();
    while !job.is_done() {
        kinds.push(job.current_kind());
        while !job.pass_complete() {
            job.prepare_block().unwrap();
            let n = job.chunk_len();
            job.record_written(n).unwrap();
        }
        job.finish_pass();
    }
    assert_eq!(
        kinds,
        vec![PassKind::Random, PassKind::Random, PassKind::Zero, PassKind::Zero, PassKind::Zero]
    );
    let full = schred::plan::plan_passes(&ShredOptions { rand_passes: 255, zero_passes: 255, ..Default::default() });
    assert_eq!(full.len(), 510);
    assert_eq!(full[254], PassKind::Random);
    assert_eq!(full[255], PassKind::Zero);
}

#[test]
fn impossible_write_counts_are_refused() {
    let s = Shredder::new(ShredOptions::default());
    let mut job = s.file_shred(100);
    job.prepare_block().unwrap();
    assert_eq!(job.chunk_len(), 100);
    assert_eq!(job.record_written(0), Err(ShredError::IoFailure));
    assert_eq!(job.record_written(101), Err(ShredError::IoFailure));
    assert_eq!(job.record_written(100), Ok(()));
    assert!(job.pass_complete());
    assert_eq!(job.chunk_len(), 0);
}

#[test]
fn visit_decisions() {
    let quiet = Shredder::new(ShredOptions::default());
    assert_eq!(quiet.visit(TargetKind::Directory), Err(ShredError::DirectoryWithoutRecursive));
    assert_eq!(quiet.visit(TargetKind::Absent), Err(ShredError::PathDoesntExist));
    assert_eq!(quiet.visit(TargetKind::File), Ok(Visit::ShredFile));
    let deep = Shredder::new(ShredOptions { recursive: true, ..Default::default() });
    assert_eq!(deep.visit(TargetKind::Directory), Ok(Visit::ExpandDirectory));
    assert_eq!(deep.visit(TargetKind::Absent), Err(ShredError::PathDoesntExist));
    assert!(!deep.removes_after());
}

#[test]
fn directory_without_recursive_touches_no_child() {
    let s = Shredder::new(ShredOptions::default());
    let child = noisy_bytes(50);
    let mut dir = Node::Dir(vec![Node::File(child.clone())]);
    assert_eq!(shred_tree(&s, &mut dir), Err(ShredError::DirectoryWithoutRecursive));
    match &dir {
        Node::Dir(children) => match &children[0] {
            Node::File(bytes) => assert_eq!(bytes, &child),
            Node::Dir(_) => panic!("expected a file"),
        },
        Node::File(_) => panic!("expected a directory"),
    }
}

#[test]
fn default_options() {
    let o = ShredOptions::default();
    assert!(!o.verbose && !o.deallocate && !o.recursive);
    assert_eq!(o.zero_passes, 1);
    assert_eq!(o.rand_passes, 2);
}

#[test]
fn messages_follow_verbosity() {
    let loud = Shredder::new(verbose_defaults());
    let quiet = Shredder::new(ShredOptions::default());
    assert_eq!(loud.log("hello"), Some("schred: hello".to_string()));
    assert_eq!(quiet.log("hello"), None);
    assert_eq!(quiet.error("bad"), "schred: ERROR: bad");
    assert_eq!(loud.shred_started("/tmp/a"), Some("schred: Starting shred of file: /tmp/a".to_string()));
    assert_eq!(loud.removed("/tmp/a"), Some("schred: Removed /tmp/a".to_string()));
    assert_eq!(quiet.removed("/tmp/a"), None);
    assert_eq!(
        quiet.removal_failed("/tmp/a", "permission denied"),
        "schred: ERROR: Failed to remove /tmp/a: permission denied"
    );
    assert_eq!(
        loud.pass_started(1, 3, PassKind::Random),
        Some("schred: Pass 1/3: wiping with random data".to_string())
    );
    assert_eq!(loud.pass_started(3, 3, PassKind::Zero), Some("schred: Pass 3/3: wiping with zeros".to_string()));
    assert_eq!(quiet.pass_started(3, 3, PassKind::Zero), None);
}

#[test]
fn decimal_rendering() {
    assert_eq!(decimal_string(0), "0");
    assert_eq!(decimal_string(7), "7");
    assert_eq!(decimal_string(10), "10");
    assert_eq!(decimal_string(510), "510");
    assert_eq!(decimal_string(1234567), "1234567");
}

#[test]
fn generated_blocks() {
    let z = DataGenerator::zero();
    assert_eq!(z.len(), BLOCK_SIZE);
    assert_eq!(BLOCK_SIZE, 16384);
    assert!(z.iter().all(|&b| b == 0));
    let a = DataGenerator::random().unwrap();
    let b = DataGenerator::random().unwrap();
    assert!(a.iter().any(|&x| x != 0));
    assert!(a[..] != b[..]);
}
