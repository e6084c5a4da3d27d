use index_coverage::coverage::{count_blocks, entries_per_block};

#[test]
fn entries_per_block_is_the_larger_of_fit_and_branch() {
    let triples: [(u64, u64, u64, u64); 8] = [
        (8192, 32, 32, 256),
        (8192, 6, 32, 1365),
        (8192, 12, 32, 682),
        (8192, 5, 32, 1638),
        (8192, 131072, 32, 32),
        (4096, 4096, 1, 1),
        (100, 7, 14, 14),
        (100, 7, 15, 15),
    ];
    for (min_block, entry_size, min_branch, expected) in triples {
        assert_eq!(entries_per_block(min_block, entry_size, min_branch), expected);
        assert_eq!(
            entries_per_block(min_block, entry_size, min_branch),
            (min_block / entry_size).max(min_branch)
        );
    }
}

#[test]
fn entries_per_block_of_a_tiny_block_is_the_branching_factor() {
    assert_eq!(entries_per_block(0, 1, 4), 4);
    assert_eq!(entries_per_block(1, 2, 4), 4);
    assert_eq!(entries_per_block(0, 9, 0), 0);
}

#[test]
fn count_blocks_rounds_up() {
    assert_eq!(count_blocks(0, 1), 0);
    assert_eq!(count_blocks(0, 7), 0);
    assert_eq!(count_blocks(1, 7), 1);
    assert_eq!(count_blocks(7, 7), 1);
    assert_eq!(count_blocks(8, 7), 2);
    assert_eq!(count_blocks(14, 7), 2);
    assert_eq!(count_blocks(15, 7), 3);
    assert_eq!(count_blocks(68719476736, 131072), 524288);
    assert_eq!(count_blocks(68719476736, 2199023255552), 1);
}

#[test]
fn count_blocks_at_the_limits() {
    assert_eq!(count_blocks(u64::MAX, 1), u64::MAX);
    assert_eq!(count_blocks(u64::MAX, 2), 1 << 63);
    assert_eq!(count_blocks(u64::MAX, u64::MAX), 1);
    assert_eq!(count_blocks(u64::MAX - 1, u64::MAX), 1);
}
