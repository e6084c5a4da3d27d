use index_coverage::error::ConfigError;
use index_coverage::index::{Index, IndexType};
use index_coverage::params::Params;

fn params(total_data_size: u64, value_size: u64) -> Params {
    Params {
        total_data_size,
        value_size,
        min_data_block: 8192,
        min_index_block: 8192,
        min_branch: 32,
    }
}

#[test]
fn total_values_truncates() {
    assert_eq!(params(1 << 40, 16).total_values(), 1 << 36);
    assert_eq!(params(1000, 16).total_values(), 62);
    assert_eq!(params(1000, 3).total_values(), 333);
    assert_eq!(params(15, 16).total_values(), 0);
    assert_eq!(params(0, 16).total_values(), 0);
}

#[test]
fn with_value_size_changes_only_the_value_size() {
    let base = params(1 << 40, 16);
    let other = base.with_value_size(4096);
    assert_eq!(other.value_size, 4096);
    assert_eq!(other.total_data_size, base.total_data_size);
    assert_eq!(other.min_data_block, base.min_data_block);
    assert_eq!(other.min_index_block, base.min_index_block);
    assert_eq!(other.min_branch, base.min_branch);
}

#[test]
fn data_index_of_one_terabyte_of_16_byte_values() {
    let params = params(1 << 40, 16);
    let index = Index::new(&params, IndexType::Data, 32, 512);
    assert_eq!(index.params, params);
    assert_eq!(index.index_type, IndexType::Data);
    assert_eq!(index.index_entry_size, 32);
    assert_eq!(index.base_coverage, 512);
    assert_eq!(index.entries_per_block, 256);
    assert_eq!(index.block_size, 8192);
    assert_eq!(index.coverage, vec![131072, 33554432, 8589934592, 2199023255552]);
    assert_eq!(index.height, 4);
    assert_eq!(index.total_index_blocks(), 526345);
    assert_eq!(index.total_size(), 4311818240);
    assert_eq!(index.checked_total_size(), Some(4311818240));
}

#[test]
fn other_indexes_of_one_terabyte_of_16_byte_values() {
    let params = params(1 << 40, 16);

    let c1row = Index::new(&params, IndexType::C1Row, 6, 512);
    assert_eq!(c1row.entries_per_block, 1365);
    assert_eq!(c1row.block_size, 8190);
    assert_eq!(c1row.coverage, vec![698880, 953971200, 1302170688000]);
    assert_eq!(c1row.height, 3);
    assert_eq!(c1row.total_size(), 805920570);

    let row = Index::new(&params, IndexType::Row, 12, 512);
    assert_eq!(row.entries_per_block, 682);
    assert_eq!(row.block_size, 8184);
    assert_eq!(row.coverage, vec![349184, 238143488, 162413858816]);
    assert_eq!(row.height, 3);
    assert_eq!(row.total_size(), 1612992744);

    let filter = Index::new(&params, IndexType::Filter, 5, 65536);
    assert_eq!(filter.entries_per_block, 1638);
    assert_eq!(filter.block_size, 8190);
    assert_eq!(filter.coverage, vec![107347968, 175835971584]);
    assert_eq!(filter.height, 2);
    assert_eq!(filter.total_size(), 5257980);
}

#[test]
fn height_is_zero_exactly_when_the_base_covers_everything() {
    // 62 values, base coverage 512.
    let covered = Index::new(&params(1000, 16), IndexType::Data, 32, 512);
    assert_eq!(covered.height, 0);
    assert!(covered.coverage.is_empty());
    assert_eq!(covered.total_index_blocks(), 0);
    assert_eq!(covered.total_size(), 0);

    // Base coverage equal to the number of values.
    let exact = Index::new(&params(16 * 512, 16), IndexType::Data, 32, 512);
    assert_eq!(exact.height, 0);

    // One value more than the base covers.
    let over = Index::new(&params(16 * 513, 16), IndexType::Data, 32, 512);
    assert_eq!(over.height, 1);
    assert_eq!(over.coverage, vec![131072]);
    assert_eq!(over.total_size(), 8192);

    // No values at all.
    let empty = Index::new(&params(0, 16), IndexType::Data, 32, 1);
    assert_eq!(empty.height, 0);
}

#[test]
fn coverage_grows_strictly_and_stops_at_the_total() {
    for exponent in 0..=50u32 {
        for (entry_size, base) in [(32u64, 512u64), (6, 512), (12, 512), (5, 65536), (4000, 1)] {
            let params = params(1 << exponent, 16);
            let total = params.total_values();
            let index = Index::new(&params, IndexType::Row, entry_size, base);
            assert_eq!(index.height, index.coverage.len());
            assert_eq!(index.height == 0, base >= total);
            let mut below = base;
            for (level, &covered) in index.coverage.iter().enumerate() {
                assert_eq!(covered, below * index.entries_per_block);
                assert!(covered > below);
                if level + 1 < index.height {
                    assert!(covered < total);
                } else {
                    assert!(covered >= total);
                }
                below = covered;
            }
        }
    }
}

#[test]
fn total_size_never_shrinks_when_the_data_grows() {
    for (entry_size, base) in [(32u64, 512u64), (6, 512), (5, 65536), (2048, 3)] {
        let mut previous = 0;
        let mut previous_height = 0;
        for step in 0..400u64 {
            let params = params(step * step * step * 4099, 16);
            let index = Index::new(&params, IndexType::Data, entry_size, base);
            let size = index.total_size();
            assert!(size >= previous);
            assert!(index.height >= previous_height);
            previous = size;
            previous_height = index.height;
        }
    }
}

#[test]
fn total_size_counts_a_partly_used_block_as_a_whole_one() {
    let params = Params {
        total_data_size: 100000,
        value_size: 3,
        min_data_block: 100,
        min_index_block: 100,
        min_branch: 4,
    };
    // 33333 values; 14 entries of 7 bytes per block.
    let index = Index::new(&params, IndexType::Data, 7, 10);
    assert_eq!(index.entries_per_block, 14);
    assert_eq!(index.block_size, 98);
    assert_eq!(index.coverage, vec![140, 1960, 27440, 384160]);
    // 239 + 18 + 2 + 1 blocks.
    assert_eq!(index.total_index_blocks(), 260);
    assert_eq!(index.total_size(), 25480);
}

#[test]
fn try_new_agrees_with_new() {
    let params = params(1 << 40, 16);
    let built = Index::try_new(&params, IndexType::Filter, 5, 65536).unwrap();
    let index = Index::new(&params, IndexType::Filter, 5, 65536);
    assert_eq!(built.params, index.params);
    assert_eq!(built.index_type, index.index_type);
    assert_eq!(built.index_entry_size, index.index_entry_size);
    assert_eq!(built.base_coverage, index.base_coverage);
    assert_eq!(built.entries_per_block, index.entries_per_block);
    assert_eq!(built.block_size, index.block_size);
    assert_eq!(built.coverage, index.coverage);
    assert_eq!(built.height, index.height);
}

#[test]
fn try_new_rejects_a_zero_value_size() {
    let built = Index::try_new(&params(1 << 40, 0), IndexType::Data, 32, 512);
    assert_eq!(built.err(), Some(ConfigError::ZeroValueSize));
}

#[test]
fn try_new_rejects_a_zero_entry_size() {
    let built = Index::try_new(&params(1 << 40, 16), IndexType::Data, 0, 512);
    assert_eq!(built.err(), Some(ConfigError::ZeroEntrySize));
}

#[test]
fn try_new_rejects_a_zero_base_coverage() {
    let built = Index::try_new(&params(1 << 40, 16), IndexType::Data, 32, 0);
    assert_eq!(built.err(), Some(ConfigError::ZeroBaseCoverage));
}

#[test]
fn try_new_rejects_a_fanout_of_one() {
    let narrow = Params {
        total_data_size: 1 << 40,
        value_size: 16,
        min_data_block: 8192,
        min_index_block: 32,
        min_branch: 1,
    };
    let built = Index::try_new(&narrow, IndexType::Data, 32, 512);
    assert_eq!(built.err(), Some(ConfigError::FanoutTooSmall));

    let none = Params { min_index_block: 8, min_branch: 0, ..narrow };
    let built = Index::try_new(&none, IndexType::Data, 32, 512);
    assert_eq!(built.err(), Some(ConfigError::FanoutTooSmall));

    // Also where the base already covers all the values.
    let small = Params { total_data_size: 16, ..narrow };
    let built = Index::try_new(&small, IndexType::Data, 32, 512);
    assert_eq!(built.err(), Some(ConfigError::FanoutTooSmall));

    // A fanout of two is enough.
    let two = Params { min_branch: 2, ..narrow };
    let built = Index::try_new(&two, IndexType::Data, 32, 512).unwrap();
    assert_eq!(built.entries_per_block, 2);
    assert_eq!(built.coverage.len(), 27);
}

#[test]
fn try_new_rejects_a_block_size_beyond_u64() {
    let built = Index::try_new(&params(1 << 40, 16), IndexType::Data, 1 << 60, 512);
    assert_eq!(built.err(), Some(ConfigError::BlockSizeOverflow));
}

#[test]
fn try_new_rejects_a_coverage_beyond_u64() {
    // 2^63 + 1 values; coverage goes 2^62, then beyond a u64.
    let huge = Params {
        total_data_size: (1 << 63) + 1,
        value_size: 1,
        min_data_block: 8192,
        min_index_block: 8,
        min_branch: 4,
    };
    let built = Index::try_new(&huge, IndexType::Data, 4, 1 << 60);
    assert_eq!(built.err(), Some(ConfigError::CoverageOverflow));

    // With 2^62 values the same index needs one level.
    let fits = Params { total_data_size: 1 << 62, ..huge };
    let built = Index::try_new(&fits, IndexType::Data, 4, 1 << 60).unwrap();
    assert_eq!(built.coverage, vec![1 << 62]);
}

#[test]
fn checked_total_size_is_none_beyond_u64() {
    // 2^63 values over a base of one: 2^62 blocks of 2^62 bytes at level 1.
    let params = Params {
        total_data_size: 1 << 63,
        value_size: 1,
        min_data_block: 8192,
        min_index_block: 8,
        min_branch: 2,
    };
    let index = Index::new(&params, IndexType::Data, 1 << 61, 1);
    assert_eq!(index.entries_per_block, 2);
    assert_eq!(index.block_size, 1 << 62);
    assert_eq!(index.height, 63);
    assert_eq!(index.total_index_blocks(), (1 << 63) - 1);
    assert_eq!(index.checked_total_size(), None);
}

#[test]
fn index_type_names() {
    assert_eq!(IndexType::Data.name(), "data");
    assert_eq!(IndexType::C1Row.name(), "c1row");
    assert_eq!(IndexType::Row.name(), "row");
    assert_eq!(IndexType::Filter.name(), "filter");
}

#[test]
fn index_type_entry_sizes() {
    assert_eq!(IndexType::Data.entry_size(16), Some(32));
    assert_eq!(IndexType::Data.entry_size(65536), Some(131072));
    assert_eq!(IndexType::Data.entry_size((1 << 63) - 1), Some(u64::MAX - 1));
    assert_eq!(IndexType::Data.entry_size(1 << 63), None);
    for value_size in [1u64, 16, 65536, u64::MAX] {
        assert_eq!(IndexType::C1Row.entry_size(value_size), Some(6));
        assert_eq!(IndexType::Row.entry_size(value_size), Some(12));
        assert_eq!(IndexType::Filter.entry_size(value_size), Some(5));
    }
}

#[test]
fn index_type_base_coverages() {
    for values_per_data_block in [1u64, 32, 512, 65536, 1 << 40] {
        assert_eq!(IndexType::Data.base_coverage(values_per_data_block), values_per_data_block);
        assert_eq!(IndexType::C1Row.base_coverage(values_per_data_block), values_per_data_block);
        assert_eq!(IndexType::Row.base_coverage(values_per_data_block), values_per_data_block);
        assert_eq!(IndexType::Filter.base_coverage(values_per_data_block), 65536);
    }
}

#[test]
fn index_type_positions() {
    assert_eq!(IndexType::Data.position(), 0);
    assert_eq!(IndexType::C1Row.position(), 1);
    assert_eq!(IndexType::Row.position(), 2);
    assert_eq!(IndexType::Filter.position(), 3);
}
