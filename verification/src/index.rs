//! One index of a layer file: its fanout, its height and the coverage of
//! each of its levels.

use vstd::prelude::*;
use vstd::arithmetic::div_mod::lemma_div_is_ordered;
use crate::coverage::{
    count_blocks, coverage_fits, entries_per_block, fanout, is_height, level_coverage,
    lemma_coverage_fits, lemma_height_monotonic, lemma_level_coverage_increases,
    lemma_level_coverage_strictly_increases, lemma_total_blocks_monotonic, total_blocks,
};
use crate::error::ConfigError;
use crate::params::Params;

verus! {

/// The kinds of index that a layer file holds.
#[derive(Clone, Copy, Debug, PartialEq, Eq, Structural)]
pub enum IndexType {
    /// Data values.
    Data,
    /// Column 1 row number.
    C1Row,
    /// Row number in columns other than 1.
    Row,
    /// Filter.
    Filter,
}

impl IndexType {
    /// The size in bytes of one entry of an index of this kind, for values of
    /// `value_size` bytes.
    ///
    /// An entry of the data index holds two values, the first and the last
    /// of the child block.  An entry of the row index in column 1 holds the
    /// child block's offset and size and whether it is an index or a data
    /// block.  In other columns it also holds the child's first row number.
    pub open spec fn spec_entry_size(self, value_size: u64) -> nat {
        match self {
            IndexType::Data => 2 * (value_size as nat),
            IndexType::C1Row => 6,
            IndexType::Row => 12,
            IndexType::Filter => 5,
        }
    }

    /// The number of values beneath one entry of the lowest level of an
    /// index of this kind: a data block, but for the filter index, whose
    /// entries summarise a fixed span of values.
    pub open spec fn spec_base_coverage(self, values_per_data_block: u64) -> u64 {
        match self {
            IndexType::Filter => 65536,
            _ => values_per_data_block,
        }
    }

    /// The place of this kind among the indexes of a layer file.
    pub open spec fn spec_position(self) -> int {
        match self {
            IndexType::Data => 0,
            IndexType::C1Row => 1,
            IndexType::Row => 2,
            IndexType::Filter => 3,
        }
    }

    /// The name of this kind, as a table of indexes shows it.
    pub open spec fn spec_name(self) -> Seq<char> {
        match self {
            IndexType::Data => "data"@,
            IndexType::C1Row => "c1row"@,
            IndexType::Row => "row"@,
            IndexType::Filter => "filter"@,
        }
    }

    /// Returns the name of this kind, as a table of indexes shows it.
    pub fn name(self) -> (name: &'static str)
        ensures
            name@ == self.spec_name(),
    {
        match self {
            IndexType::Data => "data",
            IndexType::C1Row => "c1row",
            IndexType::Row => "row",
            IndexType::Filter => "filter",
        }
    }

    /// Returns the size in bytes of one entry of an index of this kind, or
    /// `None` where it exceeds a `u64`.
    pub fn entry_size(self, value_size: u64) -> (size: Option<u64>)
        ensures
            match size {
                Some(bytes) => bytes == self.spec_entry_size(value_size),
                None => self.spec_entry_size(value_size) > u64::MAX,
            },
    {
        match self {
            IndexType::Data => value_size.checked_mul(2),
            IndexType::C1Row => Some(6),
            IndexType::Row => Some(12),
            IndexType::Filter => Some(5),
        }
    }

    /// Returns the number of values beneath one entry of the lowest level of
    /// an index of this kind.
    pub fn base_coverage(self, values_per_data_block: u64) -> (values: u64)
        ensures
            values == self.spec_base_coverage(values_per_data_block),
            self == IndexType::Filter ==> values == 65536,
            self != IndexType::Filter ==> values == values_per_data_block,
    {
        match self {
            IndexType::Filter => 65536,
            _ => values_per_data_block,
        }
    }

    /// Returns the place of this kind among the indexes of a layer file.
    pub fn position(self) -> (place: usize)
        ensures
            place == self.spec_position(),
            place < 4,
    {
        match self {
            IndexType::Data => 0,
            IndexType::C1Row => 1,
            IndexType::Row => 2,
            IndexType::Filter => 3,
        }
    }
}

/// The sizing of one index.
#[derive(Debug)]
pub struct Index {
    pub params: Params,
    pub index_type: IndexType,
    /// Size of each index entry in bytes.
    pub index_entry_size: u64,
    /// Number of values covered by the unit that an entry of the lowest
    /// index level points at.
    pub base_coverage: u64,
    /// Number of `index_entry_size` items that fit in an index block.
    pub entries_per_block: u64,
    /// Size of an index block.
    pub block_size: u64,
    /// `coverage[0]` is the number of values covered by a level-1 index
    /// block, `coverage[1]` by a level-2 index block, and so on.  There are
    /// as many elements as necessary so that the final element is greater
    /// than or equal to the total number of values.
    pub coverage: Vec<u64>,
    /// Height of the index.  Same as `coverage.len()`.
    pub height: usize,
}

impl Index {
    /// Entries per block of an index with entries of `index_entry_size`
    /// bytes.
    pub open spec fn spec_entries_per_block(params: Params, index_entry_size: u64) -> nat {
        fanout(params.min_index_block as nat, index_entry_size as nat, params.min_branch as nat)
    }

    /// The first reason, if any, for which the inputs describe no index.
    pub open spec fn build_error(
        params: Params,
        index_entry_size: u64,
        base_coverage: u64,
    ) -> Option<ConfigError> {
        let entries = Self::spec_entries_per_block(params, index_entry_size);
        if params.value_size == 0 {
            Some(ConfigError::ZeroValueSize)
        } else if index_entry_size == 0 {
            Some(ConfigError::ZeroEntrySize)
        } else if base_coverage == 0 {
            Some(ConfigError::ZeroBaseCoverage)
        } else if entries <= 1 {
            Some(ConfigError::FanoutTooSmall)
        } else if index_entry_size * entries > u64::MAX {
            Some(ConfigError::BlockSizeOverflow)
        } else if !coverage_fits(base_coverage as nat, entries, params.spec_total_values()) {
            Some(ConfigError::CoverageOverflow)
        } else {
            None
        }
    }

    /// The inputs describe an index: the sizes and the base coverage are
    /// positive, a block holds at least two entries, and the block size and
    /// the coverage of every level fit in a `u64`.
    pub open spec fn buildable(params: Params, index_entry_size: u64, base_coverage: u64) -> bool {
        Self::build_error(params, index_entry_size, base_coverage) is None
    }

    /// The fields agree with each other: the index is the one that its own
    /// parameters, entry size and base coverage describe.
    pub open spec fn wf(&self) -> bool {
        let entries = self.entries_per_block as nat;
        let base = self.base_coverage as nat;
        &&& Self::buildable(self.params, self.index_entry_size, self.base_coverage)
        &&& entries == Self::spec_entries_per_block(self.params, self.index_entry_size)
        &&& self.block_size == self.index_entry_size * self.entries_per_block
        &&& self.height == self.coverage@.len()
        &&& forall|k: int|
            0 <= k < self.coverage@.len() ==> #[trigger] self.coverage@[k] == level_coverage(
                base,
                entries,
                (k + 1) as nat,
            )
        &&& is_height(base, entries, self.params.spec_total_values(), self.coverage@.len())
    }

    /// Each level covers `entries_per_block` times what the level beneath it
    /// covers, starting from `base_coverage`.
    pub open spec fn coverage_is_geometric(&self) -> bool {
        &&& self.coverage@.len() > 0 ==> self.coverage@[0] == self.base_coverage
            * self.entries_per_block
        &&& forall|k: int|
            0 < k < self.coverage@.len() ==> #[trigger] self.coverage@[k] == self.coverage@[k - 1]
                * self.entries_per_block
    }

    /// Each level covers more than every level beneath it.
    pub open spec fn coverage_is_increasing(&self) -> bool {
        forall|i: int, j: int|
            0 <= i < j < self.coverage@.len() ==> #[trigger] self.coverage@[i]
                < #[trigger] self.coverage@[j]
    }

    /// The top level is the first one to cover all the values.
    pub open spec fn coverage_stops_at_total(&self) -> bool {
        &&& self.coverage@.len() > 0 ==> self.coverage@.last() >= self.params.spec_total_values()
        &&& forall|k: int|
            0 <= k < self.coverage@.len() - 1 ==> #[trigger] self.coverage@[k]
                < self.params.spec_total_values()
    }

    /// The total number of bytes of all the blocks of all the levels.
    pub open spec fn spec_total_size(&self) -> nat {
        total_blocks(self.params.spec_total_values(), self.coverage@) * (self.block_size as nat)
    }

    /// Sizes an index with entries of `index_entry_size` bytes over units that
    /// cover `base_coverage` values each, or says why there is no such index.
    pub fn try_new(
        params: &Params,
        index_type: IndexType,
        index_entry_size: u64,
        base_coverage: u64,
    ) -> (built: Result<Index, ConfigError>)
        ensures
            match built {
                Ok(index) => {
                    &&& Self::buildable(*params, index_entry_size, base_coverage)
                    &&& index.wf()
                    &&& index.params == *params
                    &&& index.index_type == index_type
                    &&& index.index_entry_size == index_entry_size
                    &&& index.base_coverage == base_coverage
                },
                Err(error) => Self::build_error(*params, index_entry_size, base_coverage)
                    == Some(error),
            },
    {
        if params.value_size == 0 {
            return Err(ConfigError::ZeroValueSize);
        }
        if index_entry_size == 0 {
            return Err(ConfigError::ZeroEntrySize);
        }
        if base_coverage == 0 {
            return Err(ConfigError::ZeroBaseCoverage);
        }
        let entries: u64 = entries_per_block(
            params.min_index_block,
            index_entry_size,
            params.min_branch,
        );
        if entries <= 1 {
            return Err(ConfigError::FanoutTooSmall);
        }
        let block_size: u64 = match index_entry_size.checked_mul(entries) {
            Some(size) => size,
            None => {
                return Err(ConfigError::BlockSizeOverflow);
            },
        };
        let total: u64 = params.total_values();
        let mut coverage: Vec<u64> = Vec::new();
        let mut last: u64 = base_coverage;
        while last < total
            invariant
                base_coverage >= 1,
                entries >= 2,
                last == level_coverage(base_coverage as nat, entries as nat, coverage@.len()),
                forall|k: int|
                    0 <= k < coverage@.len() ==> #[trigger] coverage@[k] == level_coverage(
                        base_coverage as nat,
                        entries as nat,
                        (k + 1) as nat,
                    ),
                forall|level: nat|
                    level < coverage@.len() ==> #[trigger] level_coverage(
                        base_coverage as nat,
                        entries as nat,
                        level,
                    ) < total,
                Self::build_error(*params, index_entry_size, base_coverage) == (if coverage_fits(
                    base_coverage as nat,
                    entries as nat,
                    total as nat,
                ) {
                    None
                } else {
                    Some(ConfigError::CoverageOverflow)
                }),
            decreases (if last < total { total - last } else { 0 }),
        {
            let ghost level = coverage@.len();
            proof {
                lemma_level_coverage_strictly_increases(
                    base_coverage as nat,
                    entries as nat,
                    level,
                    level + 1,
                );
            }
            match last.checked_mul(entries) {
                Some(next) => {
                    last = next;
                    coverage.push(next);
                },
                None => {
                    proof {
                        Self::lemma_overflow_never_fits(
                            base_coverage as nat,
                            entries as nat,
                            total as nat,
                            level,
                        );
                    }
                    return Err(ConfigError::CoverageOverflow);
                },
            }
        }
        let height: usize = coverage.len();
        assert(coverage_fits(base_coverage as nat, entries as nat, total as nat));
        Ok(
            Index {
                params: *params,
                index_type,
                index_entry_size,
                base_coverage,
                entries_per_block: entries,
                block_size,
                coverage,
                height,
            },
        )
    }

    /// Sizes an index with entries of `index_entry_size` bytes over units that
    /// cover `base_coverage` values each.
    pub fn new(
        params: &Params,
        index_type: IndexType,
        index_entry_size: u64,
        base_coverage: u64,
    ) -> (index: Index)
        requires
            Self::buildable(*params, index_entry_size, base_coverage),
        ensures
            index.wf(),
            index.params == *params,
            index.index_type == index_type,
            index.index_entry_size == index_entry_size,
            index.base_coverage == base_coverage,
            index.entries_per_block == fanout(
                params.min_index_block as nat,
                index_entry_size as nat,
                params.min_branch as nat,
            ),
            index.block_size == index_entry_size * index.entries_per_block,
            index.height == index.coverage@.len(),
            index.height == 0 <==> base_coverage >= params.spec_total_values(),
            index.coverage_is_geometric(),
            index.coverage_is_increasing(),
            index.coverage_stops_at_total(),
    {
        match Self::try_new(params, index_type, index_entry_size, base_coverage) {
            Ok(index) => {
                proof {
                    index.lemma_coverage_shape();
                }
                index
            },
            Err(_) => vstd::pervasive::unreached(),
        }
    }

    /// A well-formed index needs no level exactly when its base already
    /// covers all the values; its coverage grows by the fanout from level to
    /// level, strictly, and only the top level reaches the number of values.
    pub proof fn lemma_coverage_shape(&self)
        requires
            self.wf(),
        ensures
            self.height == 0 <==> self.base_coverage >= self.params.spec_total_values(),
            self.coverage_is_geometric(),
            self.coverage_is_increasing(),
            self.coverage_stops_at_total(),
            forall|k: int| 0 <= k < self.coverage@.len() ==> #[trigger] self.coverage@[k] > 0,
            self.block_size > 0,
    {
        let base = self.base_coverage as nat;
        let entries = self.entries_per_block as nat;
        let total = self.params.spec_total_values();
        let len = self.coverage@.len();
        assert(level_coverage(base, entries, 0) == base);
        assert forall|i: int, j: int| 0 <= i < j < len implies #[trigger] self.coverage@[i]
            < #[trigger] self.coverage@[j] by {
            lemma_level_coverage_strictly_increases(base, entries, (i + 1) as nat, (j + 1) as nat);
        }
        assert forall|k: int| 0 <= k < len implies #[trigger] self.coverage@[k] > 0 by {
            lemma_level_coverage_strictly_increases(base, entries, 0, (k + 1) as nat);
        }
        assert forall|k: int| 0 <= k < len - 1 implies #[trigger] self.coverage@[k] < total by {
            assert(level_coverage(base, entries, (k + 1) as nat) < total);
        }
        assert(self.block_size > 0) by (nonlinear_arith)
            requires
                self.block_size == self.index_entry_size * self.entries_per_block,
                self.index_entry_size > 0,
                self.entries_per_block > 1,
        ;
    }

    /// Returns the number of blocks in the index, across all of its levels.
    pub fn total_index_blocks(&self) -> (blocks: u128)
        requires
            self.wf(),
        ensures
            blocks == total_blocks(self.params.spec_total_values(), self.coverage@),
    {
        proof {
            self.lemma_coverage_shape();
        }
        let total_values: u64 = self.params.total_values();
        let mut blocks: u128 = 0;
        let mut level: usize = 0;
        while level < self.coverage.len()
            invariant
                level <= self.coverage@.len(),
                forall|k: int| 0 <= k < self.coverage@.len() ==> #[trigger] self.coverage@[k] > 0,
                blocks == total_blocks(total_values as nat, self.coverage@.take(level as int)),
                blocks <= level * u64::MAX,
            decreases self.coverage@.len() - level,
        {
            let at_level: u64 = count_blocks(total_values, self.coverage[level]);
            assert(self.coverage@.take(level + 1).drop_last() =~= self.coverage@.take(
                level as int,
            ));
            blocks = blocks + at_level as u128;
            level = level + 1;
        }
        assert(self.coverage@.take(level as int) =~= self.coverage@);
        blocks
    }

    /// Returns the number of bytes in the index, across all levels of the
    /// index.
    pub fn total_size(&self) -> (size: u64)
        requires
            self.wf(),
            self.spec_total_size() <= u64::MAX,
        ensures
            size == self.spec_total_size(),
    {
        let blocks: u128 = self.total_index_blocks();
        proof {
            self.lemma_coverage_shape();
            assert(blocks <= blocks * self.block_size) by (nonlinear_arith)
                requires
                    self.block_size > 0,
            ;
        }
        (blocks as u64) * self.block_size
    }

    /// Returns the number of bytes in the index, across all levels of the
    /// index, or `None` where that number exceeds a `u64`.
    pub fn checked_total_size(&self) -> (size: Option<u64>)
        requires
            self.wf(),
        ensures
            match size {
                Some(bytes) => bytes == self.spec_total_size(),
                None => self.spec_total_size() > u64::MAX,
            },
    {
        let blocks: u128 = self.total_index_blocks();
        proof {
            self.lemma_coverage_shape();
            assert(blocks <= blocks * self.block_size) by (nonlinear_arith)
                requires
                    self.block_size > 0,
            ;
        }
        if blocks > u64::MAX as u128 {
            None
        } else {
            (blocks as u64).checked_mul(self.block_size)
        }
    }

    /// Positive sizes, a fanout of at least two, and room in a `u64` for the
    /// block size and for the number of values times the fanout are enough
    /// for an index.
    pub proof fn lemma_buildable(params: Params, index_entry_size: u64, base_coverage: u64)
        requires
            params.value_size > 0,
            index_entry_size > 0,
            base_coverage > 0,
            Self::spec_entries_per_block(params, index_entry_size) >= 2,
            index_entry_size * Self::spec_entries_per_block(params, index_entry_size) <= u64::MAX,
            params.spec_total_values() * Self::spec_entries_per_block(params, index_entry_size)
                <= u64::MAX,
        ensures
            Self::buildable(params, index_entry_size, base_coverage),
    {
        lemma_coverage_fits(
            base_coverage as nat,
            Self::spec_entries_per_block(params, index_entry_size),
            params.spec_total_values(),
        );
    }

    /// An index never gets smaller when the data grows: of two indexes that
    /// differ only in the total size of the data, the one over more data
    /// takes at least as many bytes.
    pub proof fn lemma_total_size_monotonic(smaller: Index, larger: Index)
        requires
            smaller.wf(),
            larger.wf(),
            smaller.params.value_size == larger.params.value_size,
            smaller.params.min_index_block == larger.params.min_index_block,
            smaller.params.min_branch == larger.params.min_branch,
            smaller.index_entry_size == larger.index_entry_size,
            smaller.base_coverage == larger.base_coverage,
            smaller.params.total_data_size <= larger.params.total_data_size,
        ensures
            smaller.height <= larger.height,
            smaller.coverage@ == larger.coverage@.take(smaller.height as int),
            smaller.spec_total_size() <= larger.spec_total_size(),
    {
        let base = smaller.base_coverage as nat;
        let entries = smaller.entries_per_block as nat;
        let fewer = smaller.params.spec_total_values();
        let more = larger.params.spec_total_values();
        lemma_div_is_ordered(
            smaller.params.total_data_size as int,
            larger.params.total_data_size as int,
            smaller.params.value_size as int,
        );
        lemma_height_monotonic(
            base,
            entries,
            fewer,
            more,
            smaller.coverage@.len(),
            larger.coverage@.len(),
        );
        smaller.lemma_coverage_shape();
        assert(smaller.coverage@ =~= larger.coverage@.take(smaller.height as int));
        lemma_total_blocks_monotonic(fewer, more, smaller.coverage@, larger.coverage@);
        let few_blocks = total_blocks(fewer, smaller.coverage@);
        let more_blocks = total_blocks(more, larger.coverage@);
        assert(few_blocks * (smaller.block_size as nat) <= more_blocks * (larger.block_size as nat))
            by (nonlinear_arith)
            requires
                few_blocks <= more_blocks,
                smaller.block_size == larger.block_size,
        ;
    }

    /// Once a level below the top would cover more than a `u64` holds, no
    /// level both reaches the total and fits.
    proof fn lemma_overflow_never_fits(base: nat, entries: nat, total: nat, level: nat)
        requires
            entries >= 1,
            level_coverage(base, entries, level) < total,
            level_coverage(base, entries, level + 1) > u64::MAX,
        ensures
            !coverage_fits(base, entries, total),
    {
        assert forall|other: nat|
            !(total <= #[trigger] level_coverage(base, entries, other) <= u64::MAX) by {
            if other <= level {
                lemma_level_coverage_increases(base, entries, other, level);
            } else {
                lemma_level_coverage_increases(base, entries, level + 1, other);
            }
        }
    }
}

} // verus!
