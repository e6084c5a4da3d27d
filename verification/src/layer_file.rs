//! A layer file: the layout of its data blocks and the sizing of each of its
//! indexes.

use vstd::prelude::*;
use vstd::arithmetic::div_mod::lemma_div_is_ordered;
use crate::coverage::{entries_per_block, fanout};
use crate::error::ConfigError;
use crate::index::{Index, IndexType};
use crate::params::Params;

verus! {

/// The layout of a layer file and the sizing of its four indexes.
#[derive(Debug)]
pub struct LayerFile {
    pub params: Params,
    /// Number of data values that fit in a data block.
    pub values_per_data_block: u64,
    /// Size of a data block.
    pub data_block_size: u64,
    /// Number of data blocks to fill up the total data size.
    pub total_data_blocks: u64,
    /// The data index, the row index of column 1, the row index of the other
    /// columns and the filter index, in this order.
    pub indexes: Vec<Index>,
}

impl LayerFile {
    /// Values per data block: as many values as fit into the minimum data
    /// block, but at least `min_branch`.
    pub open spec fn spec_values_per_data_block(params: Params) -> u64 {
        fanout(
            params.min_data_block as nat,
            params.value_size as nat,
            params.min_branch as nat,
        ) as u64
    }

    /// The first reason, if any, for which the layer file has no index of
    /// the given kind.
    pub open spec fn index_error(params: Params, kind: IndexType) -> Option<ConfigError> {
        let entry_size = kind.spec_entry_size(params.value_size);
        if entry_size > u64::MAX {
            Some(ConfigError::EntrySizeOverflow)
        } else {
            Index::build_error(
                params,
                entry_size as u64,
                kind.spec_base_coverage(Self::spec_values_per_data_block(params)),
            )
        }
    }

    /// The first reason, if any, for which the parameters describe no layer
    /// file.
    pub open spec fn build_error(params: Params) -> Option<ConfigError> {
        if params.value_size == 0 {
            Some(ConfigError::ZeroValueSize)
        } else if Self::spec_values_per_data_block(params) == 0 {
            Some(ConfigError::ZeroBaseCoverage)
        } else if params.value_size * Self::spec_values_per_data_block(params) > u64::MAX {
            Some(ConfigError::BlockSizeOverflow)
        } else if Self::index_error(params, IndexType::Data) is Some {
            Self::index_error(params, IndexType::Data)
        } else if Self::index_error(params, IndexType::C1Row) is Some {
            Self::index_error(params, IndexType::C1Row)
        } else if Self::index_error(params, IndexType::Row) is Some {
            Self::index_error(params, IndexType::Row)
        } else {
            Self::index_error(params, IndexType::Filter)
        }
    }

    /// The parameters describe a layer file: a data block holds at least one
    /// value, its size fits in a `u64`, and each of the four indexes can be
    /// built.
    pub open spec fn buildable(params: Params) -> bool {
        Self::build_error(params) is None
    }

    /// The index at the place of `kind` is the well-formed index of that
    /// kind over the parameters of this file.
    pub open spec fn holds_index(&self, kind: IndexType) -> bool {
        let index = self.indexes@[kind.spec_position()];
        &&& index.wf()
        &&& index.params == self.params
        &&& index.index_type == kind
        &&& index.index_entry_size == kind.spec_entry_size(self.params.value_size)
        &&& index.base_coverage == kind.spec_base_coverage(self.values_per_data_block)
    }

    /// The fields agree with each other: the file is the one that its own
    /// parameters describe.
    pub open spec fn wf(&self) -> bool {
        &&& Self::buildable(self.params)
        &&& self.values_per_data_block == fanout(
            self.params.min_data_block as nat,
            self.params.value_size as nat,
            self.params.min_branch as nat,
        )
        &&& self.data_block_size == self.params.value_size * self.values_per_data_block
        &&& self.total_data_blocks == self.params.total_data_size / self.data_block_size
        &&& self.indexes@.len() == 4
        &&& self.holds_index(IndexType::Data)
        &&& self.holds_index(IndexType::C1Row)
        &&& self.holds_index(IndexType::Row)
        &&& self.holds_index(IndexType::Filter)
    }

    /// Sizes the index of the given kind over data blocks of
    /// `values_per_data_block` values, or says why there is no such index.
    fn index_of_kind(params: &Params, kind: IndexType, values_per_data_block: u64) -> (built:
        Result<Index, ConfigError>)
        requires
            values_per_data_block == Self::spec_values_per_data_block(*params),
        ensures
            match built {
                Ok(index) => {
                    &&& Self::index_error(*params, kind) is None
                    &&& index.wf()
                    &&& index.params == *params
                    &&& index.index_type == kind
                    &&& index.index_entry_size == kind.spec_entry_size(params.value_size)
                    &&& index.base_coverage == kind.spec_base_coverage(values_per_data_block)
                },
                Err(error) => Self::index_error(*params, kind) == Some(error),
            },
    {
        match kind.entry_size(params.value_size) {
            Some(entry_size) => Index::try_new(
                params,
                kind,
                entry_size,
                kind.base_coverage(values_per_data_block),
            ),
            None => Err(ConfigError::EntrySizeOverflow),
        }
    }

    /// Lays out the data blocks and sizes the four indexes, or says why the
    /// parameters describe no layer file.
    pub fn try_new(params: &Params) -> (built: Result<LayerFile, ConfigError>)
        ensures
            match built {
                Ok(file) => Self::buildable(*params) && file.wf() && file.params == *params,
                Err(error) => Self::build_error(*params) == Some(error),
            },
    {
        if params.value_size == 0 {
            return Err(ConfigError::ZeroValueSize);
        }
        let values_per_data_block: u64 = entries_per_block(
            params.min_data_block,
            params.value_size,
            params.min_branch,
        );
        if values_per_data_block == 0 {
            return Err(ConfigError::ZeroBaseCoverage);
        }
        let data_block_size: u64 = match params.value_size.checked_mul(values_per_data_block) {
            Some(size) => size,
            None => {
                return Err(ConfigError::BlockSizeOverflow);
            },
        };
        assert(data_block_size > 0) by (nonlinear_arith)
            requires
                data_block_size == params.value_size * values_per_data_block,
                params.value_size > 0,
                values_per_data_block > 0,
        ;
        let total_data_blocks: u64 = params.total_data_size / data_block_size;

        let data_index = match Self::index_of_kind(params, IndexType::Data, values_per_data_block) {
            Ok(index) => index,
            Err(error) => {
                return Err(error);
            },
        };
        let c1row_index = match Self::index_of_kind(
            params,
            IndexType::C1Row,
            values_per_data_block,
        ) {
            Ok(index) => index,
            Err(error) => {
                return Err(error);
            },
        };
        let row_index = match Self::index_of_kind(params, IndexType::Row, values_per_data_block) {
            Ok(index) => index,
            Err(error) => {
                return Err(error);
            },
        };
        let filter_index = match Self::index_of_kind(
            params,
            IndexType::Filter,
            values_per_data_block,
        ) {
            Ok(index) => index,
            Err(error) => {
                return Err(error);
            },
        };

        let mut indexes: Vec<Index> = Vec::new();
        indexes.push(data_index);
        indexes.push(c1row_index);
        indexes.push(row_index);
        indexes.push(filter_index);
        Ok(
            LayerFile {
                params: *params,
                values_per_data_block,
                data_block_size,
                total_data_blocks,
                indexes,
            },
        )
    }

    /// Lays out the data blocks and sizes the four indexes.
    pub fn new(params: &Params) -> (file: LayerFile)
        requires
            Self::buildable(*params),
        ensures
            file.wf(),
            file.params == *params,
            file.values_per_data_block == fanout(
                params.min_data_block as nat,
                params.value_size as nat,
                params.min_branch as nat,
            ),
            file.data_block_size == params.value_size * file.values_per_data_block,
            file.total_data_blocks == params.total_data_size / file.data_block_size,
            file.indexes@.len() == 4,
            forall|kind: IndexType| #[trigger] file.holds_index(kind),
            file.indexes@[IndexType::Filter.spec_position()].base_coverage == 65536,
    {
        match Self::try_new(params) {
            Ok(file) => {
                assert forall|kind: IndexType| #[trigger] file.holds_index(kind) by {
                    match kind {
                        IndexType::Data => {},
                        IndexType::C1Row => {},
                        IndexType::Row => {},
                        IndexType::Filter => {},
                    }
                }
                file
            },
            Err(_) => vstd::pervasive::unreached(),
        }
    }

    /// Parameters with a positive value size and a branching factor of at
    /// least two describe a layer file as long as these fit in a `u64`: the
    /// size of `min_branch` entries of two values each, the size of
    /// `min_branch` entries of 12 bytes each, and the number of values times
    /// `min_index_block` and times `min_branch`.
    pub proof fn lemma_buildable(params: Params)
        requires
            params.value_size > 0,
            params.min_branch >= 2,
            2 * params.value_size * params.min_branch <= u64::MAX,
            12 * params.min_branch <= u64::MAX,
            params.spec_total_values() * params.min_index_block <= u64::MAX,
            params.spec_total_values() * params.min_branch <= u64::MAX,
        ensures
            Self::buildable(params),
    {
        Self::lemma_block_fits(
            params.min_data_block as nat,
            params.value_size as nat,
            params.min_branch as nat,
            (2 * params.value_size) as nat,
        );
        Self::lemma_index_buildable(params, IndexType::Data);
        Self::lemma_index_buildable(params, IndexType::C1Row);
        Self::lemma_index_buildable(params, IndexType::Row);
        Self::lemma_index_buildable(params, IndexType::Filter);
    }

    /// Under the same conditions the index of each kind can be built.
    proof fn lemma_index_buildable(params: Params, kind: IndexType)
        requires
            params.value_size > 0,
            params.min_branch >= 2,
            2 * params.value_size * params.min_branch <= u64::MAX,
            12 * params.min_branch <= u64::MAX,
            params.spec_total_values() * params.min_index_block <= u64::MAX,
            params.spec_total_values() * params.min_branch <= u64::MAX,
        ensures
            Self::index_error(params, kind) is None,
    {
        let entry_size = kind.spec_entry_size(params.value_size);
        let largest: nat = if 2 * params.value_size >= 12 {
            (2 * params.value_size) as nat
        } else {
            12
        };
        let branch = params.min_branch as nat;
        let total = params.spec_total_values();
        assert(2 * params.value_size <= u64::MAX) by (nonlinear_arith)
            requires
                2 * params.value_size * params.min_branch <= u64::MAX,
                params.min_branch >= 2,
        ;
        assert(largest * branch <= u64::MAX);
        assert(entry_size * branch <= largest * branch) by (nonlinear_arith)
            requires
                entry_size <= largest,
        ;
        Self::lemma_block_fits(params.min_index_block as nat, entry_size, branch, entry_size);
        let entries = fanout(params.min_index_block as nat, entry_size, branch);
        assert(total * entries <= u64::MAX) by (nonlinear_arith)
            requires
                entries <= params.min_index_block || entries <= branch,
                total * params.min_index_block <= u64::MAX,
                total * branch <= u64::MAX,
        ;
        Index::lemma_buildable(
            params,
            entry_size as u64,
            kind.spec_base_coverage(Self::spec_values_per_data_block(params)),
        );
    }

    /// A block of the fanout's number of entries is no larger than the
    /// minimum block or the minimum number of entries, whichever is larger,
    /// and holds no more entries than the larger of the two numbers.
    proof fn lemma_block_fits(min_block: nat, entry_size: nat, min_branch: nat, widest: nat)
        requires
            entry_size > 0,
            entry_size <= widest,
            min_block <= u64::MAX,
            widest * min_branch <= u64::MAX,
        ensures
            min_branch <= fanout(min_block, entry_size, min_branch),
            fanout(min_block, entry_size, min_branch) <= min_block || fanout(
                min_block,
                entry_size,
                min_branch,
            ) <= min_branch,
            entry_size * fanout(min_block, entry_size, min_branch) <= u64::MAX,
    {
        let fitting = min_block / entry_size;
        assert(fitting <= min_block && entry_size * fitting <= min_block) by (nonlinear_arith)
            requires
                entry_size > 0,
                fitting == min_block / entry_size,
        ;
        assert(entry_size * min_branch <= widest * min_branch) by (nonlinear_arith)
            requires
                entry_size <= widest,
        ;
    }

    /// No index of a layer file gets smaller, and the file holds no fewer
    /// data blocks, when the data grows and the other parameters stay.
    pub proof fn lemma_sizes_monotonic(smaller: LayerFile, larger: LayerFile, kind: IndexType)
        requires
            smaller.wf(),
            larger.wf(),
            smaller.params.value_size == larger.params.value_size,
            smaller.params.min_data_block == larger.params.min_data_block,
            smaller.params.min_index_block == larger.params.min_index_block,
            smaller.params.min_branch == larger.params.min_branch,
            smaller.params.total_data_size <= larger.params.total_data_size,
        ensures
            smaller.total_data_blocks <= larger.total_data_blocks,
            smaller.indexes@[kind.spec_position()].spec_total_size()
                <= larger.indexes@[kind.spec_position()].spec_total_size(),
    {
        assert(smaller.data_block_size > 0) by (nonlinear_arith)
            requires
                smaller.data_block_size == smaller.params.value_size
                    * smaller.values_per_data_block,
                smaller.params.value_size > 0,
                smaller.values_per_data_block > 0,
        ;
        lemma_div_is_ordered(
            smaller.params.total_data_size as int,
            larger.params.total_data_size as int,
            smaller.data_block_size as int,
        );
        assert(smaller.holds_index(kind) && larger.holds_index(kind)) by {
            match kind {
                IndexType::Data => {},
                IndexType::C1Row => {},
                IndexType::Row => {},
                IndexType::Filter => {},
            }
        }
        Index::lemma_total_size_monotonic(
            smaller.indexes@[kind.spec_position()],
            larger.indexes@[kind.spec_position()],
        );
    }

    /// Returns the index of the given kind.
    pub fn index(&self, kind: IndexType) -> (index: &Index)
        requires
            self.indexes@.len() == 4,
        ensures
            *index == self.indexes@[kind.spec_position()],
    {
        &self.indexes[kind.position()]
    }
}

} // verus!
