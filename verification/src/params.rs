use vstd::prelude::*;

verus! {

/// The sizing inputs of a layer file.
#[derive(Clone, Copy, Debug, PartialEq, Eq, Structural)]
pub struct Params {
    /// Total size of all of the data stored in the file, in bytes.
    pub total_data_size: u64,
    /// Size of each individual value in the file, in bytes.
    pub value_size: u64,
    /// Minimum size of a data block, in bytes.
    pub min_data_block: u64,
    /// Minimum size of an index block, in bytes.
    pub min_index_block: u64,
    /// Minimum branching factor.
    pub min_branch: u64,
}

impl Params {
    /// The number of values that `total_data_size` bytes hold.
    pub open spec fn spec_total_values(&self) -> nat {
        (self.total_data_size / self.value_size) as nat
    }

    /// These parameters with another size of the values.
    pub open spec fn spec_with_value_size(self, value_size: u64) -> Params {
        Params { value_size, ..self }
    }

    /// Returns these parameters with another size of the values.
    pub fn with_value_size(&self, value_size: u64) -> (params: Params)
        ensures
            params == self.spec_with_value_size(value_size),
    {
        Params {
            total_data_size: self.total_data_size,
            value_size,
            min_data_block: self.min_data_block,
            min_index_block: self.min_index_block,
            min_branch: self.min_branch,
        }
    }

    /// Returns the total number of values stored in the file.
    pub fn total_values(&self) -> (values: u64)
        requires
            self.value_size > 0,
        ensures
            values == self.spec_total_values(),
    {
        self.total_data_size / self.value_size
    }
}

} // verus!
