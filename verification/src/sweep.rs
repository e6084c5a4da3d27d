//! Sizing a layer file for each of a list of value sizes.

use vstd::prelude::*;
use crate::error::ConfigError;
use crate::layer_file::LayerFile;
use crate::params::Params;

verus! {

/// The smallest value size of the default sweep, in bytes.
pub const MIN_VALUE_SIZE: u64 = 16;

/// The largest value size of the default sweep, in bytes.
pub const MAX_VALUE_SIZE: u64 = 65536;

/// `result` is what sizing a layer file for `params` gives: the well-formed
/// file over `params`, or the reason for which there is none.
pub open spec fn is_sizing_of(result: Result<LayerFile, ConfigError>, params: Params) -> bool {
    match result {
        Ok(file) => LayerFile::buildable(params) && file.wf() && file.params == params,
        Err(error) => LayerFile::build_error(params) == Some(error),
    }
}

/// Returns the value sizes of the default sweep: the powers of two from 16
/// bytes to 64 kB.
pub fn default_value_sizes() -> (sizes: Vec<u64>)
    ensures
        sizes@ == seq![
            16u64,
            32u64,
            64u64,
            128u64,
            256u64,
            512u64,
            1024u64,
            2048u64,
            4096u64,
            8192u64,
            16384u64,
            32768u64,
            65536u64,
        ],
{
    let mut sizes: Vec<u64> = Vec::new();
    let mut size: u64 = MIN_VALUE_SIZE;
    while size <= MAX_VALUE_SIZE
        invariant
            16 <= size <= 2 * 65536,
            sizes@.len() <= 13,
            sizes@.len() == 0 ==> size == 16,
            sizes@.len() > 0 ==> sizes@[0] == 16 && size == 2 * sizes@.last(),
            forall|k: int| 0 < k < sizes@.len() ==> #[trigger] sizes@[k] == 2 * sizes@[k - 1],
            size > 65536 ==> sizes@.len() == 13,
            sizes@.len() == 13 ==> size > 65536,
        decreases 2 * 65536 - size,
    {
        sizes.push(size);
        size = size * 2;
    }
    sizes
}

/// Sizes one layer file for each of `value_sizes`, all other parameters
/// taken from `template`.
pub fn sweep(template: &Params, value_sizes: &Vec<u64>) -> (swept: Vec<
    Result<LayerFile, ConfigError>,
>)
    ensures
        swept@.len() == value_sizes@.len(),
        forall|i: int|
            0 <= i < swept@.len() ==> is_sizing_of(
                #[trigger] swept@[i],
                template.spec_with_value_size(value_sizes@[i]),
            ),
{
    let mut swept: Vec<Result<LayerFile, ConfigError>> = Vec::new();
    let mut at: usize = 0;
    while at < value_sizes.len()
        invariant
            at <= value_sizes@.len(),
            swept@.len() == at,
            forall|i: int|
                0 <= i < swept@.len() ==> is_sizing_of(
                    #[trigger] swept@[i],
                    template.spec_with_value_size(value_sizes@[i]),
                ),
        decreases value_sizes@.len() - at,
    {
        let params = template.with_value_size(value_sizes[at]);
        swept.push(LayerFile::try_new(&params));
        at = at + 1;
    }
    swept
}

} // verus!
