//! Parsing of the CMU Pronouncing Dictionary into typed ARPAbet symbols,
//! with a key normaliser and an index from normalised keys to entries.
use vstd::prelude::*;

pub mod symbol;
pub mod rule;
pub mod key;
pub mod index;

pub use index::{build_index, Index};
pub use key::{normalize, normalize_classified};
pub use rule::{parse_rule, split_fields, Rule};
pub use symbol::{parse_symbol, Error, Stress, Symbol};

verus! {

} // verus!
