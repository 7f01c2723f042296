//! The requested traversal depth of a metadata discovery call.

use vstd::prelude::*;

verus! {

/// How deep the catalog -> schema -> table -> column hierarchy is populated.
/// `All` is an alias for full `Columns` depth.
#[derive(Clone, Copy, PartialEq, Eq, Structural, Debug)]
pub enum ObjectDepth {
    Catalogs,
    Schemas,
    Tables,
    Columns,
    All,
}

impl ObjectDepth {
    /// The number of populated hierarchy levels: levels at or above the
    /// requested depth are fetched, deeper ones stay absent.
    pub open spec fn level(self) -> int {
        match self {
            ObjectDepth::Catalogs => 1,
            ObjectDepth::Schemas => 2,
            ObjectDepth::Tables => 3,
            ObjectDepth::Columns => 4,
            ObjectDepth::All => 4,
        }
    }
}

} // verus!
