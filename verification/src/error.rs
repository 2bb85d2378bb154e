use vstd::prelude::*;

verus! {

/// Why a load was abandoned. Any of these ends the whole load.
#[derive(Clone, Copy, Debug, PartialEq, Eq, Structural)]
pub enum LoadError {
    /// A numeric field is not a number of the expected form.
    Parse,
    /// A material name is used that the material table does not hold.
    Lookup,
    /// A face names a position or a normal that has not been declared.
    IndexOutOfRange,
}

} // verus!
