use vstd::prelude::*;

verus! {

/// Opaque error type: operations on public keys report failure without
/// saying why.
#[derive(Clone, Copy, Debug, PartialEq, Eq, Structural)]
pub struct Error;

} // verus!
