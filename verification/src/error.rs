use vstd::prelude::*;

verus! {

/// The single error condition this layer surfaces: an exact lookup missed, a
/// range or prefix query matched nothing, or no committed instance exists
/// under the requested identifier.
#[derive(Clone, Copy, PartialEq, Eq, Structural, Debug)]
pub enum BlockfileError {
    NotFoundError,
}

} // verus!
