use vstd::prelude::*;

verus! {

/// The error taxonomy of the interchange layer. Every condition is a distinct
/// variant so that a wrapping layer can decide how to surface it at the
/// foreign-function boundary. Allocation failure aborts instead of returning,
/// so no variant stands for it.
#[derive(Clone, Copy, Debug, PartialEq, Eq, Structural)]
pub enum InteropError {
    /// A `sign_scale` bit pattern whose scale field decodes to more than 28.
    UnsupportedScale,
    /// A double that is NaN or infinite was offered for decimal conversion.
    NonFiniteInput,
    /// A finite double whose magnitude exceeds what a 96-bit mantissa can hold.
    Overflow,
    /// A batch buffer that does not decode into a whole sequence of records.
    MalformedBatch,
    /// A lifecycle operation applied to a handle outside its required state.
    InvalidHandleState,
}

} // verus!
