//! Error conditions reported by constructors and shape checks.

use vstd::prelude::*;

verus! {

/// The ways a storage or layer construction, or a shape check, can fail.
#[derive(Clone, Copy, Debug, PartialEq, Eq, Structural)]
pub enum Error {
    /// A buffer was adopted whose length does not equal the requested
    /// element count.
    ShapeStorageMismatch,
    /// An activation tensor's shape is incompatible with the layer's
    /// expected shape.
    DimensionMismatch,
    /// A fixed-capacity storage was asked to hold more elements than its
    /// capacity bound allows.
    CapacityExceeded,
}

} // verus!
