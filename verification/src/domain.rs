//! Value shapes shared between lexing, parsing and the tree.

use vstd::prelude::*;

verus! {

/// How wide a numeric value is.
#[derive(Clone, Debug, PartialEq, Eq, Structural)]
pub enum ValueWidth {
    /// A fixed width, in bytes.
    FixedByteSize(usize),
    /// As wide as a pointer on the target.
    PointerSize,
    /// Left for inference to decide.
    Auto,
}

/// An integer value together with its width.
#[derive(Clone, Debug, PartialEq, Eq, Structural)]
pub struct ValueInt<IntType> {
    pub value: IntType,
    pub width: ValueWidth,
}

/// A signed integer value.
pub type ValueIntSigned = ValueInt<i64>;

/// An unsigned integer value.
pub type ValueIntUnsigned = ValueInt<u64>;

} // verus!
