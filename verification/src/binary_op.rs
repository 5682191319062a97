use vstd::prelude::*;

verus! {

/// The three bitwise operations of the `8XY1` / `8XY2` / `8XY3`
/// instructions.
#[derive(Debug, Clone, Copy, PartialEq, Eq, Structural)]
pub enum BinaryOp {
    Or,
    And,
    Xor,
}

} // verus!
