//! The ways in which a transformation is refused.

use vstd::prelude::*;

verus! {

/// Why a declaration was refused. Every refusal ends the transformation with nothing emitted.
#[derive(Clone, Copy, Debug, PartialEq, Eq, Structural)]
pub enum TransformError {
    /// The mode is neither `compile` nor `execute`.
    InvalidMode,
    /// The declaration has no parameter.
    EmptyParameterList,
    /// A parameter is a receiver, not a typed pattern.
    UntypedParameter,
    /// A parameter's pattern is not a simple name.
    PatternNotIdentifier,
    /// The declaration names no return type.
    MissingReturnType,
    /// A conditional has no else arm.
    MissingElse,
    /// The else arm of a conditional is not a block.
    ElseNotBlock,
    /// The element type's name selects no supported width.
    UnsupportedType,
}

} // verus!
