//! The emitter: the wrapper that is built around a rewritten body.

use vstd::prelude::*;
use vstd::string::StringExecFns;
use crate::ast::{Block, BlockView};
use crate::dispatch::{arms_view, width_table, width_table_spec, DispatchArm, DispatchArmView};
use crate::error::TransformError;
use crate::rewrite::{modify_body, modify_body_spec};
use crate::signature::{
    extract_signature, extract_signature_spec, parameters_view, strings_view, FunctionDeclaration,
    FunctionDeclarationView, Parameter, ParameterView,
};

verus! {

/// What the emitted wrapper does with the output node.
#[derive(Clone, Copy, Debug, PartialEq, Eq, Structural)]
pub enum Mode {
    /// Compile the output node and return the circuit with the flattened input bits.
    Compile,
    /// Compile the output node, evaluate the circuit at once, and return the result as a
    /// value of the declared return type.
    Execute,
}

/// What the emitted wrapper returns.
#[derive(Debug)]
pub enum ReturnShape {
    /// The compiled circuit and the flattened input bits.
    CircuitAndInputs,
    /// A value of the declared return type.
    Value(String),
}

/// The mathematical value of a return shape.
pub enum ReturnShapeView {
    CircuitAndInputs,
    Value(Seq<char>),
}

impl View for ReturnShape {
    type V = ReturnShapeView;

    open spec fn view(&self) -> ReturnShapeView {
        match self {
            ReturnShape::CircuitAndInputs => ReturnShapeView::CircuitAndInputs,
            ReturnShape::Value(text) => ReturnShapeView::Value(text@),
        }
    }
}

/// The emitted form: a dispatch wrapper under the declared name and parameters, around a
/// specialization that is generic in the width.
///
/// The specialization acquires a fresh builder context, binds each name of `inputs` to an
/// input node in that order, evaluates `body` to the output node, and finishes as `mode`
/// says. The wrapper matches the element type's name against `arms` and calls the
/// specialization at the width of the arm that matches.
#[derive(Debug)]
pub struct EmittedFunction {
    pub name: String,
    pub element_type: String,
    pub parameters: Vec<Parameter>,
    pub return_shape: ReturnShape,
    pub inputs: Vec<String>,
    pub body: Block,
    pub mode: Mode,
    pub arms: Vec<DispatchArm>,
}

/// The mathematical value of an emitted form.
pub struct EmittedFunctionView {
    pub name: Seq<char>,
    pub element_type: Seq<char>,
    pub parameters: Seq<ParameterView>,
    pub return_shape: ReturnShapeView,
    pub inputs: Seq<Seq<char>>,
    pub body: BlockView,
    pub mode: Mode,
    pub arms: Seq<DispatchArmView>,
}

impl View for EmittedFunction {
    type V = EmittedFunctionView;

    open spec fn view(&self) -> EmittedFunctionView {
        EmittedFunctionView {
            name: self.name@,
            element_type: self.element_type@,
            parameters: parameters_view(self.parameters@),
            return_shape: self.return_shape@,
            inputs: strings_view(self.inputs@),
            body: self.body@,
            mode: self.mode,
            arms: arms_view(self.arms@),
        }
    }
}

/// The mode that a text names: `compile` or `execute`, and nothing else.
pub open spec fn parse_mode_spec(text: Seq<char>) -> Result<Mode, TransformError> {
    if text == "compile"@ {
        Ok(Mode::Compile)
    } else if text == "execute"@ {
        Ok(Mode::Execute)
    } else {
        Err(TransformError::InvalidMode)
    }
}

/// The return shape that a mode selects, given the declared return type.
pub open spec fn return_shape_spec(mode: Mode, return_type: Seq<char>) -> ReturnShapeView {
    match mode {
        Mode::Compile => ReturnShapeView::CircuitAndInputs,
        Mode::Execute => ReturnShapeView::Value(return_type),
    }
}

/// What `generate_macro` returns on every declaration and mode. A refusal of the
/// signature comes before a refusal of the body.
pub open spec fn generate_macro_spec(declaration: FunctionDeclarationView, mode: Mode) -> Result<
    EmittedFunctionView,
    TransformError,
> {
    match extract_signature_spec(declaration) {
        Err(e) => Err(e),
        Ok(signature) => match modify_body_spec(declaration.body) {
            Err(e) => Err(e),
            Ok(body) => Ok(
                EmittedFunctionView {
                    name: declaration.name,
                    element_type: signature.element_type,
                    parameters: declaration.parameters,
                    return_shape: return_shape_spec(mode, signature.return_type),
                    inputs: signature.parameter_names,
                    body,
                    mode,
                    arms: width_table_spec(),
                },
            ),
        },
    }
}

/// What `circuit` returns on every mode text and declaration. A refusal of the mode
/// comes before any refusal of the declaration.
pub open spec fn circuit_spec(attr: Seq<char>, item: FunctionDeclarationView) -> Result<
    EmittedFunctionView,
    TransformError,
> {
    match parse_mode_spec(attr) {
        Err(e) => Err(e),
        Ok(mode) => generate_macro_spec(item, mode),
    }
}

/// The value of the outcome of a transformation.
pub open spec fn emitted_outcome(outcome: Result<EmittedFunction, TransformError>) -> Result<
    EmittedFunctionView,
    TransformError,
> {
    match outcome {
        Ok(emitted) => Ok(emitted@),
        Err(e) => Err(e),
    }
}

/// Reads a mode from its text.
pub fn parse_mode(text: &str) -> (result: Result<Mode, TransformError>)
    ensures
        result == parse_mode_spec(text@),
{
    let given = String::from_str(text);
    if given == String::from_str("compile") {
        Ok(Mode::Compile)
    } else if given == String::from_str("execute") {
        Ok(Mode::Execute)
    } else {
        Err(TransformError::InvalidMode)
    }
}

/// Builds the emitted form of a declaration: reads its signature, rewrites its body, and
/// lays the dispatch over the supported widths around it. The declaration is refused
/// where its signature or its body is.
pub fn generate_macro(declaration: FunctionDeclaration, mode: Mode) -> (result: Result<
    EmittedFunction,
    TransformError,
>)
    ensures
        emitted_outcome(result) == generate_macro_spec(declaration@, mode),
{
    let signature = match extract_signature(&declaration) {
        Err(e) => {
            return Err(e);
        },
        Ok(signature) => signature,
    };
    let FunctionDeclaration { name, parameters, return_type, body } = declaration;
    let body = match modify_body(body) {
        Err(e) => {
            return Err(e);
        },
        Ok(body) => body,
    };
    let return_shape = match mode {
        Mode::Compile => ReturnShape::CircuitAndInputs,
        Mode::Execute => ReturnShape::Value(signature.return_type),
    };
    Ok(
        EmittedFunction {
            name,
            element_type: signature.element_type,
            parameters,
            return_shape,
            inputs: signature.parameter_names,
            body,
            mode,
            arms: width_table(),
        },
    )
}

/// Transforms a declaration under the mode that `attr` names.
pub fn circuit(attr: &str, item: FunctionDeclaration) -> (result: Result<
    EmittedFunction,
    TransformError,
>)
    ensures
        emitted_outcome(result) == circuit_spec(attr@, item@),
{
    match parse_mode(attr) {
        Err(e) => Err(e),
        Ok(mode) => generate_macro(item, mode),
    }
}

/// Determinism: two transformations of equal mode texts and equal declarations have equal
/// outcomes, the same emitted form or the same refusal.
pub proof fn lemma_transformation_is_deterministic(
    first_attr: &str,
    first_item: FunctionDeclaration,
    first: Result<EmittedFunction, TransformError>,
    second_attr: &str,
    second_item: FunctionDeclaration,
    second: Result<EmittedFunction, TransformError>,
)
    requires
        first_attr@ == second_attr@,
        first_item@ == second_item@,
        emitted_outcome(first) == circuit_spec(first_attr@, first_item@),
        emitted_outcome(second) == circuit_spec(second_attr@, second_item@),
    ensures
        emitted_outcome(first) == emitted_outcome(second),
{
}

} // verus!
