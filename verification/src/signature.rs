//! The declared shape of a function, and what the pass reads from it.

use vstd::prelude::*;
use crate::ast::{Block, BlockView};
use crate::error::TransformError;

verus! {

/// A parameter of the declaration.
#[derive(Debug)]
pub enum Parameter {
    /// A receiver, which carries no type of its own; kept as written.
    Receiver(String),
    /// A simple name with its declared type.
    Named { name: String, type_token: String },
    /// Any other pattern with its declared type; the pattern is kept as written.
    Destructured { pattern: String, type_token: String },
}

/// The mathematical value of a parameter.
pub enum ParameterView {
    Receiver(Seq<char>),
    Named { name: Seq<char>, type_token: Seq<char> },
    Destructured { pattern: Seq<char>, type_token: Seq<char> },
}

impl View for Parameter {
    type V = ParameterView;

    open spec fn view(&self) -> ParameterView {
        match self {
            Parameter::Receiver(text) => ParameterView::Receiver(text@),
            Parameter::Named { name, type_token } => ParameterView::Named {
                name: name@,
                type_token: type_token@,
            },
            Parameter::Destructured { pattern, type_token } => ParameterView::Destructured {
                pattern: pattern@,
                type_token: type_token@,
            },
        }
    }
}

/// The values of a sequence of parameters, in order.
pub open spec fn parameters_view(parameters: Seq<Parameter>) -> Seq<ParameterView> {
    parameters.map_values(|p: Parameter| p@)
}

/// The values of a sequence of strings, in order.
pub open spec fn strings_view(strings: Seq<String>) -> Seq<Seq<char>> {
    strings.map_values(|s: String| s@)
}

/// A function as declared: its name, its parameters in order, its return type where one
/// is written, and its body.
#[derive(Debug)]
pub struct FunctionDeclaration {
    pub name: String,
    pub parameters: Vec<Parameter>,
    pub return_type: Option<String>,
    pub body: Block,
}

/// The mathematical value of a declaration.
pub struct FunctionDeclarationView {
    pub name: Seq<char>,
    pub parameters: Seq<ParameterView>,
    pub return_type: Option<Seq<char>>,
    pub body: BlockView,
}

impl View for FunctionDeclaration {
    type V = FunctionDeclarationView;

    open spec fn view(&self) -> FunctionDeclarationView {
        FunctionDeclarationView {
            name: self.name@,
            parameters: parameters_view(self.parameters@),
            return_type: match self.return_type {
                Some(text) => Some(text@),
                None => None,
            },
            body: self.body@,
        }
    }
}

/// What the pass reads from a declaration: the element type, taken from the first
/// parameter, the declared return type, and the parameters' names in declaration order.
#[derive(Debug)]
pub struct Signature {
    pub element_type: String,
    pub return_type: String,
    pub parameter_names: Vec<String>,
}

/// The mathematical value of a signature.
pub struct SignatureView {
    pub element_type: Seq<char>,
    pub return_type: Seq<char>,
    pub parameter_names: Seq<Seq<char>>,
}

impl View for Signature {
    type V = SignatureView;

    open spec fn view(&self) -> SignatureView {
        SignatureView {
            element_type: self.element_type@,
            return_type: self.return_type@,
            parameter_names: strings_view(self.parameter_names@),
        }
    }
}

/// The element type: the declared type of the first parameter. Only the first parameter
/// is read; the others are taken to share its type.
pub open spec fn element_type_spec(parameters: Seq<ParameterView>) -> Result<
    Seq<char>,
    TransformError,
> {
    if parameters.len() == 0 {
        Err(TransformError::EmptyParameterList)
    } else {
        match parameters[0] {
            ParameterView::Receiver(_) => Err(TransformError::UntypedParameter),
            ParameterView::Named { name, type_token } => Ok(type_token),
            ParameterView::Destructured { pattern, type_token } => Ok(type_token),
        }
    }
}

/// The name of one parameter, or why it has none.
pub open spec fn parameter_name_spec(parameter: ParameterView) -> Result<Seq<char>, TransformError> {
    match parameter {
        ParameterView::Receiver(_) => Err(TransformError::UntypedParameter),
        ParameterView::Named { name, type_token } => Ok(name),
        ParameterView::Destructured { pattern, type_token } => Err(
            TransformError::PatternNotIdentifier,
        ),
    }
}

/// The names of the parameters in declaration order, or the refusal of the first
/// parameter that has no name.
pub open spec fn parameter_names_spec(parameters: Seq<ParameterView>) -> Result<
    Seq<Seq<char>>,
    TransformError,
>
    decreases parameters.len(),
{
    if parameters.len() == 0 {
        Ok(Seq::empty())
    } else {
        match parameter_names_spec(parameters.drop_last()) {
            Err(e) => Err(e),
            Ok(front) => match parameter_name_spec(parameters.last()) {
                Err(e) => Err(e),
                Ok(name) => Ok(front.push(name)),
            },
        }
    }
}

/// What `extract_signature` returns on every declaration. The refusals are tried in this
/// order: no parameter, a first parameter without a type, no return type, a parameter
/// without a name.
pub open spec fn extract_signature_spec(declaration: FunctionDeclarationView) -> Result<
    SignatureView,
    TransformError,
> {
    match element_type_spec(declaration.parameters) {
        Err(e) => Err(e),
        Ok(element_type) => match declaration.return_type {
            None => Err(TransformError::MissingReturnType),
            Some(return_type) => match parameter_names_spec(declaration.parameters) {
                Err(e) => Err(e),
                Ok(parameter_names) => Ok(
                    SignatureView { element_type, return_type, parameter_names },
                ),
            },
        },
    }
}

/// The value of the outcome of an extraction.
pub open spec fn signature_outcome(outcome: Result<Signature, TransformError>) -> Result<
    SignatureView,
    TransformError,
> {
    match outcome {
        Ok(signature) => Ok(signature@),
        Err(e) => Err(e),
    }
}

/// A refusal among the first `n` parameters is the refusal of the whole list.
pub proof fn lemma_name_refusal_carries(parameters: Seq<ParameterView>, n: int)
    requires
        0 <= n <= parameters.len(),
        parameter_names_spec(parameters.take(n)) is Err,
    ensures
        parameter_names_spec(parameters) == parameter_names_spec(parameters.take(n)),
    decreases parameters.len(),
{
    if n == parameters.len() {
        assert(parameters.take(n) =~= parameters);
    } else {
        assert(parameters.drop_last().take(n) =~= parameters.take(n));
        lemma_name_refusal_carries(parameters.drop_last(), n);
    }
}

/// Where every parameter has a name, there are as many names as parameters.
pub proof fn lemma_names_have_the_length(parameters: Seq<ParameterView>)
    ensures
        parameter_names_spec(parameters) matches Ok(names) ==> names.len() == parameters.len(),
    decreases parameters.len(),
{
    if parameters.len() > 0 {
        lemma_names_have_the_length(parameters.drop_last());
    }
}

/// The names of the parameters in declaration order.
pub fn parameter_names(parameters: &Vec<Parameter>) -> (result: Result<Vec<String>, TransformError>)
    ensures
        match result {
            Ok(names) => parameter_names_spec(parameters_view(parameters@)) == Ok::<
                Seq<Seq<char>>,
                TransformError,
            >(strings_view(names@)),
            Err(e) => parameter_names_spec(parameters_view(parameters@)) == Err::<
                Seq<Seq<char>>,
                TransformError,
            >(e),
        },
{
    let ghost source = parameters_view(parameters@);
    let mut names: Vec<String> = Vec::new();
    let mut index: usize = 0;
    proof {
        assert(source.take(0) =~= Seq::<ParameterView>::empty());
        assert(strings_view(names@) =~= Seq::<Seq<char>>::empty());
    }
    while index < parameters.len()
        invariant
            index <= parameters.len(),
            source == parameters_view(parameters@),
            parameter_names_spec(source.take(index as int)) == Ok::<Seq<Seq<char>>, TransformError>(
                strings_view(names@),
            ),
        decreases parameters.len() - index,
    {
        let ghost done = strings_view(names@);
        proof {
            assert(source[index as int] == parameters@[index as int]@);
            assert(source.take(index + 1).drop_last() =~= source.take(index as int));
            assert(source.take(index + 1).last() == parameters@[index as int]@);
        }
        match &parameters[index] {
            Parameter::Named { name, type_token } => {
                let owned = name.clone();
                names.push(owned);
                proof {
                    assert(strings_view(names@) =~= done.push(name@));
                }
            },
            Parameter::Destructured { pattern, type_token } => {
                proof {
                    lemma_name_refusal_carries(source, index + 1);
                }
                return Err(TransformError::PatternNotIdentifier);
            },
            Parameter::Receiver(_) => {
                proof {
                    lemma_name_refusal_carries(source, index + 1);
                }
                return Err(TransformError::UntypedParameter);
            },
        }
        index += 1;
    }
    proof {
        assert(source.take(index as int) =~= source);
    }
    Ok(names)
}

/// Reads the element type, the return type and the parameters' names from a declaration.
/// A declaration without parameters, with a first parameter that has no type, without a
/// return type, or with a parameter that is no simple name is refused.
pub fn extract_signature(declaration: &FunctionDeclaration) -> (result: Result<
    Signature,
    TransformError,
>)
    ensures
        signature_outcome(result) == extract_signature_spec(declaration@),
{
    if declaration.parameters.len() == 0 {
        return Err(TransformError::EmptyParameterList);
    }
    proof {
        assert(declaration@.parameters[0] == declaration.parameters@[0]@);
    }
    let element_type = match &declaration.parameters[0] {
        Parameter::Receiver(_) => {
            return Err(TransformError::UntypedParameter);
        },
        Parameter::Named { name, type_token } => type_token.clone(),
        Parameter::Destructured { pattern, type_token } => type_token.clone(),
    };
    let return_type = match &declaration.return_type {
        None => {
            return Err(TransformError::MissingReturnType);
        },
        Some(text) => text.clone(),
    };
    match parameter_names(&declaration.parameters) {
        Err(e) => Err(e),
        Ok(parameter_names) => Ok(Signature { element_type, return_type, parameter_names }),
    }
}

} // verus!
