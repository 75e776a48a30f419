//! A reference evaluation of the lowered form, on machine integers.
//!
//! The builder's operations are taken as arithmetic on unsigned integers of the selected
//! width. This is the reading under which the emitted form is held to the source; it
//! builds no circuit.

use vstd::prelude::*;
use vstd::arithmetic::div_mod::{
    lemma_add_mod_noop, lemma_mod_add_multiples_vanish, lemma_mod_sub_multiples_vanish,
    lemma_mul_mod_noop_left, lemma_small_mod,
};
use vstd::arithmetic::power2::{lemma2_to64, lemma_pow2_adds};
use vstd::string::StrSliceExecFns;
use crate::ast::{Block, Expression, Operation, Statement};
use crate::dispatch::{
    is_supported_width, lemma_dispatch_selects_matching_width, select_width, select_width_spec,
    width_table_spec,
};
use crate::emit::{generate_macro_spec, EmittedFunction, EmittedFunctionView, Mode};
use crate::error::TransformError;
use crate::semantics::{
    bind_inputs, body_lowers_completely, digits_value, direct_value, execution_value, is_digit,
    lemma_execution_equals_direct_evaluation, literal_value, lowered_statements_value,
    lowered_value, modulus, name_value, negation_value, operation_value, Environment,
};
use crate::signature::{
    extract_signature_spec, lemma_names_have_the_length, strings_view, FunctionDeclarationView,
};

verus! {

/// The value as an integer, where there is one.
pub open spec fn as_integer(value: Option<u128>) -> Option<int> {
    match value {
        Some(v) => Some(v as int),
        None => None,
    }
}

/// The number of values of each supported width.
pub proof fn lemma_supported_moduli()
    ensures
        modulus(8) == 0x100,
        modulus(16) == 0x1_0000,
        modulus(32) == 0x1_0000_0000,
        modulus(64) == 0x1_0000_0000_0000_0000,
        modulus(128) == 0x1_0000_0000_0000_0000_0000_0000_0000_0000,
{
    lemma2_to64();
    lemma_pow2_adds(64, 64);
}

/// The greatest value of a supported width; none for any other width.
pub fn greatest_value(width: u32) -> (result: Option<u128>)
    ensures
        result is Some <==> is_supported_width(width),
        result matches Some(greatest) ==> greatest + 1 == modulus(width as nat),
{
    proof {
        lemma_supported_moduli();
    }
    if width == 8 {
        Some(0xff)
    } else if width == 16 {
        Some(0xffff)
    } else if width == 32 {
        Some(0xffff_ffff)
    } else if width == 64 {
        Some(0xffff_ffff_ffff_ffff)
    } else if width == 128 {
        Some(0xffff_ffff_ffff_ffff_ffff_ffff_ffff_ffff)
    } else {
        None
    }
}

/// Applies a builder operation to two values of a supported width.
pub fn apply_operation(operation: Operation, left: u128, right: u128, width: u32) -> (result: Option<
    u128,
>)
    requires
        is_supported_width(width),
        left < modulus(width as nat),
        right < modulus(width as nat),
    ensures
        as_integer(result) == operation_value(operation, left as int, right as int, width as nat),
        result matches Some(value) ==> value < modulus(width as nat),
{
    let greatest = match greatest_value(width) {
        Some(greatest) => greatest,
        None => {
            return None;
        },
    };
    let ghost m = modulus(width as nat);
    proof {
        lemma_supported_moduli();
    }
    match operation {
        Operation::Eq => Some(if left == right { 1 } else { 0 }),
        Operation::Ne => Some(if left != right { 1 } else { 0 }),
        Operation::Gt => Some(if left > right { 1 } else { 0 }),
        Operation::Ge => Some(if left >= right { 1 } else { 0 }),
        Operation::Lt => Some(if left < right { 1 } else { 0 }),
        Operation::Le => Some(if left <= right { 1 } else { 0 }),
        Operation::Add => {
            if left <= greatest - right {
                proof {
                    lemma_small_mod((left + right) as nat, m as nat);
                }
                Some(left + right)
            } else {
                proof {
                    lemma_small_mod((left + right - m) as nat, m as nat);
                    lemma_mod_sub_multiples_vanish(left + right, m);
                }
                Some(left - (greatest - right) - 1)
            }
        },
        Operation::Sub => {
            if left >= right {
                proof {
                    lemma_small_mod((left - right) as nat, m as nat);
                }
                Some(left - right)
            } else {
                proof {
                    lemma_small_mod((left - right + m) as nat, m as nat);
                    lemma_mod_add_multiples_vanish(left - right, m);
                }
                Some(greatest - (right - left) + 1)
            }
        },
        Operation::Mul => {
            if width == 128 {
                Some(left.wrapping_mul(right))
            } else {
                assert(left * right <= 0xffff_ffff_ffff_ffff * 0xffff_ffff_ffff_ffff) by (nonlinear_arith)
                    requires
                        left <= 0xffff_ffff_ffff_ffff,
                        right <= 0xffff_ffff_ffff_ffff,
                ;
                Some((left * right) % (greatest + 1))
            }
        },
        Operation::Div => {
            if right == 0 {
                None
            } else {
                assert(left / right <= left) by (nonlinear_arith)
                    requires
                        right > 0,
                ;
                Some(left / right)
            }
        },
        Operation::Rem => {
            if right == 0 {
                None
            } else {
                Some(left % right)
            }
        },
        Operation::And => {
            assert(left & right <= left) by (bit_vector);
            Some(left & right)
        },
        Operation::Or => {
            proof {
                lemma_or_stays_in_width(left, right);
            }
            Some(left | right)
        },
        Operation::Xor => {
            proof {
                lemma_xor_stays_in_width(left, right);
            }
            Some(left ^ right)
        },
    }
}

/// The bitwise or of two values of a width is a value of that width.
proof fn lemma_or_stays_in_width(left: u128, right: u128)
    ensures
        left <= 0xff && right <= 0xff ==> (left | right) <= 0xff,
        left <= 0xffff && right <= 0xffff ==> (left | right) <= 0xffff,
        left <= 0xffff_ffff && right <= 0xffff_ffff ==> (left | right) <= 0xffff_ffff,
        left <= 0xffff_ffff_ffff_ffff && right <= 0xffff_ffff_ffff_ffff ==> (left | right)
            <= 0xffff_ffff_ffff_ffff,
{
    assert(left <= 0xff && right <= 0xff ==> (left | right) <= 0xff) by (bit_vector);
    assert(left <= 0xffff && right <= 0xffff ==> (left | right) <= 0xffff) by (bit_vector);
    assert(left <= 0xffff_ffff && right <= 0xffff_ffff ==> (left | right) <= 0xffff_ffff)
        by (bit_vector);
    assert(left <= 0xffff_ffff_ffff_ffff && right <= 0xffff_ffff_ffff_ffff ==> (left | right)
        <= 0xffff_ffff_ffff_ffff) by (bit_vector);
}

/// The bitwise exclusive or of two values of a width is a value of that width.
proof fn lemma_xor_stays_in_width(left: u128, right: u128)
    ensures
        left <= 0xff && right <= 0xff ==> (left ^ right) <= 0xff,
        left <= 0xffff && right <= 0xffff ==> (left ^ right) <= 0xffff,
        left <= 0xffff_ffff && right <= 0xffff_ffff ==> (left ^ right) <= 0xffff_ffff,
        left <= 0xffff_ffff_ffff_ffff && right <= 0xffff_ffff_ffff_ffff ==> (left ^ right)
            <= 0xffff_ffff_ffff_ffff,
{
    assert(left <= 0xff && right <= 0xff ==> (left ^ right) <= 0xff) by (bit_vector);
    assert(left <= 0xffff && right <= 0xffff ==> (left ^ right) <= 0xffff) by (bit_vector);
    assert(left <= 0xffff_ffff && right <= 0xffff_ffff ==> (left ^ right) <= 0xffff_ffff)
        by (bit_vector);
    assert(left <= 0xffff_ffff_ffff_ffff && right <= 0xffff_ffff_ffff_ffff ==> (left ^ right)
        <= 0xffff_ffff_ffff_ffff) by (bit_vector);
}

/// Negates a value of a supported width bit by bit.
pub fn apply_negation(operand: u128, width: u32) -> (result: u128)
    requires
        is_supported_width(width),
        operand < modulus(width as nat),
    ensures
        result as int == negation_value(operand as int, width as nat),
        result < modulus(width as nat),
{
    match greatest_value(width) {
        Some(greatest) => greatest - operand,
        None => 0,
    }
}

/// Reads a literal at a supported width: the number that its decimal digits write, taken
/// modulo two to the width. A text that is empty or holds anything but decimal digits has
/// no value.
pub fn evaluate_literal(text: &str, width: u32) -> (result: Option<u128>)
    requires
        is_supported_width(width),
    ensures
        as_integer(result) == literal_value(text@, width as nat),
        result matches Some(value) ==> value < modulus(width as nat),
{
    let greatest = match greatest_value(width) {
        Some(greatest) => greatest,
        None => {
            return None;
        },
    };
    let ghost m = modulus(width as nat);
    proof {
        lemma_supported_moduli();
    }
    let length = text.unicode_len();
    if length == 0 {
        return None;
    }
    let mut value: u128 = 0;
    let mut index: usize = 0;
    while index < length
        invariant
            index <= length,
            length == text@.len(),
            is_supported_width(width),
            greatest + 1 == m,
            m == modulus(width as nat),
            forall|i: int| 0 <= i < index ==> is_digit(#[trigger] text@[i]),
            value == digits_value(text@.take(index as int)) % m,
            value < m,
        decreases length - index,
    {
        let character = text.get_char(index);
        if !('0' <= character && character <= '9') {
            return None;
        }
        let digit: u128 = (character as u32 - '0' as u32) as u128;
        let ghost front = digits_value(text@.take(index as int));
        proof {
            lemma_supported_moduli();
            assert(text@.take(index + 1).drop_last() =~= text@.take(index as int));
            assert(text@.take(index + 1).last() == character);
            assert(digits_value(text@.take(index + 1)) == front * 10 + digit);
            lemma_mul_mod_noop_left(front, 10, m);
            lemma_add_mod_noop(front * 10, digit as int, m);
            lemma_add_mod_noop((front % m) * 10, digit as int, m);
        }
        if width == 128 {
            value = value.wrapping_mul(10).wrapping_add(digit);
            proof {
                let scaled = (front % m) * 10 % m;
                assert(scaled == front * 10 % m);
                lemma_small_mod(digit as nat, m as nat);
                if scaled + digit >= m {
                    lemma_small_mod((scaled + digit - m) as nat, m as nat);
                    lemma_mod_sub_multiples_vanish(scaled + digit, m);
                } else {
                    lemma_small_mod((scaled + digit) as nat, m as nat);
                }
            }
        } else {
            value = (value * 10 + digit) % (greatest + 1);
        }
        index += 1;
    }
    proof {
        assert(text@.take(index as int) =~= text@);
    }
    Some(value)
}

/// A name bound to a value.
#[derive(Debug)]
pub struct Bound {
    pub name: String,
    pub value: u128,
}

/// The environment that a sequence of bindings makes; of two bindings of one name the
/// later one counts.
pub open spec fn environment_of(bindings: Seq<Bound>) -> Environment
    decreases bindings.len(),
{
    if bindings.len() == 0 {
        Map::empty()
    } else {
        environment_of(bindings.drop_last()).insert(
            bindings.last().name@,
            bindings.last().value as int,
        )
    }
}

/// Whether every bound value is a value of the given width.
pub open spec fn bound_within(bindings: Seq<Bound>, width: nat) -> bool {
    forall|i: int| 0 <= i < bindings.len() ==> (#[trigger] bindings[i]).value < modulus(width)
}

/// Looks a name up among the bindings.
pub fn lookup(bindings: &Vec<Bound>, name: &String) -> (result: Option<u128>)
    ensures
        as_integer(result) == name_value(name@, environment_of(bindings@)),
        result matches Some(value) ==> exists|i: int|
            0 <= i < bindings@.len() && (#[trigger] bindings@[i]).value == value,
{
    let mut index: usize = bindings.len();
    proof {
        assert(bindings@.take(index as int) =~= bindings@);
    }
    while index > 0
        invariant
            index <= bindings.len(),
            name_value(name@, environment_of(bindings@)) == name_value(
                name@,
                environment_of(bindings@.take(index as int)),
            ),
        decreases index,
    {
        proof {
            assert(bindings@.take(index as int).drop_last() =~= bindings@.take(index - 1));
            assert(bindings@.take(index as int).last() == bindings@[index - 1]);
        }
        index -= 1;
        if bindings[index].name == *name {
            return Some(bindings[index].value);
        }
    }
    None
}

/// Evaluates a lowered expression under the bindings at a supported width. The bindings
/// are left as they were.
pub fn evaluate_expression(expression: &Expression, bindings: &mut Vec<Bound>, width: u32) -> (result:
    Option<u128>)
    requires
        is_supported_width(width),
        bound_within(old(bindings)@, width as nat),
    ensures
        final(bindings)@ == old(bindings)@,
        as_integer(result) == lowered_value(
            expression@,
            environment_of(old(bindings)@),
            width as nat,
        ),
        result matches Some(value) ==> value < modulus(width as nat),
    decreases expression,
{
    match expression {
        Expression::Literal(text) => evaluate_literal(text.as_str(), width),
        Expression::Identifier(name) => lookup(bindings, name),
        Expression::BuilderCall { operation, left, right } => {
            let a = evaluate_expression(left, bindings, width);
            let b = evaluate_expression(right, bindings, width);
            match (a, b) {
                (Some(a), Some(b)) => apply_operation(*operation, a, b, width),
                _ => None,
            }
        },
        Expression::BuilderNot { operand } => {
            match evaluate_expression(operand, bindings, width) {
                Some(a) => Some(apply_negation(a, width)),
                None => None,
            }
        },
        Expression::Mux { condition, if_true, if_false } => {
            let a = evaluate_block(if_true, bindings, width);
            let b = evaluate_block(if_false, bindings, width);
            let chosen = evaluate_expression(condition, bindings, width);
            match (a, b, chosen) {
                (Some(a), Some(b), Some(chosen)) => Some(if chosen != 0 { a } else { b }),
                _ => None,
            }
        },
        _ => None,
    }
}

/// Evaluates a lowered block under the bindings at a supported width: bindings of the
/// block count for the statements that follow them, and the value is that of the last
/// statement, an expression without a semicolon. The bindings are left as they were.
pub fn evaluate_block(block: &Block, bindings: &mut Vec<Bound>, width: u32) -> (result: Option<u128>)
    requires
        is_supported_width(width),
        bound_within(old(bindings)@, width as nat),
    ensures
        final(bindings)@ == old(bindings)@,
        as_integer(result) == lowered_statements_value(
            block@.statements,
            environment_of(old(bindings)@),
            width as nat,
        ),
        result matches Some(value) ==> value < modulus(width as nat),
    decreases block,
{
    let ghost source = block@.statements;
    let ghost outer = bindings@;
    let ghost wanted = lowered_statements_value(source, environment_of(outer), width as nat);
    let depth = bindings.len();
    let mut result: Option<u128> = None;
    let mut failed = false;
    let mut index: usize = 0;
    proof {
        assert(source.skip(0) =~= source);
        assert(bindings@.subrange(0, depth as int) =~= outer);
    }
    while index < block.statements.len() && !failed
        invariant
            index <= block.statements.len(),
            is_supported_width(width),
            source == block@.statements,
            depth == outer.len(),
            depth <= bindings@.len(),
            bindings@.subrange(0, depth as int) == outer,
            bound_within(bindings@, width as nat),
            wanted == lowered_statements_value(source, environment_of(outer), width as nat),
            failed ==> wanted is None && result is None,
            !failed && index < block.statements.len() ==> wanted == lowered_statements_value(
                source.skip(index as int),
                environment_of(bindings@),
                width as nat,
            ) && result is None,
            !failed && index == block.statements.len() ==> wanted == as_integer(result),
            result matches Some(value) ==> value < modulus(width as nat),
        decreases block.statements.len() - index + (if failed { 0int } else { 1int }),
    {
        let ghost rest = source.skip(index as int);
        let ghost before = bindings@;
        proof {
            assert(rest[0] == block.statements@[index as int]@);
            assert(rest.drop_first() =~= source.skip(index + 1));
            assert(rest.len() == block.statements.len() - index);
        }
        match &block.statements[index] {
            Statement::Expression { expression, terminated } => {
                match evaluate_expression(expression, bindings, width) {
                    Some(value) => {
                        if index + 1 == block.statements.len() && !*terminated {
                            result = Some(value);
                        } else {
                            proof {
                                if index + 1 == block.statements.len() {
                                    assert(source.skip(index + 1).len() == 0);
                                }
                            }
                        }
                        index += 1;
                    },
                    None => {
                        failed = true;
                    },
                }
            },
            Statement::Binding { name, initializer: Some(expression) } => {
                match evaluate_expression(expression, bindings, width) {
                    Some(value) => {
                        bindings.push(Bound { name: name.clone(), value });
                        proof {
                            assert(bindings@.drop_last() =~= before);
                            assert(bindings@.subrange(0, depth as int) =~= before.subrange(
                                0,
                                depth as int,
                            ));
                            if index + 1 == block.statements.len() {
                                assert(source.skip(index + 1).len() == 0);
                            }
                        }
                        index += 1;
                    },
                    None => {
                        failed = true;
                    },
                }
            },
            _ => {
                failed = true;
            },
        }
    }
    bindings.truncate(depth);
    result
}

/// Why a call of the emitted form fails.
#[derive(Clone, Copy, Debug, PartialEq, Eq, Structural)]
pub enum ExecutionError {
    /// The element type's name selects no arm, or an arm of a width that is not supported.
    UnsupportedType,
    /// The number of arguments is not the number of inputs.
    ArgumentCount,
    /// An argument is no value of the selected width.
    ArgumentOutOfRange,
    /// The evaluation of the body has no value.
    ExecutionFailed,
}

/// What a call of the emitted form returns.
#[derive(Clone, Copy, Debug, PartialEq, Eq, Structural)]
pub enum Outcome {
    /// In compile mode: a circuit, of which the number of flattened input bits is given.
    Circuit { input_bits: u128 },
    /// In execute mode: the value of the body.
    Value(u128),
}

/// The arguments as integers.
pub open spec fn integers(arguments: Seq<u128>) -> Seq<int> {
    arguments.map_values(|argument: u128| argument as int)
}

/// What `run` returns on every emitted form, token and arguments. The dispatch comes
/// first, then the number of the arguments, then their range. In compile mode the input
/// bits are one width for each input; in execute mode the value is that of the rewritten
/// body with the inputs bound in declaration order.
pub open spec fn run_spec(emitted: EmittedFunctionView, token: Seq<char>, arguments: Seq<u128>) -> Result<
    Outcome,
    ExecutionError,
> {
    match select_width_spec(emitted.arms, token) {
        Err(_) => Err(ExecutionError::UnsupportedType),
        Ok(width) => if !is_supported_width(width) {
            Err(ExecutionError::UnsupportedType)
        } else if arguments.len() != emitted.inputs.len() {
            Err(ExecutionError::ArgumentCount)
        } else if exists|i: int|
            0 <= i < arguments.len() && #[trigger] arguments[i] >= modulus(width as nat) {
            Err(ExecutionError::ArgumentOutOfRange)
        } else {
            match emitted.mode {
                Mode::Compile => Ok(
                    Outcome::Circuit { input_bits: (emitted.inputs.len() * width) as u128 },
                ),
                Mode::Execute => match execution_value(emitted, token, integers(arguments)) {
                    Some(value) => Ok(Outcome::Value(value as u128)),
                    None => Err(ExecutionError::ExecutionFailed),
                },
            }
        },
    }
}

/// Calls the emitted form, in the reference reading, at the element type that `token`
/// names and with the given arguments.
pub fn run(emitted: &EmittedFunction, token: &str, arguments: &Vec<u128>) -> (result: Result<
    Outcome,
    ExecutionError,
>)
    ensures
        result == run_spec(emitted@, token@, arguments@),
{
    let width = match select_width(&emitted.arms, token) {
        Err(_) => {
            return Err(ExecutionError::UnsupportedType);
        },
        Ok(width) => width,
    };
    let greatest = match greatest_value(width) {
        None => {
            return Err(ExecutionError::UnsupportedType);
        },
        Some(greatest) => greatest,
    };
    if arguments.len() != emitted.inputs.len() {
        return Err(ExecutionError::ArgumentCount);
    }
    let ghost names = strings_view(emitted.inputs@);
    let ghost values = integers(arguments@);
    let mut bindings: Vec<Bound> = Vec::new();
    let mut index: usize = 0;
    proof {
        assert(names.take(0) =~= Seq::<Seq<char>>::empty());
    }
    while index < arguments.len()
        invariant
            index <= arguments.len(),
            arguments.len() == emitted.inputs.len(),
            names == strings_view(emitted.inputs@),
            values == integers(arguments@),
            select_width_spec(emitted@.arms, token@) == Ok::<u32, TransformError>(width),
            is_supported_width(width),
            greatest + 1 == modulus(width as nat),
            forall|i: int| 0 <= i < index ==> #[trigger] arguments@[i] < modulus(width as nat),
            bound_within(bindings@, width as nat),
            environment_of(bindings@) == bind_inputs(
                names.take(index as int),
                values.take(index as int),
            ),
        decreases arguments.len() - index,
    {
        if arguments[index] > greatest {
            assert(arguments@[index as int] >= modulus(width as nat));
            return Err(ExecutionError::ArgumentOutOfRange);
        }
        let ghost before = bindings@;
        bindings.push(Bound { name: emitted.inputs[index].clone(), value: arguments[index] });
        proof {
            assert(bindings@.drop_last() =~= before);
            assert(names.take(index + 1).drop_last() =~= names.take(index as int));
            assert(values.take(index + 1).drop_last() =~= values.take(index as int));
            assert(names.take(index + 1).last() == emitted.inputs@[index as int]@);
            assert(values.take(index + 1).last() == arguments@[index as int] as int);
        }
        index += 1;
    }
    proof {
        assert(names.take(index as int) =~= names);
        assert(values.take(index as int) =~= values);
    }
    match emitted.mode {
        Mode::Compile => {
            assert(emitted.inputs.len() * width <= usize::MAX * 128) by (nonlinear_arith)
                requires
                    emitted.inputs.len() <= usize::MAX,
                    width <= 128,
            ;
            Ok(Outcome::Circuit { input_bits: (emitted.inputs.len() as u128) * (width as u128) })
        },
        Mode::Execute => {
            match evaluate_block(&emitted.body, &mut bindings, width) {
                Some(value) => Ok(Outcome::Value(value)),
                None => Err(ExecutionError::ExecutionFailed),
            }
        },
    }
}

/// A call in execute mode returns what the declared function computes: for a well-formed
/// declaration whose body is pure arithmetic that the pass lowers completely, called at a
/// supported element type with one argument of that width for each parameter, `run`
/// returns the value of the source read as arithmetic of that width, and fails where the
/// source has no value.
pub proof fn lemma_run_returns_direct_value(
    declaration: FunctionDeclarationView,
    token: Seq<char>,
    arguments: Seq<u128>,
)
    requires
        extract_signature_spec(declaration) is Ok,
        body_lowers_completely(declaration.body.statements),
        select_width_spec(width_table_spec(), token) is Ok,
        arguments.len() == declaration.parameters.len(),
        forall|i: int|
            0 <= i < arguments.len() ==> #[trigger] arguments[i] < modulus(
                select_width_spec(width_table_spec(), token).unwrap() as nat,
            ),
    ensures
        generate_macro_spec(declaration, Mode::Execute) is Ok,
        run_spec(generate_macro_spec(declaration, Mode::Execute).unwrap(), token, arguments)
            == match direct_value(
            declaration,
            integers(arguments),
            select_width_spec(width_table_spec(), token).unwrap() as nat,
        ) {
            Some(value) => Ok::<Outcome, ExecutionError>(Outcome::Value(value as u128)),
            None => Err::<Outcome, ExecutionError>(ExecutionError::ExecutionFailed),
        },
{
    lemma_dispatch_selects_matching_width(token);
    lemma_execution_equals_direct_evaluation(declaration, token, integers(arguments));
    lemma_names_have_the_length(declaration.parameters);
}

} // verus!
