//! What a function computes, before and after lowering.
//!
//! Values are integers of a fixed width. The source is read as ordinary fixed-width
//! arithmetic, with results taken modulo two to the width. The lowered form is read with
//! the builder's operations taken as the same arithmetic on nodes; a multiplexer
//! evaluates both of its blocks and then selects. Division and remainder by zero have no
//! value in either reading.

use vstd::prelude::*;
use vstd::arithmetic::power2::pow2;
use crate::ast::{ElseArmView, ExpressionView, Operation, StatementView, UnaryOperator};
use crate::dispatch::{select_width_spec, width_table_spec};
use crate::emit::{generate_macro_spec, EmittedFunctionView, Mode};
use crate::error::TransformError;
use crate::signature::{extract_signature_spec, parameter_names_spec, FunctionDeclarationView};
use crate::rewrite::{
    lemma_statements_rewritten_pointwise, modify_body_spec, modify_statement_spec,
    modify_statements_spec, replace_expressions_spec,
};

verus! {

/// The values bound to names.
pub type Environment = Map<Seq<char>, int>;

/// Two to the width: the number of values of that width.
pub open spec fn modulus(width: nat) -> int {
    pow2(width) as int
}

/// The value of a builder operation on two values of the given width.
pub open spec fn operation_value(operation: Operation, left: int, right: int, width: nat) -> Option<
    int,
> {
    match operation {
        Operation::Eq => Some(if left == right { 1int } else { 0int }),
        Operation::Ne => Some(if left != right { 1int } else { 0int }),
        Operation::Gt => Some(if left > right { 1int } else { 0int }),
        Operation::Ge => Some(if left >= right { 1int } else { 0int }),
        Operation::Lt => Some(if left < right { 1int } else { 0int }),
        Operation::Le => Some(if left <= right { 1int } else { 0int }),
        Operation::Add => Some((left + right) % modulus(width)),
        Operation::Sub => Some((left - right) % modulus(width)),
        Operation::Mul => Some((left * right) % modulus(width)),
        Operation::Div => if right == 0 {
            None
        } else {
            Some(left / right)
        },
        Operation::Rem => if right == 0 {
            None
        } else {
            Some(left % right)
        },
        Operation::And => Some(((left as u128) & (right as u128)) as int),
        Operation::Or => Some(((left as u128) | (right as u128)) as int),
        Operation::Xor => Some(((left as u128) ^ (right as u128)) as int),
    }
}

/// The bitwise negation of a value of the given width.
pub open spec fn negation_value(operand: int, width: nat) -> int {
    modulus(width) - 1 - operand
}

/// Whether a character is a decimal digit.
pub open spec fn is_digit(character: char) -> bool {
    '0' <= character && character <= '9'
}

/// The number that a sequence of decimal digits writes.
pub open spec fn digits_value(text: Seq<char>) -> int
    decreases text.len(),
{
    if text.len() == 0 {
        0
    } else {
        digits_value(text.drop_last()) * 10 + (text.last() as int - '0' as int)
    }
}

/// The number that a text writes in decimal; a text that is empty or holds anything but
/// decimal digits writes none.
pub open spec fn decimal_value(text: Seq<char>) -> Option<int> {
    if text.len() > 0 && (forall|i: int| 0 <= i < text.len() ==> is_digit(#[trigger] text[i])) {
        Some(digits_value(text))
    } else {
        None
    }
}

/// The value of a literal at the given width.
pub open spec fn literal_value(text: Seq<char>, width: nat) -> Option<int> {
    match decimal_value(text) {
        Some(number) => Some(number % modulus(width)),
        None => None,
    }
}

/// The value bound to a name.
pub open spec fn name_value(name: Seq<char>, environment: Environment) -> Option<int> {
    if environment.contains_key(name) {
        Some(environment[name])
    } else {
        None
    }
}

/// The value of a source expression read as ordinary arithmetic. A conditional evaluates
/// its condition and then only the block that the condition selects. A lowered form has
/// no value in this reading.
pub open spec fn source_value(expression: ExpressionView, environment: Environment, width: nat) -> Option<
    int,
>
    decreases expression,
{
    match expression {
        ExpressionView::Literal(text) => literal_value(text, width),
        ExpressionView::Identifier(name) => name_value(name, environment),
        ExpressionView::Binary { operator, left, right } => match (
            source_value(*left, environment, width),
            source_value(*right, environment, width),
        ) {
            (Some(a), Some(b)) => operation_value(operator.operation_spec(), a, b, width),
            _ => None,
        },
        ExpressionView::Unary { prefix: UnaryOperator::Not, operand } => match source_value(
            *operand,
            environment,
            width,
        ) {
            Some(a) => Some(negation_value(a, width)),
            None => None,
        },
        ExpressionView::Conditional { condition, then_block, else_arm: ElseArmView::Block(else_block) } => match source_value(
            *condition,
            environment,
            width,
        ) {
            Some(chosen) => if chosen != 0 {
                source_statements_value(then_block.statements, environment, width)
            } else {
                source_statements_value(else_block.statements, environment, width)
            },
            None => None,
        },
        _ => None,
    }
}

/// The value of a sequence of source statements: bindings extend the environment for
/// what follows, and the value is that of the last statement, an expression without a
/// semicolon.
pub open spec fn source_statements_value(
    statements: Seq<StatementView>,
    environment: Environment,
    width: nat,
) -> Option<int>
    decreases statements,
{
    if statements.len() == 0 {
        None
    } else {
        match statements[0] {
            StatementView::Expression { expression, terminated } => {
                match source_value(expression, environment, width) {
                    Some(value) => if statements.len() == 1 && !terminated {
                        Some(value)
                    } else {
                        source_statements_value(statements.drop_first(), environment, width)
                    },
                    None => None,
                }
            },
            StatementView::Binding { name, initializer: Some(expression) } => {
                match source_value(expression, environment, width) {
                    Some(value) => source_statements_value(
                        statements.drop_first(),
                        environment.insert(name, value),
                        width,
                    ),
                    None => None,
                }
            },
            _ => None,
        }
    }
}

/// The value of a lowered expression, with the builder's operations read as fixed-width
/// arithmetic. A multiplexer has a value only where both of its blocks and its condition
/// have one: both blocks are evaluated whatever the condition holds. An operator that was
/// not lowered has no value in this reading.
pub open spec fn lowered_value(expression: ExpressionView, environment: Environment, width: nat) -> Option<
    int,
>
    decreases expression,
{
    match expression {
        ExpressionView::Literal(text) => literal_value(text, width),
        ExpressionView::Identifier(name) => name_value(name, environment),
        ExpressionView::BuilderCall { operation, left, right } => match (
            lowered_value(*left, environment, width),
            lowered_value(*right, environment, width),
        ) {
            (Some(a), Some(b)) => operation_value(operation, a, b, width),
            _ => None,
        },
        ExpressionView::BuilderNot { operand } => match lowered_value(*operand, environment, width) {
            Some(a) => Some(negation_value(a, width)),
            None => None,
        },
        ExpressionView::Mux { condition, if_true, if_false } => match (
            lowered_statements_value(if_true.statements, environment, width),
            lowered_statements_value(if_false.statements, environment, width),
            lowered_value(*condition, environment, width),
        ) {
            (Some(a), Some(b), Some(chosen)) => Some(if chosen != 0 { a } else { b }),
            _ => None,
        },
        _ => None,
    }
}

/// The value of a sequence of lowered statements.
pub open spec fn lowered_statements_value(
    statements: Seq<StatementView>,
    environment: Environment,
    width: nat,
) -> Option<int>
    decreases statements,
{
    if statements.len() == 0 {
        None
    } else {
        match statements[0] {
            StatementView::Expression { expression, terminated } => {
                match lowered_value(expression, environment, width) {
                    Some(value) => if statements.len() == 1 && !terminated {
                        Some(value)
                    } else {
                        lowered_statements_value(statements.drop_first(), environment, width)
                    },
                    None => None,
                }
            },
            StatementView::Binding { name, initializer: Some(expression) } => {
                match lowered_value(expression, environment, width) {
                    Some(value) => lowered_statements_value(
                        statements.drop_first(),
                        environment.insert(name, value),
                        width,
                    ),
                    None => None,
                }
            },
            _ => None,
        }
    }
}

/// Whether an expression is a literal or a name.
pub open spec fn is_leaf(expression: ExpressionView) -> bool {
    expression is Literal || expression is Identifier
}

/// Whether an expression is pure arithmetic that the pass lowers completely: a literal, a
/// name, a comparison of two such expressions, an arithmetic or bitwise operator on two
/// leaves, or the negation of a leaf.
pub open spec fn lowers_completely(expression: ExpressionView) -> bool
    decreases expression,
{
    match expression {
        ExpressionView::Literal(_) => true,
        ExpressionView::Identifier(_) => true,
        ExpressionView::Binary { operator, left, right } => if operator.is_comparison() {
            lowers_completely(*left) && lowers_completely(*right)
        } else {
            is_leaf(*left) && is_leaf(*right)
        },
        ExpressionView::Unary { prefix: UnaryOperator::Not, operand } => is_leaf(*operand),
        _ => false,
    }
}

/// Whether a statement is an expression statement or an initialized binding whose
/// expression is lowered completely.
pub open spec fn statement_lowers_completely(statement: StatementView) -> bool {
    match statement {
        StatementView::Expression { expression, terminated } => lowers_completely(expression),
        StatementView::Binding { name, initializer: Some(expression) } => lowers_completely(
            expression,
        ),
        _ => false,
    }
}

/// Whether every statement of a sequence is lowered completely.
pub open spec fn body_lowers_completely(statements: Seq<StatementView>) -> bool {
    forall|i: int|
        0 <= i < statements.len() ==> statement_lowers_completely(#[trigger] statements[i])
}

/// Whether an expression is written in the source language alone: no lowered form stands
/// anywhere in it.
pub open spec fn is_source_expression(expression: ExpressionView) -> bool
    decreases expression,
{
    match expression {
        ExpressionView::Literal(_) => true,
        ExpressionView::Identifier(_) => true,
        ExpressionView::Other(_) => true,
        ExpressionView::Binary { operator, left, right } => is_source_expression(*left)
            && is_source_expression(*right),
        ExpressionView::Unary { prefix, operand } => is_source_expression(*operand),
        ExpressionView::Conditional { condition, then_block, else_arm } => {
            &&& is_source_expression(*condition)
            &&& are_source_statements(then_block.statements)
            &&& match else_arm {
                ElseArmView::Block(else_block) => are_source_statements(else_block.statements),
                _ => true,
            }
        },
        _ => false,
    }
}

/// Whether a statement is written in the source language alone.
pub open spec fn is_source_statement(statement: StatementView) -> bool
    decreases statement,
{
    match statement {
        StatementView::Expression { expression, terminated } => is_source_expression(expression),
        StatementView::Binding { name, initializer: Some(expression) } => is_source_expression(
            expression,
        ),
        _ => true,
    }
}

/// Whether every statement of a sequence is written in the source language alone.
pub open spec fn are_source_statements(statements: Seq<StatementView>) -> bool
    decreases statements,
{
    forall|i: int| 0 <= i < statements.len() ==> is_source_statement(#[trigger] statements[i])
}

/// The rewritten form of a sequence without its first statement is the rewritten form of
/// the sequence without its first statement.
pub proof fn lemma_rewritten_tail(statements: Seq<StatementView>)
    requires
        statements.len() > 0,
        modify_statements_spec(statements) is Ok,
    ensures
        modify_statement_spec(statements[0]) == Ok::<StatementView, TransformError>(
            modify_statements_spec(statements).unwrap()[0],
        ),
        modify_statements_spec(statements.drop_first()) == Ok::<
            Seq<StatementView>,
            TransformError,
        >(modify_statements_spec(statements).unwrap().drop_first()),
{
    let rewritten = modify_statements_spec(statements).unwrap();
    let tail = statements.drop_first();
    lemma_statements_rewritten_pointwise(statements);
    lemma_statements_rewritten_pointwise(tail);
    assert forall|i: int| 0 <= i < tail.len() implies (#[trigger] modify_statement_spec(
        tail[i],
    )) is Ok by {
        assert(tail[i] == statements[i + 1]);
    }
    let rewritten_tail = modify_statements_spec(tail).unwrap();
    assert forall|i: int| 0 <= i < tail.len() implies rewritten_tail[i] == rewritten.drop_first()[i] by {
        assert(tail[i] == statements[i + 1]);
        assert(modify_statement_spec(tail[i]) == Ok::<StatementView, TransformError>(
            rewritten_tail[i],
        ));
        assert(modify_statement_spec(statements[i + 1]) == Ok::<StatementView, TransformError>(
            rewritten[i + 1],
        ));
    }
    assert(rewritten_tail =~= rewritten.drop_first());
}

/// Pure arithmetic keeps its value: an expression that the pass lowers completely is
/// accepted, and its lowered form has the value of the source, or none where the source
/// has none.
pub proof fn lemma_arithmetic_is_preserved(
    expression: ExpressionView,
    environment: Environment,
    width: nat,
)
    requires
        lowers_completely(expression),
    ensures
        replace_expressions_spec(expression) is Ok,
        lowered_value(replace_expressions_spec(expression).unwrap(), environment, width)
            == source_value(expression, environment, width),
    decreases expression,
{
    match expression {
        ExpressionView::Binary { operator, left, right } => {
            if operator.is_comparison() {
                lemma_arithmetic_is_preserved(*left, environment, width);
                lemma_arithmetic_is_preserved(*right, environment, width);
            } else {
                lemma_leaf_reads_alike(*left, environment, width);
                lemma_leaf_reads_alike(*right, environment, width);
            }
        },
        ExpressionView::Unary { prefix: UnaryOperator::Not, operand } => {
            lemma_leaf_reads_alike(*operand, environment, width);
        },
        _ => {},
    }
}

/// A leaf has the same value in both readings.
pub proof fn lemma_leaf_reads_alike(expression: ExpressionView, environment: Environment, width: nat)
    requires
        is_leaf(expression),
    ensures
        lowered_value(expression, environment, width) == source_value(
            expression,
            environment,
            width,
        ),
{
}

/// A body of pure arithmetic keeps its value: where every statement is lowered
/// completely, the body is accepted, and the rewritten body has the value of the source
/// in every environment, or none where the source has none.
pub proof fn lemma_body_is_preserved(
    statements: Seq<StatementView>,
    environment: Environment,
    width: nat,
)
    requires
        body_lowers_completely(statements),
    ensures
        modify_statements_spec(statements) is Ok,
        lowered_statements_value(modify_statements_spec(statements).unwrap(), environment, width)
            == source_statements_value(statements, environment, width),
    decreases statements.len(),
{
    lemma_statements_rewritten_pointwise(statements);
    assert forall|i: int| 0 <= i < statements.len() implies (#[trigger] modify_statement_spec(
        statements[i],
    )) is Ok by {
        assert(statement_lowers_completely(statements[i]));
        match statements[i] {
            StatementView::Expression { expression, terminated } => {
                lemma_arithmetic_is_preserved(expression, environment, width);
            },
            StatementView::Binding { name, initializer: Some(expression) } => {
                lemma_arithmetic_is_preserved(expression, environment, width);
            },
            _ => {},
        }
    }
    if statements.len() > 0 {
        let rewritten = modify_statements_spec(statements).unwrap();
        let tail = statements.drop_first();
        lemma_rewritten_tail(statements);
        assert(statement_lowers_completely(statements[0]));
        assert forall|i: int| 0 <= i < tail.len() implies statement_lowers_completely(
            #[trigger] tail[i],
        ) by {
            assert(tail[i] == statements[i + 1]);
        }
        match statements[0] {
            StatementView::Expression { expression, terminated } => {
                lemma_arithmetic_is_preserved(expression, environment, width);
                lemma_body_is_preserved(tail, environment, width);
            },
            StatementView::Binding { name, initializer: Some(expression) } => {
                lemma_arithmetic_is_preserved(expression, environment, width);
                match source_value(expression, environment, width) {
                    Some(value) => {
                        lemma_body_is_preserved(tail, environment.insert(name, value), width);
                    },
                    None => {},
                }
            },
            _ => {},
        }
    }
}

/// A source operand that has a value in the lowered reading is a leaf, and has the same
/// value in the source reading.
pub proof fn lemma_source_operand(expression: ExpressionView, environment: Environment, width: nat)
    requires
        is_source_expression(expression),
        lowered_value(expression, environment, width) is Some,
    ensures
        is_leaf(expression),
        source_value(expression, environment, width) == lowered_value(
            expression,
            environment,
            width,
        ),
{
}

/// Lowering is sound: where the rewritten form of a source expression has a value, the
/// source has the same value. A conditional is included: its multiplexer has a value only
/// where both blocks have one, and then it is the value of the block that the source
/// selects.
pub proof fn lemma_lowering_is_sound(
    expression: ExpressionView,
    environment: Environment,
    width: nat,
)
    requires
        is_source_expression(expression),
        replace_expressions_spec(expression) is Ok,
        lowered_value(replace_expressions_spec(expression).unwrap(), environment, width) is Some,
    ensures
        source_value(expression, environment, width) == lowered_value(
            replace_expressions_spec(expression).unwrap(),
            environment,
            width,
        ),
    decreases expression,
{
    match expression {
        ExpressionView::Binary { operator, left, right } => {
            if operator.is_comparison() {
                lemma_lowering_is_sound(*left, environment, width);
                lemma_lowering_is_sound(*right, environment, width);
            } else {
                lemma_source_operand(*left, environment, width);
                lemma_source_operand(*right, environment, width);
            }
        },
        ExpressionView::Unary { prefix: UnaryOperator::Not, operand } => {
            lemma_source_operand(*operand, environment, width);
        },
        ExpressionView::Conditional {
            condition,
            then_block,
            else_arm: ElseArmView::Block(else_block),
        } => {
            let if_true = modify_body_spec(then_block).unwrap();
            let if_false = modify_body_spec(else_block).unwrap();
            let rewritten = replace_expressions_spec(*condition).unwrap();
            assert(replace_expressions_spec(expression).unwrap() == ExpressionView::Mux {
                condition: Box::new(rewritten),
                if_true,
                if_false,
            });
            assert(if_true.statements == modify_statements_spec(then_block.statements).unwrap());
            assert(if_false.statements == modify_statements_spec(else_block.statements).unwrap());
            lemma_lowered_statements_are_sound(then_block.statements, environment, width);
            lemma_lowered_statements_are_sound(else_block.statements, environment, width);
            lemma_lowering_is_sound(*condition, environment, width);
        },
        _ => {},
    }
}

/// Lowering is sound on statements: where the rewritten form of a sequence of source
/// statements has a value, the source has the same value.
pub proof fn lemma_lowered_statements_are_sound(
    statements: Seq<StatementView>,
    environment: Environment,
    width: nat,
)
    requires
        are_source_statements(statements),
        modify_statements_spec(statements) is Ok,
        lowered_statements_value(modify_statements_spec(statements).unwrap(), environment, width)
            is Some,
    ensures
        source_statements_value(statements, environment, width) == lowered_statements_value(
            modify_statements_spec(statements).unwrap(),
            environment,
            width,
        ),
    decreases statements,
{
    lemma_statements_rewritten_pointwise(statements);
    if statements.len() > 0 {
        let rewritten = modify_statements_spec(statements).unwrap();
        let tail = statements.drop_first();
        lemma_rewritten_tail(statements);
        assert(is_source_statement(statements[0]));
        assert forall|i: int| 0 <= i < tail.len() implies is_source_statement(#[trigger] tail[i]) by {
            assert(tail[i] == statements[i + 1]);
        }
        match statements[0] {
            StatementView::Expression { expression, terminated } => {
                lemma_lowering_is_sound(expression, environment, width);
                if !(statements.len() == 1 && !terminated) {
                    lemma_lowered_statements_are_sound(tail, environment, width);
                }
            },
            StatementView::Binding { name, initializer: Some(expression) } => {
                lemma_lowering_is_sound(expression, environment, width);
                let value = source_value(expression, environment, width).unwrap();
                lemma_lowered_statements_are_sound(tail, environment.insert(name, value), width);
            },
            _ => {},
        }
    }
}

/// The environment in which each name is bound to the value at its place; of two equal
/// names the later one counts.
pub open spec fn bind_inputs(names: Seq<Seq<char>>, values: Seq<int>) -> Environment
    decreases names.len(),
{
    if names.len() == 0 || values.len() == 0 {
        Map::empty()
    } else {
        bind_inputs(names.drop_last(), values.drop_last()).insert(names.last(), values.last())
    }
}

/// What the emitted form returns in execute mode when it is called with the given values
/// at the element type that `token` names: the value of the rewritten body at the width
/// that the dispatch selects, with the inputs bound in declaration order. There is none
/// where the dispatch fails or the evaluation does.
pub open spec fn execution_value(emitted: EmittedFunctionView, token: Seq<char>, values: Seq<int>) -> Option<
    int,
> {
    match select_width_spec(emitted.arms, token) {
        Ok(width) => lowered_statements_value(
            emitted.body.statements,
            bind_inputs(emitted.inputs, values),
            width as nat,
        ),
        Err(_) => None,
    }
}

/// What the declared function computes on the given values, read as ordinary arithmetic
/// of the given width.
pub open spec fn direct_value(declaration: FunctionDeclarationView, values: Seq<int>, width: nat) -> Option<
    int,
> {
    match parameter_names_spec(declaration.parameters) {
        Ok(names) => source_statements_value(
            declaration.body.statements,
            bind_inputs(names, values),
            width,
        ),
        Err(_) => None,
    }
}

/// Execution equals direct evaluation: for a well-formed declaration whose body is pure
/// arithmetic that the pass lowers completely, at each supported width and for all inputs
/// of that width, the emitted form in execute mode returns what the declared function
/// computes on integers of that width, taken modulo two to the width.
pub proof fn lemma_execution_equals_direct_evaluation(
    declaration: FunctionDeclarationView,
    token: Seq<char>,
    values: Seq<int>,
)
    requires
        extract_signature_spec(declaration) is Ok,
        body_lowers_completely(declaration.body.statements),
        select_width_spec(width_table_spec(), token) is Ok,
        values.len() == declaration.parameters.len(),
        forall|i: int|
            0 <= i < values.len() ==> 0 <= #[trigger] values[i] < modulus(
                select_width_spec(width_table_spec(), token).unwrap() as nat,
            ),
    ensures
        generate_macro_spec(declaration, Mode::Execute) is Ok,
        execution_value(generate_macro_spec(declaration, Mode::Execute).unwrap(), token, values)
            == direct_value(
            declaration,
            values,
            select_width_spec(width_table_spec(), token).unwrap() as nat,
        ),
{
    let width = select_width_spec(width_table_spec(), token).unwrap() as nat;
    let names = parameter_names_spec(declaration.parameters).unwrap();
    lemma_body_is_preserved(declaration.body.statements, bind_inputs(names, values), width);
}

/// Execution is sound: for a well-formed declaration written in the source language
/// alone, conditionals included, whenever the emitted form in execute mode returns a value,
/// the declared function computes that value on integers of the selected width.
pub proof fn lemma_execution_is_sound(
    declaration: FunctionDeclarationView,
    token: Seq<char>,
    values: Seq<int>,
)
    requires
        are_source_statements(declaration.body.statements),
        generate_macro_spec(declaration, Mode::Execute) is Ok,
        execution_value(generate_macro_spec(declaration, Mode::Execute).unwrap(), token, values)
            is Some,
    ensures
        select_width_spec(width_table_spec(), token) is Ok,
        direct_value(
            declaration,
            values,
            select_width_spec(width_table_spec(), token).unwrap() as nat,
        ) == execution_value(
            generate_macro_spec(declaration, Mode::Execute).unwrap(),
            token,
            values,
        ),
{
    let width = select_width_spec(width_table_spec(), token).unwrap() as nat;
    let names = parameter_names_spec(declaration.parameters).unwrap();
    lemma_lowered_statements_are_sound(
        declaration.body.statements,
        bind_inputs(names, values),
        width,
    );
}

} // verus!
