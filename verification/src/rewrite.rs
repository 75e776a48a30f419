//! The rewriter: operators become builder calls, conditionals become multiplexers.
//!
//! Operands of a comparison are rewritten before the call is built. Operands of an
//! arithmetic or bitwise operator, and the operand of a negation, are carried over as
//! written: an operator nested in one of them is left for the caller to lower.

use vstd::prelude::*;
use crate::ast::{
    Block, BlockView, ElseArm, ElseArmView, Expression, ExpressionView, Statement, StatementView,
    UnaryOperator,
};
use crate::error::TransformError;

verus! {

/// The rewritten form of an expression, or the first refusal met on the way.
pub open spec fn replace_expressions_spec(expression: ExpressionView) -> Result<
    ExpressionView,
    TransformError,
>
    decreases expression,
{
    match expression {
        ExpressionView::Binary { operator, left, right } => {
            if operator.is_comparison() {
                match replace_expressions_spec(*left) {
                    Err(e) => Err(e),
                    Ok(l) => match replace_expressions_spec(*right) {
                        Err(e) => Err(e),
                        Ok(r) => Ok(
                            ExpressionView::BuilderCall {
                                operation: operator.operation_spec(),
                                left: Box::new(l),
                                right: Box::new(r),
                            },
                        ),
                    },
                }
            } else {
                Ok(ExpressionView::BuilderCall { operation: operator.operation_spec(), left, right })
            }
        },
        ExpressionView::Unary { prefix: UnaryOperator::Not, operand } => Ok(
            ExpressionView::BuilderNot { operand },
        ),
        ExpressionView::Conditional { condition, then_block, else_arm } => match else_arm {
            ElseArmView::Missing => Err(TransformError::MissingElse),
            ElseArmView::Other(_) => match modify_body_spec(then_block) {
                Err(e) => Err(e),
                Ok(_) => Err(TransformError::ElseNotBlock),
            },
            ElseArmView::Block(else_block) => match modify_body_spec(then_block) {
                Err(e) => Err(e),
                Ok(t) => match modify_body_spec(else_block) {
                    Err(e) => Err(e),
                    Ok(f) => match replace_expressions_spec(*condition) {
                        Err(e) => Err(e),
                        Ok(c) => Ok(
                            ExpressionView::Mux { condition: Box::new(c), if_true: t, if_false: f },
                        ),
                    },
                },
            },
        },
        other => Ok(other),
    }
}

/// The rewritten form of a statement: an expression statement and the initializer of a
/// binding are rewritten, any other statement stays as it is.
pub open spec fn modify_statement_spec(statement: StatementView) -> Result<
    StatementView,
    TransformError,
>
    decreases statement,
{
    match statement {
        StatementView::Expression { expression, terminated } => match replace_expressions_spec(
            expression,
        ) {
            Err(e) => Err(e),
            Ok(rewritten) => Ok(StatementView::Expression { expression: rewritten, terminated }),
        },
        StatementView::Binding { name, initializer: Some(expression) } => match replace_expressions_spec(
            expression,
        ) {
            Err(e) => Err(e),
            Ok(rewritten) => Ok(StatementView::Binding { name, initializer: Some(rewritten) }),
        },
        other => Ok(other),
    }
}

/// The rewritten forms of a sequence of statements, in order, or the refusal of the first
/// statement that is refused.
pub open spec fn modify_statements_spec(statements: Seq<StatementView>) -> Result<
    Seq<StatementView>,
    TransformError,
>
    decreases statements,
{
    if statements.len() == 0 {
        Ok(Seq::empty())
    } else {
        match modify_statements_spec(statements.drop_last()) {
            Err(e) => Err(e),
            Ok(front) => match modify_statement_spec(statements.last()) {
                Err(e) => Err(e),
                Ok(rewritten) => Ok(front.push(rewritten)),
            },
        }
    }
}

/// The rewritten form of a block.
pub open spec fn modify_body_spec(block: BlockView) -> Result<BlockView, TransformError>
    decreases block,
{
    match modify_statements_spec(block.statements) {
        Err(e) => Err(e),
        Ok(statements) => Ok(BlockView { statements }),
    }
}

/// The value of the outcome of rewriting an expression.
pub open spec fn expression_outcome(outcome: Result<Expression, TransformError>) -> Result<
    ExpressionView,
    TransformError,
> {
    match outcome {
        Ok(expression) => Ok(expression@),
        Err(e) => Err(e),
    }
}

/// The value of the outcome of rewriting a block.
pub open spec fn block_outcome(outcome: Result<Block, TransformError>) -> Result<
    BlockView,
    TransformError,
> {
    match outcome {
        Ok(block) => Ok(block@),
        Err(e) => Err(e),
    }
}

/// Rewrites an expression: a binary operator becomes the builder call of its operation, a
/// negation the builder's negation, a conditional a multiplexer over its two rewritten
/// blocks and its rewritten condition. The operands of a comparison are rewritten first,
/// in their order; the operands of every other operator are kept as written. Every other
/// expression is returned as it is. A conditional without an else block is refused.
pub fn replace_expressions(expression: Expression) -> (result: Result<Expression, TransformError>)
    ensures
        expression_outcome(result) == replace_expressions_spec(expression@),
    decreases expression,
{
    match expression {
        Expression::Binary { operator, left, right } => {
            if operator.compares() {
                let left = replace_expressions(*left)?;
                let right = replace_expressions(*right)?;
                Ok(
                    Expression::BuilderCall {
                        operation: operator.operation(),
                        left: Box::new(left),
                        right: Box::new(right),
                    },
                )
            } else {
                Ok(Expression::BuilderCall { operation: operator.operation(), left, right })
            }
        },
        Expression::Unary { prefix: UnaryOperator::Not, operand } => Ok(
            Expression::BuilderNot { operand },
        ),
        Expression::Conditional { condition, then_block, else_arm } => {
            assert(expression@ == ExpressionView::Conditional {
                condition: Box::new(condition@),
                then_block: then_block@,
                else_arm: else_arm@,
            });
            match else_arm {
                ElseArm::Missing => Err(TransformError::MissingElse),
                ElseArm::Other(_) => {
                    let _ = modify_body(then_block)?;
                    Err(TransformError::ElseNotBlock)
                },
                ElseArm::Block(else_block) => {
                    assert(else_arm@ == ElseArmView::Block(else_block@));
                    let if_true = modify_body(then_block)?;
                    let if_false = modify_body(else_block)?;
                    let condition = replace_expressions(*condition)?;
                    Ok(Expression::Mux { condition: Box::new(condition), if_true, if_false })
                },
            }
        },
        other => Ok(other),
    }
}

/// A refusal among the first `n` statements is the refusal of the whole sequence.
pub proof fn lemma_refusal_carries(statements: Seq<StatementView>, n: int)
    requires
        0 <= n <= statements.len(),
        modify_statements_spec(statements.take(n)) is Err,
    ensures
        modify_statements_spec(statements) == modify_statements_spec(statements.take(n)),
    decreases statements.len(),
{
    if n == statements.len() {
        assert(statements.take(n) =~= statements);
    } else {
        assert(statements.drop_last().take(n) =~= statements.take(n));
        lemma_refusal_carries(statements.drop_last(), n);
    }
}

/// A sequence of statements is rewritten statement by statement: it is accepted exactly
/// when each of its statements is, and then the rewritten sequence has the same length and
/// holds at each place the rewritten form of the statement at that place.
pub proof fn lemma_statements_rewritten_pointwise(statements: Seq<StatementView>)
    ensures
        modify_statements_spec(statements) is Ok <==> forall|i: int|
            0 <= i < statements.len() ==> (#[trigger] modify_statement_spec(statements[i])) is Ok,
        modify_statements_spec(statements) matches Ok(rewritten) ==> {
            &&& rewritten.len() == statements.len()
            &&& forall|i: int|
                0 <= i < statements.len() ==> #[trigger] modify_statement_spec(statements[i])
                    == Ok::<StatementView, TransformError>(rewritten[i])
        },
    decreases statements.len(),
{
    if statements.len() > 0 {
        let front = statements.drop_last();
        lemma_statements_rewritten_pointwise(front);
        assert(forall|i: int| 0 <= i < front.len() ==> front[i] == statements[i]);
        if modify_statements_spec(statements) is Ok {
            assert forall|i: int| 0 <= i < statements.len() implies (
            #[trigger] modify_statement_spec(statements[i])) is Ok by {
                if i < front.len() {
                    assert(front[i] == statements[i]);
                }
            }
        }
        if forall|i: int|
            0 <= i < statements.len() ==> (#[trigger] modify_statement_spec(statements[i])) is Ok {
            assert forall|i: int| 0 <= i < front.len() implies (#[trigger] modify_statement_spec(
                front[i],
            )) is Ok by {
                assert(front[i] == statements[i]);
            }
            assert(modify_statement_spec(statements[statements.len() - 1]) is Ok);
        }
    }
}

/// Whether a statement lies outside what the pass rewrites: a statement of another kind
/// (a loop, a pattern match, an item), a binding without an initializer, or a statement
/// whose expression is of another kind.
pub open spec fn is_out_of_scope(statement: StatementView) -> bool {
    match statement {
        StatementView::Other(_) => true,
        StatementView::Binding { name, initializer: None } => true,
        StatementView::Binding { name, initializer: Some(ExpressionView::Other(_)) } => true,
        StatementView::Expression { expression: ExpressionView::Other(_), terminated } => true,
        _ => false,
    }
}

/// The scope boundary: a statement outside what the pass rewrites stands in the rewritten
/// block exactly as it stood in the source, at the same place. Whatever arithmetic it
/// holds is not lowered.
pub proof fn lemma_out_of_scope_is_untouched(block: BlockView, i: int)
    requires
        0 <= i < block.statements.len(),
        is_out_of_scope(block.statements[i]),
        modify_body_spec(block) is Ok,
    ensures
        modify_body_spec(block).unwrap().statements.len() == block.statements.len(),
        modify_body_spec(block).unwrap().statements[i] == block.statements[i],
{
    lemma_statements_rewritten_pointwise(block.statements);
    assert(modify_statement_spec(block.statements[i]) == Ok::<StatementView, TransformError>(
        block.statements[i],
    ));
}

/// An out-of-scope statement is never the cause of a refusal.
pub proof fn lemma_out_of_scope_is_accepted(statement: StatementView)
    requires
        is_out_of_scope(statement),
    ensures
        modify_statement_spec(statement) == Ok::<StatementView, TransformError>(statement),
{
}

/// Rewrites the statements of a block in order: an expression statement and the
/// initializer of a binding are rewritten, any other statement is kept as it is. The first
/// refusal ends the work.
pub fn modify_body(block: Block) -> (result: Result<Block, TransformError>)
    ensures
        block_outcome(result) == modify_body_spec(block@),
    decreases block,
{
    let ghost source = block@.statements;
    let mut statements: Vec<Statement> = Vec::new();
    proof {
        assert(source.take(0) =~= Seq::<StatementView>::empty());
        assert(statements@.map_values(|s: Statement| s@) =~= Seq::<StatementView>::empty());
    }
    for statement in iter: block.statements
        invariant
            iter.seq() == block.statements@,
            source == block@.statements,
            modify_statements_spec(source.take(iter.index() as int)) == Ok::<
                Seq<StatementView>,
                TransformError,
            >(statements@.map_values(|s: Statement| s@)),
    {
        let ghost index = iter.index() as int;
        let ghost done = statements@.map_values(|s: Statement| s@);
        proof {
            assert(statement == block.statements@[index]);
            assert(source[index] == statement@);
            assert(source.take(index + 1).drop_last() =~= source.take(index));
            assert(source.take(index + 1).last() == statement@);
        }
        let rewritten = match statement {
            Statement::Expression { expression, terminated } => {
                match replace_expressions(expression) {
                    Ok(expression) => Statement::Expression { expression, terminated },
                    Err(e) => {
                        proof {
                            lemma_refusal_carries(source, index + 1);
                        }
                        return Err(e);
                    },
                }
            },
            Statement::Binding { name, initializer: Some(expression) } => {
                match replace_expressions(expression) {
                    Ok(expression) => Statement::Binding { name, initializer: Some(expression) },
                    Err(e) => {
                        proof {
                            lemma_refusal_carries(source, index + 1);
                        }
                        return Err(e);
                    },
                }
            },
            other => other,
        };
        assert(modify_statement_spec(statement@) == Ok::<StatementView, TransformError>(
            rewritten@,
        ));
        statements.push(rewritten);
        proof {
            assert(statements@.map_values(|s: Statement| s@) =~= done.push(rewritten@));
        }
    }
    proof {
        assert(source.take(source.len() as int) =~= source);
        let rewritten = Block { statements };
        assert(rewritten@.statements =~= statements@.map_values(|s: Statement| s@));
    }
    Ok(Block { statements })
}

} // verus!
