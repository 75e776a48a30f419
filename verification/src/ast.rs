//! The syntax tree that the lowering pass reads and writes.

use vstd::prelude::*;

verus! {

/// A binary operator that the pass lowers into a builder call.
#[derive(Clone, Copy, Debug, PartialEq, Eq, Structural)]
pub enum BinaryOperator {
    Equal,
    NotEqual,
    Greater,
    GreaterOrEqual,
    Less,
    LessOrEqual,
    Add,
    Subtract,
    Multiply,
    Divide,
    Modulo,
    BitAnd,
    BitOr,
    BitXor,
}

/// The builder operation that stands for a binary operator in the lowered form.
#[derive(Clone, Copy, Debug, PartialEq, Eq, Structural)]
pub enum Operation {
    Eq,
    Ne,
    Gt,
    Ge,
    Lt,
    Le,
    Add,
    Sub,
    Mul,
    Div,
    Rem,
    And,
    Or,
    Xor,
}

impl BinaryOperator {
    /// Whether the operator compares its operands.
    pub open spec fn is_comparison(self) -> bool {
        match self {
            BinaryOperator::Equal
            | BinaryOperator::NotEqual
            | BinaryOperator::Greater
            | BinaryOperator::GreaterOrEqual
            | BinaryOperator::Less
            | BinaryOperator::LessOrEqual => true,
            _ => false,
        }
    }

    /// The builder operation that the operator is lowered to.
    pub open spec fn operation_spec(self) -> Operation {
        match self {
            BinaryOperator::Equal => Operation::Eq,
            BinaryOperator::NotEqual => Operation::Ne,
            BinaryOperator::Greater => Operation::Gt,
            BinaryOperator::GreaterOrEqual => Operation::Ge,
            BinaryOperator::Less => Operation::Lt,
            BinaryOperator::LessOrEqual => Operation::Le,
            BinaryOperator::Add => Operation::Add,
            BinaryOperator::Subtract => Operation::Sub,
            BinaryOperator::Multiply => Operation::Mul,
            BinaryOperator::Divide => Operation::Div,
            BinaryOperator::Modulo => Operation::Rem,
            BinaryOperator::BitAnd => Operation::And,
            BinaryOperator::BitOr => Operation::Or,
            BinaryOperator::BitXor => Operation::Xor,
        }
    }

    /// Whether the operator compares its operands.
    pub fn compares(self) -> (result: bool)
        ensures
            result == self.is_comparison(),
    {
        match self {
            BinaryOperator::Equal
            | BinaryOperator::NotEqual
            | BinaryOperator::Greater
            | BinaryOperator::GreaterOrEqual
            | BinaryOperator::Less
            | BinaryOperator::LessOrEqual => true,
            _ => false,
        }
    }

    /// The builder operation that the operator is lowered to.
    pub fn operation(self) -> (result: Operation)
        ensures
            result == self.operation_spec(),
    {
        match self {
            BinaryOperator::Equal => Operation::Eq,
            BinaryOperator::NotEqual => Operation::Ne,
            BinaryOperator::Greater => Operation::Gt,
            BinaryOperator::GreaterOrEqual => Operation::Ge,
            BinaryOperator::Less => Operation::Lt,
            BinaryOperator::LessOrEqual => Operation::Le,
            BinaryOperator::Add => Operation::Add,
            BinaryOperator::Subtract => Operation::Sub,
            BinaryOperator::Multiply => Operation::Mul,
            BinaryOperator::Divide => Operation::Div,
            BinaryOperator::Modulo => Operation::Rem,
            BinaryOperator::BitAnd => Operation::And,
            BinaryOperator::BitOr => Operation::Or,
            BinaryOperator::BitXor => Operation::Xor,
        }
    }
}

/// A unary operator as written in the source.
#[derive(Clone, Copy, Debug, PartialEq, Eq, Structural)]
pub enum UnaryOperator {
    /// Bitwise or logical negation, the one unary operator that is lowered.
    Not,
    /// Arithmetic negation, carried over as written.
    Negate,
    /// Dereference, carried over as written.
    Dereference,
}

/// The else arm of a conditional.
#[derive(Debug)]
pub enum ElseArm {
    /// The conditional has no else arm.
    Missing,
    /// The else arm is a block.
    Block(Block),
    /// The else arm is anything but a block, kept as written.
    Other(String),
}

/// An expression, as written in the source or as lowered.
#[derive(Debug)]
pub enum Expression {
    /// A literal, kept as written.
    Literal(String),
    /// A name.
    Identifier(String),
    /// A binary operator applied to two operands.
    Binary { operator: BinaryOperator, left: Box<Expression>, right: Box<Expression> },
    /// A unary operator applied to one operand.
    Unary { prefix: UnaryOperator, operand: Box<Expression> },
    /// A conditional.
    Conditional { condition: Box<Expression>, then_block: Block, else_arm: ElseArm },
    /// Any other expression, kept as written.
    Other(String),
    /// Lowered: a binary operation of the builder on two operands.
    BuilderCall { operation: Operation, left: Box<Expression>, right: Box<Expression> },
    /// Lowered: the builder's negation of one operand.
    BuilderNot { operand: Box<Expression> },
    /// Lowered: the builder's multiplexer over a condition and the values of two blocks,
    /// both of which are evaluated whatever the condition holds.
    Mux { condition: Box<Expression>, if_true: Block, if_false: Block },
}

/// A statement of a block.
#[derive(Debug)]
pub enum Statement {
    /// An expression, with or without a semicolon behind it.
    Expression { expression: Expression, terminated: bool },
    /// A binding of a name to an optional initializer.
    Binding { name: String, initializer: Option<Expression> },
    /// Any other statement, kept as written.
    Other(String),
}

/// A sequence of statements; its value is that of a trailing unterminated expression.
#[derive(Debug)]
pub struct Block {
    pub statements: Vec<Statement>,
}

/// The mathematical value of an else arm.
pub enum ElseArmView {
    Missing,
    Block(BlockView),
    Other(Seq<char>),
}

/// The mathematical value of an expression.
pub enum ExpressionView {
    Literal(Seq<char>),
    Identifier(Seq<char>),
    Binary { operator: BinaryOperator, left: Box<ExpressionView>, right: Box<ExpressionView> },
    Unary { prefix: UnaryOperator, operand: Box<ExpressionView> },
    Conditional { condition: Box<ExpressionView>, then_block: BlockView, else_arm: ElseArmView },
    Other(Seq<char>),
    BuilderCall { operation: Operation, left: Box<ExpressionView>, right: Box<ExpressionView> },
    BuilderNot { operand: Box<ExpressionView> },
    Mux { condition: Box<ExpressionView>, if_true: BlockView, if_false: BlockView },
}

/// The mathematical value of a statement.
pub enum StatementView {
    Expression { expression: ExpressionView, terminated: bool },
    Binding { name: Seq<char>, initializer: Option<ExpressionView> },
    Other(Seq<char>),
}

/// The mathematical value of a block.
pub struct BlockView {
    pub statements: Seq<StatementView>,
}

/// The value of an else arm.
pub open spec fn else_arm_view(arm: &ElseArm) -> ElseArmView
    decreases arm,
{
    match arm {
        ElseArm::Missing => ElseArmView::Missing,
        ElseArm::Block(block) => ElseArmView::Block(block_view(block)),
        ElseArm::Other(text) => ElseArmView::Other(text@),
    }
}

/// The value of an expression.
pub open spec fn expression_view(expression: &Expression) -> ExpressionView
    decreases expression,
{
    match expression {
        Expression::Literal(text) => ExpressionView::Literal(text@),
        Expression::Identifier(name) => ExpressionView::Identifier(name@),
        Expression::Binary { operator, left, right } => ExpressionView::Binary {
            operator: *operator,
            left: Box::new(expression_view(left)),
            right: Box::new(expression_view(right)),
        },
        Expression::Unary { prefix, operand } => ExpressionView::Unary {
            prefix: *prefix,
            operand: Box::new(expression_view(operand)),
        },
        Expression::Conditional { condition, then_block, else_arm } => ExpressionView::Conditional {
            condition: Box::new(expression_view(condition)),
            then_block: block_view(then_block),
            else_arm: else_arm_view(else_arm),
        },
        Expression::Other(text) => ExpressionView::Other(text@),
        Expression::BuilderCall { operation, left, right } => ExpressionView::BuilderCall {
            operation: *operation,
            left: Box::new(expression_view(left)),
            right: Box::new(expression_view(right)),
        },
        Expression::BuilderNot { operand } => ExpressionView::BuilderNot {
            operand: Box::new(expression_view(operand)),
        },
        Expression::Mux { condition, if_true, if_false } => ExpressionView::Mux {
            condition: Box::new(expression_view(condition)),
            if_true: block_view(if_true),
            if_false: block_view(if_false),
        },
    }
}

/// The value of a statement.
pub open spec fn statement_view(statement: &Statement) -> StatementView
    decreases statement,
{
    match statement {
        Statement::Expression { expression, terminated } => StatementView::Expression {
            expression: expression_view(expression),
            terminated: *terminated,
        },
        Statement::Binding { name, initializer } => StatementView::Binding {
            name: name@,
            initializer: match initializer {
                Some(expression) => Some(expression_view(expression)),
                None => None,
            },
        },
        Statement::Other(text) => StatementView::Other(text@),
    }
}

/// The value of a block: the values of its statements, in order.
pub open spec fn block_view(block: &Block) -> BlockView
    decreases block,
{
    BlockView {
        statements: Seq::new(
            block.statements@.len(),
            |i: int|
                if 0 <= i < block.statements@.len() {
                    statement_view(&block.statements@[i])
                } else {
                    StatementView::Other(Seq::empty())
                },
        ),
    }
}

impl View for ElseArm {
    type V = ElseArmView;

    open spec fn view(&self) -> ElseArmView {
        else_arm_view(self)
    }
}

impl View for Expression {
    type V = ExpressionView;

    open spec fn view(&self) -> ExpressionView {
        expression_view(self)
    }
}

impl View for Statement {
    type V = StatementView;

    open spec fn view(&self) -> StatementView {
        statement_view(self)
    }
}

impl View for Block {
    type V = BlockView;

    open spec fn view(&self) -> BlockView {
        block_view(self)
    }
}

} // verus!
