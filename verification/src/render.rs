//! The text of an emitted form, as the host language reads it.

use vstd::prelude::*;
use vstd::string::StringExecFns;
use crate::ast::{
    BinaryOperator, Block, BlockView, ElseArm, ElseArmView, Expression, ExpressionView, Operation,
    Statement, StatementView, UnaryOperator,
};
use crate::dispatch::{arms_view, DispatchArm, DispatchArmView};
use crate::emit::{EmittedFunction, EmittedFunctionView, Mode, ReturnShape, ReturnShapeView};
use crate::signature::{parameters_view, strings_view, Parameter, ParameterView};

verus! {

/// The builder's method for an operation.
pub open spec fn operation_name(operation: Operation) -> Seq<char> {
    match operation {
        Operation::Eq => "eq"@,
        Operation::Ne => "ne"@,
        Operation::Gt => "gt"@,
        Operation::Ge => "ge"@,
        Operation::Lt => "lt"@,
        Operation::Le => "le"@,
        Operation::Add => "add"@,
        Operation::Sub => "sub"@,
        Operation::Mul => "mul"@,
        Operation::Div => "div"@,
        Operation::Rem => "rem"@,
        Operation::And => "and"@,
        Operation::Or => "or"@,
        Operation::Xor => "xor"@,
    }
}

/// The symbol of a binary operator.
pub open spec fn operator_symbol(operator: BinaryOperator) -> Seq<char> {
    match operator {
        BinaryOperator::Equal => "=="@,
        BinaryOperator::NotEqual => "!="@,
        BinaryOperator::Greater => ">"@,
        BinaryOperator::GreaterOrEqual => ">="@,
        BinaryOperator::Less => "<"@,
        BinaryOperator::LessOrEqual => "<="@,
        BinaryOperator::Add => "+"@,
        BinaryOperator::Subtract => "-"@,
        BinaryOperator::Multiply => "*"@,
        BinaryOperator::Divide => "/"@,
        BinaryOperator::Modulo => "%"@,
        BinaryOperator::BitAnd => "&"@,
        BinaryOperator::BitOr => "|"@,
        BinaryOperator::BitXor => "^"@,
    }
}

/// The symbol of a unary operator.
pub open spec fn prefix_symbol(prefix: UnaryOperator) -> Seq<char> {
    match prefix {
        UnaryOperator::Not => "!"@,
        UnaryOperator::Negate => "-"@,
        UnaryOperator::Dereference => "*"@,
    }
}

/// Whether an expression is set in parentheses where it stands as an operand.
pub open spec fn needs_parentheses(expression: ExpressionView) -> bool {
    expression is Binary || expression is Unary || expression is Conditional
}

/// A text, in parentheses where `wrapped` holds.
pub open spec fn parenthesized(wrapped: bool, text: Seq<char>) -> Seq<char> {
    if wrapped {
        "("@ + text + ")"@
    } else {
        text
    }
}

/// The text of an expression. A lowered form is a braced block around the builder call;
/// a multiplexer first binds the values of both blocks, then the condition.
pub open spec fn expression_text(expression: ExpressionView) -> Seq<char>
    decreases expression,
{
    match expression {
        ExpressionView::Literal(text) => text,
        ExpressionView::Identifier(name) => name,
        ExpressionView::Other(text) => text,
        ExpressionView::Binary { operator, left, right } => parenthesized(
            needs_parentheses(*left),
            expression_text(*left),
        ) + " "@ + operator_symbol(operator) + " "@ + parenthesized(
            needs_parentheses(*right),
            expression_text(*right),
        ),
        ExpressionView::Unary { prefix, operand } => prefix_symbol(prefix) + parenthesized(
            needs_parentheses(*operand),
            expression_text(*operand),
        ),
        ExpressionView::Conditional { condition, then_block, else_arm } => "if "@ + expression_text(
            *condition,
        ) + " "@ + block_text(then_block) + else_arm_text(else_arm),
        ExpressionView::BuilderCall { operation, left, right } => "{ &context."@ + operation_name(
            operation,
        ) + "(&"@ + parenthesized(needs_parentheses(*left), expression_text(*left)) + ", &"@
            + parenthesized(needs_parentheses(*right), expression_text(*right)) + ") }"@,
        ExpressionView::BuilderNot { operand } => "{ &context.not(&"@ + parenthesized(
            needs_parentheses(*operand),
            expression_text(*operand),
        ) + ") }"@,
        ExpressionView::Mux { condition, if_true, if_false } => "{ let if_true = "@ + block_text(
            if_true,
        ) + "; let if_false = "@ + block_text(if_false) + "; let cond = "@ + expression_text(
            *condition,
        ) + "; &context.mux(cond, if_true, if_false) }"@,
    }
}

/// The text of an else arm; nothing where there is none.
pub open spec fn else_arm_text(arm: ElseArmView) -> Seq<char>
    decreases arm,
{
    match arm {
        ElseArmView::Missing => Seq::empty(),
        ElseArmView::Block(block) => " else "@ + block_text(block),
        ElseArmView::Other(text) => " else "@ + text,
    }
}

/// The text of a statement.
pub open spec fn statement_text(statement: StatementView) -> Seq<char>
    decreases statement,
{
    match statement {
        StatementView::Expression { expression, terminated } => if terminated {
            expression_text(expression) + ";"@
        } else {
            expression_text(expression)
        },
        StatementView::Binding { name, initializer: Some(expression) } => "let "@ + name + " = "@
            + expression_text(expression) + ";"@,
        StatementView::Binding { name, initializer: None } => "let "@ + name + ";"@,
        StatementView::Other(text) => text,
    }
}

/// The texts of a sequence of statements, each followed by a space.
pub open spec fn statements_text(statements: Seq<StatementView>) -> Seq<char>
    decreases statements,
{
    if statements.len() == 0 {
        Seq::empty()
    } else {
        statements_text(statements.drop_last()) + statement_text(statements.last()) + " "@
    }
}

/// The text of a block: its statements between braces.
pub open spec fn block_text(block: BlockView) -> Seq<char>
    decreases block,
{
    "{ "@ + statements_text(block.statements) + "}"@
}

/// The builder's method for an operation.
pub fn operation_method(operation: Operation) -> (result: &'static str)
    ensures
        result@ == operation_name(operation),
{
    match operation {
        Operation::Eq => "eq",
        Operation::Ne => "ne",
        Operation::Gt => "gt",
        Operation::Ge => "ge",
        Operation::Lt => "lt",
        Operation::Le => "le",
        Operation::Add => "add",
        Operation::Sub => "sub",
        Operation::Mul => "mul",
        Operation::Div => "div",
        Operation::Rem => "rem",
        Operation::And => "and",
        Operation::Or => "or",
        Operation::Xor => "xor",
    }
}

/// The symbol of a binary operator.
pub fn operator_token(operator: BinaryOperator) -> (result: &'static str)
    ensures
        result@ == operator_symbol(operator),
{
    match operator {
        BinaryOperator::Equal => "==",
        BinaryOperator::NotEqual => "!=",
        BinaryOperator::Greater => ">",
        BinaryOperator::GreaterOrEqual => ">=",
        BinaryOperator::Less => "<",
        BinaryOperator::LessOrEqual => "<=",
        BinaryOperator::Add => "+",
        BinaryOperator::Subtract => "-",
        BinaryOperator::Multiply => "*",
        BinaryOperator::Divide => "/",
        BinaryOperator::Modulo => "%",
        BinaryOperator::BitAnd => "&",
        BinaryOperator::BitOr => "|",
        BinaryOperator::BitXor => "^",
    }
}

/// The symbol of a unary operator.
pub fn prefix_token(prefix: UnaryOperator) -> (result: &'static str)
    ensures
        result@ == prefix_symbol(prefix),
{
    match prefix {
        UnaryOperator::Not => "!",
        UnaryOperator::Negate => "-",
        UnaryOperator::Dereference => "*",
    }
}

/// Renders an expression as it stands as an operand.
fn render_operand(expression: &Expression) -> (result: String)
    ensures
        result@ == parenthesized(needs_parentheses(expression@), expression_text(expression@)),
    decreases expression, 1int,
{
    let text = render_expression(expression);
    match expression {
        Expression::Binary { .. } | Expression::Unary { .. } | Expression::Conditional { .. } => {
            let mut out = String::from_str("(");
            out.append(text.as_str());
            out.append(")");
            out
        },
        _ => text,
    }
}

/// Renders an expression.
pub fn render_expression(expression: &Expression) -> (result: String)
    ensures
        result@ == expression_text(expression@),
    decreases expression, 0int,
{
    match expression {
        Expression::Literal(text) => text.clone(),
        Expression::Identifier(name) => name.clone(),
        Expression::Other(text) => text.clone(),
        Expression::Binary { operator, left, right } => {
            let mut out = render_operand(left);
            out.append(" ");
            out.append(operator_token(*operator));
            out.append(" ");
            out.append(render_operand(right).as_str());
            out
        },
        Expression::Unary { prefix, operand } => {
            let mut out = String::from_str(prefix_token(*prefix));
            out.append(render_operand(operand).as_str());
            out
        },
        Expression::Conditional { condition, then_block, else_arm } => {
            let mut out = String::from_str("if ");
            out.append(render_expression(condition).as_str());
            out.append(" ");
            out.append(render_block(then_block).as_str());
            let ghost head = out@;
            assert(expression@ == ExpressionView::Conditional {
                condition: Box::new(condition@),
                then_block: then_block@,
                else_arm: else_arm@,
            });
            assert(expression_text(expression@) == head + else_arm_text(else_arm@));
            match else_arm {
                ElseArm::Missing => {
                    assert(else_arm@ == ElseArmView::Missing);
                    assert(head + Seq::<char>::empty() =~= head);
                },
                ElseArm::Block(block) => {
                    let text = render_block(block);
                    out.append(" else ");
                    out.append(text.as_str());
                    assert(else_arm@ == ElseArmView::Block(block@));
                    assert(out@ =~= head + (" else "@ + text@));
                },
                ElseArm::Other(text) => {
                    out.append(" else ");
                    out.append(text.as_str());
                    assert(else_arm@ == ElseArmView::Other(text@));
                    assert(out@ =~= head + (" else "@ + text@));
                },
            }
            out
        },
        Expression::BuilderCall { operation, left, right } => {
            let mut out = String::from_str("{ &context.");
            out.append(operation_method(*operation));
            out.append("(&");
            out.append(render_operand(left).as_str());
            out.append(", &");
            out.append(render_operand(right).as_str());
            out.append(") }");
            out
        },
        Expression::BuilderNot { operand } => {
            let mut out = String::from_str("{ &context.not(&");
            out.append(render_operand(operand).as_str());
            out.append(") }");
            out
        },
        Expression::Mux { condition, if_true, if_false } => {
            let mut out = String::from_str("{ let if_true = ");
            out.append(render_block(if_true).as_str());
            out.append("; let if_false = ");
            out.append(render_block(if_false).as_str());
            out.append("; let cond = ");
            out.append(render_expression(condition).as_str());
            out.append("; &context.mux(cond, if_true, if_false) }");
            out
        },
    }
}

/// Renders a statement.
pub fn render_statement(statement: &Statement) -> (result: String)
    ensures
        result@ == statement_text(statement@),
    decreases statement, 0int,
{
    match statement {
        Statement::Expression { expression, terminated } => {
            let mut out = render_expression(expression);
            if *terminated {
                out.append(";");
            }
            out
        },
        Statement::Binding { name, initializer: Some(expression) } => {
            let mut out = String::from_str("let ");
            out.append(name.as_str());
            out.append(" = ");
            out.append(render_expression(expression).as_str());
            out.append(";");
            out
        },
        Statement::Binding { name, initializer: None } => {
            let mut out = String::from_str("let ");
            out.append(name.as_str());
            out.append(";");
            out
        },
        Statement::Other(text) => text.clone(),
    }
}

/// Renders a block.
pub fn render_block(block: &Block) -> (result: String)
    ensures
        result@ == block_text(block@),
    decreases block, 0int,
{
    let mut out = String::from_str("{ ");
    let ghost source = block@.statements;
    let mut index: usize = 0;
    proof {
        assert(source.take(0) =~= Seq::<StatementView>::empty());
        assert(out@ =~= "{ "@ + statements_text(source.take(0)));
    }
    while index < block.statements.len()
        invariant
            index <= block.statements.len(),
            source == block@.statements,
            out@ == "{ "@ + statements_text(source.take(index as int)),
        decreases block.statements.len() - index,
    {
        let ghost before = out@;
        let text = render_statement(&block.statements[index]);
        out.append(text.as_str());
        out.append(" ");
        proof {
            assert(source[index as int] == block.statements@[index as int]@);
            assert(source.take(index + 1).drop_last() =~= source.take(index as int));
            assert(source.take(index + 1).last() == source[index as int]);
            assert(out@ =~= "{ "@ + statements_text(source.take(index + 1)));
        }
        index += 1;
    }
    proof {
        assert(source.take(index as int) =~= source);
    }
    out.append("}");
    out
}

/// The text of one decimal digit.
pub open spec fn digit_text(digit: nat) -> Seq<char> {
    if digit == 0 {
        "0"@
    } else if digit == 1 {
        "1"@
    } else if digit == 2 {
        "2"@
    } else if digit == 3 {
        "3"@
    } else if digit == 4 {
        "4"@
    } else if digit == 5 {
        "5"@
    } else if digit == 6 {
        "6"@
    } else if digit == 7 {
        "7"@
    } else if digit == 8 {
        "8"@
    } else {
        "9"@
    }
}

/// The decimal text of a number, without leading zeros.
pub open spec fn decimal_text(number: nat) -> Seq<char>
    decreases number,
{
    if number < 10 {
        digit_text(number)
    } else {
        decimal_text(number / 10) + digit_text(number % 10)
    }
}

/// The text of a parameter as it stands in a parameter list.
pub open spec fn parameter_text(parameter: ParameterView) -> Seq<char> {
    match parameter {
        ParameterView::Receiver(text) => text,
        ParameterView::Named { name, type_token } => name + ": "@ + type_token,
        ParameterView::Destructured { pattern, type_token } => pattern + ": "@ + type_token,
    }
}

/// The texts of the parameters, each followed by a comma.
pub open spec fn parameter_list_text(parameters: Seq<ParameterView>) -> Seq<char>
    decreases parameters.len(),
{
    if parameters.len() == 0 {
        Seq::empty()
    } else {
        parameter_list_text(parameters.drop_last()) + parameter_text(parameters.last()) + ", "@
    }
}

/// The names, each followed by a comma.
pub open spec fn argument_list_text(names: Seq<Seq<char>>) -> Seq<char>
    decreases names.len(),
{
    if names.len() == 0 {
        Seq::empty()
    } else {
        argument_list_text(names.drop_last()) + names.last() + ", "@
    }
}

/// The bindings of the names to input nodes of the context, in order.
pub open spec fn input_bindings_text(names: Seq<Seq<char>>) -> Seq<char>
    decreases names.len(),
{
    if names.len() == 0 {
        Seq::empty()
    } else {
        input_bindings_text(names.drop_last()) + "let "@ + names.last() + " = &context.input(&"@
            + names.last() + ".clone().into()); "@
    }
}

/// The conversions that the wrapper asks of the element type, one pair for each arm.
pub open spec fn conversion_bounds_text(arms: Seq<DispatchArmView>) -> Seq<char>
    decreases arms.len(),
{
    if arms.len() == 0 {
        Seq::empty()
    } else {
        conversion_bounds_text(arms.drop_last()) + "Into<GarbledUint<"@ + decimal_text(
            arms.last().width as nat,
        ) + ">> + From<GarbledUint<"@ + decimal_text(arms.last().width as nat) + ">> + "@
    }
}

/// The arms of the dispatch: each matches its token and calls the specialization at its
/// width with the arguments in declaration order.
pub open spec fn dispatch_arms_text(
    arms: Seq<DispatchArmView>,
    element_type: Seq<char>,
    arguments: Seq<char>,
) -> Seq<char>
    decreases arms.len(),
{
    if arms.len() == 0 {
        Seq::empty()
    } else {
        dispatch_arms_text(arms.drop_last(), element_type, arguments) + "\""@ + arms.last().token
            + "\" => generate::<"@ + decimal_text(arms.last().width as nat) + ", "@ + element_type
            + ">("@ + arguments + "), "@
    }
}

/// The text of the return type for a return shape.
pub open spec fn return_shape_text(shape: ReturnShapeView) -> Seq<char> {
    match shape {
        ReturnShapeView::CircuitAndInputs => "(Circuit, Vec<bool>)"@,
        ReturnShapeView::Value(text) => text,
    }
}

/// The statements that finish the specialization under a mode.
pub open spec fn finish_text(mode: Mode) -> Seq<char> {
    match mode {
        Mode::Compile => "(context.compile(&output), context.inputs().to_vec())"@,
        Mode::Execute =>
            "let compiled_circuit = context.compile(&output.into()); let result = context.execute::<N>(&compiled_circuit).expect(\"Execution failed\"); result.into()"@,
    }
}

/// The text of the specialization: generic in the width, it acquires a context, binds the
/// inputs, evaluates the body to the output node and finishes as the mode says.
pub open spec fn specialization_text(emitted: EmittedFunctionView) -> Seq<char> {
    "fn generate<const N: usize, "@ + emitted.element_type + ">("@ + parameter_list_text(
        emitted.parameters,
    ) + ") -> "@ + return_shape_text(emitted.return_shape) + " where "@ + emitted.element_type
        + ": Into<GarbledUint<N>> + From<GarbledUint<N>> + Clone, { let mut context = CircuitBuilder::default(); "@
        + input_bindings_text(emitted.inputs) + "let output = { "@ + block_text(emitted.body)
        + " }; "@ + finish_text(emitted.mode) + " }"@
}

/// The text of the dispatch: a match on the name of the element type, with a last arm
/// that fails for a name that no arm carries.
pub open spec fn dispatch_text(emitted: EmittedFunctionView) -> Seq<char> {
    "match std::any::type_name::<"@ + emitted.element_type + ">() { "@ + dispatch_arms_text(
        emitted.arms,
        emitted.element_type,
        argument_list_text(emitted.inputs),
    ) + "_ => panic!(\"Unsupported type\"), }"@
}

/// The text of an emitted form: the wrapper under the declared name and parameters, with
/// the specialization nested in it and the dispatch as its value.
pub open spec fn emitted_text(emitted: EmittedFunctionView) -> Seq<char> {
    "#[allow(non_camel_case_types)] fn "@ + emitted.name + "<"@ + emitted.element_type + ">("@
        + parameter_list_text(emitted.parameters) + ") -> "@ + return_shape_text(
        emitted.return_shape,
    ) + " where "@ + emitted.element_type + ": "@ + conversion_bounds_text(emitted.arms)
        + "Clone, { "@ + specialization_text(emitted) + " "@ + dispatch_text(emitted) + " }"@
}

/// Renders a number in decimal.
pub fn render_decimal(number: u32) -> (result: String)
    ensures
        result@ == decimal_text(number as nat),
    decreases number,
{
    let last = number % 10;
    let digit = if last == 0 {
        "0"
    } else if last == 1 {
        "1"
    } else if last == 2 {
        "2"
    } else if last == 3 {
        "3"
    } else if last == 4 {
        "4"
    } else if last == 5 {
        "5"
    } else if last == 6 {
        "6"
    } else if last == 7 {
        "7"
    } else if last == 8 {
        "8"
    } else {
        "9"
    };
    if number < 10 {
        String::from_str(digit)
    } else {
        let mut out = render_decimal(number / 10);
        out.append(digit);
        out
    }
}

/// Renders a parameter list.
pub fn render_parameter_list(parameters: &Vec<Parameter>) -> (result: String)
    ensures
        result@ == parameter_list_text(parameters_view(parameters@)),
{
    let mut out = String::new();
    let ghost source = parameters_view(parameters@);
    let mut index: usize = 0;
    proof {
        assert(source.take(0) =~= Seq::<ParameterView>::empty());
    }
    while index < parameters.len()
        invariant
            index <= parameters.len(),
            source == parameters_view(parameters@),
            out@ == parameter_list_text(source.take(index as int)),
        decreases parameters.len() - index,
    {
        proof {
            assert(source[index as int] == parameters@[index as int]@);
            assert(source.take(index + 1).drop_last() =~= source.take(index as int));
            assert(source.take(index + 1).last() == source[index as int]);
        }
        let ghost before = out@;
        match &parameters[index] {
            Parameter::Receiver(text) => {
                out.append(text.as_str());
            },
            Parameter::Named { name, type_token } => {
                out.append(name.as_str());
                out.append(": ");
                out.append(type_token.as_str());
                assert(out@ =~= before + (name@ + ": "@ + type_token@));
            },
            Parameter::Destructured { pattern, type_token } => {
                out.append(pattern.as_str());
                out.append(": ");
                out.append(type_token.as_str());
                assert(out@ =~= before + (pattern@ + ": "@ + type_token@));
            },
        }
        out.append(", ");
        index += 1;
    }
    proof {
        assert(source.take(index as int) =~= source);
    }
    out
}

/// Renders an argument list.
pub fn render_argument_list(names: &Vec<String>) -> (result: String)
    ensures
        result@ == argument_list_text(strings_view(names@)),
{
    let mut out = String::new();
    let ghost source = strings_view(names@);
    let mut index: usize = 0;
    proof {
        assert(source.take(0) =~= Seq::<Seq<char>>::empty());
    }
    while index < names.len()
        invariant
            index <= names.len(),
            source == strings_view(names@),
            out@ == argument_list_text(source.take(index as int)),
        decreases names.len() - index,
    {
        proof {
            assert(source[index as int] == names@[index as int]@);
            assert(source.take(index + 1).drop_last() =~= source.take(index as int));
            assert(source.take(index + 1).last() == source[index as int]);
        }
        out.append(names[index].as_str());
        out.append(", ");
        index += 1;
    }
    proof {
        assert(source.take(index as int) =~= source);
    }
    out
}

/// Renders the bindings of the inputs.
pub fn render_input_bindings(names: &Vec<String>) -> (result: String)
    ensures
        result@ == input_bindings_text(strings_view(names@)),
{
    let mut out = String::new();
    let ghost source = strings_view(names@);
    let mut index: usize = 0;
    proof {
        assert(source.take(0) =~= Seq::<Seq<char>>::empty());
    }
    while index < names.len()
        invariant
            index <= names.len(),
            source == strings_view(names@),
            out@ == input_bindings_text(source.take(index as int)),
        decreases names.len() - index,
    {
        proof {
            assert(source[index as int] == names@[index as int]@);
            assert(source.take(index + 1).drop_last() =~= source.take(index as int));
            assert(source.take(index + 1).last() == source[index as int]);
        }
        out.append("let ");
        out.append(names[index].as_str());
        out.append(" = &context.input(&");
        out.append(names[index].as_str());
        out.append(".clone().into()); ");
        index += 1;
    }
    proof {
        assert(source.take(index as int) =~= source);
    }
    out
}

/// Renders the conversions asked of the element type.
pub fn render_conversion_bounds(arms: &Vec<DispatchArm>) -> (result: String)
    ensures
        result@ == conversion_bounds_text(arms_view(arms@)),
{
    let mut out = String::new();
    let ghost source = arms_view(arms@);
    let mut index: usize = 0;
    proof {
        assert(source.take(0) =~= Seq::<DispatchArmView>::empty());
    }
    while index < arms.len()
        invariant
            index <= arms.len(),
            source == arms_view(arms@),
            out@ == conversion_bounds_text(source.take(index as int)),
        decreases arms.len() - index,
    {
        proof {
            assert(source[index as int] == arms@[index as int]@);
            assert(source.take(index + 1).drop_last() =~= source.take(index as int));
            assert(source.take(index + 1).last() == source[index as int]);
        }
        let width = render_decimal(arms[index].width);
        out.append("Into<GarbledUint<");
        out.append(width.as_str());
        out.append(">> + From<GarbledUint<");
        out.append(width.as_str());
        out.append(">> + ");
        index += 1;
    }
    proof {
        assert(source.take(index as int) =~= source);
    }
    out
}

/// Renders the arms of the dispatch.
pub fn render_dispatch_arms(arms: &Vec<DispatchArm>, element_type: &str, arguments: &str) -> (result:
    String)
    ensures
        result@ == dispatch_arms_text(arms_view(arms@), element_type@, arguments@),
{
    let mut out = String::new();
    let ghost source = arms_view(arms@);
    let mut index: usize = 0;
    proof {
        assert(source.take(0) =~= Seq::<DispatchArmView>::empty());
    }
    while index < arms.len()
        invariant
            index <= arms.len(),
            source == arms_view(arms@),
            out@ == dispatch_arms_text(source.take(index as int), element_type@, arguments@),
        decreases arms.len() - index,
    {
        proof {
            assert(source[index as int] == arms@[index as int]@);
            assert(source.take(index + 1).drop_last() =~= source.take(index as int));
            assert(source.take(index + 1).last() == source[index as int]);
        }
        let width = render_decimal(arms[index].width);
        out.append("\"");
        out.append(arms[index].token.as_str());
        out.append("\" => generate::<");
        out.append(width.as_str());
        out.append(", ");
        out.append(element_type);
        out.append(">(");
        out.append(arguments);
        out.append("), ");
        index += 1;
    }
    proof {
        assert(source.take(index as int) =~= source);
    }
    out
}

/// Renders the specialization.
pub fn render_specialization(emitted: &EmittedFunction) -> (result: String)
    ensures
        result@ == specialization_text(emitted@),
{
    let mut out = String::from_str("fn generate<const N: usize, ");
    out.append(emitted.element_type.as_str());
    out.append(">(");
    out.append(render_parameter_list(&emitted.parameters).as_str());
    out.append(") -> ");
    match &emitted.return_shape {
        ReturnShape::CircuitAndInputs => {
            out.append("(Circuit, Vec<bool>)");
        },
        ReturnShape::Value(text) => {
            out.append(text.as_str());
        },
    }
    out.append(" where ");
    out.append(emitted.element_type.as_str());
    out.append(
        ": Into<GarbledUint<N>> + From<GarbledUint<N>> + Clone, { let mut context = CircuitBuilder::default(); ",
    );
    out.append(render_input_bindings(&emitted.inputs).as_str());
    out.append("let output = { ");
    out.append(render_block(&emitted.body).as_str());
    out.append(" }; ");
    match emitted.mode {
        Mode::Compile => {
            out.append("(context.compile(&output), context.inputs().to_vec())");
        },
        Mode::Execute => {
            out.append(
                "let compiled_circuit = context.compile(&output.into()); let result = context.execute::<N>(&compiled_circuit).expect(\"Execution failed\"); result.into()",
            );
        },
    }
    out.append(" }");
    out
}

/// Renders the dispatch.
pub fn render_dispatch(emitted: &EmittedFunction) -> (result: String)
    ensures
        result@ == dispatch_text(emitted@),
{
    let arguments = render_argument_list(&emitted.inputs);
    let mut out = String::from_str("match std::any::type_name::<");
    out.append(emitted.element_type.as_str());
    out.append(">() { ");
    out.append(
        render_dispatch_arms(
            &emitted.arms,
            emitted.element_type.as_str(),
            arguments.as_str(),
        ).as_str(),
    );
    out.append("_ => panic!(\"Unsupported type\"), }");
    out
}

/// Renders an emitted form as the text of a function of the host language.
pub fn render(emitted: &EmittedFunction) -> (result: String)
    ensures
        result@ == emitted_text(emitted@),
{
    let mut out = String::from_str("#[allow(non_camel_case_types)] fn ");
    out.append(emitted.name.as_str());
    out.append("<");
    out.append(emitted.element_type.as_str());
    out.append(">(");
    out.append(render_parameter_list(&emitted.parameters).as_str());
    out.append(") -> ");
    match &emitted.return_shape {
        ReturnShape::CircuitAndInputs => {
            out.append("(Circuit, Vec<bool>)");
        },
        ReturnShape::Value(text) => {
            out.append(text.as_str());
        },
    }
    out.append(" where ");
    out.append(emitted.element_type.as_str());
    out.append(": ");
    out.append(render_conversion_bounds(&emitted.arms).as_str());
    out.append("Clone, { ");
    out.append(render_specialization(emitted).as_str());
    out.append(" ");
    out.append(render_dispatch(emitted).as_str());
    out.append(" }");
    out
}

} // verus!
