use circuit_macro::ast::{BinaryOperator, Block, ElseArm, Expression, Operation, Statement, UnaryOperator};
use circuit_macro::emit::{generate_macro, EmittedFunction, Mode};
use circuit_macro::evaluate::{
    apply_negation, apply_operation, evaluate_block, evaluate_expression, evaluate_literal,
    greatest_value, lookup, run, Bound, ExecutionError, Outcome,
};
use circuit_macro::signature::{FunctionDeclaration, Parameter};

fn ident(name: &str) -> Expression {
    Expression::Identifier(name.to_string())
}

fn literal(text: &str) -> Expression {
    Expression::Literal(text.to_string())
}

fn binary(operator: BinaryOperator, left: Expression, right: Expression) -> Expression {
    Expression::Binary { operator, left: Box::new(left), right: Box::new(right) }
}

fn value_block(expression: Expression) -> Block {
    Block { statements: vec![Statement::Expression { expression, terminated: false }] }
}

fn function(name: &str, parameters: &[&str], body: Block) -> FunctionDeclaration {
    FunctionDeclaration {
        name: name.to_string(),
        parameters: parameters
            .iter()
            .map(|p| Parameter::Named { name: p.to_string(), type_token: "T".to_string() })
            .collect(),
        return_type: Some("T".to_string()),
        body,
    }
}

fn emitted(name: &str, parameters: &[&str], body: Block, mode: Mode) -> EmittedFunction {
    generate_macro(function(name, parameters, body), mode).unwrap()
}

fn max_function(mode: Mode) -> EmittedFunction {
    let conditional = Expression::Conditional {
        condition: Box::new(binary(BinaryOperator::Greater, ident("a"), ident("b"))),
        then_block: value_block(ident("a")),
        else_arm: ElseArm::Block(value_block(ident("b"))),
    };
    emitted("max", &["a", "b"], value_block(conditional), mode)
}

fn add_one(mode: Mode) -> EmittedFunction {
    emitted("add_one", &["a"], value_block(binary(BinaryOperator::Add, ident("a"), literal("1"))), mode)
}

fn binary_function(operator: BinaryOperator) -> EmittedFunction {
    emitted("f", &["a", "b"], value_block(binary(operator, ident("a"), ident("b"))), Mode::Execute)
}

#[test]
fn max_selects_the_greater_argument() {
    let max = max_function(Mode::Execute);
    assert_eq!(run(&max, "u8", &vec![3, 7]), Ok(Outcome::Value(7)));
    assert_eq!(run(&max, "u8", &vec![9, 2]), Ok(Outcome::Value(9)));
    assert_eq!(run(&max, "u64", &vec![5, 5]), Ok(Outcome::Value(5)));
}

#[test]
fn both_branches_are_evaluated() {
    // if a > b { a / b } else { b }: the quotient is taken whatever the condition holds.
    let conditional = Expression::Conditional {
        condition: Box::new(binary(BinaryOperator::Greater, ident("a"), ident("b"))),
        then_block: value_block(binary(BinaryOperator::Divide, ident("a"), ident("b"))),
        else_arm: ElseArm::Block(value_block(ident("b"))),
    };
    let f = emitted("f", &["a", "b"], value_block(conditional), Mode::Execute);
    assert_eq!(run(&f, "u8", &vec![6, 3]), Ok(Outcome::Value(2)));
    assert_eq!(run(&f, "u8", &vec![2, 3]), Ok(Outcome::Value(3)));
    assert_eq!(run(&f, "u8", &vec![0, 0]), Err(ExecutionError::ExecutionFailed));
    assert_eq!(run(&f, "u8", &vec![7, 0]), Err(ExecutionError::ExecutionFailed));
}

#[test]
fn add_one_in_compile_mode_has_eight_input_bits() {
    let f = add_one(Mode::Compile);
    assert_eq!(run(&f, "u8", &vec![5]), Ok(Outcome::Circuit { input_bits: 8 }));
    assert_eq!(run(&f, "u32", &vec![5]), Ok(Outcome::Circuit { input_bits: 32 }));
}

#[test]
fn add_one_in_execute_mode_returns_six() {
    let f = add_one(Mode::Execute);
    assert_eq!(run(&f, "u8", &vec![5]), Ok(Outcome::Value(6)));
}

#[test]
fn input_bits_are_one_width_for_each_input() {
    let f = emitted(
        "f",
        &["a", "b", "c"],
        value_block(binary(BinaryOperator::Add, ident("a"), ident("b"))),
        Mode::Compile,
    );
    assert_eq!(run(&f, "u16", &vec![1, 2, 3]), Ok(Outcome::Circuit { input_bits: 48 }));
    assert_eq!(run(&f, "u128", &vec![1, 2, 3]), Ok(Outcome::Circuit { input_bits: 384 }));
}

#[test]
fn addition_wraps_at_each_width() {
    let f = binary_function(BinaryOperator::Add);
    assert_eq!(run(&f, "u8", &vec![200, 100]), Ok(Outcome::Value(44)));
    assert_eq!(run(&f, "u8", &vec![255, 1]), Ok(Outcome::Value(0)));
    assert_eq!(run(&f, "u16", &vec![65535, 2]), Ok(Outcome::Value(1)));
    assert_eq!(run(&f, "u32", &vec![u32::MAX as u128, 1]), Ok(Outcome::Value(0)));
    assert_eq!(run(&f, "u64", &vec![u64::MAX as u128, u64::MAX as u128]), Ok(Outcome::Value(u64::MAX as u128 - 1)));
    assert_eq!(run(&f, "u128", &vec![u128::MAX, 5]), Ok(Outcome::Value(4)));
    assert_eq!(run(&f, "u128", &vec![1, 2]), Ok(Outcome::Value(3)));
}

#[test]
fn subtraction_wraps_at_each_width() {
    let f = binary_function(BinaryOperator::Subtract);
    assert_eq!(run(&f, "u8", &vec![3, 5]), Ok(Outcome::Value(254)));
    assert_eq!(run(&f, "u8", &vec![5, 3]), Ok(Outcome::Value(2)));
    assert_eq!(run(&f, "u16", &vec![0, 1]), Ok(Outcome::Value(65535)));
    assert_eq!(run(&f, "u128", &vec![0, 1]), Ok(Outcome::Value(u128::MAX)));
}

#[test]
fn multiplication_wraps_at_each_width() {
    let f = binary_function(BinaryOperator::Multiply);
    assert_eq!(run(&f, "u8", &vec![16, 17]), Ok(Outcome::Value(16)));
    assert_eq!(run(&f, "u8", &vec![12, 10]), Ok(Outcome::Value(120)));
    assert_eq!(
        run(&f, "u64", &vec![u64::MAX as u128, u64::MAX as u128]),
        Ok(Outcome::Value(1))
    );
    assert_eq!(run(&f, "u128", &vec![u128::MAX, 2]), Ok(Outcome::Value(u128::MAX - 1)));
}

#[test]
fn execution_matches_machine_arithmetic_at_eight_bits() {
    let cases: Vec<(BinaryOperator, fn(u8, u8) -> u8)> = vec![
        (BinaryOperator::Add, |a, b| a.wrapping_add(b)),
        (BinaryOperator::Subtract, |a, b| a.wrapping_sub(b)),
        (BinaryOperator::Multiply, |a, b| a.wrapping_mul(b)),
        (BinaryOperator::BitAnd, |a, b| a & b),
        (BinaryOperator::BitOr, |a, b| a | b),
        (BinaryOperator::BitXor, |a, b| a ^ b),
        (BinaryOperator::Equal, |a, b| (a == b) as u8),
        (BinaryOperator::NotEqual, |a, b| (a != b) as u8),
        (BinaryOperator::Greater, |a, b| (a > b) as u8),
        (BinaryOperator::GreaterOrEqual, |a, b| (a >= b) as u8),
        (BinaryOperator::Less, |a, b| (a < b) as u8),
        (BinaryOperator::LessOrEqual, |a, b| (a <= b) as u8),
    ];
    let samples: [u8; 7] = [0, 1, 2, 127, 128, 200, 255];
    for (operator, direct) in cases {
        let f = binary_function(operator);
        for a in samples {
            for b in samples {
                assert_eq!(
                    run(&f, "u8", &vec![a as u128, b as u128]),
                    Ok(Outcome::Value(direct(a, b) as u128))
                );
            }
        }
    }
}

#[test]
fn execution_matches_machine_arithmetic_at_thirty_two_bits() {
    let samples: [u32; 5] = [0, 1, 65536, 0x8000_0000, u32::MAX];
    let add = binary_function(BinaryOperator::Add);
    let mul = binary_function(BinaryOperator::Multiply);
    let sub = binary_function(BinaryOperator::Subtract);
    for a in samples {
        for b in samples {
            let args = vec![a as u128, b as u128];
            assert_eq!(run(&add, "u32", &args), Ok(Outcome::Value(a.wrapping_add(b) as u128)));
            assert_eq!(run(&mul, "u32", &args), Ok(Outcome::Value(a.wrapping_mul(b) as u128)));
            assert_eq!(run(&sub, "u32", &args), Ok(Outcome::Value(a.wrapping_sub(b) as u128)));
        }
    }
}

#[test]
fn division_and_remainder() {
    let div = binary_function(BinaryOperator::Divide);
    let rem = binary_function(BinaryOperator::Modulo);
    assert_eq!(run(&div, "u8", &vec![17, 5]), Ok(Outcome::Value(3)));
    assert_eq!(run(&rem, "u8", &vec![17, 5]), Ok(Outcome::Value(2)));
    assert_eq!(run(&div, "u8", &vec![17, 0]), Err(ExecutionError::ExecutionFailed));
    assert_eq!(run(&rem, "u8", &vec![17, 0]), Err(ExecutionError::ExecutionFailed));
}

#[test]
fn negation_flips_the_bits_of_the_width() {
    let not = emitted(
        "f",
        &["a"],
        value_block(Expression::Unary { prefix: UnaryOperator::Not, operand: Box::new(ident("a")) }),
        Mode::Execute,
    );
    assert_eq!(run(&not, "u8", &vec![0]), Ok(Outcome::Value(255)));
    assert_eq!(run(&not, "u8", &vec![0b1010_0101]), Ok(Outcome::Value(0b0101_1010)));
    assert_eq!(run(&not, "u16", &vec![1]), Ok(Outcome::Value(65534)));
    assert_eq!(run(&not, "u128", &vec![0]), Ok(Outcome::Value(u128::MAX)));
}

#[test]
fn bindings_feed_later_statements() {
    // let x = a + b; let y = x * c; y
    let body = Block {
        statements: vec![
            Statement::Binding {
                name: "x".to_string(),
                initializer: Some(binary(BinaryOperator::Add, ident("a"), ident("b"))),
            },
            Statement::Binding {
                name: "y".to_string(),
                initializer: Some(binary(BinaryOperator::Multiply, ident("x"), ident("c"))),
            },
            Statement::Expression { expression: ident("y"), terminated: false },
        ],
    };
    let f = emitted("f", &["a", "b", "c"], body, Mode::Execute);
    assert_eq!(run(&f, "u8", &vec![2, 3, 4]), Ok(Outcome::Value(20)));
    assert_eq!(run(&f, "u8", &vec![200, 100, 3]), Ok(Outcome::Value(132)));
}

#[test]
fn nested_arithmetic_is_not_lowered_and_fails() {
    // a + b * c: the product stays as written inside the add call.
    let body = value_block(binary(
        BinaryOperator::Add,
        ident("a"),
        binary(BinaryOperator::Multiply, ident("b"), ident("c")),
    ));
    let f = emitted("f", &["a", "b", "c"], body, Mode::Execute);
    assert_eq!(run(&f, "u8", &vec![1, 2, 3]), Err(ExecutionError::ExecutionFailed));
}

#[test]
fn nested_comparison_operands_are_lowered() {
    // (a + b) > c, written without the parentheses node: the sum is lowered first.
    let body = value_block(binary(
        BinaryOperator::Greater,
        binary(BinaryOperator::Add, ident("a"), ident("b")),
        ident("c"),
    ));
    let f = emitted("f", &["a", "b", "c"], body, Mode::Execute);
    assert_eq!(run(&f, "u8", &vec![1, 2, 2]), Ok(Outcome::Value(1)));
    assert_eq!(run(&f, "u8", &vec![255, 1, 0]), Ok(Outcome::Value(0)));
}

#[test]
fn statements_out_of_scope_have_no_value() {
    let body = Block {
        statements: vec![
            Statement::Other("for i in 0..3 { a + 1; }".to_string()),
            Statement::Expression { expression: ident("a"), terminated: false },
        ],
    };
    let f = emitted("f", &["a"], body, Mode::Execute);
    assert_eq!(run(&f, "u8", &vec![1]), Err(ExecutionError::ExecutionFailed));
}

#[test]
fn run_refuses_unknown_element_types() {
    let f = add_one(Mode::Execute);
    assert_eq!(run(&f, "i8", &vec![5]), Err(ExecutionError::UnsupportedType));
    assert_eq!(run(&f, "T", &vec![5]), Err(ExecutionError::UnsupportedType));
}

#[test]
fn run_refuses_arms_of_unsupported_width() {
    let mut f = add_one(Mode::Execute);
    f.arms[0].width = 7;
    assert_eq!(run(&f, "u8", &vec![5]), Err(ExecutionError::UnsupportedType));
    assert_eq!(run(&f, "u16", &vec![5]), Ok(Outcome::Value(6)));
}

#[test]
fn run_refuses_a_wrong_number_of_arguments() {
    let f = add_one(Mode::Execute);
    assert_eq!(run(&f, "u8", &vec![]), Err(ExecutionError::ArgumentCount));
    assert_eq!(run(&f, "u8", &vec![1, 2]), Err(ExecutionError::ArgumentCount));
}

#[test]
fn run_refuses_arguments_beyond_the_width() {
    let f = add_one(Mode::Execute);
    assert_eq!(run(&f, "u8", &vec![256]), Err(ExecutionError::ArgumentOutOfRange));
    assert_eq!(run(&f, "u8", &vec![255]), Ok(Outcome::Value(0)));
    assert_eq!(run(&f, "u16", &vec![256]), Ok(Outcome::Value(257)));
    assert_eq!(run(&f, "u128", &vec![u128::MAX]), Ok(Outcome::Value(0)));
}

#[test]
fn count_is_checked_before_range() {
    let f = add_one(Mode::Execute);
    assert_eq!(run(&f, "u8", &vec![256, 1]), Err(ExecutionError::ArgumentCount));
}

#[test]
fn greatest_values_of_the_widths() {
    assert_eq!(greatest_value(8), Some(255));
    assert_eq!(greatest_value(16), Some(65535));
    assert_eq!(greatest_value(32), Some(u32::MAX as u128));
    assert_eq!(greatest_value(64), Some(u64::MAX as u128));
    assert_eq!(greatest_value(128), Some(u128::MAX));
    assert_eq!(greatest_value(0), None);
    assert_eq!(greatest_value(24), None);
}

#[test]
fn literals_are_read_modulo_the_width() {
    assert_eq!(evaluate_literal("0", 8), Some(0));
    assert_eq!(evaluate_literal("255", 8), Some(255));
    assert_eq!(evaluate_literal("256", 8), Some(0));
    assert_eq!(evaluate_literal("1000", 8), Some(232));
    assert_eq!(evaluate_literal("007", 8), Some(7));
    assert_eq!(evaluate_literal("65536", 16), Some(0));
    assert_eq!(evaluate_literal("340282366920938463463374607431768211455", 128), Some(u128::MAX));
    assert_eq!(evaluate_literal("340282366920938463463374607431768211456", 128), Some(0));
    assert_eq!(evaluate_literal("340282366920938463463374607431768211461", 128), Some(5));
    assert_eq!(evaluate_literal("18446744073709551617", 64), Some(1));
}

#[test]
fn literals_of_other_shapes_have_no_value() {
    assert_eq!(evaluate_literal("", 8), None);
    assert_eq!(evaluate_literal("1u8", 8), None);
    assert_eq!(evaluate_literal("-1", 8), None);
    assert_eq!(evaluate_literal("0x10", 8), None);
    assert_eq!(evaluate_literal("1_000", 16), None);
    assert_eq!(evaluate_literal("true", 8), None);
}

#[test]
fn later_binding_of_a_name_counts() {
    let bindings = vec![
        Bound { name: "a".to_string(), value: 1 },
        Bound { name: "b".to_string(), value: 2 },
        Bound { name: "a".to_string(), value: 3 },
    ];
    assert_eq!(lookup(&bindings, &"a".to_string()), Some(3));
    assert_eq!(lookup(&bindings, &"b".to_string()), Some(2));
    assert_eq!(lookup(&bindings, &"c".to_string()), None);
}

#[test]
fn evaluation_leaves_the_bindings_as_they_were() {
    let block = Block {
        statements: vec![
            Statement::Binding { name: "x".to_string(), initializer: Some(literal("4")) },
            Statement::Expression {
                expression: Expression::BuilderCall {
                    operation: Operation::Add,
                    left: Box::new(ident("x")),
                    right: Box::new(ident("a")),
                },
                terminated: false,
            },
        ],
    };
    let mut bindings = vec![Bound { name: "a".to_string(), value: 1 }];
    assert_eq!(evaluate_block(&block, &mut bindings, 8), Some(5));
    assert_eq!(bindings.len(), 1);
    assert_eq!(bindings[0].name, "a");
    assert_eq!(bindings[0].value, 1);
}

#[test]
fn block_without_trailing_value_has_none() {
    let mut bindings = vec![Bound { name: "a".to_string(), value: 1 }];
    let terminated = Block {
        statements: vec![Statement::Expression { expression: ident("a"), terminated: true }],
    };
    assert_eq!(evaluate_block(&terminated, &mut bindings, 8), None);
    assert_eq!(evaluate_block(&Block { statements: vec![] }, &mut bindings, 8), None);
    let binding_last = Block {
        statements: vec![Statement::Binding { name: "x".to_string(), initializer: Some(ident("a")) }],
    };
    assert_eq!(evaluate_block(&binding_last, &mut bindings, 8), None);
}

#[test]
fn source_operators_have_no_lowered_value() {
    let mut bindings = vec![Bound { name: "a".to_string(), value: 1 }];
    let source = binary(BinaryOperator::Add, ident("a"), ident("a"));
    assert_eq!(evaluate_expression(&source, &mut bindings, 8), None);
    assert_eq!(evaluate_expression(&Expression::Other("a.pow(2)".to_string()), &mut bindings, 8), None);
    assert_eq!(evaluate_expression(&ident("missing"), &mut bindings, 8), None);
}

#[test]
fn operations_on_values() {
    assert_eq!(apply_operation(Operation::Add, 250, 10, 8), Some(4));
    assert_eq!(apply_operation(Operation::Sub, 0, 1, 32), Some(u32::MAX as u128));
    assert_eq!(apply_operation(Operation::Mul, 1 << 63, 2, 64), Some(0));
    assert_eq!(apply_operation(Operation::Div, 9, 2, 8), Some(4));
    assert_eq!(apply_operation(Operation::Rem, 9, 2, 8), Some(1));
    assert_eq!(apply_operation(Operation::Div, 9, 0, 8), None);
    assert_eq!(apply_operation(Operation::And, 0b1100, 0b1010, 8), Some(0b1000));
    assert_eq!(apply_operation(Operation::Or, 0b1100, 0b1010, 8), Some(0b1110));
    assert_eq!(apply_operation(Operation::Xor, 0b1100, 0b1010, 8), Some(0b0110));
    assert_eq!(apply_operation(Operation::Eq, 3, 3, 8), Some(1));
    assert_eq!(apply_operation(Operation::Ne, 3, 3, 8), Some(0));
    assert_eq!(apply_operation(Operation::Gt, 3, 2, 8), Some(1));
    assert_eq!(apply_operation(Operation::Ge, 2, 3, 8), Some(0));
    assert_eq!(apply_operation(Operation::Lt, 2, 3, 8), Some(1));
    assert_eq!(apply_operation(Operation::Le, 3, 3, 8), Some(1));
    assert_eq!(apply_negation(0x0f, 8), 0xf0);
}
