use circuit_macro::ast::{BinaryOperator, Block, ElseArm, Expression, Operation, Statement, UnaryOperator};
use circuit_macro::emit::{circuit, generate_macro, Mode};
use circuit_macro::render::{render, render_block, render_decimal, render_expression, render_statement};
use circuit_macro::rewrite::replace_expressions;
use circuit_macro::signature::{FunctionDeclaration, Parameter};

fn ident(name: &str) -> Expression {
    Expression::Identifier(name.to_string())
}

fn literal(text: &str) -> Expression {
    Expression::Literal(text.to_string())
}

fn binary(operator: BinaryOperator, left: Expression, right: Expression) -> Expression {
    Expression::Binary { operator, left: Box::new(left), right: Box::new(right) }
}

fn value_block(expression: Expression) -> Block {
    Block { statements: vec![Statement::Expression { expression, terminated: false }] }
}

fn add_one() -> FunctionDeclaration {
    FunctionDeclaration {
        name: "add_one".to_string(),
        parameters: vec![Parameter::Named { name: "a".to_string(), type_token: "T".to_string() }],
        return_type: Some("T".to_string()),
        body: value_block(binary(BinaryOperator::Add, ident("a"), literal("1"))),
    }
}

fn max() -> FunctionDeclaration {
    FunctionDeclaration {
        name: "max".to_string(),
        parameters: vec![
            Parameter::Named { name: "a".to_string(), type_token: "T".to_string() },
            Parameter::Named { name: "b".to_string(), type_token: "T".to_string() },
        ],
        return_type: Some("T".to_string()),
        body: value_block(Expression::Conditional {
            condition: Box::new(binary(BinaryOperator::Greater, ident("a"), ident("b"))),
            then_block: value_block(ident("a")),
            else_arm: ElseArm::Block(value_block(ident("b"))),
        }),
    }
}

const BOUNDS: &str = "Into<GarbledUint<8>> + From<GarbledUint<8>> + Into<GarbledUint<16>> + From<GarbledUint<16>> + Into<GarbledUint<32>> + From<GarbledUint<32>> + Into<GarbledUint<64>> + From<GarbledUint<64>> + Into<GarbledUint<128>> + From<GarbledUint<128>> + Clone";

#[test]
fn add_one_in_execute_mode_renders_in_full() {
    let text = render(&circuit("execute", add_one()).unwrap());
    let expected = format!(
        "#[allow(non_camel_case_types)] fn add_one<T>(a: T, ) -> T where T: {}, {{ \
         fn generate<const N: usize, T>(a: T, ) -> T where T: Into<GarbledUint<N>> + From<GarbledUint<N>> + Clone, {{ \
         let mut context = CircuitBuilder::default(); \
         let a = &context.input(&a.clone().into()); \
         let output = {{ {{ {{ &context.add(&a, &1) }} }} }}; \
         let compiled_circuit = context.compile(&output.into()); \
         let result = context.execute::<N>(&compiled_circuit).expect(\"Execution failed\"); \
         result.into() }} \
         match std::any::type_name::<T>() {{ \
         \"u8\" => generate::<8, T>(a, ), \
         \"u16\" => generate::<16, T>(a, ), \
         \"u32\" => generate::<32, T>(a, ), \
         \"u64\" => generate::<64, T>(a, ), \
         \"u128\" => generate::<128, T>(a, ), \
         _ => panic!(\"Unsupported type\"), }} }}",
        BOUNDS
    );
    assert_eq!(text, expected);
}

#[test]
fn add_one_in_compile_mode_renders_in_full() {
    let text = render(&circuit("compile", add_one()).unwrap());
    let expected = format!(
        "#[allow(non_camel_case_types)] fn add_one<T>(a: T, ) -> (Circuit, Vec<bool>) where T: {}, {{ \
         fn generate<const N: usize, T>(a: T, ) -> (Circuit, Vec<bool>) where T: Into<GarbledUint<N>> + From<GarbledUint<N>> + Clone, {{ \
         let mut context = CircuitBuilder::default(); \
         let a = &context.input(&a.clone().into()); \
         let output = {{ {{ {{ &context.add(&a, &1) }} }} }}; \
         (context.compile(&output), context.inputs().to_vec()) }} \
         match std::any::type_name::<T>() {{ \
         \"u8\" => generate::<8, T>(a, ), \
         \"u16\" => generate::<16, T>(a, ), \
         \"u32\" => generate::<32, T>(a, ), \
         \"u64\" => generate::<64, T>(a, ), \
         \"u128\" => generate::<128, T>(a, ), \
         _ => panic!(\"Unsupported type\"), }} }}",
        BOUNDS
    );
    assert_eq!(text, expected);
}

#[test]
fn inputs_are_bound_and_passed_in_declaration_order() {
    let text = render(&circuit("execute", max()).unwrap());
    assert!(text.contains(
        "let a = &context.input(&a.clone().into()); let b = &context.input(&b.clone().into()); let output"
    ));
    assert!(text.contains("\"u8\" => generate::<8, T>(a, b, ), "));
    assert!(text.contains("\"u128\" => generate::<128, T>(a, b, ), "));
    assert!(text.starts_with("#[allow(non_camel_case_types)] fn max<T>(a: T, b: T, ) -> T where T: "));
}

#[test]
fn conditional_renders_as_multiplexer_over_both_blocks() {
    let emitted = circuit("execute", max()).unwrap();
    assert_eq!(
        render_block(&emitted.body),
        "{ { let if_true = { a }; let if_false = { b }; let cond = { &context.gt(&a, &b) }; \
         &context.mux(cond, if_true, if_false) } }"
    );
}

#[test]
fn emitted_text_is_a_function_of_the_host_language() {
    for mode in ["compile", "execute"] {
        for declaration in [add_one(), max()] {
            let text = render(&circuit(mode, declaration).unwrap());
            let parsed = syn::parse_str::<syn::ItemFn>(&text);
            assert!(parsed.is_ok(), "{}", text);
        }
    }
}

#[test]
fn emitted_function_keeps_name_and_nests_the_specialization() {
    let text = render(&circuit("execute", max()).unwrap());
    let parsed = syn::parse_str::<syn::ItemFn>(&text).unwrap();
    assert_eq!(parsed.sig.ident.to_string(), "max");
    assert_eq!(parsed.sig.inputs.len(), 2);
    assert_eq!(parsed.block.stmts.len(), 2);
    match &parsed.block.stmts[0] {
        syn::Stmt::Item(syn::Item::Fn(inner)) => {
            assert_eq!(inner.sig.ident.to_string(), "generate");
            assert_eq!(inner.sig.inputs.len(), 2);
        }
        _ => panic!("the specialization is not nested first"),
    }
    match &parsed.block.stmts[1] {
        syn::Stmt::Expr(syn::Expr::Match(dispatch), None) => assert_eq!(dispatch.arms.len(), 6),
        _ => panic!("the dispatch is not the value of the wrapper"),
    }
}

#[test]
fn source_operators_render_with_their_symbols() {
    let cases = vec![
        (BinaryOperator::Equal, "a == b"),
        (BinaryOperator::NotEqual, "a != b"),
        (BinaryOperator::Greater, "a > b"),
        (BinaryOperator::GreaterOrEqual, "a >= b"),
        (BinaryOperator::Less, "a < b"),
        (BinaryOperator::LessOrEqual, "a <= b"),
        (BinaryOperator::Add, "a + b"),
        (BinaryOperator::Subtract, "a - b"),
        (BinaryOperator::Multiply, "a * b"),
        (BinaryOperator::Divide, "a / b"),
        (BinaryOperator::Modulo, "a % b"),
        (BinaryOperator::BitAnd, "a & b"),
        (BinaryOperator::BitOr, "a | b"),
        (BinaryOperator::BitXor, "a ^ b"),
    ];
    for (operator, expected) in cases {
        assert_eq!(render_expression(&binary(operator, ident("a"), ident("b"))), expected);
    }
}

#[test]
fn lowered_operators_render_as_builder_calls() {
    let cases = vec![
        (BinaryOperator::Equal, "{ &context.eq(&a, &b) }"),
        (BinaryOperator::NotEqual, "{ &context.ne(&a, &b) }"),
        (BinaryOperator::Greater, "{ &context.gt(&a, &b) }"),
        (BinaryOperator::GreaterOrEqual, "{ &context.ge(&a, &b) }"),
        (BinaryOperator::Less, "{ &context.lt(&a, &b) }"),
        (BinaryOperator::LessOrEqual, "{ &context.le(&a, &b) }"),
        (BinaryOperator::Add, "{ &context.add(&a, &b) }"),
        (BinaryOperator::Subtract, "{ &context.sub(&a, &b) }"),
        (BinaryOperator::Multiply, "{ &context.mul(&a, &b) }"),
        (BinaryOperator::Divide, "{ &context.div(&a, &b) }"),
        (BinaryOperator::Modulo, "{ &context.rem(&a, &b) }"),
        (BinaryOperator::BitAnd, "{ &context.and(&a, &b) }"),
        (BinaryOperator::BitOr, "{ &context.or(&a, &b) }"),
        (BinaryOperator::BitXor, "{ &context.xor(&a, &b) }"),
    ];
    for (operator, expected) in cases {
        let lowered = replace_expressions(binary(operator, ident("a"), ident("b"))).unwrap();
        assert_eq!(render_expression(&lowered), expected);
    }
}

#[test]
fn operand_order_is_kept() {
    let lowered = replace_expressions(binary(BinaryOperator::Subtract, ident("b"), ident("a"))).unwrap();
    assert_eq!(render_expression(&lowered), "{ &context.sub(&b, &a) }");
}

#[test]
fn negation_renders_as_not_call() {
    let lowered = replace_expressions(Expression::Unary {
        prefix: UnaryOperator::Not,
        operand: Box::new(ident("a")),
    })
    .unwrap();
    assert_eq!(render_expression(&lowered), "{ &context.not(&a) }");
}

#[test]
fn nested_operands_are_set_in_parentheses() {
    let product = binary(BinaryOperator::Multiply, ident("b"), ident("c"));
    let sum = binary(BinaryOperator::Add, ident("a"), product);
    assert_eq!(render_expression(&sum), "a + (b * c)");
    let negated = Expression::Unary {
        prefix: UnaryOperator::Negate,
        operand: Box::new(binary(BinaryOperator::Add, ident("a"), ident("b"))),
    };
    assert_eq!(render_expression(&negated), "-(a + b)");
    let call = Expression::BuilderCall {
        operation: Operation::Add,
        left: Box::new(ident("a")),
        right: Box::new(binary(BinaryOperator::Multiply, ident("b"), ident("c"))),
    };
    assert_eq!(render_expression(&call), "{ &context.add(&a, &(b * c)) }");
}

#[test]
fn source_conditionals_render_with_their_arms() {
    let with_else = Expression::Conditional {
        condition: Box::new(binary(BinaryOperator::Less, ident("a"), ident("b"))),
        then_block: value_block(ident("a")),
        else_arm: ElseArm::Block(value_block(ident("b"))),
    };
    assert_eq!(render_expression(&with_else), "if a < b { a } else { b }");
    let without = Expression::Conditional {
        condition: Box::new(ident("c")),
        then_block: value_block(ident("a")),
        else_arm: ElseArm::Missing,
    };
    assert_eq!(render_expression(&without), "if c { a }");
    let chained = Expression::Conditional {
        condition: Box::new(ident("c")),
        then_block: value_block(ident("a")),
        else_arm: ElseArm::Other("if d { b } else { a }".to_string()),
    };
    assert_eq!(render_expression(&chained), "if c { a } else if d { b } else { a }");
}

#[test]
fn statements_render_as_written() {
    assert_eq!(
        render_statement(&Statement::Expression { expression: ident("a"), terminated: true }),
        "a;"
    );
    assert_eq!(
        render_statement(&Statement::Expression { expression: ident("a"), terminated: false }),
        "a"
    );
    assert_eq!(
        render_statement(&Statement::Binding { name: "x".to_string(), initializer: Some(literal("1")) }),
        "let x = 1;"
    );
    assert_eq!(
        render_statement(&Statement::Binding { name: "x".to_string(), initializer: None }),
        "let x;"
    );
    assert_eq!(
        render_statement(&Statement::Other("while a < b { a = a + 1; }".to_string())),
        "while a < b { a = a + 1; }"
    );
    assert_eq!(render_block(&Block { statements: vec![] }), "{ }");
}

#[test]
fn loop_body_is_emitted_without_builder_calls() {
    let loop_text = "for i in 0..3 { total = total + i * 2; }";
    let declaration = FunctionDeclaration {
        name: "f".to_string(),
        parameters: vec![Parameter::Named { name: "a".to_string(), type_token: "T".to_string() }],
        return_type: Some("T".to_string()),
        body: Block {
            statements: vec![
                Statement::Binding { name: "mut total".to_string(), initializer: Some(ident("a")) },
                Statement::Other(loop_text.to_string()),
                Statement::Expression {
                    expression: binary(BinaryOperator::Add, ident("total"), literal("1")),
                    terminated: false,
                },
            ],
        },
    };
    let emitted = generate_macro(declaration, Mode::Execute).unwrap();
    assert!(matches!(&emitted.body.statements[1], Statement::Other(text) if text == loop_text));
    let body = render_block(&emitted.body);
    assert_eq!(
        body,
        "{ let mut total = a; for i in 0..3 { total = total + i * 2; } { &context.add(&total, &1) } }"
    );
    let start = body.find("for i in").unwrap();
    let region = &body[start..start + loop_text.len()];
    assert_eq!(region, loop_text);
    assert!(!region.contains("context."));
}

#[test]
fn numbers_render_in_decimal() {
    assert_eq!(render_decimal(0), "0");
    assert_eq!(render_decimal(7), "7");
    assert_eq!(render_decimal(10), "10");
    assert_eq!(render_decimal(128), "128");
    assert_eq!(render_decimal(4294967295), "4294967295");
}

#[test]
fn rendering_twice_gives_the_same_text() {
    let first = render(&circuit("execute", max()).unwrap());
    let second = render(&circuit("execute", max()).unwrap());
    assert_eq!(first, second);
}
