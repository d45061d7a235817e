use bumpalo::Bump;
use rox::ast::expression::{Expression, LiteralValue};
use rox::ast::operator::Operator;
use rox::ast::statement::Statement;
use rox::parser::Parser;

#[test]
fn test_parse() {
    let source = r#"
			var a = 1;
			var b = 2;
			var c = a + b;
			print c;
		"#;
    let allocator = Bump::new();
    let mut parser = Parser::new(source, &allocator);
    let result = parser.parse();
    match result {
        Ok(ast) => {
            assert_eq!(ast.body.len(), 4);
            println!("{:?}", ast);
        }
        Err(errors) => panic!("{:?}", errors),
    }
}

#[test]
fn test_parser() {
    let source = "-2; true false nil \"Hello\"";
    let allocator = Bump::new();
    let mut parser = Parser::new(source, &allocator);
    let ast_or_error = parser.parse();
    match ast_or_error {
        Ok(ast) => {
            println!("{:?}", ast);
        }
        Err(error) => {
            for err in error {
                println!("{}", err.to_string())
            }
        }
    }
}

#[test]
fn test_parse_function() {
    let source = "
		fun sum(x, y) {
			return x + y;
		}
	";
    let allocator = Bump::new();
    let mut parser = Parser::new(source, &allocator);
    let ast_or_error = parser.parse();
    match ast_or_error {
        Ok(ast) => {
            println!("{:?}", ast);
        }
        Err(error) => {
            for err in error {
                println!("{}", err.to_string())
            }
        }
    }
}

#[test]
fn test_variable_declaration() {
    let source = "
		var name = \"NU Name\"
	";
    let allocator = Bump::new();
    let mut parser = Parser::new(source, &allocator);
    let ast_or_error = parser.parse();
    match ast_or_error {
        Ok(ast) => {
            println!("{:?}", ast);
        }
        Err(error) => {
            for err in error {
                println!("{}", err.to_string())
            }
        }
    }
}

#[test]
fn test_parse_for_loop() {
    let source = "
		for (var i = 0; i < length; i = i + 1) { // currently the parser can't handle the postfix increment operator
			print i;
		}
	";

    let allocator = Bump::new();
    let mut parser = Parser::new(source, &allocator);
    let ast_or_error = parser.parse();
    assert!(matches!(ast_or_error, Ok(_)));
    let ast = ast_or_error.unwrap();
    assert_eq!(ast.body.len(), 1);
    if let Some(Statement::For(for_struct)) = ast.body.get(0) {
        assert!(matches!(
            for_struct.initializer,
            Some(Statement::Declaration(_))
        ));
        assert!(matches!(for_struct.condition, Some(Expression::Binary(_))));
        assert!(matches!(
            for_struct.increment,
            Some(Expression::Assignment(_))
        ));
    } else {
        assert!(false, "Expected for loop but got {:?}", ast.body.get(0));
    }
}

#[test]
fn test_parse_while_loop() {
    let source = "
		while (i < length) {
			print i;
		}
	";
    let allocator = Bump::new();
    let mut parser = Parser::new(source, &allocator);
    let ast_or_error = parser.parse();
    match ast_or_error {
        Ok(ast) => {
            println!("{:?}", ast);
        }
        Err(error) => {
            for err in error {
                println!("{}", err.to_string())
            }
        }
    }
}

fn number_raw<'a>(expression: &'a Expression<'a>) -> &'a str {
    match expression {
        Expression::Literal(literal) => match &literal.value {
            LiteralValue::Number(number) => number.raw,
            other => panic!("expected a number, got {:?}", other),
        },
        other => panic!("expected a literal, got {:?}", other),
    }
}

fn variable_name<'a>(expression: &'a Expression<'a>) -> &'a str {
    match expression {
        Expression::Variable(variable) => variable.name,
        other => panic!("expected a variable, got {:?}", other),
    }
}

#[test]
fn multiplication_binds_tighter_than_addition() {
    let allocator = Bump::new();
    let mut parser = Parser::new("1 + 2 * 3;", &allocator);
    let ast = parser.parse().unwrap();
    assert_eq!(ast.body.len(), 1);
    let Some(Statement::Expression(statement)) = ast.body.get(0) else {
        panic!("expected an expression statement");
    };
    let Expression::Binary(sum) = &statement.expression else {
        panic!("expected a binary expression");
    };
    assert!(matches!(sum.operator, Operator::Plus(_)));
    assert_eq!(number_raw(&sum.left), "1");
    let Expression::Binary(product) = &sum.right else {
        panic!("expected a product on the right");
    };
    assert!(matches!(product.operator, Operator::Star(_)));
    assert_eq!(number_raw(&product.left), "2");
    assert_eq!(number_raw(&product.right), "3");
    assert_eq!((sum.span.from, sum.span.to), (0, 9));
    assert_eq!((product.span.from, product.span.to), (4, 9));
    assert_eq!((statement.span.from, statement.span.to), (0, 10));
    assert_eq!((ast.span.from, ast.span.to), (0, 10));
}

#[test]
fn assignment_groups_to_the_right() {
    let allocator = Bump::new();
    let mut parser = Parser::new("a = b = c;", &allocator);
    let ast = parser.parse().unwrap();
    let Some(Statement::Expression(statement)) = ast.body.get(0) else {
        panic!("expected an expression statement");
    };
    let Expression::Assignment(outer) = &statement.expression else {
        panic!("expected an assignment");
    };
    assert_eq!(variable_name(&outer.target), "a");
    let Expression::Assignment(inner) = &outer.value else {
        panic!("expected an assignment as the value");
    };
    assert_eq!(variable_name(&inner.target), "b");
    assert_eq!(variable_name(&inner.value), "c");
}

#[test]
fn subtraction_groups_to_the_left() {
    let allocator = Bump::new();
    let mut parser = Parser::new("1 - 2 - 3;", &allocator);
    let ast = parser.parse().unwrap();
    let Some(Statement::Expression(statement)) = ast.body.get(0) else {
        panic!("expected an expression statement");
    };
    let Expression::Binary(outer) = &statement.expression else {
        panic!("expected a binary expression");
    };
    assert!(matches!(outer.operator, Operator::Minus(_)));
    assert_eq!(number_raw(&outer.right), "3");
    let Expression::Binary(inner) = &outer.left else {
        panic!("expected a difference on the left");
    };
    assert_eq!(number_raw(&inner.left), "1");
    assert_eq!(number_raw(&inner.right), "2");
}

#[test]
fn two_malformed_declarations_give_two_errors() {
    let allocator = Bump::new();
    let mut parser = Parser::new("var; var;", &allocator);
    let errors = parser.parse().unwrap_err();
    assert_eq!(errors.len(), 2);
    assert_eq!(
        errors[0].message,
        "Syntax Error: Expected Identifier but got Semicolon"
    );
    assert_eq!(errors[0].line, 1);
    assert_eq!(
        errors[1].message,
        "Syntax Error: Expected Identifier but got Semicolon"
    );
}

#[test]
fn one_malformed_statement_between_valid_ones_gives_one_error() {
    let allocator = Bump::new();
    let mut parser = Parser::new("var a=1; 1 + ; var b=2;", &allocator);
    let errors = parser.parse().unwrap_err();
    assert_eq!(errors.len(), 1);
    assert_eq!(
        errors[0].message,
        "Syntax Error: Expression Expected but got ;"
    );
}

#[test]
fn unexpected_characters_are_reported_by_the_lexer_alone() {
    let allocator = Bump::new();
    let mut parser = Parser::new("var a=1; @@@ var b=2;", &allocator);
    let errors = parser.parse().unwrap_err();
    assert_eq!(errors.len(), 3);
    assert_eq!(errors[0].message, "[Line 1]: Unexpected character: '@'");
}

#[test]
fn a_lone_class_keyword_is_an_error_and_parsing_ends() {
    let allocator = Bump::new();
    let mut parser = Parser::new("class", &allocator);
    let errors = parser.parse().unwrap_err();
    assert_eq!(errors.len(), 1);
    assert_eq!(
        errors[0].message,
        "Syntax Error: Expression Expected but got class"
    );
}

#[test]
fn empty_source_gives_an_empty_tree() {
    let allocator = Bump::new();
    let mut parser = Parser::new("", &allocator);
    let ast = parser.parse().unwrap();
    assert_eq!(ast.body.len(), 0);
    assert_eq!((ast.span.from, ast.span.to), (0, 0));
}

fn parse_errors(source: &str) -> Vec<(usize, String)> {
    let allocator = Bump::new();
    let mut parser = Parser::new(source, &allocator);
    let errors = match parser.parse() {
        Ok(ast) => panic!("expected errors, got {:?}", ast),
        Err(errors) => errors.into_iter().map(|e| (e.line, e.message)).collect(),
    };
    errors
}

#[test]
fn spans_end_with_the_last_token_consumed() {
    let source = "print 1;\nif (a) { b; } else { c; }\nreturn (x);";
    let allocator = Bump::new();
    let mut parser = Parser::new(source, &allocator);
    let ast = parser.parse().unwrap();
    assert_eq!(ast.body.len(), 3);
    let Some(Statement::Print(print)) = ast.body.get(0) else {
        panic!("expected print");
    };
    assert_eq!((print.span.from, print.span.to), (0, 8));
    let Some(Statement::If(branch)) = ast.body.get(1) else {
        panic!("expected if");
    };
    assert_eq!((branch.span.from, branch.span.to), (9, 34));
    let Statement::Block(body) = &branch.body else {
        panic!("expected a block");
    };
    assert_eq!((body.span.from, body.span.to), (16, 22));
    assert_eq!(body.body.len(), 1);
    assert!(branch.else_branch.is_some());
    let Some(Statement::Return(ret)) = ast.body.get(2) else {
        panic!("expected return");
    };
    assert_eq!((ret.span.from, ret.span.to), (35, 46));
    let Expression::Grouping(grouping) = &ret.value else {
        panic!("expected a grouping");
    };
    assert_eq!((grouping.span.from, grouping.span.to), (42, 45));
    assert_eq!(variable_name(&grouping.expression), "x");
    assert!(ast.body.get(3).is_none());
    assert!(!ast.body.is_empty());
}

#[test]
fn calls_take_arguments_and_chain() {
    let allocator = Bump::new();
    let mut parser = Parser::new("f(); g(1, a,)(b);", &allocator);
    let ast = parser.parse().unwrap();
    let Some(Statement::Expression(first)) = ast.body.get(0) else {
        panic!("expected an expression statement");
    };
    let Expression::Call(call) = &first.expression else {
        panic!("expected a call");
    };
    assert_eq!(variable_name(&call.callee), "f");
    assert!(call.arguments.is_empty());
    assert_eq!((call.span.from, call.span.to), (0, 3));
    assert_eq!(call.end_paren.from, 2);

    let Some(Statement::Expression(second)) = ast.body.get(1) else {
        panic!("expected an expression statement");
    };
    let Expression::Call(outer) = &second.expression else {
        panic!("expected a call");
    };
    assert_eq!(outer.arguments.len(), 1);
    assert_eq!(variable_name(&outer.arguments[0]), "b");
    let Expression::Call(inner) = &outer.callee else {
        panic!("expected a call as callee");
    };
    assert_eq!(variable_name(&inner.callee), "g");
    assert_eq!(inner.arguments.len(), 2);
    assert_eq!(number_raw(&inner.arguments[0]), "1");
    assert_eq!(variable_name(&inner.arguments[1]), "a");
}

#[test]
fn a_ternary_lies_between_assignment_and_or() {
    let allocator = Bump::new();
    let mut parser = Parser::new("x = a or b ? 1 : c ? 2 : 3;", &allocator);
    let ast = parser.parse().unwrap();
    let Some(Statement::Expression(statement)) = ast.body.get(0) else {
        panic!("expected an expression statement");
    };
    let Expression::Assignment(assignment) = &statement.expression else {
        panic!("expected an assignment");
    };
    let Expression::Ternary(ternary) = &assignment.value else {
        panic!("expected a ternary");
    };
    assert!(matches!(ternary.condition, Expression::Logical(_)));
    assert_eq!(number_raw(&ternary.true_branch), "1");
    let Expression::Ternary(nested) = &ternary.false_branch else {
        panic!("expected a ternary in the else branch");
    };
    assert_eq!(variable_name(&nested.condition), "c");
    assert_eq!(number_raw(&nested.false_branch), "3");
}

#[test]
fn logical_operators_group_to_the_right_and_and_binds_tighter() {
    let allocator = Bump::new();
    let mut parser = Parser::new("a and b or c or d;", &allocator);
    let ast = parser.parse().unwrap();
    let Some(Statement::Expression(statement)) = ast.body.get(0) else {
        panic!("expected an expression statement");
    };
    let Expression::Logical(outer) = &statement.expression else {
        panic!("expected a logical expression");
    };
    assert!(matches!(outer.operator, Operator::Or(_)));
    let Expression::Logical(left) = &outer.left else {
        panic!("expected a conjunction on the left");
    };
    assert!(matches!(left.operator, Operator::And(_)));
    let Expression::Logical(right) = &outer.right else {
        panic!("expected a disjunction on the right");
    };
    assert!(matches!(right.operator, Operator::Or(_)));
    assert_eq!(variable_name(&right.left), "c");
    assert_eq!(variable_name(&right.right), "d");
}

#[test]
fn unary_operators_nest_and_literals_are_decoded() {
    let allocator = Bump::new();
    let mut parser = Parser::new("!-x == \"s\" != true < nil;", &allocator);
    let ast = parser.parse().unwrap();
    let Some(Statement::Expression(statement)) = ast.body.get(0) else {
        panic!("expected an expression statement");
    };
    let Expression::Binary(outer) = &statement.expression else {
        panic!("expected a binary expression");
    };
    assert!(matches!(outer.operator, Operator::BangEqual(_)));
    let Expression::Binary(equal) = &outer.left else {
        panic!("expected an equality on the left");
    };
    let Expression::Unary(not) = &equal.left else {
        panic!("expected a unary expression");
    };
    assert!(matches!(not.operator, Operator::Bang(_)));
    assert_eq!((not.span.from, not.span.to), (0, 3));
    let Expression::Unary(minus) = &not.right else {
        panic!("expected a unary expression inside");
    };
    assert!(matches!(minus.operator, Operator::Minus(_)));
    let Expression::Literal(text) = &equal.right else {
        panic!("expected a literal");
    };
    let LiteralValue::String(string) = &text.value else {
        panic!("expected a string");
    };
    assert_eq!(string.value, "s");
    let Expression::Binary(less) = &outer.right else {
        panic!("expected a comparison on the right");
    };
    let Expression::Literal(truth) = &less.left else {
        panic!("expected a literal");
    };
    assert!(matches!(&truth.value, LiteralValue::Boolean(b) if b.value));
    let Expression::Literal(nil) = &less.right else {
        panic!("expected a literal");
    };
    assert!(matches!(&nil.value, LiteralValue::Nil(_)));
}

#[test]
fn a_function_has_a_name_parameters_and_a_block() {
    let allocator = Bump::new();
    let mut parser = Parser::new("fun f() {} fun sum(x, y) { return x + y; }", &allocator);
    let ast = parser.parse().unwrap();
    let Some(Statement::Function(first)) = ast.body.get(0) else {
        panic!("expected a function");
    };
    assert_eq!(first.name.lexeme, "f");
    assert!(first.params.is_empty());
    assert_eq!((first.span.from, first.span.to), (0, 10));
    let Some(Statement::Function(second)) = ast.body.get(1) else {
        panic!("expected a function");
    };
    assert_eq!(second.name.lexeme, "sum");
    let names: Vec<&str> = second.params.iter().map(|p| p.lexeme).collect();
    assert_eq!(names, vec!["x", "y"]);
    let Statement::Block(body) = &second.body else {
        panic!("expected a block");
    };
    assert!(matches!(body.body.get(0), Some(Statement::Return(_))));
}

#[test]
fn a_for_statement_may_leave_every_clause_out() {
    let allocator = Bump::new();
    let mut parser = Parser::new("for (;;) {} for (i = 0; ; ) { }", &allocator);
    let ast = parser.parse().unwrap();
    let Some(Statement::For(bare)) = ast.body.get(0) else {
        panic!("expected a for statement");
    };
    assert!(bare.initializer.is_none());
    assert!(bare.condition.is_none());
    assert!(bare.increment.is_none());
    let Some(Statement::For(second)) = ast.body.get(1) else {
        panic!("expected a for statement");
    };
    assert!(matches!(second.initializer, Some(Statement::Expression(_))));
    assert!(second.condition.is_none());
}

#[test]
fn a_declaration_may_have_no_value() {
    let allocator = Bump::new();
    let mut parser = Parser::new("var a; var b = 2;", &allocator);
    let ast = parser.parse().unwrap();
    let Some(Statement::Declaration(first)) = ast.body.get(0) else {
        panic!("expected a declaration");
    };
    assert_eq!(first.name.lexeme, "a");
    assert!(first.value.is_none());
    assert_eq!((first.span.from, first.span.to), (0, 6));
    let Some(Statement::Declaration(second)) = ast.body.get(1) else {
        panic!("expected a declaration");
    };
    assert_eq!(number_raw(second.value.as_ref().unwrap()), "2");
}

#[test]
fn only_a_variable_can_be_assigned_to() {
    assert_eq!(
        parse_errors("1\n= 2;"),
        vec![(2, "Syntax Error: Invalid assignment target".to_string())]
    );
    assert_eq!(
        parse_errors("(a) = 2;"),
        vec![(1, "Syntax Error: Invalid assignment target".to_string())]
    );
}

#[test]
fn errors_name_what_was_expected_and_what_was_found() {
    assert_eq!(
        parse_errors("f(1 2);"),
        vec![(1, "Expected ')' after arguments".to_string())]
    );
    assert_eq!(
        parse_errors("fun (a) {}"),
        vec![(1, "Expected function name, got \"(\"".to_string())]
    );
    assert_eq!(
        parse_errors("\n(1;"),
        vec![(2, "Syntax Error: Expected RightParen but got Semicolon".to_string())]
    );
    assert_eq!(
        parse_errors("while (a) b;"),
        vec![(1, "Syntax Error: Expected LeftBrace but got Identifier".to_string())]
    );
    assert_eq!(
        parse_errors("{ a;"),
        vec![(1, "Syntax Error: Expression Expected but got ".to_string())]
    );
    assert_eq!(
        parse_errors("var name = \"NU Name\"\n"),
        vec![(2, "Syntax Error: Expected Semicolon but got Eof".to_string())]
    );
    assert_eq!(
        parse_errors("a ? b;"),
        vec![(1, "Syntax Error: Expected Colon but got Semicolon".to_string())]
    );
}

#[test]
fn lexical_errors_keep_the_parser_from_running() {
    assert_eq!(
        parse_errors("var; \"open"),
        vec![(1, "[Line 1]: Unterminated string".to_string())]
    );
}

#[test]
fn recovery_resumes_at_the_next_statement() {
    let errors = parse_errors("print ; print 1; var = 3; fun () {} x y\nwhile (a) {} print 2");
    let lines: Vec<usize> = errors.iter().map(|e| e.0).collect();
    assert_eq!(lines, vec![1, 1, 1, 2]);
    assert_eq!(errors[0].1, "Syntax Error: Expression Expected but got ;");
    assert_eq!(errors[1].1, "Syntax Error: Expected Identifier but got Equal");
    assert_eq!(errors[2].1, "Expected function name, got \"(\"");
    assert_eq!(errors[3].1, "Syntax Error: Expected Semicolon but got Eof");
}

#[test]
fn parsing_twice_gives_the_same() {
    let allocator = Bump::new();
    let mut parser = Parser::new("var; a;", &allocator);
    let first = parser.parse().unwrap_err();
    let second = parser.parse().unwrap_err();
    assert_eq!(first.len(), 1);
    assert_eq!(second.len(), 1);
    assert_eq!(first[0].message, second[0].message);
}
