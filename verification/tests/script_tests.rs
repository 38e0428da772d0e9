use chip8::compiler::parser::{variant_equal, Expression, Issue, Parser};
use chip8::utils::token::Token;
use chip8::utils::lexer::LexError;

fn read(source: &str) -> (String, Vec<Issue>) {
    let mut parser = Parser::new(source);
    let first = parser.get_next();
    (format!("{:?}", first), parser.errors)
}

#[test]
fn declaration_with_a_value() {
    let (tree, errors) = read("let x: num = 5;");
    assert_eq!(tree, "Variable { name: \"x\", dt: \"num\", value: Some(Number(5)) }");
    assert!(errors.is_empty());
}

#[test]
fn declaration_without_a_value() {
    let (tree, errors) = read("let name: str;");
    assert_eq!(tree, "Variable { name: \"name\", dt: \"str\", value: None }");
    assert!(errors.is_empty());
}

#[test]
fn declaration_of_texts_and_truth_values() {
    let (tree, errors) = read("let s: str = \"hi there\";");
    assert_eq!(tree, "Variable { name: \"s\", dt: \"str\", value: Some(String(\"hi there\")) }");
    assert!(errors.is_empty());
    let (tree, errors) = read("let b: bool = true;");
    assert_eq!(tree, "Variable { name: \"b\", dt: \"bool\", value: Some(Boolean(\"true\")) }");
    assert!(errors.is_empty());
}

#[test]
fn numbers_are_hexadecimal() {
    let (tree, _) = read("let x: num = 0x1F;");
    assert_eq!(tree, "Variable { name: \"x\", dt: \"num\", value: Some(Number(31)) }");
}

#[test]
fn assignment_of_a_sum() {
    let (tree, errors) = read("x = 1 + 2;");
    assert_eq!(
        tree,
        "Assignment { variable: \"x\", exp: Binary { left: Number(1), op: \"+\", right: Number(2) } }"
    );
    assert!(errors.is_empty());
}

#[test]
fn operators_nest_to_the_right() {
    let (tree, errors) = read("x = 1 * 2 - 3;");
    assert_eq!(
        tree,
        "Assignment { variable: \"x\", exp: Binary { left: Number(1), op: \"*\", right: Binary { left: Number(2), op: \"-\", right: Number(3) } } }"
    );
    assert!(errors.is_empty());
}

#[test]
fn arrays() {
    let (tree, errors) = read("let a: array = [1, 2, 3];");
    assert_eq!(
        tree,
        "Variable { name: \"a\", dt: \"array\", value: Some(Array([Number(1), Number(2), Number(3)])) }"
    );
    assert!(errors.is_empty());
    let (tree, errors) = read("a = [];");
    assert_eq!(tree, "Assignment { variable: \"a\", exp: Array([]) }");
    assert!(errors.is_empty());
    let (tree, errors) = read("a = [[1], 2];");
    assert_eq!(tree, "Assignment { variable: \"a\", exp: Array([Array([Number(1)]), Number(2)]) }");
    assert!(errors.is_empty());
}

#[test]
fn an_array_without_commas_is_a_problem() {
    let (tree, errors) = read("a = [1 2];");
    assert_eq!(tree, "Assignment { variable: \"a\", exp: Array([Number(1), Number(2)]) }");
    assert_eq!(errors.len(), 1);
    assert!(matches!(errors[0], Issue::ExpectedSeparator(_)));
}

#[test]
fn a_call_without_arguments() {
    let (tree, errors) = read("run();");
    assert_eq!(tree, "FunctionCall { name: \"run\", args: [] }");
    assert!(errors.is_empty());
}

#[test]
fn a_call_notes_reserved_argument_names() {
    let (tree, errors) = read("run(let, a b);");
    assert_eq!(tree, "FunctionCall { name: \"run\", args: [] }");
    assert_eq!(errors.len(), 2);
    assert!(matches!(errors[0], Issue::ReservedArgument(_)));
    assert!(matches!(errors[1], Issue::ExpectedColumn(_)));
}

#[test]
fn a_name_alone_wants_a_semicolon() {
    let (tree, errors) = read("x;");
    assert_eq!(tree, "Nothing");
    assert!(errors.is_empty());
    let (tree, errors) = read("x y");
    assert_eq!(tree, "Nothing");
    assert_eq!(errors, vec![Issue::ExpectedSemicolon]);
}

#[test]
fn a_function_definition() {
    let mut parser = Parser::new("fun f() { x = 1; }");
    let tree = format!("{:?}", parser.get_next());
    assert_eq!(
        tree,
        "FunctionDefinition { name: \"f\", args: [], rtype: None, body: [Assignment { variable: \"x\", exp: Number(1) }, Nothing] }"
    );
    assert_eq!(parser.errors.len(), 3);
    assert!(matches!(parser.errors[0], Issue::Unexpected(_)));
    assert!(matches!(parser.errors[1], Issue::Unexpected(_)));
    assert_eq!(parser.errors[2], Issue::UnclosedBody);
}

#[test]
fn a_function_with_a_result_type_and_a_closed_body() {
    let mut parser = Parser::new("fun f(): num { x = 1 }");
    let tree = format!("{:?}", parser.get_next());
    assert_eq!(
        tree,
        "FunctionDefinition { name: \"f\", args: [], rtype: Some(\"num\"), body: [Assignment { variable: \"x\", exp: Number(1) }] }"
    );
    assert!(parser.errors.is_empty());
}

#[test]
fn reserved_words_are_no_names() {
    let (tree, errors) = read("let if x: num;");
    assert_eq!(tree, "Variable { name: \"x\", dt: \"num\", value: None }");
    assert_eq!(errors.len(), 1);
    assert!(matches!(errors[0], Issue::Reserved { position, name: true } if position.column() == 4));
}

#[test]
fn tokens_that_start_nothing_are_passed_over() {
    let (tree, errors) = read(") , x = 2;");
    assert_eq!(tree, "Assignment { variable: \"x\", exp: Number(2) }");
    assert_eq!(errors.len(), 2);
    assert!(matches!(errors[0], Issue::Unexpected(p) if p.column() == 0));
    assert!(matches!(errors[1], Issue::Unexpected(p) if p.column() == 1));
}

#[test]
fn a_missing_value_is_a_problem() {
    let (tree, errors) = read("x = ;");
    assert_eq!(tree, "Assignment { variable: \"x\", exp: Nothing }");
    assert_eq!(errors.len(), 1);
    assert!(matches!(errors[0], Issue::ExpectedValue(p) if p.column() == 3));
}

#[test]
fn an_unclosed_text_is_noted() {
    let (tree, errors) = read("x = \"abc");
    assert_eq!(tree, "Assignment { variable: \"x\", exp: Nothing }");
    assert_eq!(errors, vec![Issue::Unclosed(LexError { quote: '"', row: 0, column: 3 })]);
}

#[test]
fn the_end_of_a_script_reads_as_nothing() {
    let mut parser = Parser::new("  ");
    assert!(!parser.has_next());
    assert!(matches!(parser.get_next(), Expression::Nothing));
    assert!(parser.errors.is_empty());
}

#[test]
fn statements_follow_one_another() {
    let mut parser = Parser::new("let a: num = 1;\nlet b: num = 2;");
    let first = format!("{:?}", parser.get_next());
    let second = format!("{:?}", parser.get_next());
    assert_eq!(first, "Variable { name: \"a\", dt: \"num\", value: Some(Number(1)) }");
    assert_eq!(second, "Variable { name: \"b\", dt: \"num\", value: Some(Number(2)) }");
    assert!(!parser.has_next());
    assert!(parser.errors.is_empty());
}

#[test]
fn parts_of_an_expression() {
    let mut parser = Parser::new("1 + 2");
    assert_eq!(format!("{:?}", parser.make_factor()), "Number(1)");
    assert_eq!(format!("{:?}", parser.make_term()), "Number(2)");
    assert_eq!(parser.errors.len(), 1);
    assert!(matches!(parser.errors[0], Issue::ExpectedValue(_)));
    let mut parser = Parser::new("1 + 2");
    assert_eq!(
        format!("{:?}", parser.make_term()),
        "Binary { left: Number(1), op: \"+\", right: Number(2) }"
    );
    let mut parser = Parser::new("3 * 4");
    assert_eq!(
        format!("{:?}", parser.make_conditional()),
        "Binary { left: Number(3), op: \"*\", right: Number(4) }"
    );
}

#[test]
fn tokens_of_the_same_kind() {
    assert!(variant_equal(&Token::from_str("a", 0, 0), &Token::from_str("bcd", 4, 5)));
    assert!(variant_equal(&Token::from_char('+', 0, 0), &Token::from_char('-', 0, 0)));
    assert!(variant_equal(&Token::none(), &Token::none()));
    assert!(!variant_equal(&Token::from_str("a", 0, 0), &Token::from_str("true", 0, 0)));
    assert!(!variant_equal(&Token::from_char('(', 0, 0), &Token::from_char(')', 0, 0)));
    assert!(!variant_equal(&Token::from_number("1", 0, 0), &Token::none()));
}
