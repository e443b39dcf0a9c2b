use bb_lang::ast_stream::Node;
use bb_lang::grammar::ParseFault;
use bb_lang::number::ArithOp;
use bb_lang::parser::{Output, Parser, Progress};
use bb_lang::semantics::{RunError, RunFault};
use bb_lang::util::{BaseType, NodeType};

fn literal(text: &str) -> u64 {
    text.parse::<f64>().unwrap_or(f64::NAN).to_bits()
}

fn apply(op: ArithOp, a: u64, b: u64) -> u64 {
    let x = f64::from_bits(a);
    let y = f64::from_bits(b);
    let z = match op {
        ArithOp::Add => x + y,
        ArithOp::Sub => x - y,
        ArithOp::Mul => x * y,
        ArithOp::Div => x / y,
        ArithOp::Rem => x % y,
        ArithOp::Pow => x.powf(y),
    };
    z.to_bits()
}

/// Runs a program to its end and returns the lines it printed and how it ended.
fn run_program(source: &str) -> (Vec<String>, Option<RunError>) {
    let mut lines = Vec::new();
    let mut parser = match Parser::open_file(source) {
        Ok(parser) => parser,
        Err(e) => return (lines, Some(RunError::Parse(e))),
    };
    for _ in 0..100_000 {
        match parser.run(&literal, &apply) {
            Ok(Progress::Put(Output::Number(bits))) => lines.push(format!("{}", f64::from_bits(bits))),
            Ok(Progress::Put(Output::Text(text))) => lines.push(text),
            Ok(Progress::Went) => {}
            Ok(Progress::Done) => return (lines, None),
            Err(e) => return (lines, Some(e)),
        }
    }
    panic!("the program did not end");
}

#[test]
fn declare_and_output_round_trip() {
    let (lines, end) = run_program("a : NUMBER = 5 ; PUT a ;");
    assert!(end.is_none());
    assert_eq!(lines, vec!["5".to_string()]);
}

#[test]
fn string_concatenation() {
    let (lines, end) = run_program("a : STRING = \"foo\" ; b : STRING = \"bar\" ; PUT a | b ;");
    assert!(end.is_none());
    assert_eq!(lines, vec!["foobar".to_string()]);
}

#[test]
fn loop_counts_down_and_halts() {
    let (lines, end) = run_program("i : NUMBER = 3 ; WHILE i { PUT i ; i = i - 1 ; } ;");
    assert!(end.is_none());
    assert_eq!(lines, vec!["3".to_string(), "2".to_string(), "1".to_string()]);
}

#[test]
fn operators_group_from_the_right() {
    let (lines, end) = run_program("PUT 2 + 3 + 4 ; PUT 2 + 3 * 4 ; PUT 2 * 3 + 4 ; PUT 10 - 4 - 3 ;");
    assert!(end.is_none());
    assert_eq!(lines, vec!["9".to_string(), "14".to_string(), "14".to_string(), "9".to_string()]);
}

#[test]
fn undeclared_identifier_ends_the_run() {
    let (lines, end) = run_program("PUT b ;");
    assert!(lines.is_empty());
    match end {
        Some(RunError::Parse(e)) => assert_eq!(e.fault, ParseFault::UnknownVariable),
        _ => panic!("the run went on"),
    }
    let (lines, end) = run_program("PUT 1 ; PUT 2 ; PUT b ; PUT 3 ;");
    assert_eq!(lines, vec!["1".to_string(), "2".to_string()]);
    match end {
        Some(RunError::Parse(e)) => assert_eq!(e.fault, ParseFault::UnknownVariable),
        _ => panic!("the run went on"),
    }
}

#[test]
fn division_by_zero_yields_infinity() {
    let (lines, end) = run_program("PUT 1 / 0 ; PUT 0 - 1 / 0 ;");
    assert!(end.is_none());
    assert_eq!(lines, vec!["inf".to_string(), "-inf".to_string()]);
}

#[test]
fn reassigning_a_variable_that_holds_nothing_fails() {
    let (lines, end) = run_program("IF 0 { a : NUMBER = 1 ; } ; a = 2 ; PUT a ;");
    assert!(lines.is_empty());
    match end {
        Some(RunError::Run(fault)) => assert_eq!(fault, RunFault::MissingVariable),
        _ => panic!("the run went on"),
    }
}

fn printed(source: &str) -> Vec<String> {
    let (lines, end) = run_program(source);
    assert!(end.is_none(), "{:?}", end);
    lines
}

fn fault_of(source: &str) -> RunFault {
    match run_program(source).1 {
        Some(RunError::Run(fault)) => fault,
        other => panic!("the run ended with {:?}", other),
    }
}

fn number(text: &str) -> Node {
    let mut node = Node::new(NodeType::VAL, String::new());
    node.val_type = BaseType::NUMBER;
    node.num_val = text.to_string();
    node
}

fn text(value: &str) -> Node {
    let mut node = Node::new(NodeType::VAL, String::new());
    node.val_type = BaseType::STRING;
    node.str_val = value.to_string();
    node
}

fn variable(name: &str, ty: BaseType) -> Node {
    let mut node = Node::new(NodeType::VAL, name.to_string());
    node.val_type = ty;
    node
}

fn expression(op: &str, ty: BaseType, lhs: Option<Node>, rhs: Option<Node>) -> Node {
    let mut node = Node::new(NodeType::EXPRESSION, String::new());
    node.val_type = ty;
    node.str_val = op.to_string();
    if let Some(lhs) = lhs {
        node.append_l(lhs);
    }
    if let Some(rhs) = rhs {
        node.append_r(rhs);
    }
    node
}

fn evaluator() -> Parser {
    Parser::open_file("").unwrap()
}

fn value_of(parser: &Parser, node: &Node) -> Result<f64, RunFault> {
    parser.get_val_num(node, &literal, &apply).map(f64::from_bits)
}

#[test]
fn arithmetic_is_that_of_the_numeric_unit() {
    assert_eq!(
        printed("PUT 7 + 2 ; PUT 7 - 2 ; PUT 7 * 2 ; PUT 7 / 2 ; PUT 7 % 4 ; PUT 2 ^ 10 ;"),
        vec!["9", "5", "14", "3.5", "3", "1024"]
    );
    assert_eq!(printed("PUT 2 ^ 3 ^ 2 ;"), vec!["512"]);
    assert_eq!(printed("PUT 0.1 + 0.2 ;"), vec!["0.30000000000000004"]);
    assert_eq!(printed("PUT -3 * -2 ; PUT 1.5 ; PUT 5. ; PUT 007 ;"), vec!["6", "1.5", "5", "7"]);
}

#[test]
fn modulus_by_zero_is_no_number() {
    assert_eq!(printed("PUT 5 % 0 ; PUT 0 / 0 ;"), vec!["NaN", "NaN"]);
}

#[test]
fn comparisons_yield_one_or_zero() {
    assert_eq!(
        printed("PUT 1 < 2 ; PUT 2 < 1 ; PUT 2 > 1 ; PUT 1 > 2 ; PUT 2 <= 2 ; PUT 3 <= 2 ;"),
        vec!["1", "0", "1", "0", "1", "0"]
    );
    assert_eq!(
        printed("PUT 2 >= 2 ; PUT 1 >= 2 ; PUT 2 == 2 ; PUT 2 == 3 ; PUT -0 == 0 ;"),
        vec!["1", "0", "1", "0", "1"]
    );
    assert_eq!(printed("PUT ( 0 / 0 ) == ( 0 / 0 ) ; PUT ( 1 / 0 ) > 1000 ;"), vec!["0", "1"]);
}

#[test]
fn unequal_has_a_rule_though_no_token() {
    let parser = evaluator();
    let unequal = expression("!=", BaseType::NUMBER, Some(number("1")), Some(number("2")));
    assert_eq!(value_of(&parser, &unequal), Ok(1.0));
    let equal = expression("!=", BaseType::NUMBER, Some(number("2")), Some(number("2.0")));
    assert_eq!(value_of(&parser, &equal), Ok(0.0));
}

#[test]
fn logic_treats_any_nonzero_number_as_true() {
    assert_eq!(
        printed("PUT 2 && 3 ; PUT 2 && 0 ; PUT 0 && 2 ; PUT 0 || 0 ; PUT 0 || -5 ; PUT 0.1 || 0 ;"),
        vec!["1", "0", "0", "0", "1", "1"]
    );
    assert_eq!(printed("PUT ! 0 ; PUT ! 5 ; PUT ! -0 ; PUT ! ( 0 / 0 ) ;"), vec!["1", "0", "1", "0"]);
    assert_eq!(printed("PUT 3 ! 0 ;"), vec!["1"]);
}

#[test]
fn logic_skips_a_right_operand_that_cannot_matter() {
    let source = "IF 0 { a : NUMBER = 1 ; } ; PUT 0 && a ; PUT 1 || a ;";
    assert_eq!(printed(source), vec!["0", "1"]);
    assert_eq!(fault_of("IF 0 { a : NUMBER = 1 ; } ; PUT 1 && a ;"), RunFault::MissingVariable);
    assert_eq!(fault_of("IF 0 { a : NUMBER = 1 ; } ; PUT 0 || a ;"), RunFault::MissingVariable);
}

#[test]
fn the_left_operand_is_evaluated_first() {
    let parser = evaluator();
    let missing = variable("x", BaseType::NUMBER);
    let invalid = expression("?", BaseType::NUMBER, Some(number("1")), Some(number("2")));
    let left_fails = expression("+", BaseType::NUMBER, Some(missing.clone()), Some(invalid.clone()));
    assert_eq!(value_of(&parser, &left_fails), Err(RunFault::MissingVariable));
    let right_fails = expression("+", BaseType::NUMBER, Some(invalid), Some(missing));
    assert_eq!(value_of(&parser, &right_fails), Err(RunFault::InvalidOperator));
}

#[test]
fn an_operator_without_rule_fails_before_its_operands() {
    let parser = evaluator();
    let node = expression("?", BaseType::NUMBER, None, None);
    assert_eq!(value_of(&parser, &node), Err(RunFault::InvalidOperator));
    let node = expression("|", BaseType::NUMBER, Some(number("1")), Some(number("2")));
    assert_eq!(value_of(&parser, &node), Err(RunFault::InvalidOperator));
    let node = expression("+", BaseType::STRING, Some(text("a")), Some(text("b")));
    assert_eq!(parser.get_val_str(&node), Err(RunFault::InvalidOperator));
    assert_eq!(fault_of("a : NUMBER = 1 ; PUT a | 2 ;"), RunFault::InvalidOperator);
    assert_eq!(fault_of("a : STRING = \"x\" ; PUT a + a ;"), RunFault::InvalidOperator);
}

#[test]
fn a_node_that_is_no_value_has_no_value() {
    let parser = evaluator();
    let node = Node::new(NodeType::PUT, String::new());
    assert_eq!(value_of(&parser, &node), Err(RunFault::InvalidOperator));
    assert_eq!(parser.get_val_str(&node), Err(RunFault::InvalidOperator));
    assert_eq!(parser.get_val_str(&Node::new_eof()), Err(RunFault::InvalidOperator));
}

#[test]
fn an_expression_without_operand_fails() {
    let parser = evaluator();
    let node = expression("+", BaseType::NUMBER, None, Some(number("1")));
    assert_eq!(value_of(&parser, &node), Err(RunFault::MissingOperand));
    let node = expression("+", BaseType::NUMBER, Some(number("1")), None);
    assert_eq!(value_of(&parser, &node), Err(RunFault::MissingOperand));
    let node = expression("!", BaseType::NUMBER, Some(number("1")), None);
    assert_eq!(value_of(&parser, &node), Err(RunFault::MissingOperand));
    let node = expression("|", BaseType::STRING, None, Some(text("a")));
    assert_eq!(parser.get_val_str(&node), Err(RunFault::MissingOperand));
    let node = expression("|", BaseType::STRING, Some(text("a")), None);
    assert_eq!(parser.get_val_str(&node), Err(RunFault::MissingOperand));
}

#[test]
fn a_literal_is_its_own_value() {
    let parser = evaluator();
    assert_eq!(value_of(&parser, &number("-2.5")), Ok(-2.5));
    assert_eq!(parser.get_val_str(&text("plain")), Ok("plain".to_string()));
    assert_eq!(parser.get_val_str(&text("")), Ok(String::new()));
}

#[test]
fn texts_are_joined_in_order() {
    assert_eq!(printed("PUT \"a\" | \"b\" | \"c\" ;"), vec!["abc"]);
    assert_eq!(printed("a : STRING = \"x\" ; a = a | a | \"!\" ; PUT a ;"), vec!["xx!"]);
    assert_eq!(printed("PUT \"\" ; PUT \"héllo\" | \" → \" ;"), vec!["", "héllo → "]);
}

#[test]
fn numbers_and_texts_do_not_convert() {
    assert_eq!(fault_of("a : NUMBER = \"x\" | \"y\" ; PUT 1 ;"), RunFault::InvalidOperator);
    assert_eq!(fault_of("a : STRING = 1 + 2 ; PUT 1 ;"), RunFault::InvalidOperator);
}

#[test]
fn a_variable_without_value_fails() {
    assert_eq!(fault_of("IF 0 { a : NUMBER = 1 ; } ; PUT a ;"), RunFault::MissingVariable);
    assert_eq!(fault_of("IF 0 { a : STRING = \"x\" ; } ; PUT a | \"y\" ;"), RunFault::MissingVariable);
    assert_eq!(fault_of("a : NUMBER = a + 1 ;"), RunFault::MissingVariable);
    let parser = evaluator();
    assert_eq!(value_of(&parser, &variable("a", BaseType::NUMBER)), Err(RunFault::MissingVariable));
    assert_eq!(parser.get_val_str(&variable("a", BaseType::STRING)), Err(RunFault::MissingVariable));
}

#[test]
fn a_reassignment_needs_a_stored_value() {
    assert_eq!(fault_of("b = 1 ;"), RunFault::MissingVariable);
    assert_eq!(fault_of("a : NUMBER = 1 ; a = \"x\" ;"), RunFault::MissingVariable);
    assert_eq!(printed("a : NUMBER = 1 ; a = a + 1 ; a = a * 10 ; PUT a ;"), vec!["20"]);
}

#[test]
fn a_declaration_overwrites() {
    assert_eq!(printed("a : NUMBER = 1 ; a : NUMBER = 2 ; PUT a ;"), vec!["2"]);
    assert_eq!(printed("a : NUMBER = 1 ; a : STRING = \"x\" ; PUT a ;"), vec!["x"]);
}

#[test]
fn a_void_type_fails() {
    let mut parser = evaluator();
    let mut put = Node::new(NodeType::PUT, String::new());
    put.append_l(Node::new(NodeType::VAL, String::new()));
    assert_eq!(parser.run_node(put, &literal, &apply).unwrap_err(), RunFault::VoidType);
    let mut declare = Node::new(NodeType::DECLARE, "a".to_string());
    declare.append_l(number("1"));
    assert_eq!(parser.run_node(declare, &literal, &apply).unwrap_err(), RunFault::VoidType);
    let mut change = Node::new(NodeType::CHANGE, "a".to_string());
    change.append_l(Node::new(NodeType::VAL, String::new()));
    assert_eq!(parser.run_node(change, &literal, &apply).unwrap_err(), RunFault::VoidType);
}

#[test]
fn a_statement_without_expression_fails() {
    let mut parser = evaluator();
    let put = Node::new(NodeType::PUT, String::new());
    assert_eq!(parser.run_node(put, &literal, &apply).unwrap_err(), RunFault::MissingOperand);
    let mut declare = Node::new(NodeType::DECLARE, "a".to_string());
    declare.val_type = BaseType::NUMBER;
    assert_eq!(parser.run_node(declare, &literal, &apply).unwrap_err(), RunFault::MissingOperand);
    let change = Node::new(NodeType::CHANGE, "a".to_string());
    assert_eq!(parser.run_node(change, &literal, &apply).unwrap_err(), RunFault::MissingOperand);
    let branch = Node::new(NodeType::IF, String::new());
    assert_eq!(parser.run_node(branch, &literal, &apply).unwrap_err(), RunFault::MissingOperand);
    let repeat = Node::new(NodeType::WHILE, String::new());
    assert_eq!(parser.run_node(repeat, &literal, &apply).unwrap_err(), RunFault::MissingOperand);
}

#[test]
fn markers_and_values_do_nothing_as_statements() {
    let mut parser = evaluator();
    assert!(parser.run_node(Node::new_eof(), &literal, &apply).unwrap().is_none());
    assert!(parser.run_node(Node::new(NodeType::EOL, String::new()), &literal, &apply).unwrap().is_none());
    assert!(parser.run_node(number("1"), &literal, &apply).unwrap().is_none());
    let invalid = expression("?", BaseType::NUMBER, None, None);
    assert!(parser.run_node(invalid, &literal, &apply).unwrap().is_none());
}

#[test]
fn an_output_hands_out_the_value() {
    let mut parser = evaluator();
    let mut put = Node::new(NodeType::PUT, String::new());
    put.append_l(expression("+", BaseType::NUMBER, Some(number("1")), Some(number("2"))));
    match parser.run_node(put, &literal, &apply) {
        Ok(Some(Output::Number(bits))) => assert_eq!(f64::from_bits(bits), 3.0),
        other => panic!("{:?}", other),
    }
    let mut put = Node::new(NodeType::PUT, String::new());
    put.append_l(text("x"));
    match parser.run_node(put, &literal, &apply) {
        Ok(Some(Output::Text(value))) => assert_eq!(value, "x"),
        other => panic!("{:?}", other),
    }
}

#[test]
fn a_conditional_runs_one_body_only() {
    assert_eq!(printed("IF 0 { PUT 1 ; } ELSE { PUT 2 ; } ;"), vec!["2"]);
    assert_eq!(printed("IF 7 { PUT 1 ; } ELSE { PUT 2 ; } ;"), vec!["1"]);
    assert_eq!(printed("IF -0 { PUT 1 ; } ELSE { PUT 2 ; } ;"), vec!["2"]);
    assert_eq!(printed("IF 0 / 0 { PUT 1 ; } ELSE { PUT 2 ; } ;"), vec!["1"]);
    assert_eq!(printed("IF 0 { PUT 1 ; } ; PUT 3 ;"), vec!["3"]);
    assert_eq!(printed("IF 1 { PUT 1 ; PUT 2 ; } ; PUT 3 ;"), vec!["1", "2", "3"]);
}

#[test]
fn a_body_runs_before_what_follows_its_statement() {
    let source = "IF 1 { PUT 1 ; IF 1 { PUT 2 ; } ELSE { PUT 0 ; } ; PUT 3 ; } ELSE { PUT 0 ; } ; PUT 4 ;";
    assert_eq!(printed(source), vec!["1", "2", "3", "4"]);
}

#[test]
fn a_loop_runs_while_its_condition_is_not_zero() {
    assert_eq!(printed("WHILE 0 { PUT 1 ; } ; PUT 2 ;"), vec!["2"]);
    assert_eq!(
        printed("i : NUMBER = 0 ; WHILE i < 3 { PUT i ; i = i + 1 ; } ; PUT \"done\" ;"),
        vec!["0", "1", "2", "done"]
    );
}

#[test]
fn loops_nest() {
    let source = "i : NUMBER = 2 ; WHILE i { j : NUMBER = 2 ; WHILE j { PUT i * 10 + j ; j = j - 1 ; } ; i = i - 1 ; } ;";
    assert_eq!(printed(source), vec!["24", "22", "12", "11"]);
}

#[test]
fn a_loop_that_fails_ends_the_run() {
    let (lines, end) = run_program("i : NUMBER = 2 ; WHILE i { PUT i ; i = i - 1 ; j = 1 ; } ;");
    assert_eq!(lines, vec!["2"]);
    match end {
        Some(RunError::Run(fault)) => assert_eq!(fault, RunFault::MissingVariable),
        other => panic!("{:?}", other),
    }
}

#[test]
fn a_conditional_puts_its_body_before_the_agenda() {
    let mut parser = Parser::open_file("PUT 9 ;").unwrap();
    let mut branch = Node::new(NodeType::IF, String::new());
    branch.append_e(number("0"));
    let mut first = Node::new(NodeType::PUT, String::new());
    first.append_l(number("1"));
    let mut second = Node::new(NodeType::PUT, String::new());
    second.append_l(number("2"));
    let mut third = Node::new(NodeType::PUT, String::new());
    third.append_l(number("3"));
    branch.append_l(first);
    branch.append_r(second);
    branch.append_r(third);
    assert!(parser.run_node(branch, &literal, &apply).unwrap().is_none());
    let mut lines = Vec::new();
    loop {
        match parser.run(&literal, &apply).unwrap() {
            Progress::Put(Output::Number(bits)) => lines.push(f64::from_bits(bits)),
            Progress::Put(Output::Text(_)) => panic!("a text"),
            Progress::Went => {}
            Progress::Done => break,
        }
    }
    assert_eq!(lines, vec![2.0, 3.0, 9.0]);
}

#[test]
fn a_step_runs_one_statement() {
    let mut parser = Parser::open_file("a : NUMBER = 1 ; PUT a ;").unwrap();
    assert!(matches!(parser.run(&literal, &apply), Ok(Progress::Went)));
    assert!(matches!(parser.run(&literal, &apply), Ok(Progress::Went)));
    assert!(matches!(parser.run(&literal, &apply), Ok(Progress::Put(Output::Number(_)))));
    assert!(matches!(parser.run(&literal, &apply), Ok(Progress::Went)));
    assert!(matches!(parser.run(&literal, &apply), Ok(Progress::Done)));
    assert!(matches!(parser.run(&literal, &apply), Ok(Progress::Done)));
}

#[test]
fn a_statement_does_not_run_when_the_next_one_does_not_parse() {
    let (lines, end) = run_program("PUT 1 ; PUT 2 PUT 3 ;");
    assert_eq!(lines, vec!["1"]);
    match end {
        Some(RunError::Parse(e)) => assert_eq!(e.fault, ParseFault::MissingTerminator),
        other => panic!("{:?}", other),
    }
}

#[test]
fn an_unknown_character_ends_the_program_silently() {
    assert_eq!(printed("PUT 1 ; @ PUT 2 ;"), vec!["1"]);
}

#[test]
fn an_empty_program_prints_nothing() {
    assert_eq!(printed(""), Vec::<String>::new());
    assert_eq!(printed(" ; ; "), Vec::<String>::new());
}

#[test]
fn a_lone_ampersand_does_not_cut_the_program_off() {
    let (lines, end) = run_program("PUT 1 ; PUT 2 ; & PUT 3 ;");
    assert_eq!(lines, vec!["1", "2"]);
    match end {
        Some(RunError::Parse(e)) => assert_eq!(e.fault, ParseFault::BadStatementStart),
        other => panic!("{:?}", other),
    }
}

/// What each step of the run of `source` yielded, up to the step that reported the end.
fn steps_of(source: &str) -> Vec<String> {
    let mut parser = Parser::open_file(source).unwrap();
    let mut steps = Vec::new();
    for _ in 0..1000 {
        match parser.run(&literal, &apply).unwrap() {
            Progress::Put(Output::Number(bits)) => steps.push(format!("{}", f64::from_bits(bits))),
            Progress::Put(Output::Text(text)) => steps.push(text),
            Progress::Went => steps.push("-".to_string()),
            Progress::Done => return steps,
        }
    }
    panic!("the program did not end");
}

#[test]
fn each_pass_is_one_evaluation_and_one_run_of_the_body() {
    let steps = steps_of("i : NUMBER = 2 ; WHILE i { PUT i ; i = i - 1 ; } ; PUT 9 ;");
    assert_eq!(
        steps,
        vec!["-", "-", "-", "2", "-", "-", "-", "-", "1", "-", "-", "-", "-", "9", "-"]
    );
}

#[test]
fn a_loop_without_a_pass_is_one_step() {
    assert_eq!(steps_of("WHILE 0 { PUT 1 ; } ; PUT 9 ;"), vec!["-", "9", "-"]);
    assert_eq!(steps_of("i : NUMBER = 5 ; WHILE 0 { i = 1 ; } ; PUT i ;"), vec!["-", "-", "-", "5", "-"]);
}

#[test]
fn the_condition_is_zero_behind_a_loop() {
    assert_eq!(printed("i : NUMBER = 3 ; WHILE i > 1 { i = i - 1 ; } ; PUT i > 1 ; PUT i ;"), vec!["0", "1"]);
}

#[test]
fn evaluating_twice_yields_the_same_bits() {
    let parser = evaluator();
    let zero_divisor = expression("/", BaseType::NUMBER, Some(number("1")), Some(number("0")));
    let no_number = expression("%", BaseType::NUMBER, Some(number("0")), Some(number("0")));
    let nested = expression("^", BaseType::NUMBER, Some(zero_divisor.clone()), Some(no_number.clone()));
    for node in [zero_divisor, no_number, nested] {
        let first = parser.get_val_num(&node, &literal, &apply);
        let second = parser.get_val_num(&node, &literal, &apply);
        assert_eq!(first, second);
        assert!(first.is_ok());
    }
}
