use bb_lang::ast_stream::{ASTStream, Node, ParseError};
use bb_lang::grammar::ParseFault;
use bb_lang::util::{BaseType, NodeType, TokenType};

/// A node on one line: literals as they were written, variables by name and type,
/// expressions in brackets with the operator first, bodies in braces.
fn show(node: &Node) -> String {
    let list = |nodes: &Vec<Node>| nodes.iter().map(show).collect::<Vec<String>>().join(" ");
    match node.node_type {
        NodeType::VAL => {
            let ty = match node.val_type {
                BaseType::NUMBER => "N",
                BaseType::STRING => "S",
                BaseType::VOID => "V",
            };
            if !node.identity.is_empty() {
                format!("{}:{}", node.identity, ty)
            } else if node.val_type == BaseType::STRING {
                format!("{:?}", node.str_val)
            } else {
                node.num_val.clone()
            }
        }
        NodeType::EXPRESSION => {
            if node.l_children.is_empty() {
                format!("({} {})", node.str_val, list(&node.r_children))
            } else {
                format!("({} {} {})", node.str_val, list(&node.l_children), list(&node.r_children))
            }
        }
        NodeType::PUT => format!("PUT {}", list(&node.l_children)),
        NodeType::DECLARE => format!("LET {}:{:?} {}", node.identity, node.val_type, list(&node.l_children)),
        NodeType::CHANGE => format!("SET {} {}", node.identity, list(&node.l_children)),
        NodeType::IF => format!(
            "IF {} {{{}}} {{{}}}",
            list(&node.extra),
            list(&node.l_children),
            list(&node.r_children)
        ),
        NodeType::WHILE => format!("WHILE {} {{{}}}", list(&node.extra), list(&node.l_children)),
        NodeType::EOL => ";".to_string(),
        NodeType::EOF => "END".to_string(),
    }
}

/// The statements of a program up to the end-of-input node, or those before the first
/// that fails to parse and the failure.
fn statements(source: &str) -> (Vec<String>, Option<ParseError>) {
    let mut found = Vec::new();
    let mut stream = match ASTStream::new(source) {
        Ok(stream) => stream,
        Err(e) => return (found, Some(e)),
    };
    for _ in 0..source.len() + 2 {
        if stream.eof() {
            return (found, None);
        }
        match stream.next() {
            Ok(node) => found.push(show(&node)),
            Err(e) => return (found, Some(e)),
        }
    }
    panic!("the statements did not end");
}

fn parsed(source: &str) -> Vec<String> {
    let (found, failure) = statements(source);
    assert!(failure.is_none(), "{:?}", failure);
    found
}

fn failure(source: &str) -> (ParseFault, usize, usize) {
    let (_, failure) = statements(source);
    let e = failure.expect("the program parsed");
    (e.fault, e.row, e.col)
}

#[test]
fn a_new_node_has_no_children() {
    let node = Node::new(NodeType::PUT, "x".to_string());
    assert_eq!(node.node_type, NodeType::PUT);
    assert_eq!(node.identity, "x");
    assert_eq!(node.val_type, BaseType::VOID);
    assert_eq!(node.str_val, "");
    assert_eq!(node.num_val, "0");
    assert!(node.l_children.is_empty());
    assert!(node.r_children.is_empty());
    assert!(node.extra.is_empty());
}

#[test]
fn the_end_of_input_node() {
    let node = Node::new_eof();
    assert_eq!(node.node_type, NodeType::EOF);
    assert!(node.node_type.is_eof());
    assert_eq!(node.identity, "");
    assert!(node.extra.is_empty());
    assert!(!NodeType::EOL.is_eof());
    assert!(NodeType::EOL.is_eol());
}

#[test]
fn children_are_appended_in_order() {
    let mut node = Node::new(NodeType::IF, String::new());
    node.append_l(Node::new(NodeType::PUT, "a".to_string()));
    node.append_l(Node::new(NodeType::PUT, "b".to_string()));
    node.append_r(Node::new(NodeType::PUT, "c".to_string()));
    node.append_e(Node::new(NodeType::VAL, "d".to_string()));
    node.append_e(Node::new_eof());
    let names = |nodes: &Vec<Node>| nodes.iter().map(|n| n.identity.clone()).collect::<Vec<String>>();
    assert_eq!(names(&node.l_children), vec!["a", "b"]);
    assert_eq!(names(&node.r_children), vec!["c"]);
    assert_eq!(names(&node.extra), vec!["d", ""]);
}

#[test]
fn a_cloned_node_is_the_whole_tree() {
    let stream = ASTStream::new("IF 1 { PUT 2 + 3 ; } ELSE { PUT \"x\" ; } ;").unwrap();
    let node = stream.peek();
    let copy = node.clone();
    assert_eq!(show(&copy), show(&node));
    assert_eq!(show(&copy), "IF 1 {PUT (+ 2 3) ;} {PUT \"x\" ;}");
}

#[test]
fn every_operator_takes_the_rest_as_its_right_operand() {
    assert_eq!(parsed("PUT 2 + 3 + 4 ;"), vec!["PUT (+ 2 (+ 3 4))", ";"]);
    assert_eq!(parsed("PUT 2 + 3 * 4 ;"), vec!["PUT (+ 2 (* 3 4))", ";"]);
    assert_eq!(parsed("PUT 2 * 3 + 4 ;"), vec!["PUT (* 2 (+ 3 4))", ";"]);
    assert_eq!(parsed("PUT 1 - 2 - 3 - 4 ;"), vec!["PUT (- 1 (- 2 (- 3 4)))", ";"]);
    assert_eq!(parsed("PUT 1 < 2 && 3 >= 4 ;"), vec!["PUT (< 1 (&& 2 (>= 3 4)))", ";"]);
}

#[test]
fn a_parenthesis_is_one_operand() {
    assert_eq!(parsed("PUT ( 2 + 3 ) * 4 ;"), vec!["PUT (* (+ 2 3) 4)", ";"]);
    assert_eq!(parsed("PUT ( 2 ) ;"), vec!["PUT 2", ";"]);
    assert_eq!(parsed("PUT ( ( 1 + 2 ) ) ;"), vec!["PUT (+ 1 2)", ";"]);
    assert_eq!(parsed("PUT ( 1 + 2 ) * ( 3 + 4 ) + 5 ;"), vec!["PUT (* (+ 1 2) (+ (+ 3 4) 5))", ";"]);
    assert_eq!(parsed("PUT ( \"a\" ) | \"b\" ;"), vec!["PUT (| \"a\" \"b\")", ";"]);
}

#[test]
fn an_expression_behind_a_parenthesis_has_the_type_of_its_operator() {
    let stream = ASTStream::new("PUT ( 1 ) | ( 2 ) ;").unwrap();
    assert_eq!(stream.peek().l_children[0].val_type, BaseType::STRING);
    let stream = ASTStream::new("PUT ( \"a\" ) + 1 ;").unwrap();
    assert_eq!(stream.peek().l_children[0].val_type, BaseType::NUMBER);
}

#[test]
fn not_takes_all_that_follows() {
    assert_eq!(parsed("PUT ! 1 + 2 ;"), vec!["PUT (! (+ 1 2))", ";"]);
    assert_eq!(parsed("PUT ! ! 0 ;"), vec!["PUT (! (! 0))", ";"]);
    assert_eq!(parsed("PUT 3 ! 0 ;"), vec!["PUT (! 3 0)", ";"]);
    let stream = ASTStream::new("PUT ! 0 ;").unwrap();
    let put = stream.peek();
    assert_eq!(put.l_children[0].val_type, BaseType::NUMBER);
    assert_eq!(put.l_children[0].node_type, NodeType::EXPRESSION);
    assert!(put.l_children[0].l_children.is_empty());
}

#[test]
fn texts_are_joined_from_the_right() {
    assert_eq!(parsed("PUT \"a\" | \"b\" | \"c\" ;"), vec!["PUT (| \"a\" (| \"b\" \"c\"))", ";"]);
    let stream = ASTStream::new("PUT \"a\" | \"b\" ;").unwrap();
    let put = stream.peek();
    assert_eq!(put.l_children[0].val_type, BaseType::STRING);
    assert_eq!(put.l_children[0].str_val, "|");
}

#[test]
fn literals_keep_their_text() {
    let stream = ASTStream::new("PUT -12.50 ;").unwrap();
    let value = &stream.peek().l_children[0];
    assert_eq!(value.node_type, NodeType::VAL);
    assert_eq!(value.val_type, BaseType::NUMBER);
    assert_eq!(value.num_val, "-12.50");
    assert_eq!(value.identity, "");
    let stream = ASTStream::new("PUT \"say \" ;").unwrap();
    let value = &stream.peek().l_children[0];
    assert_eq!(value.val_type, BaseType::STRING);
    assert_eq!(value.str_val, "say ");
}

#[test]
fn a_declaration_registers_its_type() {
    assert_eq!(
        parsed("a : NUMBER = 1 ; b : STRING = \"x\" ; PUT a + a ; PUT b | b ;"),
        vec![
            "LET a:NUMBER 1",
            ";",
            "LET b:STRING \"x\"",
            ";",
            "PUT (+ a:N a:N)",
            ";",
            "PUT (| b:S b:S)",
            ";"
        ]
    );
}

#[test]
fn a_declaration_may_refer_to_itself() {
    assert_eq!(parsed("a : NUMBER = a + 1 ;"), vec!["LET a:NUMBER (+ a:N 1)", ";"]);
}

#[test]
fn a_later_declaration_replaces_the_type() {
    assert_eq!(
        parsed("a : NUMBER = 1 ; a : STRING = \"x\" ; PUT a ;"),
        vec!["LET a:NUMBER 1", ";", "LET a:STRING \"x\"", ";", "PUT a:S", ";"]
    );
}

#[test]
fn an_expression_on_a_variable_has_the_type_of_the_variable() {
    let mut stream = ASTStream::new("a : NUMBER = 1 ; PUT a | 2 ;").unwrap();
    stream.next().unwrap();
    stream.next().unwrap();
    let put = stream.peek();
    assert_eq!(show(&put), "PUT (| a:N 2)");
    assert_eq!(put.l_children[0].val_type, BaseType::NUMBER);
}

#[test]
fn a_reassignment_keeps_the_name() {
    let mut stream = ASTStream::new("a : STRING = \"x\" ; a = a | \"y\" ;").unwrap();
    stream.next().unwrap();
    stream.next().unwrap();
    let change = stream.peek();
    assert_eq!(change.node_type, NodeType::CHANGE);
    assert_eq!(change.identity, "a");
    assert_eq!(change.val_type, BaseType::VOID);
    assert_eq!(show(&change), "SET a (| a:S \"y\")");
}

#[test]
fn the_target_of_a_reassignment_is_not_looked_up() {
    assert_eq!(parsed("b = 1 ;"), vec!["SET b 1", ";"]);
}

#[test]
fn a_conditional_without_else_takes_its_terminator() {
    assert_eq!(parsed("IF 1 { PUT 1 ; } ; PUT 2 ;"), vec!["IF 1 {PUT 1 ;} {}", "PUT 2", ";"]);
    assert_eq!(parsed("IF 1 { } ;"), vec!["IF 1 {} {}"]);
}

#[test]
fn a_conditional_with_else_leaves_its_terminator() {
    assert_eq!(
        parsed("IF 0 { PUT 1 ; } ELSE { PUT 2 ; PUT 3 ; } ; PUT 4 ;"),
        vec!["IF 0 {PUT 1 ;} {PUT 2 ; PUT 3 ;}", ";", "PUT 4", ";"]
    );
}

#[test]
fn a_loop_takes_its_terminator() {
    assert_eq!(
        parsed("i : NUMBER = 3 ; WHILE i { PUT i ; i = i - 1 ; } ; PUT i ;"),
        vec!["LET i:NUMBER 3", ";", "WHILE i:N {PUT i:N ; SET i (- i:N 1) ;}", "PUT i:N", ";"]
    );
}

#[test]
fn bodies_nest() {
    assert_eq!(
        parsed("WHILE 1 { IF 0 { WHILE 0 { } ; } ELSE { PUT 1 ; } ; } ;"),
        vec!["WHILE 1 {IF 0 {WHILE 0 {}} {PUT 1 ;} ;}"]
    );
}

#[test]
fn a_declaration_in_a_body_is_known_behind_it() {
    assert_eq!(
        parsed("IF 0 { a : NUMBER = 1 ; } ; PUT a ;"),
        vec!["IF 0 {LET a:NUMBER 1 ;} {}", "PUT a:N", ";"]
    );
}

#[test]
fn a_lone_terminator_is_a_statement() {
    assert_eq!(parsed("; ; PUT 1 ; ;"), vec![";", ";", "PUT 1", ";", ";"]);
}

#[test]
fn an_empty_text_is_an_empty_program() {
    let stream = ASTStream::new("").unwrap();
    assert!(stream.eof());
    assert_eq!(stream.peek().node_type, NodeType::EOF);
    assert_eq!(parsed("  \n\t "), Vec::<String>::new());
}

#[test]
fn an_unknown_character_at_the_start_of_a_statement_ends_the_program() {
    assert_eq!(parsed("PUT 1 ; @ PUT 2 ;"), vec!["PUT 1", ";"]);
}

#[test]
fn a_new_parser_has_the_first_statement_upcoming() {
    let mut stream = ASTStream::new("PUT 1 ; PUT 2 ;").unwrap();
    assert_eq!(stream.current().node_type, NodeType::EOF);
    assert_eq!(show(&stream.peek()), "PUT 1");
    assert!(!stream.eof());
    let first = stream.next().unwrap();
    assert_eq!(show(&first), "PUT 1");
    assert_eq!(show(&stream.current()), "PUT 1");
    assert_eq!(show(&stream.peek()), ";");
    stream.next().unwrap();
    assert_eq!(show(&stream.peek()), "PUT 2");
    stream.next().unwrap();
    stream.next().unwrap();
    assert!(stream.eof());
    assert_eq!(stream.next().unwrap().node_type, NodeType::EOF);
    assert!(stream.eof());
}

#[test]
fn a_failure_comes_with_the_statement_before_it() {
    let mut stream = ASTStream::new("PUT 1 ; PUT ;").unwrap();
    assert_eq!(show(&stream.next().unwrap()), "PUT 1");
    let e = stream.next().unwrap_err();
    assert_eq!(e.fault, ParseFault::IllegalExpression);
    assert_eq!(show(&stream.current()), ";");
    assert!(stream.eof());
}

#[test]
fn reset_rewinds_the_tokens_and_keeps_the_types() {
    let mut stream = ASTStream::new("a : NUMBER = 1 ; PUT a ;").unwrap();
    stream.next().unwrap();
    stream.next().unwrap();
    stream.reset();
    assert!(stream.eof());
    assert_eq!(stream.current().node_type, NodeType::EOF);
    assert_eq!(stream.peek().node_type, NodeType::EOF);
    assert_eq!(stream.next().unwrap().node_type, NodeType::EOF);
    assert_eq!(show(&stream.peek()), "LET a:NUMBER 1");
    assert_eq!(show(&stream.next().unwrap()), "LET a:NUMBER 1");
}

#[test]
fn the_parser_reports_the_place_of_the_cursor() {
    let stream = ASTStream::new("PUT 1 ;\nPUT 2 ;").unwrap();
    let report = stream.err("here");
    assert_eq!(report.message, "here");
    assert_eq!((report.row, report.col), (1, 8));
}

#[test]
fn an_expression_must_begin_with_an_operand() {
    assert_eq!(failure("PUT ;"), (ParseFault::IllegalExpression, 1, 7));
    assert_eq!(failure("PUT 1 + ;").0, ParseFault::IllegalExpression);
    assert_eq!(failure("PUT 1 + * 2 ;").0, ParseFault::IllegalExpression);
    assert_eq!(failure("PUT ( ) ;").0, ParseFault::IllegalExpression);
    assert_eq!(failure("PUT").0, ParseFault::IllegalExpression);
    assert_eq!(failure("PUT 1 + @ ;").0, ParseFault::IllegalExpression);
}

#[test]
fn an_undeclared_identifier_does_not_parse() {
    assert_eq!(failure("PUT b ;"), (ParseFault::UnknownVariable, 1, 8));
    assert_eq!(failure("a : NUMBER = 1 ;\nPUT b ;"), (ParseFault::UnknownVariable, 2, 6));
    assert_eq!(failure("a : NUMBER = 1 ; PUT a + b ;").0, ParseFault::UnknownVariable);
    assert_eq!(failure("a : NUMBER = b ;").0, ParseFault::UnknownVariable);
    assert_eq!(failure("IF x { } ;").0, ParseFault::UnknownVariable);
    assert_eq!(failure("WHILE ( ! x ) { } ;").0, ParseFault::UnknownVariable);
    assert_eq!(failure("PUT A ; A : NUMBER = 1 ;").0, ParseFault::UnknownVariable);
}

#[test]
fn a_parenthesis_must_be_closed() {
    assert_eq!(failure("PUT ( 1 + 2 ;"), (ParseFault::MissingClose, 1, 15));
    assert_eq!(failure("PUT ( 1 2 ) ;").0, ParseFault::MissingClose);
}

#[test]
fn a_declaration_needs_a_type() {
    assert_eq!(failure("a : 5 = 1 ;"), (ParseFault::TypeExpected, 1, 8));
    assert_eq!(failure("a : number = 1 ;").0, ParseFault::TypeExpected);
    assert_eq!(failure("a : = 1 ;").0, ParseFault::TypeExpected);
}

#[test]
fn a_declaration_needs_an_assignment() {
    assert_eq!(failure("a : NUMBER 5 ;"), (ParseFault::MissingAssign, 1, 15));
    assert_eq!(failure("a : STRING ;").0, ParseFault::MissingAssign);
}

#[test]
fn a_failed_declaration_has_registered_its_type() {
    let mut stream = ASTStream::new("PUT 1 ; a : NUMBER 5 ;").unwrap();
    stream.next().unwrap();
    assert_eq!(stream.next().unwrap_err().fault, ParseFault::MissingAssign);
}

#[test]
fn an_identifier_begins_a_declaration_or_a_reassignment() {
    assert_eq!(failure("a 5 ;"), (ParseFault::BadAfterVariable, 1, 4));
    assert_eq!(failure("a ;").0, ParseFault::BadAfterVariable);
    assert_eq!(failure("a + 1 ;").0, ParseFault::BadAfterVariable);
}

#[test]
fn a_statement_begins_with_a_keyword_or_an_identifier() {
    assert_eq!(failure("5 ;"), (ParseFault::BadStatementStart, 1, 4));
    assert_eq!(failure("} ;").0, ParseFault::BadStatementStart);
    assert_eq!(failure("ELSE { } ;").0, ParseFault::BadStatementStart);
    assert_eq!(failure("\"text\" ;").0, ParseFault::BadStatementStart);
    assert_eq!(failure("FUNCTION f ;").0, ParseFault::BadStatementStart);
    assert_eq!(failure("CALL f ;").0, ParseFault::BadStatementStart);
    assert_eq!(failure("RET 1 ;").0, ParseFault::BadStatementStart);
    assert_eq!(failure("PUT 3-5 ;").0, ParseFault::MissingTerminator);
}

#[test]
fn a_body_begins_with_a_brace() {
    assert_eq!(failure("IF 1 PUT 1 ; } ;"), (ParseFault::MissingOpen, 1, 11));
    assert_eq!(failure("WHILE 1 PUT 1 ; } ;").0, ParseFault::MissingOpen);
    assert_eq!(failure("IF 1 { } ELSE PUT 1 ; } ;").0, ParseFault::MissingOpen);
}

#[test]
fn a_body_must_be_closed() {
    assert_eq!(failure("IF 1 { PUT 1 ;"), (ParseFault::UnclosedBlock, 1, 16));
    assert_eq!(failure("WHILE 1 {").0, ParseFault::UnclosedBlock);
    assert_eq!(failure("IF 1 { } ELSE { PUT 1 ;").0, ParseFault::UnclosedBlock);
    assert_eq!(failure("WHILE 1 { PUT 1 ; @ } ;").0, ParseFault::UnclosedBlock);
}

#[test]
fn a_statement_ends_with_a_terminator() {
    assert_eq!(failure("PUT 1 PUT 2 ;"), (ParseFault::MissingTerminator, 1, 10));
    assert_eq!(failure("a : NUMBER = 1").0, ParseFault::MissingTerminator);
    assert_eq!(failure("a : NUMBER = 1 ; a = 2 PUT a ;").0, ParseFault::MissingTerminator);
    assert_eq!(failure("IF 1 { } PUT 1 ;").0, ParseFault::MissingTerminator);
    assert_eq!(failure("IF 1 { } ELSE { } PUT 1 ;").0, ParseFault::MissingTerminator);
    assert_eq!(failure("WHILE 0 { } PUT 1 ;").0, ParseFault::MissingTerminator);
    assert_eq!(failure("PUT \"a\" + \"b\" ;").0, ParseFault::MissingTerminator);
    assert_eq!(failure("PUT 1 | 2 ;").0, ParseFault::MissingTerminator);
}

#[test]
fn a_failure_in_a_body_fails_the_statement() {
    assert_eq!(failure("IF 1 { PUT ; } ;").0, ParseFault::IllegalExpression);
    assert_eq!(failure("WHILE 1 { IF 1 { a 1 ; } ; } ;").0, ParseFault::BadAfterVariable);
    assert_eq!(failure("IF 1 { } ELSE { PUT b ; } ;").0, ParseFault::UnknownVariable);
}

#[test]
fn a_lone_ampersand_is_no_operator_and_begins_nothing() {
    assert_eq!(failure("PUT 1 & 2 ;").0, ParseFault::MissingTerminator);
    assert_eq!(failure("a : NUMBER = 1 ; PUT a & a ;").0, ParseFault::MissingTerminator);
    assert_eq!(failure("PUT \"a\" & \"b\" ;").0, ParseFault::MissingTerminator);
    assert_eq!(failure("PUT & ;").0, ParseFault::IllegalExpression);
    assert_eq!(failure("PUT 1 + & ;").0, ParseFault::IllegalExpression);
    assert_eq!(failure("& ;"), (ParseFault::BadStatementStart, 1, 4));
    assert_eq!(failure("PUT 1 ; & PUT 2 ;").0, ParseFault::BadStatementStart);
    assert_eq!(failure("IF 1 { & } ;").0, ParseFault::BadStatementStart);
    assert_eq!(failure("IF 1 & { } ;").0, ParseFault::MissingOpen);
}

/// A parser that stands at the token behind the leading `;` of `source`.
fn standing_behind_terminator(source: &str) -> ASTStream {
    let mut stream = ASTStream::new(source).unwrap();
    assert_eq!(stream.here().token_type, TokenType::SEMICOLON);
    stream.step();
    stream
}

#[test]
fn parse_expression_stops_at_the_last_operand() {
    let mut stream = standing_behind_terminator("; 2 + 3 + 4 ;");
    let tree = stream.parse_expression().unwrap();
    assert_eq!(show(&tree), "(+ 2 (+ 3 4))");
    assert_eq!(tree.node_type, NodeType::EXPRESSION);
    assert_eq!(tree.val_type, BaseType::NUMBER);
    assert_eq!(tree.str_val, "+");
    assert_eq!(tree.l_children.len(), 1);
    assert_eq!(tree.r_children.len(), 1);
    assert_eq!(stream.here().value, "4");
    assert_eq!(stream.ahead().token_type, TokenType::SEMICOLON);
}

/// A parser behind the two declarations `a : NUMBER = 1 ;` and `b : STRING = "x" ;`,
/// standing at the first token of `rest`.
fn standing_behind_declarations(rest: &str) -> ASTStream {
    let source = format!("a : NUMBER = 1 ; b : STRING = \"x\" ; {}", rest);
    let mut stream = ASTStream::new(&source).unwrap();
    for _ in 0..3 {
        stream.next().unwrap();
    }
    assert_eq!(stream.here().token_type, TokenType::SEMICOLON);
    stream.step();
    stream
}

#[test]
fn parse_expression_groups_variables_from_the_right() {
    let mut stream = standing_behind_declarations("a * a + 2 - a ;");
    let tree = stream.parse_expression().unwrap();
    assert_eq!(show(&tree), "(* a:N (+ a:N (- 2 a:N)))");
    assert_eq!(stream.here().value, "a");
    assert_eq!(stream.ahead().token_type, TokenType::SEMICOLON);
    let mut stream = standing_behind_declarations("b | \"y\" | b ;");
    let tree = stream.parse_expression().unwrap();
    assert_eq!(show(&tree), "(| b:S (| \"y\" b:S))");
    assert_eq!(tree.val_type, BaseType::STRING);
}

#[test]
fn parse_expression_fails_on_an_undeclared_identifier() {
    let mut stream = standing_behind_terminator("; x + 1 ;");
    let e = stream.parse_expression().unwrap_err();
    assert_eq!(e.fault, ParseFault::UnknownVariable);
    assert_eq!(stream.here().value, "x");
    stream.step();
    stream.step();
    assert_eq!(stream.parse_expression().unwrap().num_val, "1");
    let mut stream = standing_behind_terminator("; x ;");
    assert_eq!(stream.parse_expression().unwrap_err().fault, ParseFault::UnknownVariable);
    assert_eq!(stream.parse_expression().unwrap_err().fault, ParseFault::UnknownVariable);
}

#[test]
fn parse_if_keeps_condition_and_bodies_in_order() {
    let mut stream = standing_behind_terminator("; IF 1 < 2 { PUT 1 ; PUT 2 ; } ELSE { PUT 3 ; } ; PUT 4 ;");
    let node = stream.parse_if().unwrap();
    assert_eq!(node.node_type, NodeType::IF);
    assert_eq!(node.extra.len(), 1);
    assert_eq!(show(&node.extra[0]), "(< 1 2)");
    let first: Vec<String> = node.l_children.iter().map(show).collect();
    assert_eq!(first, vec!["PUT 1", ";", "PUT 2", ";"]);
    let second: Vec<String> = node.r_children.iter().map(show).collect();
    assert_eq!(second, vec!["PUT 3", ";"]);
    assert_eq!(stream.here().token_type, TokenType::END);
    assert_eq!(stream.ahead().token_type, TokenType::SEMICOLON);
}

#[test]
fn parse_if_without_else_has_an_empty_second_body() {
    let mut stream = standing_behind_terminator("; IF 0 { PUT 1 ; } ; PUT 4 ;");
    let node = stream.parse_if().unwrap();
    assert_eq!(show(&node), "IF 0 {PUT 1 ;} {}");
    assert!(node.r_children.is_empty());
    assert_eq!(stream.here().token_type, TokenType::SEMICOLON);
    assert_eq!(stream.ahead().token_type, TokenType::PUT);
}

#[test]
fn parse_if_fails_on_any_other_token_behind_the_first_body() {
    for rest in ["PUT 1 ;", "{ } ;", "}", "1 ;", "WHILE 1 { } ;", "& ;", ""] {
        let source = format!("; IF 1 {{ }} {}", rest);
        let mut stream = standing_behind_terminator(&source);
        assert_eq!(stream.parse_if().unwrap_err().fault, ParseFault::MissingTerminator, "{}", rest);
    }
    let mut stream = standing_behind_terminator("; PUT 1 ;");
    assert_eq!(stream.parse_if().unwrap_err().fault, ParseFault::BadStatementStart);
}

#[test]
fn parse_while_keeps_condition_and_body() {
    let mut stream = standing_behind_declarations("WHILE a { PUT a ; a = a - 1 ; } ; PUT b ;");
    let node = stream.parse_while().unwrap();
    assert_eq!(show(&node), "WHILE a:N {PUT a:N ; SET a (- a:N 1) ;}");
    assert!(node.r_children.is_empty());
    assert_eq!(stream.here().token_type, TokenType::SEMICOLON);
    assert_eq!(stream.ahead().token_type, TokenType::PUT);
    let mut stream = standing_behind_terminator("; IF 1 { } ;");
    assert_eq!(stream.parse_while().unwrap_err().fault, ParseFault::BadStatementStart);
}

#[test]
fn parse_declare_put_and_change_stop_before_the_terminator() {
    let mut stream = standing_behind_terminator("; c : NUMBER = 2 ^ 3 ; PUT c ; c = c + 1 ;");
    assert_eq!(show(&stream.parse_declare().unwrap()), "LET c:NUMBER (^ 2 3)");
    assert_eq!(stream.here().value, "3");
    stream.step();
    stream.step();
    assert_eq!(show(&stream.parse_put().unwrap()), "PUT c:N");
    assert_eq!(stream.here().value, "c");
    stream.step();
    stream.step();
    assert_eq!(show(&stream.parse_change().unwrap()), "SET c (+ c:N 1)");
    assert_eq!(stream.ahead().token_type, TokenType::SEMICOLON);
}

#[test]
fn parse_next_goes_on_one_token_first() {
    let mut stream = ASTStream::new("; PUT 1 ; ;").unwrap();
    assert_eq!(show(&stream.peek()), ";");
    assert_eq!(show(&stream.parse_next().unwrap()), "PUT 1");
    assert_eq!(show(&stream.parse_next().unwrap()), ";");
    assert_eq!(show(&stream.parse_next().unwrap()), ";");
    assert_eq!(show(&stream.parse_next().unwrap()), "END");
    assert_eq!(show(&stream.peek()), ";");
}

#[test]
fn step_here_and_ahead_walk_the_tokens() {
    let mut stream = ASTStream::new("; a b").unwrap();
    assert_eq!(stream.here().value, ";");
    assert_eq!(stream.ahead().value, "a");
    assert_eq!(stream.step().value, "a");
    assert_eq!(stream.here().value, "a");
    assert_eq!(stream.ahead().value, "b");
    assert_eq!(stream.step().value, "b");
    assert_eq!(stream.step().token_type, TokenType::EOF);
    assert_eq!(stream.ahead().token_type, TokenType::EOF);
}
