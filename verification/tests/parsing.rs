use cfront::lexer::parse;
use cfront::location::Location;
use cfront::symbols::handle_symbol;
use cfront::symbols::parse_tokens;
use cfront::symbols::TokenStream;
use cfront::symbols::ParsingState;
use cfront::symbols::safe_decr;
use cfront::token::Symbol;
use cfront::token::Token;
use cfront::tree::Associativity;
use cfront::tree::BinaryOperator;
use cfront::tree::Literal;
use cfront::tree::Node;
use cfront::tree::Operator;
use cfront::tree::TernaryOperator;
use cfront::tree::UnaryOperator;

fn lex_ok(src: &str) -> Vec<Token> {
    let mut loc = Location::new(0, 0);
    let res = parse(src, &mut loc);
    assert!(res.errors.is_empty(), "diagnostics while lexing {:?}", src);
    res.result
}

fn variable_name(node: &Node) -> &str {
    match node {
        Node::Leaf(Literal::Variable(s)) => s,
        other => panic!("not a variable leaf: {:?}", other),
    }
}

#[test]
fn multiplication_binds_tighter_than_addition() {
    let parsed = parse_tokens(lex_ok("a+b*c"));
    assert!(parsed.errors.is_empty());
    match parsed.result {
        Node::Binary(add) => {
            assert_eq!(add.operator, BinaryOperator::Add);
            assert_eq!(variable_name(&add.arg_l.unwrap()), "a");
            match *add.arg_r.unwrap() {
                Node::Binary(mul) => {
                    assert_eq!(mul.operator, BinaryOperator::Multiply);
                    assert_eq!(variable_name(&mul.arg_l.unwrap()), "b");
                    assert_eq!(variable_name(&mul.arg_r.unwrap()), "c");
                },
                other => panic!("right subtree is not a product: {:?}", other),
            }
        },
        other => panic!("root is not a sum: {:?}", other),
    }
}

#[test]
fn ternary_fills_condition_success_failure() {
    let parsed = parse_tokens(lex_ok("a?b:c"));
    assert!(parsed.errors.is_empty());
    match parsed.result {
        Node::Ternary(t) => {
            assert_eq!(variable_name(&t.condition.unwrap()), "a");
            assert_eq!(variable_name(&t.success.unwrap()), "b");
            assert_eq!(variable_name(&t.failure.unwrap()), "c");
        },
        other => panic!("root is not a ternary: {:?}", other),
    }
}

#[test]
fn ternary_without_colon_is_a_valid_partial_state() {
    let parsed = parse_tokens(lex_ok("a?b"));
    assert!(parsed.errors.is_empty());
    match parsed.result {
        Node::Ternary(t) => {
            assert_eq!(variable_name(&t.condition.unwrap()), "a");
            assert_eq!(variable_name(&t.success.unwrap()), "b");
            assert!(t.failure.is_none());
        },
        other => panic!("root is not a ternary: {:?}", other),
    }
}

#[test]
fn mismatched_closer_is_reported() {
    let parsed = parse_tokens(lex_ok("(a+b]"));
    assert_eq!(parsed.errors.len(), 1);
    let (_, message) = parsed.errors.into_iter().next().unwrap().get();
    assert_eq!(message, "Mismatched closing brace");
}

#[test]
fn stray_colon_is_reported() {
    let parsed = parse_tokens(lex_ok("a:b"));
    assert_eq!(parsed.errors.len(), 1);
    let (_, message) = parsed.errors.into_iter().next().unwrap().get();
    assert_eq!(
        message,
        "Unexpected symbol ':'. Found outside of goto and ternary operator context."
    );
}

#[test]
fn consecutive_literals_are_reported() {
    let parsed = parse_tokens(lex_ok("a b"));
    assert_eq!(parsed.errors.len(), 1);
    let (_, message) = parsed.errors.into_iter().next().unwrap().get();
    assert_eq!(
        message,
        "Found 2 consecutive litteral without a logical relation."
    );
}

#[test]
fn comma_is_a_distinguishable_fault() {
    let parsed = parse_tokens(lex_ok("a,b"));
    assert_eq!(parsed.errors.len(), 1);
    let (_, message) = parsed.errors.into_iter().next().unwrap().get();
    assert_eq!(message, "Comma in argument lists is not supported yet.");
}

#[test]
fn semicolon_ends_the_statement() {
    let parsed = parse_tokens(lex_ok("a;b"));
    assert!(parsed.errors.is_empty());
    assert_eq!(variable_name(&parsed.result), "a");
}

#[test]
fn assignment_wraps_the_left_hand_side() {
    let parsed = parse_tokens(lex_ok("x=y"));
    assert!(parsed.errors.is_empty());
    match parsed.result {
        Node::Binary(assign) => {
            assert_eq!(assign.operator, BinaryOperator::Assign);
            assert_eq!(variable_name(&assign.arg_l.unwrap()), "x");
            assert_eq!(variable_name(&assign.arg_r.unwrap()), "y");
        },
        other => panic!("root is not an assignment: {:?}", other),
    }
}

#[test]
fn prefix_and_postfix_operators_disambiguate() {
    let prefixed = parse_tokens(lex_ok("++a"));
    assert!(prefixed.errors.is_empty());
    match prefixed.result {
        Node::Unary(u) => {
            assert_eq!(u.operator, UnaryOperator::PrefixIncrement);
            assert_eq!(variable_name(&u.arg.unwrap()), "a");
        },
        other => panic!("root is not a unary node: {:?}", other),
    }
    let postfixed = parse_tokens(lex_ok("a++"));
    assert!(postfixed.errors.is_empty());
    match postfixed.result {
        Node::Unary(u) => {
            assert_eq!(u.operator, UnaryOperator::PostfixIncrement);
            assert_eq!(variable_name(&u.arg.unwrap()), "a");
        },
        other => panic!("root is not a unary node: {:?}", other),
    }
}

#[test]
fn unary_minus_falls_back_from_binary() {
    let parsed = parse_tokens(lex_ok("-a"));
    assert!(parsed.errors.is_empty());
    match parsed.result {
        Node::Unary(u) => {
            assert_eq!(u.operator, UnaryOperator::Minus);
            assert_eq!(variable_name(&u.arg.unwrap()), "a");
        },
        other => panic!("root is not a unary node: {:?}", other),
    }
}

#[test]
fn reparsing_successful_input_is_identical() {
    let first = parse_tokens(lex_ok("a+b*c"));
    let second = parse_tokens(lex_ok("a+b*c"));
    assert!(first.errors.is_empty());
    assert!(second.errors.is_empty());
    assert_eq!(
        format!("{:?}", first.result),
        format!("{:?}", second.result)
    );
}

#[test]
fn operator_table_follows_c() {
    assert_eq!(TernaryOperator.precedence(), 13);
    assert!(matches!(TernaryOperator.associativity(), Associativity::RightToLeft));
    assert!(BinaryOperator::Multiply.precedence() < BinaryOperator::Add.precedence());
    assert!(matches!(BinaryOperator::Add.associativity(), Associativity::LeftToRight));
    assert!(matches!(BinaryOperator::Assign.associativity(), Associativity::RightToLeft));
    assert!(UnaryOperator::PostfixIncrement.precedence() < UnaryOperator::PrefixIncrement.precedence());
}

#[test]
fn node_primitives_move_leaves() {
    let mut node = Node::Empty;
    assert!(node.is_empty());
    node.push_node_as_leaf(Node::Leaf(Literal::Char('x'))).unwrap();
    assert!(!node.is_empty());
    match node.take_last_leaf() {
        Some(Literal::Char(c)) => assert_eq!(c, 'x'),
        other => panic!("unexpected leaf: {:?}", other),
    }
    assert!(node.is_empty());
}

#[test]
fn push_op_builds_unary_context() {
    let mut node = Node::Empty;
    node.push_op(UnaryOperator::LogicalNot).unwrap();
    node.push_node_as_leaf(Node::Leaf(Literal::Variable(String::from("a")))).unwrap();
    match node {
        Node::Unary(u) => {
            assert_eq!(u.operator, UnaryOperator::LogicalNot);
            assert_eq!(variable_name(&u.arg.unwrap()), "a");
        },
        other => panic!("not a unary node: {:?}", other),
    }
}

#[test]
fn safe_decr_reports_underflow() {
    let mut counter: usize = 1;
    assert!(safe_decr(&mut counter).is_ok());
    assert_eq!(counter, 0);
    assert_eq!(safe_decr(&mut counter), Err("Mismatched closing brace"));
}

#[test]
fn nesting_counters_track_openers() {
    let state = ParsingState::new();
    assert_eq!(state.parenthesis, 0);
    assert_eq!(state.brackets, 0);
    assert_eq!(state.braces, 0);
    assert_eq!(state.ternary, 0);
}

#[test]
fn handle_symbol_consumes_the_rest_of_the_level() {
    let mut stream = TokenStream::new(lex_ok("b"));
    let mut state = ParsingState::new();
    let mut current = Node::Leaf(Literal::Variable(String::from("a")));
    handle_symbol(
        &Symbol::Plus,
        &mut current,
        &mut state,
        &mut stream,
        Location::new(0, 1),
    )
    .unwrap();
    match current {
        Node::Binary(add) => {
            assert_eq!(add.operator, BinaryOperator::Add);
            assert_eq!(variable_name(&add.arg_l.unwrap()), "a");
            assert_eq!(variable_name(&add.arg_r.unwrap()), "b");
        },
        other => panic!("not a sum: {:?}", other),
    }
}
