//! The token-level parser: consumes the token stream one symbol at a
//! time and assembles the expression tree, keeping the bracket and
//! ternary nesting discipline.

use vstd::prelude::*;

use crate::errors::CompileError;
use crate::errors::CompileErrorV;
use crate::errors::ErrorLevel;
use crate::errors::Res;
use crate::location::Location;
use crate::token::Symbol;
use crate::token::Token;
use crate::token::TokenValue;
use crate::tree::spec_push_leaf;
use crate::tree::spec_take_last_leaf;
use crate::tree::spec_wrap;
use crate::tree::push_err_msg;
use crate::tree::AddArgument;
use crate::tree::Associativity;
use crate::tree::Binary;
use crate::tree::BinaryOperator;
use crate::tree::Literal;
use crate::tree::Node;
use crate::tree::Operator;
use crate::tree::TakeOperator;
use crate::tree::Ternary;
use crate::tree::TernaryOperator;
use crate::tree::ToNode;
use crate::tree::Unary;
use crate::tree::UnaryOperator;

verus! {

/// Nesting counters carried across the parse: parentheses, brackets,
/// braces and open ternaries.  None may go below zero; a closer at zero
/// is a mismatched-closing fault.
#[derive(Clone, Copy, PartialEq, Eq, Structural, Debug)]
pub struct ParsingState {
    pub parenthesis: usize,
    pub brackets: usize,
    pub braces: usize,
    pub ternary: usize,
}

impl ParsingState {
    /// All counters at zero.
    pub fn new() -> (r: Self)
        ensures
            r == (ParsingState { parenthesis: 0, brackets: 0, braces: 0, ternary: 0 }),
    {
        ParsingState { parenthesis: 0, brackets: 0, braces: 0, ternary: 0 }
    }
}

pub open spec fn msg_mismatched_close() -> Seq<char> {
    "Mismatched closing brace"@
}

pub open spec fn msg_empty_success() -> Seq<char> {
    "Found empty success block. Succession of '?' and ':' without expression is not allowed."@
}

pub open spec fn msg_stray_colon() -> Seq<char> {
    "Unexpected symbol ':'. Found outside of goto and ternary operator context."@
}

pub open spec fn msg_comma() -> Seq<char> {
    "Comma in argument lists is not supported yet."@
}

pub open spec fn msg_ltr_no_leaf() -> Seq<char> {
    "Found left-to-right unary operator, without having a leaf before."@
}

pub open spec fn msg_rtl_no_context() -> Seq<char> {
    "Found right-to-left unary operator, within a context not waiting for leaf."@
}

/// Decrements a nesting counter, failing on underflow and leaving the
/// counter as it stands.
pub fn safe_decr(counter: &mut usize) -> (r: Result<(), &'static str>)
    ensures
        *old(counter) > 0 ==> r is Ok && *final(counter) == *old(counter) - 1,
        *old(counter) == 0 ==> r is Err && *final(counter) == 0 && r->Err_0@
            == msg_mismatched_close(),
{
    if *counter > 0 {
        *counter = *counter - 1;
        Ok(())
    } else {
        Err("Mismatched closing brace")
    }
}

/// Where a binary operator lands on the tree, and the tree it leaves
/// behind on failure.
pub open spec fn spec_push_bop(t: Node, op: BinaryOperator) -> Result<Node, (Node, Seq<char>)> {
    if op.spec_associativity() == Associativity::LeftToRight {
        match spec_take_last_leaf(t) {
            None => Err((t, msg_ltr_no_leaf())),
            Some((t2, leaf)) => {
                let newnode = Node::Binary(
                    Binary {
                        operator: op,
                        arg_l: Some(Box::new(Node::Leaf(leaf))),
                        arg_r: None,
                    },
                );
                match spec_push_leaf(t2, newnode) {
                    Ok(t3) => Ok(t3),
                    Err(e) => Err((t2, push_err_msg(e))),
                }
            },
        }
    } else {
        match spec_wrap(t, Node::Binary(Binary { operator: op, arg_l: None, arg_r: None })) {
            Ok(t2) => Ok(t2),
            Err(_) => Err((t, msg_rtl_no_context())),
        }
    }
}

/// Where a unary operator lands on the tree, and the tree it leaves
/// behind on failure.
pub open spec fn spec_push_uop(t: Node, op: UnaryOperator) -> Result<Node, (Node, Seq<char>)> {
    if op.spec_associativity() == Associativity::LeftToRight {
        match spec_take_last_leaf(t) {
            None => Err((t, msg_ltr_no_leaf())),
            Some((t2, leaf)) => {
                let newnode = Node::Unary(
                    Unary { operator: op, arg: Some(Box::new(Node::Leaf(leaf))) },
                );
                match spec_push_leaf(t2, newnode) {
                    Ok(t3) => Ok(t3),
                    Err(e) => Err((t2, push_err_msg(e))),
                }
            },
        }
    } else {
        match spec_wrap(t, Node::Unary(Unary { operator: op, arg: None })) {
            Ok(t2) => Ok(t2),
            Err(_) => Err((t, msg_rtl_no_context())),
        }
    }
}

/// What `:` does: the root must be a ternary with condition and
/// success present and an open ternary counted; its failure slot opens
/// and the counter drops.
pub open spec fn spec_colon(t: Node, st: ParsingState) -> Result<
    (Node, ParsingState),
    Seq<char>,
> {
    match t {
        Node::Ternary(t3) => {
            if t3.condition is None || t3.success is None || st.ternary == 0 {
                Err(msg_empty_success())
            } else {
                Ok(
                    (
                        Node::Ternary(Ternary { failure: Some(Box::new(Node::Empty)), ..t3 }),
                        ParsingState { ternary: (st.ternary - 1) as usize, ..st },
                    ),
                )
            }
        },
        _ => Err(msg_stray_colon()),
    }
}

/// A counter stepped up, sticking at the machine maximum.
pub open spec fn spec_incr(n: usize) -> usize {
    if n < usize::MAX {
        (n + 1) as usize
    } else {
        n
    }
}

/// Lifts a tree-only outcome to a full symbol outcome that keeps the
/// state and goes on consuming.
pub open spec fn spec_lift(st: ParsingState, r: Result<Node, (Node, Seq<char>)>) -> Result<
    (Node, ParsingState, bool),
    (Node, Seq<char>),
> {
    match r {
        Ok(t2) => Ok((t2, st, true)),
        Err(p) => Err(p),
    }
}

/// What one symbol does to the tree and the parse state: the new tree,
/// the new state, and whether the current level keeps consuming; or
/// the tree left behind and a message.  The state never changes on a
/// failure.
pub open spec fn spec_one_symbol(sym: Symbol, t: Node, st: ParsingState) -> Result<
    (Node, ParsingState, bool),
    (Node, Seq<char>),
> {
    match sym {
        // mirror unary
        Symbol::BitwiseNot => spec_lift(st, spec_push_uop(t, UnaryOperator::BitwiseNot)),
        Symbol::LogicalNot => spec_lift(st, spec_push_uop(t, UnaryOperator::LogicalNot)),
        // mirror binary
        Symbol::Assign => spec_lift(st, spec_push_bop(t, BinaryOperator::Assign)),
        Symbol::BitwiseOr => spec_lift(st, spec_push_bop(t, BinaryOperator::BitwiseOr)),
        Symbol::BitwiseXor => spec_lift(st, spec_push_bop(t, BinaryOperator::BitwiseXor)),
        Symbol::Divide => spec_lift(st, spec_push_bop(t, BinaryOperator::Divide)),
        Symbol::Gt => spec_lift(st, spec_push_bop(t, BinaryOperator::Gt)),
        Symbol::Lt => spec_lift(st, spec_push_bop(t, BinaryOperator::Lt)),
        Symbol::Modulo => spec_lift(st, spec_push_bop(t, BinaryOperator::Modulo)),
        Symbol::AddAssign => spec_lift(st, spec_push_bop(t, BinaryOperator::AddAssign)),
        Symbol::AndAssign => spec_lift(st, spec_push_bop(t, BinaryOperator::AndAssign)),
        Symbol::Different => spec_lift(st, spec_push_bop(t, BinaryOperator::Different)),
        Symbol::DivAssign => spec_lift(st, spec_push_bop(t, BinaryOperator::DivAssign)),
        Symbol::Equal => spec_lift(st, spec_push_bop(t, BinaryOperator::Equal)),
        Symbol::Ge => spec_lift(st, spec_push_bop(t, BinaryOperator::Ge)),
        Symbol::Le => spec_lift(st, spec_push_bop(t, BinaryOperator::Le)),
        Symbol::LogicalAnd => spec_lift(st, spec_push_bop(t, BinaryOperator::LogicalAnd)),
        Symbol::LogicalOr => spec_lift(st, spec_push_bop(t, BinaryOperator::LogicalOr)),
        Symbol::ModAssign => spec_lift(st, spec_push_bop(t, BinaryOperator::ModAssign)),
        Symbol::MulAssign => spec_lift(st, spec_push_bop(t, BinaryOperator::MulAssign)),
        Symbol::OrAssign => spec_lift(st, spec_push_bop(t, BinaryOperator::OrAssign)),
        Symbol::ShiftLeft => spec_lift(st, spec_push_bop(t, BinaryOperator::ShiftLeft)),
        Symbol::ShiftRight => spec_lift(st, spec_push_bop(t, BinaryOperator::ShiftRight)),
        Symbol::SubAssign => spec_lift(st, spec_push_bop(t, BinaryOperator::SubAssign)),
        Symbol::XorAssign => spec_lift(st, spec_push_bop(t, BinaryOperator::XorAssign)),
        Symbol::ShiftLeftAssign => spec_lift(
            st,
            spec_push_bop(t, BinaryOperator::ShiftLeftAssign),
        ),
        Symbol::ShiftRightAssign => spec_lift(
            st,
            spec_push_bop(t, BinaryOperator::ShiftRightAssign),
        ),
        // unique non mirrors
        Symbol::Ampercent => spec_lift(st, spec_push_uop(t, UnaryOperator::AddressOf)),
        Symbol::Arrow => spec_lift(
            st,
            spec_push_bop(t, BinaryOperator::StructEnumMemberPointerAccess),
        ),
        Symbol::Dot => spec_lift(st, spec_push_bop(t, BinaryOperator::StructEnumMemberAccess)),
        // postfix first; on failure prefix, on the tree the first try left
        Symbol::Increment => match spec_push_uop(t, UnaryOperator::PostfixIncrement) {
            Ok(t2) => Ok((t2, st, true)),
            Err((t2, _)) => spec_lift(st, spec_push_uop(t2, UnaryOperator::PrefixIncrement)),
        },
        Symbol::Decrement => match spec_push_uop(t, UnaryOperator::PostfixDecrement) {
            Ok(t2) => Ok((t2, st, true)),
            Err((t2, _)) => spec_lift(st, spec_push_uop(t2, UnaryOperator::PrefixDecrement)),
        },
        // binary first; on failure the unary reading
        Symbol::Minus => match spec_push_bop(t, BinaryOperator::Subtract) {
            Ok(t2) => Ok((t2, st, true)),
            Err((t2, _)) => spec_lift(st, spec_push_uop(t2, UnaryOperator::Minus)),
        },
        Symbol::Plus => match spec_push_bop(t, BinaryOperator::Add) {
            Ok(t2) => Ok((t2, st, true)),
            Err((t2, _)) => spec_lift(st, spec_push_uop(t2, UnaryOperator::Plus)),
        },
        Symbol::Star => match spec_push_bop(t, BinaryOperator::Multiply) {
            Ok(t2) => Ok((t2, st, true)),
            Err((t2, _)) => spec_lift(st, spec_push_uop(t2, UnaryOperator::Indirection)),
        },
        // ternary
        Symbol::Interrogation => Ok(
            (
                Node::Ternary(
                    Ternary {
                        operator: TernaryOperator,
                        condition: Some(Box::new(t)),
                        success: Some(Box::new(Node::Empty)),
                        failure: None,
                    },
                ),
                ParsingState { ternary: spec_incr(st.ternary), ..st },
                true,
            ),
        ),
        Symbol::Colon => match spec_colon(t, st) {
            Ok((t2, st2)) => Ok((t2, st2, true)),
            Err(m) => Err((t, m)),
        },
        // statement boundary
        Symbol::SemiColon => Ok((t, st, false)),
        Symbol::Comma => Err((t, msg_comma())),
        // a line-continuation token carries no syntax
        Symbol::EOL => Ok((t, st, true)),
        // nesting
        Symbol::BraceOpen => Ok((t, ParsingState { braces: spec_incr(st.braces), ..st }, true)),
        Symbol::BraceClose => if st.braces == 0 {
            Err((t, msg_mismatched_close()))
        } else {
            Ok((t, ParsingState { braces: (st.braces - 1) as usize, ..st }, false))
        },
        Symbol::BracketOpen => Ok(
            (t, ParsingState { brackets: spec_incr(st.brackets), ..st }, true),
        ),
        Symbol::BracketClose => if st.brackets == 0 {
            Err((t, msg_mismatched_close()))
        } else {
            Ok((t, ParsingState { brackets: (st.brackets - 1) as usize, ..st }, false))
        },
        Symbol::ParenthesisOpen => Ok(
            (t, ParsingState { parenthesis: spec_incr(st.parenthesis), ..st }, true),
        ),
        Symbol::ParenthesisClose => if st.parenthesis == 0 {
            Err((t, msg_mismatched_close()))
        } else {
            Ok((t, ParsingState { parenthesis: (st.parenthesis - 1) as usize, ..st }, false))
        },
    }
}

/// Applies `:` to the tree and the ternary counter.
pub fn handle_colon(current: &mut Node, p_state: &mut ParsingState) -> (r: Result<
    (),
    &'static str,
>)
    ensures
        match spec_colon(*old(current), *old(p_state)) {
            Ok((t2, st2)) => r is Ok && *final(current) == t2 && *final(p_state) == st2,
            Err(m) => r is Err && r->Err_0@ == m && *final(current) == *old(current)
                && *final(p_state) == *old(p_state),
        },
{
    let mut cur = Node::Empty;
    core::mem::swap(current, &mut cur);
    match cur {
        Node::Ternary(t3) => {
            let Ternary { operator, condition, success, failure } = t3;
            if condition.is_none() || success.is_none() || p_state.ternary == 0 {
                *current = Node::Ternary(Ternary { operator, condition, success, failure });
                Err(
                    "Found empty success block. Succession of '?' and ':' without expression is not allowed.",
                )
            } else {
                *current = Node::Ternary(
                    Ternary { operator, condition, success, failure: Some(Box::new(Node::Empty)) },
                );
                p_state.ternary = p_state.ternary - 1;
                Ok(())
            }
        },
        other => {
            *current = other;
            Err("Unexpected symbol ':'. Found outside of goto and ternary operator context.")
        },
    }
}

/// Applies one symbol to the tree and the parse state; `Ok(true)` keeps
/// the current level consuming, `Ok(false)` ends it.
pub fn handle_one_symbol(symbol: &Symbol, current: &mut Node, p_state: &mut ParsingState) -> (r:
    Result<bool, &'static str>)
    ensures
        match spec_one_symbol(*symbol, *old(current), *old(p_state)) {
            Ok((t2, st2, cont)) => r is Ok && r->Ok_0 == cont && *final(current) == t2
                && *final(p_state) == st2,
            Err((t2, m)) => r is Err && r->Err_0@ == m && *final(current) == t2 && *final(p_state)
                == *old(p_state),
        },
{
    match symbol {
        // mirror unary
        Symbol::BitwiseNot => match current.push_op(UnaryOperator::BitwiseNot) {
            Ok(()) => Ok(true),
            Err(m) => Err(m),
        },
        Symbol::LogicalNot => match current.push_op(UnaryOperator::LogicalNot) {
            Ok(()) => Ok(true),
            Err(m) => Err(m),
        },
        // mirror binary
        Symbol::Assign => match current.push_op(BinaryOperator::Assign) {
            Ok(()) => Ok(true),
            Err(m) => Err(m),
        },
        Symbol::BitwiseOr => match current.push_op(BinaryOperator::BitwiseOr) {
            Ok(()) => Ok(true),
            Err(m) => Err(m),
        },
        Symbol::BitwiseXor => match current.push_op(BinaryOperator::BitwiseXor) {
            Ok(()) => Ok(true),
            Err(m) => Err(m),
        },
        Symbol::Divide => match current.push_op(BinaryOperator::Divide) {
            Ok(()) => Ok(true),
            Err(m) => Err(m),
        },
        Symbol::Gt => match current.push_op(BinaryOperator::Gt) {
            Ok(()) => Ok(true),
            Err(m) => Err(m),
        },
        Symbol::Lt => match current.push_op(BinaryOperator::Lt) {
            Ok(()) => Ok(true),
            Err(m) => Err(m),
        },
        Symbol::Modulo => match current.push_op(BinaryOperator::Modulo) {
            Ok(()) => Ok(true),
            Err(m) => Err(m),
        },
        Symbol::AddAssign => match current.push_op(BinaryOperator::AddAssign) {
            Ok(()) => Ok(true),
            Err(m) => Err(m),
        },
        Symbol::AndAssign => match current.push_op(BinaryOperator::AndAssign) {
            Ok(()) => Ok(true),
            Err(m) => Err(m),
        },
        Symbol::Different => match current.push_op(BinaryOperator::Different) {
            Ok(()) => Ok(true),
            Err(m) => Err(m),
        },
        Symbol::DivAssign => match current.push_op(BinaryOperator::DivAssign) {
            Ok(()) => Ok(true),
            Err(m) => Err(m),
        },
        Symbol::Equal => match current.push_op(BinaryOperator::Equal) {
            Ok(()) => Ok(true),
            Err(m) => Err(m),
        },
        Symbol::Ge => match current.push_op(BinaryOperator::Ge) {
            Ok(()) => Ok(true),
            Err(m) => Err(m),
        },
        Symbol::Le => match current.push_op(BinaryOperator::Le) {
            Ok(()) => Ok(true),
            Err(m) => Err(m),
        },
        Symbol::LogicalAnd => match current.push_op(BinaryOperator::LogicalAnd) {
            Ok(()) => Ok(true),
            Err(m) => Err(m),
        },
        Symbol::LogicalOr => match current.push_op(BinaryOperator::LogicalOr) {
            Ok(()) => Ok(true),
            Err(m) => Err(m),
        },
        Symbol::ModAssign => match current.push_op(BinaryOperator::ModAssign) {
            Ok(()) => Ok(true),
            Err(m) => Err(m),
        },
        Symbol::MulAssign => match current.push_op(BinaryOperator::MulAssign) {
            Ok(()) => Ok(true),
            Err(m) => Err(m),
        },
        Symbol::OrAssign => match current.push_op(BinaryOperator::OrAssign) {
            Ok(()) => Ok(true),
            Err(m) => Err(m),
        },
        Symbol::ShiftLeft => match current.push_op(BinaryOperator::ShiftLeft) {
            Ok(()) => Ok(true),
            Err(m) => Err(m),
        },
        Symbol::ShiftRight => match current.push_op(BinaryOperator::ShiftRight) {
            Ok(()) => Ok(true),
            Err(m) => Err(m),
        },
        Symbol::SubAssign => match current.push_op(BinaryOperator::SubAssign) {
            Ok(()) => Ok(true),
            Err(m) => Err(m),
        },
        Symbol::XorAssign => match current.push_op(BinaryOperator::XorAssign) {
            Ok(()) => Ok(true),
            Err(m) => Err(m),
        },
        Symbol::ShiftLeftAssign => match current.push_op(BinaryOperator::ShiftLeftAssign) {
            Ok(()) => Ok(true),
            Err(m) => Err(m),
        },
        Symbol::ShiftRightAssign => match current.push_op(BinaryOperator::ShiftRightAssign) {
            Ok(()) => Ok(true),
            Err(m) => Err(m),
        },
        // unique non mirrors
        Symbol::Ampercent => match current.push_op(UnaryOperator::AddressOf) {
            Ok(()) => Ok(true),
            Err(m) => Err(m),
        },
        Symbol::Arrow => match current.push_op(BinaryOperator::StructEnumMemberPointerAccess) {
            Ok(()) => Ok(true),
            Err(m) => Err(m),
        },
        Symbol::Dot => match current.push_op(BinaryOperator::StructEnumMemberAccess) {
            Ok(()) => Ok(true),
            Err(m) => Err(m),
        },
        // postfix has smaller precedence than prefix
        Symbol::Increment => match current.push_op(UnaryOperator::PostfixIncrement) {
            Ok(()) => Ok(true),
            Err(_) => match current.push_op(UnaryOperator::PrefixIncrement) {
                Ok(()) => Ok(true),
                Err(m) => Err(m),
            },
        },
        Symbol::Decrement => match current.push_op(UnaryOperator::PostfixDecrement) {
            Ok(()) => Ok(true),
            Err(_) => match current.push_op(UnaryOperator::PrefixDecrement) {
                Ok(()) => Ok(true),
                Err(m) => Err(m),
            },
        },
        // binary and unary readings of the same spelling
        Symbol::Minus => match current.push_op(BinaryOperator::Subtract) {
            Ok(()) => Ok(true),
            Err(_) => match current.push_op(UnaryOperator::Minus) {
                Ok(()) => Ok(true),
                Err(m) => Err(m),
            },
        },
        Symbol::Plus => match current.push_op(BinaryOperator::Add) {
            Ok(()) => Ok(true),
            Err(_) => match current.push_op(UnaryOperator::Plus) {
                Ok(()) => Ok(true),
                Err(m) => Err(m),
            },
        },
        Symbol::Star => match current.push_op(BinaryOperator::Multiply) {
            Ok(()) => Ok(true),
            Err(_) => match current.push_op(UnaryOperator::Indirection) {
                Ok(()) => Ok(true),
                Err(m) => Err(m),
            },
        },
        // ternary
        Symbol::Interrogation => {
            let mut old_node = Node::Empty;
            core::mem::swap(current, &mut old_node);
            *current = Node::Ternary(
                Ternary {
                    operator: TernaryOperator,
                    condition: Some(Box::new(old_node)),
                    success: Some(Box::new(Node::Empty)),
                    failure: None,
                },
            );
            if p_state.ternary < usize::MAX {
                p_state.ternary = p_state.ternary + 1;
            }
            Ok(true)
        },
        Symbol::Colon => match handle_colon(current, p_state) {
            Ok(()) => Ok(true),
            Err(m) => Err(m),
        },
        // statement boundary
        Symbol::SemiColon => Ok(false),
        Symbol::Comma => Err("Comma in argument lists is not supported yet."),
        // a line-continuation token carries no syntax
        Symbol::EOL => Ok(true),
        // nesting
        Symbol::BraceOpen => {
            if p_state.braces < usize::MAX {
                p_state.braces = p_state.braces + 1;
            }
            Ok(true)
        },
        Symbol::BraceClose => match safe_decr(&mut p_state.braces) {
            Ok(()) => Ok(false),
            Err(m) => Err(m),
        },
        Symbol::BracketOpen => {
            if p_state.brackets < usize::MAX {
                p_state.brackets = p_state.brackets + 1;
            }
            Ok(true)
        },
        Symbol::BracketClose => match safe_decr(&mut p_state.brackets) {
            Ok(()) => Ok(false),
            Err(m) => Err(m),
        },
        Symbol::ParenthesisOpen => {
            if p_state.parenthesis < usize::MAX {
                p_state.parenthesis = p_state.parenthesis + 1;
            }
            Ok(true)
        },
        Symbol::ParenthesisClose => match safe_decr(&mut p_state.parenthesis) {
            Ok(()) => Ok(false),
            Err(m) => Err(m),
        },
    }
}

/// The tokens still to be consumed, in source order.
pub struct TokenStream {
    pub tokens: Vec<Token>,
}

impl TokenStream {
    /// Wraps a finished token sequence.
    pub fn new(tokens: Vec<Token>) -> (r: Self)
        ensures
            r.tokens == tokens,
    {
        TokenStream { tokens }
    }

    /// Hands out the next token.
    pub fn next(&mut self) -> (r: Option<Token>)
        ensures
            old(self).tokens@.len() == 0 ==> r is None && *final(self) == *old(self),
            old(self).tokens@.len() > 0 ==> {
                &&& r is Some
                &&& r->0 == old(self).tokens@[0]
                &&& final(self).tokens@ == old(self).tokens@.drop_first()
            },
    {
        if self.tokens.len() == 0 {
            None
        } else {
            let t = self.tokens.remove(0);
            proof {
                assert(old(self).tokens@.remove(0) =~= old(self).tokens@.drop_first());
            }
            Some(t)
        }
    }
}

/// The whole parse of one nesting level: consumes tokens until an
/// ending symbol, a fault, or the end of input.  Yields the remaining
/// tokens, the final state and the finished tree; or, on a fault, the
/// remaining tokens, the tree as the fault left it, the location of
/// the offending token and the message.
pub open spec fn spec_parse_block(toks: Seq<Token>, st: ParsingState, t: Node) -> Result<
    (Seq<Token>, ParsingState, Node),
    (Seq<Token>, Node, Location, Seq<char>),
>
    decreases toks.len(),
{
    if toks.len() == 0 {
        Ok((toks, st, t))
    } else {
        let tok = toks[0];
        let rest = toks.drop_first();
        match tok.spec_value() {
            TokenValue::Char(c) => match spec_push_leaf(t, Node::Leaf(Literal::Char(c))) {
                Ok(t2) => spec_parse_block(rest, st, t2),
                Err(e) => Err((rest, t, tok.spec_location(), push_err_msg(e))),
            },
            TokenValue::Identifier(s) => match spec_push_leaf(
                t,
                Node::Leaf(Literal::Variable(s)),
            ) {
                Ok(t2) => spec_parse_block(rest, st, t2),
                Err(e) => Err((rest, t, tok.spec_location(), push_err_msg(e))),
            },
            TokenValue::Number(s) => match spec_push_leaf(t, Node::Leaf(Literal::String(s))) {
                Ok(t2) => spec_parse_block(rest, st, t2),
                Err(e) => Err((rest, t, tok.spec_location(), push_err_msg(e))),
            },
            TokenValue::Str(s) => match spec_push_leaf(t, Node::Leaf(Literal::Str(s))) {
                Ok(t2) => spec_parse_block(rest, st, t2),
                Err(e) => Err((rest, t, tok.spec_location(), push_err_msg(e))),
            },
            TokenValue::Symbol(sym) => match spec_one_symbol(sym, t, st) {
                Ok((t2, st2, true)) => spec_parse_block(rest, st2, t2),
                Ok((t2, st2, false)) => Ok((rest, st2, t2)),
                Err((t2, m)) => Err((rest, t2, tok.spec_location(), m)),
            },
        }
    }
}

/// Applies one symbol token and, unless it ended the level, goes on
/// consuming the stream into the tree.
pub fn handle_symbol(
    symbol: &Symbol,
    current: &mut Node,
    p_state: &mut ParsingState,
    tokens: &mut TokenStream,
    location: Location,
) -> (r: Result<(), CompileError>)
    ensures
        match spec_one_symbol(*symbol, *old(current), *old(p_state)) {
            Ok((t2, st2, true)) => match spec_parse_block(old(tokens).tokens@, st2, t2) {
                Ok((rem, st3, t3)) => r is Ok && final(tokens).tokens@ == rem && *final(p_state)
                    == st3 && *final(current) == t3,
                Err((rem, t3, loc, m)) => r is Err && final(tokens).tokens@ == rem
                    && *final(current) == t3 && r->Err_0@ == (CompileErrorV {
                    location: loc,
                    message: m,
                    err_lvl: ErrorLevel::Error,
                }),
            },
            Ok((t2, st2, false)) => r is Ok && *final(current) == t2 && *final(p_state) == st2
                && final(tokens).tokens@ == old(tokens).tokens@,
            Err((t2, m)) => r is Err && *final(current) == t2 && *final(p_state) == *old(p_state)
                && final(tokens).tokens@ == old(tokens).tokens@ && r->Err_0@ == (CompileErrorV {
                location,
                message: m,
                err_lvl: ErrorLevel::Error,
            }),
        },
    decreases old(tokens).tokens@.len(), 1int,
{
    match handle_one_symbol(symbol, current, p_state) {
        Err(msg) => Err(CompileError::new(location, String::from_str(msg), ErrorLevel::Error)),
        Ok(true) => parse_block(tokens, p_state, current),
        Ok(false) => Ok(()),
    }
}

/// Consumes tokens into the tree until an ending symbol, a fault, or
/// the end of input.
pub fn parse_block(
    tokens: &mut TokenStream,
    p_state: &mut ParsingState,
    current: &mut Node,
) -> (r: Result<(), CompileError>)
    ensures
        match spec_parse_block(old(tokens).tokens@, *old(p_state), *old(current)) {
            Ok((rem, st2, t2)) => r is Ok && final(tokens).tokens@ == rem && *final(p_state) == st2
                && *final(current) == t2,
            Err((rem, t2, loc, m)) => r is Err && final(tokens).tokens@ == rem && *final(current)
                == t2 && r->Err_0@ == (CompileErrorV {
                location: loc,
                message: m,
                err_lvl: ErrorLevel::Error,
            }),
        },
    decreases old(tokens).tokens@.len(), 0int,
{
    let tok = match tokens.next() {
        None => {
            return Ok(());
        },
        Some(t) => t,
    };
    let (location, value) = tok.into_parts();
    match value {
        TokenValue::Char(c) => {
            match current.push_node_as_leaf(Node::Leaf(Literal::Char(c))) {
                Ok(()) => parse_block(tokens, p_state, current),
                Err(msg) => Err(
                    CompileError::new(location, String::from_str(msg), ErrorLevel::Error),
                ),
            }
        },
        TokenValue::Identifier(s) => {
            match current.push_node_as_leaf(Node::Leaf(Literal::Variable(s))) {
                Ok(()) => parse_block(tokens, p_state, current),
                Err(msg) => Err(
                    CompileError::new(location, String::from_str(msg), ErrorLevel::Error),
                ),
            }
        },
        TokenValue::Number(s) => {
            match current.push_node_as_leaf(Node::Leaf(Literal::String(s))) {
                Ok(()) => parse_block(tokens, p_state, current),
                Err(msg) => Err(
                    CompileError::new(location, String::from_str(msg), ErrorLevel::Error),
                ),
            }
        },
        TokenValue::Str(s) => {
            match current.push_node_as_leaf(Node::Leaf(Literal::Str(s))) {
                Ok(()) => parse_block(tokens, p_state, current),
                Err(msg) => Err(
                    CompileError::new(location, String::from_str(msg), ErrorLevel::Error),
                ),
            }
        },
        TokenValue::Symbol(sym) => handle_symbol(&sym, current, p_state, tokens, location),
    }
}

/// Parses a finished token sequence into one expression tree, pairing
/// the root with the diagnostics recorded on the way.
pub fn parse_tokens(tokens: Vec<Token>) -> (r: Res<Node>)
    ensures
        match spec_parse_block(
            tokens@,
            ParsingState { parenthesis: 0, brackets: 0, braces: 0, ternary: 0 },
            Node::Empty,
        ) {
            Ok((_, _, t2)) => r.result == t2 && r.errors@.len() == 0,
            Err((_, t2, loc, m)) => r.result == t2 && r.errors@.len() == 1 && r.errors@[0]@
                == (CompileErrorV { location: loc, message: m, err_lvl: ErrorLevel::Error }),
        },
{
    let mut stream = TokenStream::new(tokens);
    let mut state = ParsingState::new();
    let mut root = Node::Empty;
    match parse_block(&mut stream, &mut state, &mut root) {
        Ok(()) => Res::from_value(root),
        Err(e) => {
            let mut errors: Vec<CompileError> = Vec::new();
            errors.push(e);
            Res::from_parts(root, errors)
        },
    }
}

/// Law: the parser is a function of the token sequence alone.  Two
/// results that both meet the contract of [`parse_tokens`] on the same
/// tokens are the same tree, so re-running the parser on
/// already-successful input again yields an identical tree and no
/// diagnostics.
pub proof fn lemma_parse_deterministic(
    toks: Seq<Token>,
    r1: Result<(Seq<Token>, ParsingState, Node), (Seq<Token>, Node, Location, Seq<char>)>,
    r2: Result<(Seq<Token>, ParsingState, Node), (Seq<Token>, Node, Location, Seq<char>)>,
)
    requires
        r1 == spec_parse_block(
            toks,
            ParsingState { parenthesis: 0, brackets: 0, braces: 0, ternary: 0 },
            Node::Empty,
        ),
        r2 == spec_parse_block(
            toks,
            ParsingState { parenthesis: 0, brackets: 0, braces: 0, ternary: 0 },
            Node::Empty,
        ),
    ensures
        r1 == r2,
{
}

} // verus!
