//! The expression tree: a strictly owned recursive sum type, grown one
//! token at a time.  At every point the tree has one open slot where
//! the next leaf or operator attaches; the operations here find that
//! slot from the root each time.

use vstd::prelude::*;

use crate::numbers::Number;

verus! {

/// Direction in which operators of equal precedence group.
#[derive(Clone, Copy, PartialEq, Eq, Structural, Debug)]
pub enum Associativity {
    LeftToRight,
    RightToLeft,
}

/// The binary operators of the expression grammar.
#[derive(Clone, Copy, PartialEq, Eq, Structural, Debug)]
pub enum BinaryOperator {
    StructEnumMemberAccess,
    StructEnumMemberPointerAccess,
    Multiply,
    Divide,
    Modulo,
    Add,
    Subtract,
    ShiftLeft,
    ShiftRight,
    Lt,
    Le,
    Gt,
    Ge,
    Equal,
    Different,
    BitwiseXor,
    BitwiseOr,
    LogicalAnd,
    LogicalOr,
    Assign,
    AddAssign,
    SubAssign,
    MulAssign,
    DivAssign,
    ModAssign,
    AndAssign,
    OrAssign,
    XorAssign,
    ShiftLeftAssign,
    ShiftRightAssign,
}

/// The unary operators of the expression grammar.
#[derive(Clone, Copy, PartialEq, Eq, Structural, Debug)]
pub enum UnaryOperator {
    PostfixIncrement,
    PostfixDecrement,
    PrefixIncrement,
    PrefixDecrement,
    Plus,
    Minus,
    BitwiseNot,
    LogicalNot,
    AddressOf,
    Indirection,
}

/// A literal leaf of the tree.
#[derive(Debug)]
pub enum Literal {
    Empty,
    String(String),
    Variable(String),
    Char(char),
    Str(String),
    Number(Number),
}

/// One node of the expression tree.
#[derive(Debug)]
pub enum Node {
    Empty,
    Binary(Binary),
    CompoundLiteral(CompoundLiteral),
    FunctionCall(FunctionCall),
    Leaf(Literal),
    Ternary(Ternary),
    Unary(Unary),
    Vec(Vec<Node>),
    Block(Vec<Node>),
}

/// A binary operator with its two operand slots, filled left to right.
#[derive(Debug)]
pub struct Binary {
    pub operator: BinaryOperator,
    pub arg_l: Option<Box<Node>>,
    pub arg_r: Option<Box<Node>>,
}

/// A unary operator with its sole operand slot.
#[derive(Debug)]
pub struct Unary {
    pub operator: UnaryOperator,
    pub arg: Option<Box<Node>>,
}

/// The conditional operator: condition, success and failure slots,
/// filled in that order.
#[derive(Debug)]
pub struct Ternary {
    pub operator: TernaryOperator,
    pub condition: Option<Box<Node>>,
    pub success: Option<Box<Node>>,
    pub failure: Option<Box<Node>>,
}

/// The operator of a [`Ternary`] node.
#[derive(Clone, Copy, PartialEq, Eq, Structural, Debug)]
pub struct TernaryOperator;

/// The operator of a [`FunctionCall`] node.
#[derive(Clone, Copy, PartialEq, Eq, Structural, Debug)]
pub struct FunctionOperator;

/// A call with its ordered arguments.
#[derive(Debug)]
pub struct FunctionCall {
    pub name: String,
    pub operator: FunctionOperator,
    pub args: Vec<Node>,
}

/// The operator of a [`CompoundLiteral`] node.
#[derive(Clone, Copy, PartialEq, Eq, Structural, Debug)]
pub struct CompoundLiteralOperator;

/// A compound literal: a type name with ordered initialisers.
#[derive(Debug)]
pub struct CompoundLiteral {
    pub args: Vec<Node>,
    pub operator: CompoundLiteralOperator,
    pub type_: String,
}

/// Numeric precedence and grouping direction of an operator, following
/// the standard C operator table.
pub trait Operator {
    /// Precedence in the table; lower binds tighter.
    spec fn spec_precedence(&self) -> u32;

    /// Grouping direction.
    spec fn spec_associativity(&self) -> Associativity;

    fn precedence(&self) -> (r: u32)
        ensures
            r == self.spec_precedence(),
    ;

    fn associativity(&self) -> (r: Associativity)
        ensures
            r == self.spec_associativity(),
    ;
}

/// Conversion of an operator node under construction into a tree node.
pub trait ToNode: Sized {
    /// The node this value stands for.
    spec fn spec_to_node(&self) -> Node;

    fn to_node(self) -> (r: Node)
        ensures
            r == self.spec_to_node(),
    ;
}

/// An operator node under construction that can still take an operand
/// in its first free slot.
pub trait AddArgument: ToNode {
    /// Whether a free slot is left.
    spec fn spec_can_add(&self) -> bool;

    /// The value with the argument placed in the first free slot.
    spec fn spec_added(&self, arg: Node) -> Self;

    fn add_argument(&mut self, arg: Node) -> (r: bool)
        ensures
            r == old(self).spec_can_add(),
            r ==> *final(self) == old(self).spec_added(arg),
            !r ==> *final(self) == *old(self),
    ;
}

/// Turning an operator kind into an operator node with empty slots.
pub trait TakeOperator<T: AddArgument> {
    /// The empty operator node the kind builds.
    spec fn spec_take(&self) -> T;

    fn take_operator(self) -> (r: T)
        ensures
            r == self.spec_take(),
    ;
}

impl Operator for BinaryOperator {
    open spec fn spec_precedence(&self) -> u32 {
        match self {
            BinaryOperator::StructEnumMemberAccess => 1,
            BinaryOperator::StructEnumMemberPointerAccess => 1,
            BinaryOperator::Multiply => 3,
            BinaryOperator::Divide => 3,
            BinaryOperator::Modulo => 3,
            BinaryOperator::Add => 4,
            BinaryOperator::Subtract => 4,
            BinaryOperator::ShiftLeft => 5,
            BinaryOperator::ShiftRight => 5,
            BinaryOperator::Lt => 6,
            BinaryOperator::Le => 6,
            BinaryOperator::Gt => 6,
            BinaryOperator::Ge => 6,
            BinaryOperator::Equal => 7,
            BinaryOperator::Different => 7,
            BinaryOperator::BitwiseXor => 9,
            BinaryOperator::BitwiseOr => 10,
            BinaryOperator::LogicalAnd => 11,
            BinaryOperator::LogicalOr => 12,
            _ => 14,
        }
    }

    open spec fn spec_associativity(&self) -> Associativity {
        match self {
            BinaryOperator::Assign
            | BinaryOperator::AddAssign
            | BinaryOperator::SubAssign
            | BinaryOperator::MulAssign
            | BinaryOperator::DivAssign
            | BinaryOperator::ModAssign
            | BinaryOperator::AndAssign
            | BinaryOperator::OrAssign
            | BinaryOperator::XorAssign
            | BinaryOperator::ShiftLeftAssign
            | BinaryOperator::ShiftRightAssign => Associativity::RightToLeft,
            _ => Associativity::LeftToRight,
        }
    }

    fn precedence(&self) -> (r: u32) {
        match self {
            BinaryOperator::StructEnumMemberAccess => 1,
            BinaryOperator::StructEnumMemberPointerAccess => 1,
            BinaryOperator::Multiply => 3,
            BinaryOperator::Divide => 3,
            BinaryOperator::Modulo => 3,
            BinaryOperator::Add => 4,
            BinaryOperator::Subtract => 4,
            BinaryOperator::ShiftLeft => 5,
            BinaryOperator::ShiftRight => 5,
            BinaryOperator::Lt => 6,
            BinaryOperator::Le => 6,
            BinaryOperator::Gt => 6,
            BinaryOperator::Ge => 6,
            BinaryOperator::Equal => 7,
            BinaryOperator::Different => 7,
            BinaryOperator::BitwiseXor => 9,
            BinaryOperator::BitwiseOr => 10,
            BinaryOperator::LogicalAnd => 11,
            BinaryOperator::LogicalOr => 12,
            _ => 14,
        }
    }

    fn associativity(&self) -> (r: Associativity) {
        match self {
            BinaryOperator::Assign
            | BinaryOperator::AddAssign
            | BinaryOperator::SubAssign
            | BinaryOperator::MulAssign
            | BinaryOperator::DivAssign
            | BinaryOperator::ModAssign
            | BinaryOperator::AndAssign
            | BinaryOperator::OrAssign
            | BinaryOperator::XorAssign
            | BinaryOperator::ShiftLeftAssign
            | BinaryOperator::ShiftRightAssign => Associativity::RightToLeft,
            _ => Associativity::LeftToRight,
        }
    }
}

impl Operator for UnaryOperator {
    open spec fn spec_precedence(&self) -> u32 {
        match self {
            UnaryOperator::PostfixIncrement | UnaryOperator::PostfixDecrement => 1,
            _ => 2,
        }
    }

    open spec fn spec_associativity(&self) -> Associativity {
        match self {
            UnaryOperator::PostfixIncrement | UnaryOperator::PostfixDecrement => {
                Associativity::LeftToRight
            },
            _ => Associativity::RightToLeft,
        }
    }

    fn precedence(&self) -> (r: u32) {
        match self {
            UnaryOperator::PostfixIncrement | UnaryOperator::PostfixDecrement => 1,
            _ => 2,
        }
    }

    fn associativity(&self) -> (r: Associativity) {
        match self {
            UnaryOperator::PostfixIncrement | UnaryOperator::PostfixDecrement => {
                Associativity::LeftToRight
            },
            _ => Associativity::RightToLeft,
        }
    }
}

impl Operator for TernaryOperator {
    open spec fn spec_precedence(&self) -> u32 {
        13
    }

    open spec fn spec_associativity(&self) -> Associativity {
        Associativity::RightToLeft
    }

    fn precedence(&self) -> (r: u32) {
        13
    }

    fn associativity(&self) -> (r: Associativity) {
        Associativity::RightToLeft
    }
}

impl Operator for FunctionOperator {
    open spec fn spec_precedence(&self) -> u32 {
        1
    }

    open spec fn spec_associativity(&self) -> Associativity {
        Associativity::LeftToRight
    }

    fn precedence(&self) -> (r: u32) {
        1
    }

    fn associativity(&self) -> (r: Associativity) {
        Associativity::LeftToRight
    }
}

impl Operator for CompoundLiteralOperator {
    open spec fn spec_precedence(&self) -> u32 {
        1
    }

    open spec fn spec_associativity(&self) -> Associativity {
        Associativity::LeftToRight
    }

    fn precedence(&self) -> (r: u32) {
        1
    }

    fn associativity(&self) -> (r: Associativity) {
        Associativity::LeftToRight
    }
}

impl ToNode for Unary {
    open spec fn spec_to_node(&self) -> Node {
        Node::Unary(*self)
    }

    fn to_node(self) -> (r: Node) {
        Node::Unary(self)
    }
}

impl ToNode for Binary {
    open spec fn spec_to_node(&self) -> Node {
        Node::Binary(*self)
    }

    fn to_node(self) -> (r: Node) {
        Node::Binary(self)
    }
}

impl ToNode for Ternary {
    open spec fn spec_to_node(&self) -> Node {
        Node::Ternary(*self)
    }

    fn to_node(self) -> (r: Node) {
        Node::Ternary(self)
    }
}

impl AddArgument for Unary {
    open spec fn spec_can_add(&self) -> bool {
        self.arg is None
    }

    open spec fn spec_added(&self, arg: Node) -> Self {
        Unary { operator: self.operator, arg: Some(Box::new(arg)) }
    }

    fn add_argument(&mut self, arg: Node) -> (r: bool) {
        match self.arg {
            None => {
                self.arg = Some(Box::new(arg));
                true
            },
            Some(_) => false,
        }
    }
}

impl AddArgument for Binary {
    open spec fn spec_can_add(&self) -> bool {
        self.arg_l is None || self.arg_r is None
    }

    open spec fn spec_added(&self, arg: Node) -> Self {
        if self.arg_l is None {
            Binary { operator: self.operator, arg_l: Some(Box::new(arg)), arg_r: self.arg_r }
        } else {
            Binary { operator: self.operator, arg_l: self.arg_l, arg_r: Some(Box::new(arg)) }
        }
    }

    fn add_argument(&mut self, arg: Node) -> (r: bool) {
        if self.arg_l.is_none() {
            self.arg_l = Some(Box::new(arg));
            true
        } else if self.arg_r.is_none() {
            self.arg_r = Some(Box::new(arg));
            true
        } else {
            false
        }
    }
}

impl AddArgument for Ternary {
    open spec fn spec_can_add(&self) -> bool {
        self.condition is None || self.success is None || self.failure is None
    }

    open spec fn spec_added(&self, arg: Node) -> Self {
        if self.condition is None {
            Ternary { condition: Some(Box::new(arg)), ..*self }
        } else if self.success is None {
            Ternary { success: Some(Box::new(arg)), ..*self }
        } else {
            Ternary { failure: Some(Box::new(arg)), ..*self }
        }
    }

    fn add_argument(&mut self, arg: Node) -> (r: bool) {
        if self.condition.is_none() {
            self.condition = Some(Box::new(arg));
            true
        } else if self.success.is_none() {
            self.success = Some(Box::new(arg));
            true
        } else if self.failure.is_none() {
            self.failure = Some(Box::new(arg));
            true
        } else {
            false
        }
    }
}

impl TakeOperator<Binary> for BinaryOperator {
    open spec fn spec_take(&self) -> Binary {
        Binary { operator: *self, arg_l: None, arg_r: None }
    }

    fn take_operator(self) -> (r: Binary) {
        Binary { operator: self, arg_l: None, arg_r: None }
    }
}

impl TakeOperator<Unary> for UnaryOperator {
    open spec fn spec_take(&self) -> Unary {
        Unary { operator: *self, arg: None }
    }

    fn take_operator(self) -> (r: Unary) {
        Unary { operator: self, arg: None }
    }
}

impl TakeOperator<Ternary> for TernaryOperator {
    open spec fn spec_take(&self) -> Ternary {
        Ternary { operator: *self, condition: None, success: None, failure: None }
    }

    fn take_operator(self) -> (r: Ternary) {
        Ternary { operator: self, condition: None, success: None, failure: None }
    }
}

/// Why a leaf or an operator cannot attach.
pub ghost enum PushErr {
    ConsecutiveLiterals,
    UnaryExtra,
    BinaryExtra,
    TernaryExtra,
    Aggregate,
}

/// The message each attachment fault carries.
pub open spec fn push_err_msg(e: PushErr) -> Seq<char> {
    match e {
        PushErr::ConsecutiveLiterals => "Found 2 consecutive litteral without a logical relation."@,
        PushErr::UnaryExtra => "Found 2 arguments for a unary operator. Did you forget an operator?"@,
        PushErr::BinaryExtra => "Found 3 arguments for a binary operator. Did you forget an operator?"@,
        PushErr::TernaryExtra => "Found 4 arguments for the ternary operator. Did you forget an operator?"@,
        PushErr::Aggregate => "Aggregate expressions are not supported yet."@,
    }
}

/// Where a new operand lands: the tree with the operand placed in the
/// open slot, or the fault that there is no such slot.  The open slot
/// is found by descending into the rightmost filled child; a `Binary`
/// fills its left slot before its right one, and a `Ternary` fills
/// condition, success and failure in that order.
pub open spec fn spec_push_leaf(t: Node, n: Node) -> Result<Node, PushErr>
    decreases t,
{
    match t {
        Node::Empty => Ok(n),
        Node::Leaf(_) => Err(PushErr::ConsecutiveLiterals),
        Node::Unary(u) => match u.arg {
            None => Ok(Node::Unary(Unary { operator: u.operator, arg: Some(Box::new(n)) })),
            Some(b) => match spec_push_leaf(*b, n) {
                Ok(t2) => Ok(Node::Unary(Unary { operator: u.operator, arg: Some(Box::new(t2)) })),
                Err(_) => Err(PushErr::UnaryExtra),
            },
        },
        Node::Binary(b) => if b.arg_l is None {
            Ok(Node::Binary(Binary { operator: b.operator, arg_l: Some(Box::new(n)), arg_r: b.arg_r }))
        } else if b.arg_r is None {
            Ok(Node::Binary(Binary { operator: b.operator, arg_l: b.arg_l, arg_r: Some(Box::new(n)) }))
        } else {
            match spec_push_leaf(*b.arg_r->0, n) {
                Ok(t2) => Ok(Node::Binary(Binary {
                    operator: b.operator,
                    arg_l: b.arg_l,
                    arg_r: Some(Box::new(t2)),
                })),
                Err(_) => Err(PushErr::BinaryExtra),
            }
        },
        Node::Ternary(t3) => if t3.failure is Some {
            match spec_push_leaf(*t3.failure->0, n) {
                Ok(t2) => Ok(Node::Ternary(Ternary { failure: Some(Box::new(t2)), ..t3 })),
                Err(_) => Err(PushErr::TernaryExtra),
            }
        } else if t3.success is Some {
            match spec_push_leaf(*t3.success->0, n) {
                Ok(t2) => Ok(Node::Ternary(Ternary { success: Some(Box::new(t2)), ..t3 })),
                Err(_) => Err(PushErr::TernaryExtra),
            }
        } else if t3.condition is Some {
            match spec_push_leaf(*t3.condition->0, n) {
                Ok(t2) => Ok(Node::Ternary(Ternary { condition: Some(Box::new(t2)), ..t3 })),
                Err(_) => Err(PushErr::TernaryExtra),
            }
        } else {
            Ok(Node::Ternary(Ternary { condition: Some(Box::new(n)), ..t3 }))
        },
        _ => Err(PushErr::Aggregate),
    }
}

/// The rightmost already-filled leaf, detached: the tree with that leaf
/// replaced by `Empty`, and the leaf itself.
pub open spec fn spec_take_last_leaf(t: Node) -> Option<(Node, Literal)>
    decreases t,
{
    match t {
        Node::Leaf(l) => Some((Node::Empty, l)),
        Node::Unary(u) => match u.arg {
            Some(b) => match spec_take_last_leaf(*b) {
                Some((t2, l)) => Some(
                    (Node::Unary(Unary { operator: u.operator, arg: Some(Box::new(t2)) }), l),
                ),
                None => None,
            },
            None => None,
        },
        Node::Binary(b) => match b.arg_r {
            Some(rb) => match spec_take_last_leaf(*rb) {
                Some((t2, l)) => Some(
                    (
                        Node::Binary(Binary {
                            operator: b.operator,
                            arg_l: b.arg_l,
                            arg_r: Some(Box::new(t2)),
                        }),
                        l,
                    ),
                ),
                None => None,
            },
            None => None,
        },
        Node::Ternary(t3) => if t3.failure is Some {
            match spec_take_last_leaf(*t3.failure->0) {
                Some((t2, l)) => Some(
                    (Node::Ternary(Ternary { failure: Some(Box::new(t2)), ..t3 }), l),
                ),
                None => None,
            }
        } else if t3.success is Some {
            match spec_take_last_leaf(*t3.success->0) {
                Some((t2, l)) => Some(
                    (Node::Ternary(Ternary { success: Some(Box::new(t2)), ..t3 }), l),
                ),
                None => None,
            }
        } else if t3.condition is Some {
            match spec_take_last_leaf(*t3.condition->0) {
                Some((t2, l)) => Some(
                    (Node::Ternary(Ternary { condition: Some(Box::new(t2)), ..t3 }), l),
                ),
                None => None,
            }
        } else {
            None
        },
        _ => None,
    }
}

/// The operator node with the previous content of the open slot as its
/// first operand.
pub open spec fn spec_set_first(opn: Node, prev: Node) -> Node {
    match opn {
        Node::Unary(u) => Node::Unary(Unary { operator: u.operator, arg: Some(Box::new(prev)) }),
        Node::Binary(b) => Node::Binary(
            Binary { operator: b.operator, arg_l: Some(Box::new(prev)), arg_r: b.arg_r },
        ),
        Node::Ternary(t3) => Node::Ternary(Ternary { condition: Some(Box::new(prev)), ..t3 }),
        _ => opn,
    }
}

/// Where a right-to-left operator lands: the content of the open slot
/// becomes the first operand of the operator node, which takes the
/// slot's place and is the new open context.
pub open spec fn spec_wrap(t: Node, opn: Node) -> Result<Node, PushErr>
    decreases t,
{
    match t {
        Node::Empty => Ok(opn),
        Node::Leaf(_) => Ok(spec_set_first(opn, t)),
        Node::Unary(u) => match u.arg {
            Some(b) => match spec_wrap(*b, opn) {
                Ok(t2) => Ok(Node::Unary(Unary { operator: u.operator, arg: Some(Box::new(t2)) })),
                Err(e) => Err(e),
            },
            None => Ok(Node::Unary(Unary { operator: u.operator, arg: Some(Box::new(opn)) })),
        },
        Node::Binary(b) => if b.arg_r is Some {
            match spec_wrap(*b.arg_r->0, opn) {
                Ok(t2) => Ok(Node::Binary(Binary {
                    operator: b.operator,
                    arg_l: b.arg_l,
                    arg_r: Some(Box::new(t2)),
                })),
                Err(e) => Err(e),
            }
        } else if b.arg_l is Some {
            Ok(Node::Binary(Binary { operator: b.operator, arg_l: b.arg_l, arg_r: Some(Box::new(opn)) }))
        } else {
            Ok(Node::Binary(Binary { operator: b.operator, arg_l: Some(Box::new(opn)), arg_r: None }))
        },
        Node::Ternary(t3) => if t3.failure is Some {
            match spec_wrap(*t3.failure->0, opn) {
                Ok(t2) => Ok(Node::Ternary(Ternary { failure: Some(Box::new(t2)), ..t3 })),
                Err(e) => Err(e),
            }
        } else if t3.success is Some {
            match spec_wrap(*t3.success->0, opn) {
                Ok(t2) => Ok(Node::Ternary(Ternary { success: Some(Box::new(t2)), ..t3 })),
                Err(e) => Err(e),
            }
        } else if t3.condition is Some {
            match spec_wrap(*t3.condition->0, opn) {
                Ok(t2) => Ok(Node::Ternary(Ternary { condition: Some(Box::new(t2)), ..t3 })),
                Err(e) => Err(e),
            }
        } else {
            Ok(Node::Ternary(Ternary { condition: Some(Box::new(opn)), ..t3 }))
        },
        _ => Err(PushErr::Aggregate),
    }
}

impl Node {
    /// True for the placeholder node.
    pub fn is_empty(&self) -> (r: bool)
        ensures
            r == (*self is Empty),
    {
        match self {
            Node::Empty => true,
            _ => false,
        }
    }

    /// Attaches an operand in the tree's open slot; fails, leaving the
    /// tree as it stands, when no slot is open, as in `a b`.
    pub fn push_node_as_leaf(&mut self, node: Node) -> (r: Result<(), &'static str>)
        ensures
            match spec_push_leaf(*old(self), node) {
                Ok(t2) => r is Ok && *final(self) == t2,
                Err(e) => r is Err && *final(self) == *old(self) && r->Err_0@ == push_err_msg(e),
            },
        decreases *old(self),
    {
        let mut cur = Node::Empty;
        core::mem::swap(self, &mut cur);
        match cur {
            Node::Empty => {
                *self = node;
                Ok(())
            },
            Node::Leaf(l) => {
                *self = Node::Leaf(l);
                Err("Found 2 consecutive litteral without a logical relation.")
            },
            Node::Unary(u) => {
                let Unary { operator, arg } = u;
                match arg {
                    None => {
                        *self = Node::Unary(Unary { operator, arg: Some(Box::new(node)) });
                        Ok(())
                    },
                    Some(b) => {
                        let mut inner: Node = *b;
                        let res = inner.push_node_as_leaf(node);
                        *self = Node::Unary(Unary { operator, arg: Some(Box::new(inner)) });
                        match res {
                            Ok(()) => Ok(()),
                            Err(_) => Err(
                                "Found 2 arguments for a unary operator. Did you forget an operator?",
                            ),
                        }
                    },
                }
            },
            Node::Binary(b) => {
                let Binary { operator, arg_l, arg_r } = b;
                if arg_l.is_none() {
                    *self = Node::Binary(
                        Binary { operator, arg_l: Some(Box::new(node)), arg_r },
                    );
                    Ok(())
                } else if arg_r.is_none() {
                    *self = Node::Binary(
                        Binary { operator, arg_l, arg_r: Some(Box::new(node)) },
                    );
                    Ok(())
                } else {
                    let mut inner: Node = *arg_r.unwrap();
                    let res = inner.push_node_as_leaf(node);
                    *self = Node::Binary(
                        Binary { operator, arg_l, arg_r: Some(Box::new(inner)) },
                    );
                    match res {
                        Ok(()) => Ok(()),
                        Err(_) => Err(
                            "Found 3 arguments for a binary operator. Did you forget an operator?",
                        ),
                    }
                }
            },
            Node::Ternary(t3) => {
                let Ternary { operator, condition, success, failure } = t3;
                if failure.is_some() {
                    let mut inner: Node = *failure.unwrap();
                    let res = inner.push_node_as_leaf(node);
                    *self = Node::Ternary(
                        Ternary { operator, condition, success, failure: Some(Box::new(inner)) },
                    );
                    match res {
                        Ok(()) => Ok(()),
                        Err(_) => Err(
                            "Found 4 arguments for the ternary operator. Did you forget an operator?",
                        ),
                    }
                } else if success.is_some() {
                    let mut inner: Node = *success.unwrap();
                    let res = inner.push_node_as_leaf(node);
                    *self = Node::Ternary(
                        Ternary { operator, condition, success: Some(Box::new(inner)), failure: None },
                    );
                    match res {
                        Ok(()) => Ok(()),
                        Err(_) => Err(
                            "Found 4 arguments for the ternary operator. Did you forget an operator?",
                        ),
                    }
                } else if condition.is_some() {
                    let mut inner: Node = *condition.unwrap();
                    let res = inner.push_node_as_leaf(node);
                    *self = Node::Ternary(
                        Ternary { operator, condition: Some(Box::new(inner)), success: None, failure: None },
                    );
                    match res {
                        Ok(()) => Ok(()),
                        Err(_) => Err(
                            "Found 4 arguments for the ternary operator. Did you forget an operator?",
                        ),
                    }
                } else {
                    *self = Node::Ternary(
                        Ternary { operator, condition: Some(Box::new(node)), success: None, failure: None },
                    );
                    Ok(())
                }
            },
            other => {
                *self = other;
                Err("Aggregate expressions are not supported yet.")
            },
        }
    }

    /// Detaches the rightmost already-filled leaf, leaving `Empty` in
    /// its place; `None` when the rightmost chain ends in no leaf.
    pub fn take_last_leaf(&mut self) -> (r: Option<Literal>)
        ensures
            match spec_take_last_leaf(*old(self)) {
                Some((t2, l)) => r == Some(l) && *final(self) == t2,
                None => r is None && *final(self) == *old(self),
            },
        decreases *old(self),
    {
        let mut cur = Node::Empty;
        core::mem::swap(self, &mut cur);
        match cur {
            Node::Leaf(l) => {
                *self = Node::Empty;
                Some(l)
            },
            Node::Unary(u) => {
                let Unary { operator, arg } = u;
                match arg {
                    Some(b) => {
                        let mut inner: Node = *b;
                        let res = inner.take_last_leaf();
                        *self = Node::Unary(Unary { operator, arg: Some(Box::new(inner)) });
                        res
                    },
                    None => {
                        *self = Node::Unary(Unary { operator, arg: None });
                        None
                    },
                }
            },
            Node::Binary(b) => {
                let Binary { operator, arg_l, arg_r } = b;
                match arg_r {
                    Some(rb) => {
                        let mut inner: Node = *rb;
                        let res = inner.take_last_leaf();
                        *self = Node::Binary(
                            Binary { operator, arg_l, arg_r: Some(Box::new(inner)) },
                        );
                        res
                    },
                    None => {
                        *self = Node::Binary(Binary { operator, arg_l, arg_r: None });
                        None
                    },
                }
            },
            Node::Ternary(t3) => {
                let Ternary { operator, condition, success, failure } = t3;
                if failure.is_some() {
                    let mut inner: Node = *failure.unwrap();
                    let res = inner.take_last_leaf();
                    *self = Node::Ternary(
                        Ternary { operator, condition, success, failure: Some(Box::new(inner)) },
                    );
                    res
                } else if success.is_some() {
                    let mut inner: Node = *success.unwrap();
                    let res = inner.take_last_leaf();
                    *self = Node::Ternary(
                        Ternary { operator, condition, success: Some(Box::new(inner)), failure: None },
                    );
                    res
                } else if condition.is_some() {
                    let mut inner: Node = *condition.unwrap();
                    let res = inner.take_last_leaf();
                    *self = Node::Ternary(
                        Ternary { operator, condition: Some(Box::new(inner)), success: None, failure: None },
                    );
                    res
                } else {
                    *self = Node::Ternary(
                        Ternary { operator, condition: None, success: None, failure: None },
                    );
                    None
                }
            },
            other => {
                *self = other;
                None
            },
        }
    }

    /// Places a right-to-left operator node: the open slot's content
    /// becomes its first operand and the node takes the slot's place.
    fn wrap_operator(&mut self, op_node: Node) -> (r: Result<(), &'static str>)
        ensures
            match spec_wrap(*old(self), op_node) {
                Ok(t2) => r is Ok && *final(self) == t2,
                Err(e) => r is Err && *final(self) == *old(self) && r->Err_0@ == push_err_msg(e),
            },
        decreases *old(self),
    {
        let mut cur = Node::Empty;
        core::mem::swap(self, &mut cur);
        match cur {
            Node::Empty => {
                *self = op_node;
                Ok(())
            },
            Node::Leaf(l) => {
                match op_node {
                    Node::Unary(u) => {
                        *self = Node::Unary(
                            Unary { operator: u.operator, arg: Some(Box::new(Node::Leaf(l))) },
                        );
                        Ok(())
                    },
                    Node::Binary(b) => {
                        *self = Node::Binary(
                            Binary {
                                operator: b.operator,
                                arg_l: Some(Box::new(Node::Leaf(l))),
                                arg_r: b.arg_r,
                            },
                        );
                        Ok(())
                    },
                    Node::Ternary(t3) => {
                        *self = Node::Ternary(
                            Ternary { condition: Some(Box::new(Node::Leaf(l))), ..t3 },
                        );
                        Ok(())
                    },
                    other => {
                        *self = other;
                        proof {
                            assert(spec_set_first(op_node, Node::Leaf(l)) == op_node);
                        }
                        Ok(())
                    },
                }
            },
            Node::Unary(u) => {
                let Unary { operator, arg } = u;
                match arg {
                    Some(b) => {
                        let mut inner: Node = *b;
                        let res = inner.wrap_operator(op_node);
                        *self = Node::Unary(Unary { operator, arg: Some(Box::new(inner)) });
                        res
                    },
                    None => {
                        *self = Node::Unary(Unary { operator, arg: Some(Box::new(op_node)) });
                        Ok(())
                    },
                }
            },
            Node::Binary(b) => {
                let Binary { operator, arg_l, arg_r } = b;
                if arg_r.is_some() {
                    let mut inner: Node = *arg_r.unwrap();
                    let res = inner.wrap_operator(op_node);
                    *self = Node::Binary(Binary { operator, arg_l, arg_r: Some(Box::new(inner)) });
                    res
                } else if arg_l.is_some() {
                    *self = Node::Binary(
                        Binary { operator, arg_l, arg_r: Some(Box::new(op_node)) },
                    );
                    Ok(())
                } else {
                    *self = Node::Binary(
                        Binary { operator, arg_l: Some(Box::new(op_node)), arg_r: None },
                    );
                    Ok(())
                }
            },
            Node::Ternary(t3) => {
                let Ternary { operator, condition, success, failure } = t3;
                if failure.is_some() {
                    let mut inner: Node = *failure.unwrap();
                    let res = inner.wrap_operator(op_node);
                    *self = Node::Ternary(
                        Ternary { operator, condition, success, failure: Some(Box::new(inner)) },
                    );
                    res
                } else if success.is_some() {
                    let mut inner: Node = *success.unwrap();
                    let res = inner.wrap_operator(op_node);
                    *self = Node::Ternary(
                        Ternary { operator, condition, success: Some(Box::new(inner)), failure: None },
                    );
                    res
                } else if condition.is_some() {
                    let mut inner: Node = *condition.unwrap();
                    let res = inner.wrap_operator(op_node);
                    *self = Node::Ternary(
                        Ternary { operator, condition: Some(Box::new(inner)), success: None, failure: None },
                    );
                    res
                } else {
                    *self = Node::Ternary(
                        Ternary { operator, condition: Some(Box::new(op_node)), success: None, failure: None },
                    );
                    Ok(())
                }
            },
            other => {
                *self = other;
                Err("Aggregate expressions are not supported yet.")
            },
        }
    }

    /// Attaches an operator according to its associativity: a
    /// left-to-right operator takes the last leaf as its first operand
    /// and stands where the leaf stood; a right-to-left operator wraps
    /// the open slot's content.  A failed attempt leaves the tree
    /// unchanged apart from the stated leaf detachment.
    pub fn push_op<U: AddArgument, T: Operator + TakeOperator<U>>(&mut self, operator: T) -> (r:
        Result<(), &'static str>)
        requires
            operator.spec_take().spec_can_add(),
        ensures
            ({
                let opn = operator.spec_take().spec_to_node();
                if operator.spec_associativity() == Associativity::LeftToRight {
                    match spec_take_last_leaf(*old(self)) {
                        None => r is Err && *final(self) == *old(self) && r->Err_0@
                            == "Found left-to-right unary operator, without having a leaf before."@,
                        Some((t2, leaf)) => {
                            let newnode = operator.spec_take().spec_added(
                                Node::Leaf(leaf),
                            ).spec_to_node();
                            match spec_push_leaf(t2, newnode) {
                                Ok(t3) => r is Ok && *final(self) == t3,
                                Err(e) => r is Err && *final(self) == t2 && r->Err_0@
                                    == push_err_msg(e),
                            }
                        },
                    }
                } else {
                    match spec_wrap(*old(self), opn) {
                        Ok(t2) => r is Ok && *final(self) == t2,
                        Err(_) => r is Err && *final(self) == *old(self) && r->Err_0@
                            == "Found right-to-left unary operator, within a context not waiting for leaf."@,
                    }
                }
            }),
    {
        match operator.associativity() {
            Associativity::LeftToRight => match self.take_last_leaf() {
                None => Err("Found left-to-right unary operator, without having a leaf before."),
                Some(leaf) => {
                    let mut new_leaf = operator.take_operator();
                    let _added = new_leaf.add_argument(Node::Leaf(leaf));
                    self.push_node_as_leaf(new_leaf.to_node())
                },
            },
            Associativity::RightToLeft => {
                match self.wrap_operator(operator.take_operator().to_node()) {
                    Ok(()) => Ok(()),
                    Err(_) => Err(
                        "Found right-to-left unary operator, within a context not waiting for leaf.",
                    ),
                }
            },
        }
    }
}

} // verus!
