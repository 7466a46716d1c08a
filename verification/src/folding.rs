//! The operations that the parser works out on integer literals, and the
//! shapes it gives to calls.

use vstd::prelude::*;
use crate::node::{
    lemma_nodes_view_push, node_view, nodes_view, AccessNode, BinaryOpNode, IntNode, Node,
    NodeView, UnaryOpNode,
};
use crate::parser::{arguments, called, folded, folded_value, level_has, option_view, prefixed};
use crate::token::TokenType;

verus! {

fn shifted_right(l: i64, r: i64) -> (v: i64)
    requires
        0 <= r < 64,
    ensures
        v == l >> r,
{
    l >> r
}

fn shifted_left(l: i64, r: i64) -> (v: i64)
    requires
        0 <= r < 64,
    ensures
        v == l << r,
{
    l << r
}

/// Whether a binary operator belongs to a level of precedence.
pub(crate) fn in_level(level: u8, op: TokenType) -> (b: bool)
    ensures
        b == level_has(level as int, op),
{
    match level {
        0 | 2 => op == TokenType::OR,
        1 | 4 => op == TokenType::AND,
        3 => op == TokenType::HAT,
        5 => op == TokenType::BoolEq || op == TokenType::BoolNe,
        6 => op == TokenType::BoolGt || op == TokenType::BoolLt || op == TokenType::BoolGte || op
            == TokenType::BoolLte,
        7 => op == TokenType::SHL || op == TokenType::SHR,
        8 => op == TokenType::ADD || op == TokenType::SUB,
        9 => op == TokenType::MUL || op == TokenType::DIV || op == TokenType::MOD,
        10 => op == TokenType::POW,
        _ => false,
    }
}

/// The value of a binary operation on two integer literals, where the parser
/// works it out.
pub(crate) fn fold_value(op: TokenType, l: i64, r: i64) -> (v: Option<i64>)
    ensures
        v == folded_value(op, l, r),
{
    match op {
        TokenType::ADD => {
            let sum: i128 = l as i128 + r as i128;
            if -0x8000_0000_0000_0000 <= sum && sum <= 0x7fff_ffff_ffff_ffff {
                Some(sum as i64)
            } else {
                None
            }
        },
        TokenType::SUB => {
            let difference: i128 = l as i128 - r as i128;
            if -0x8000_0000_0000_0000 <= difference && difference <= 0x7fff_ffff_ffff_ffff {
                Some(difference as i64)
            } else {
                None
            }
        },
        TokenType::MUL => {
            assert(-0x4000_0000_0000_0000_0000_0000_0000_0000 <= l * r
                <= 0x4000_0000_0000_0000_0000_0000_0000_0000) by (nonlinear_arith)
                requires
                    -0x8000_0000_0000_0000 <= l <= 0x7fff_ffff_ffff_ffff,
                    -0x8000_0000_0000_0000 <= r <= 0x7fff_ffff_ffff_ffff,
            ;
            let product: i128 = (l as i128) * (r as i128);
            if -0x8000_0000_0000_0000 <= product && product <= 0x7fff_ffff_ffff_ffff {
                Some(product as i64)
            } else {
                None
            }
        },
        TokenType::SHR => {
            if 0 <= r && r < 64 {
                Some(shifted_right(l, r))
            } else {
                None
            }
        },
        TokenType::SHL => {
            if 0 <= r && r < 64 {
                Some(shifted_left(l, r))
            } else {
                None
            }
        },
        _ => None,
    }
}

/// The node of a binary operation.
pub(crate) fn fold(op: TokenType, left: Node, right: Node) -> (node: Node)
    ensures
        node_view(node) == folded(op, node_view(left), node_view(right)),
{
    let value = match (&left, &right) {
        (Node::Int(l), Node::Int(r)) => fold_value(op, l.value, r.value),
        _ => None,
    };
    match value {
        Some(v) => Node::Int(IntNode { value: v }),
        None => Node::BinaryOp(BinaryOpNode { left: Box::new(left), right: Box::new(right), op }),
    }
}

/// The node of an operator before its operand.
pub(crate) fn prefix(op: TokenType, value: Node) -> (node: Node)
    ensures
        node_view(node) == prefixed(op, node_view(value)),
{
    match value {
        Node::Int(i) => match op {
            TokenType::NOT => Node::Int(IntNode { value: -1 - i.value }),
            TokenType::BoolNot => Node::Int(
                IntNode {
                    value: if i.value == 0 {
                        1
                    } else {
                        0
                    },
                },
            ),
            TokenType::SUB => if i.value != i64::MIN {
                Node::Int(IntNode { value: -i.value })
            } else {
                let inner = Node::Int(i);
                assert(node_view(inner) == NodeView::Int(i.value));
                Node::UnaryOp(UnaryOpNode { value: Box::new(inner), op })
            },
            _ => Node::Int(i),
        },
        other => {
            let node = Node::UnaryOp(UnaryOpNode { value: Box::new(other), op });
            assert(node_view(node) == NodeView::UnaryOp {
                value: Box::new(node_view(other)),
                op,
            });
            node
        },
    }
}

/// The arguments that a parenthesized sequence stands for.
pub(crate) fn arguments_of(tuple: Option<Node>) -> (args: Vec<Node>)
    ensures
        nodes_view(args@, 0) == arguments(option_view(tuple)),
{
    match tuple {
        Some(Node::Tuple(t)) => t.values,
        Some(other) => {
            let mut args: Vec<Node> = Vec::new();
            args.push(other);
            proof {
                lemma_nodes_view_push(Seq::empty(), other);
                assert(args@ =~= Seq::<Node>::empty().push(other));
                assert(nodes_view(Seq::<Node>::empty(), 0) =~= Seq::<NodeView>::empty());
                assert(nodes_view(args@, 0) =~= seq![node_view(other)]);
            }
            args
        },
        None => {
            let args: Vec<Node> = Vec::new();
            assert(nodes_view(args@, 0) =~= Seq::<NodeView>::empty());
            args
        },
    }
}

/// A callee as it stands in a call.
pub(crate) fn as_callee(callee: Node) -> (r: (Node, bool))
    ensures
        node_view(r.0) == called(node_view(callee)),
        r.1 == (node_view(callee) is Access),
{
    match callee {
        Node::Access(a) => (
            Node::Access(AccessNode { value: a.value, field: a.field, load_self: true }),
            true,
        ),
        other => (other, false),
    }
}

} // verus!
