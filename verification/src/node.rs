//! The syntax tree of the source language: its nodes, their text, and the
//! bytecode that they are compiled to.

use vstd::prelude::*;
use crate::bytekod::{
    constant_view, constant_views, find_constant, find_name, first_match, first_name, names_view,
    pool_view, Code, CodeView, Constant, ConstantView, FloatConstant, Module, Opcode,
};
use crate::bytes::{le_u32, patched_u32};
use crate::token::{digits_text, symbol_of, symbol_text, write_digits, TokenType};

verus! {

/// A sequence of statements.
#[derive(Debug)]
pub struct BlockNode {
    pub statements: Vec<Node>,
}

/// The definition of a function.
#[derive(Debug)]
pub struct FuncDefNode {
    pub name: Box<IdNode>,
    pub params: Vec<Node>,
    pub body: Box<BlockNode>,
}

/// A call. `add_arg` says that the callee is a method, which gets its object
/// as one more argument.
#[derive(Debug)]
pub struct FuncCallNode {
    pub callee: Box<Node>,
    pub args: Vec<Node>,
    pub add_arg: bool,
}

#[derive(Debug)]
pub struct AssignmentNode {
    pub left: Box<Node>,
    pub right: Box<Node>,
    pub op: TokenType,
}

#[derive(Debug)]
pub struct BinaryOpNode {
    pub left: Box<Node>,
    pub right: Box<Node>,
    pub op: TokenType,
}

#[derive(Debug)]
pub struct UnaryOpNode {
    pub value: Box<Node>,
    pub op: TokenType,
}

#[derive(Debug)]
pub struct AccessNode {
    pub value: Box<Node>,
    pub field: Box<Node>,
    pub load_self: bool,
}

#[derive(Debug)]
pub struct SubscriptNode {
    pub value: Box<Node>,
    pub subscript: Box<Node>,
}

#[derive(Debug)]
pub struct ReturnNode {
    pub value: Option<Box<Node>>,
}

#[derive(Debug)]
pub struct IfNode {
    pub condition: Box<Node>,
    pub block: Box<BlockNode>,
}

#[derive(Debug)]
pub struct WhileNode {
    pub condition: Box<Node>,
    pub block: Box<BlockNode>,
}

/// A tuple, or a list where `is_list` is set.
#[derive(Debug)]
pub struct TupleNode {
    pub values: Vec<Node>,
    pub is_list: bool,
}

#[derive(Debug)]
pub struct IntNode {
    pub value: i64,
}

/// A number with a fraction: its text, and the integers that stand for its
/// value once it has been worked out.
#[derive(Debug)]
pub struct FloatNode {
    pub text: String,
    pub value: Option<FloatConstant>,
}

#[derive(Debug)]
pub struct StringNode {
    pub value: String,
}

#[derive(Debug)]
pub struct IdNode {
    pub value: String,
}

/// A node of the syntax tree.
#[derive(Debug)]
pub enum Node {
    Block(BlockNode),
    FuncDef(FuncDefNode),
    FuncCall(FuncCallNode),
    Assignment(AssignmentNode),
    BinaryOp(BinaryOpNode),
    UnaryOp(UnaryOpNode),
    Access(AccessNode),
    Id(IdNode),
    Tuple(TupleNode),
    Float(FloatNode),
    String(StringNode),
    Int(IntNode),
    Subscript(SubscriptNode),
    Return(ReturnNode),
    If(IfNode),
    While(WhileNode),
}

/// What a node holds.
pub enum NodeView {
    Block(Seq<NodeView>),
    FuncDef { name: Seq<char>, params: Seq<NodeView>, body: Seq<NodeView> },
    FuncCall { callee: Box<NodeView>, args: Seq<NodeView>, add_arg: bool },
    Assignment { left: Box<NodeView>, right: Box<NodeView>, op: TokenType },
    BinaryOp { left: Box<NodeView>, right: Box<NodeView>, op: TokenType },
    UnaryOp { value: Box<NodeView>, op: TokenType },
    Access { value: Box<NodeView>, field: Box<NodeView>, load_self: bool },
    Id(Seq<char>),
    Tuple { values: Seq<NodeView>, is_list: bool },
    Float { text: Seq<char>, worked: Option<FloatConstant> },
    String(Seq<char>),
    Int(i64),
    Subscript { value: Box<NodeView>, subscript: Box<NodeView> },
    Return(Option<Box<NodeView>>),
    If { condition: Box<NodeView>, block: Seq<NodeView> },
    While { condition: Box<NodeView>, block: Seq<NodeView> },
}

/// What the nodes from index `from` on hold.
pub open spec fn nodes_view(nodes: Seq<Node>, from: int) -> Seq<NodeView>
    decreases nodes, nodes.len() - from,
{
    if 0 <= from < nodes.len() {
        seq![node_view(nodes[from])] + nodes_view(nodes, from + 1)
    } else {
        Seq::empty()
    }
}

/// What a node holds.
pub open spec fn node_view(node: Node) -> NodeView
    decreases node,
{
    match node {
        Node::Block(b) => NodeView::Block(nodes_view(b.statements@, 0)),
        Node::FuncDef(f) => NodeView::FuncDef {
            name: f.name.value@,
            params: nodes_view(f.params@, 0),
            body: nodes_view(f.body.statements@, 0),
        },
        Node::FuncCall(c) => NodeView::FuncCall {
            callee: Box::new(node_view(*c.callee)),
            args: nodes_view(c.args@, 0),
            add_arg: c.add_arg,
        },
        Node::Assignment(a) => NodeView::Assignment {
            left: Box::new(node_view(*a.left)),
            right: Box::new(node_view(*a.right)),
            op: a.op,
        },
        Node::BinaryOp(b) => NodeView::BinaryOp {
            left: Box::new(node_view(*b.left)),
            right: Box::new(node_view(*b.right)),
            op: b.op,
        },
        Node::UnaryOp(u) => NodeView::UnaryOp { value: Box::new(node_view(*u.value)), op: u.op },
        Node::Access(a) => NodeView::Access {
            value: Box::new(node_view(*a.value)),
            field: Box::new(node_view(*a.field)),
            load_self: a.load_self,
        },
        Node::Id(i) => NodeView::Id(i.value@),
        Node::Tuple(t) => NodeView::Tuple { values: nodes_view(t.values@, 0), is_list: t.is_list },
        Node::Float(f) => NodeView::Float { text: f.text@, worked: f.value },
        Node::String(s) => NodeView::String(s.value@),
        Node::Int(i) => NodeView::Int(i.value),
        Node::Subscript(s) => NodeView::Subscript {
            value: Box::new(node_view(*s.value)),
            subscript: Box::new(node_view(*s.subscript)),
        },
        Node::Return(r) => NodeView::Return(
            match r.value {
                Some(v) => Some(Box::new(node_view(*v))),
                None => None,
            },
        ),
        Node::If(i) => NodeView::If {
            condition: Box::new(node_view(*i.condition)),
            block: nodes_view(i.block.statements@, 0),
        },
        Node::While(w) => NodeView::While {
            condition: Box::new(node_view(*w.condition)),
            block: nodes_view(w.block.statements@, 0),
        },
    }
}

impl View for Node {
    type V = NodeView;

    open spec fn view(&self) -> NodeView {
        node_view(*self)
    }
}

/// The views of nodes, one for each node.
pub proof fn lemma_nodes_view(nodes: Seq<Node>, from: int)
    requires
        0 <= from <= nodes.len(),
    ensures
        nodes_view(nodes, from).len() == nodes.len() - from,
        forall|i: int|
            0 <= i < nodes.len() - from ==> #[trigger] nodes_view(nodes, from)[i] == node_view(
                nodes[from + i],
            ),
    decreases nodes.len() - from,
{
    if from < nodes.len() {
        lemma_nodes_view(nodes, from + 1);
    }
}

/// The views of nodes after one more node.
pub proof fn lemma_nodes_view_push(nodes: Seq<Node>, node: Node)
    ensures
        nodes_view(nodes.push(node), 0) == nodes_view(nodes, 0).push(node_view(node)),
{
    lemma_nodes_view(nodes, 0);
    lemma_nodes_view(nodes.push(node), 0);
    assert(nodes_view(nodes.push(node), 0) =~= nodes_view(nodes, 0).push(node_view(node)));
}

/// Whether a node is a literal, or an operation or a tuple of constants.
pub open spec fn constant_node(node: Node) -> bool
    decreases node,
{
    match node {
        Node::Int(_) | Node::Float(_) | Node::String(_) => true,
        Node::BinaryOp(b) => constant_node(*b.left) && constant_node(*b.right),
        Node::UnaryOp(u) => constant_node(*u.value),
        Node::Tuple(t) => constant_nodes(t.values@, 0),
        _ => false,
    }
}

/// Whether the nodes from index `from` on are constants.
pub open spec fn constant_nodes(nodes: Seq<Node>, from: int) -> bool
    decreases nodes, nodes.len() - from,
{
    if 0 <= from < nodes.len() {
        constant_node(nodes[from]) && constant_nodes(nodes, from + 1)
    } else {
        true
    }
}

/// The constant that a node stands for: a literal whose value is known, or
/// a tuple of such.
pub open spec fn constant_of(node: Node) -> Option<ConstantView>
    decreases node,
{
    match node {
        Node::Int(i) => Some(ConstantView::Int(i.value)),
        Node::Float(f) => match f.value {
            Some(v) => Some(ConstantView::Float(v)),
            None => None,
        },
        Node::String(s) => Some(ConstantView::String(s.value@)),
        Node::Tuple(t) => match constants_of(t.values@, 0, Seq::empty()) {
            Some(items) => Some(ConstantView::Tuple(items)),
            None => None,
        },
        _ => None,
    }
}

/// The constants that the nodes from index `from` on stand for, after those
/// in `items`, if each of them stands for one.
pub open spec fn constants_of(nodes: Seq<Node>, from: int, items: Seq<ConstantView>) -> Option<
    Seq<ConstantView>,
>
    decreases nodes, nodes.len() - from,
{
    if 0 <= from < nodes.len() {
        match constant_of(nodes[from]) {
            Some(c) => constants_of(nodes, from + 1, items.push(c)),
            None => None,
        }
    } else {
        Some(items)
    }
}

/// What an optional constant holds.
pub open spec fn option_constant_view(c: Option<Constant>) -> Option<ConstantView> {
    match c {
        Some(c) => Some(constant_view(c)),
        None => None,
    }
}

/// The views of constants after one more constant.
pub proof fn lemma_constant_views_push(items: Seq<Constant>, c: Constant)
    ensures
        constant_views(items.push(c), 0) == constant_views(items, 0).push(constant_view(c)),
{
    lemma_constant_views(items, 0);
    lemma_constant_views(items.push(c), 0);
    assert(constant_views(items.push(c), 0) =~= constant_views(items, 0).push(constant_view(c)));
}

/// The views of constants, one for each constant.
pub proof fn lemma_constant_views(items: Seq<Constant>, from: int)
    requires
        0 <= from <= items.len(),
    ensures
        constant_views(items, from).len() == items.len() - from,
        forall|i: int|
            0 <= i < items.len() - from ==> #[trigger] constant_views(items, from)[i]
                == constant_view(items[from + i]),
    decreases items.len() - from,
{
    if from < items.len() {
        lemma_constant_views(items, from + 1);
    }
}

/// A number in decimal, with a minus sign where it is negative.
pub open spec fn int_text(i: i64) -> Seq<char> {
    if i < 0 {
        seq!['-'] + digits_text(-(i as int))
    } else {
        digits_text(i as int)
    }
}

/// The texts of the nodes from index `from` on, each followed by a line feed.
pub open spec fn printed_lines(nodes: Seq<Node>, from: int) -> Seq<char>
    decreases nodes, nodes.len() - from,
{
    if 0 <= from < nodes.len() {
        printed(nodes[from]) + seq!['\n'] + printed_lines(nodes, from + 1)
    } else {
        Seq::empty()
    }
}

/// The texts of the nodes from index `from` on, with `, ` between them.
pub open spec fn printed_list(nodes: Seq<Node>, from: int) -> Seq<char>
    decreases nodes, nodes.len() - from,
{
    if 0 <= from < nodes.len() {
        printed(nodes[from]) + (if from + 1 < nodes.len() {
            ", "@
        } else {
            Seq::empty()
        }) + printed_list(nodes, from + 1)
    } else {
        Seq::empty()
    }
}

/// The text of a node. An operator without a symbol has no text.
pub open spec fn printed(node: Node) -> Seq<char>
    decreases node,
{
    match node {
        Node::Block(b) => printed_lines(b.statements@, 0),
        Node::FuncDef(f) => f.name.value@ + "("@ + printed_list(f.params@, 0) + ") {\n"@
            + printed_lines(f.body.statements@, 0) + "}"@,
        Node::FuncCall(c) => printed(*c.callee) + "("@ + printed_list(c.args@, 0) + ")"@,
        Node::Assignment(a) => printed(*a.left) + " "@ + symbol_text(a.op) + " "@ + printed(
            *a.right,
        ),
        Node::BinaryOp(b) => "("@ + printed(*b.left) + " "@ + symbol_text(b.op) + " "@ + printed(
            *b.right,
        ) + ")"@,
        Node::UnaryOp(u) => "("@ + symbol_text(u.op) + printed(*u.value) + ")"@,
        Node::Access(a) => printed(*a.value) + "."@ + printed(*a.field),
        Node::Id(i) => i.value@,
        Node::Tuple(t) => (if t.is_list {
            "["@
        } else {
            "("@
        }) + printed_list(t.values@, 0) + (if t.is_list {
            "]"@
        } else {
            ")"@
        }),
        Node::Float(f) => f.text@,
        Node::String(s) => "\""@ + s.value@ + "\""@,
        Node::Int(i) => int_text(i.value),
        Node::Subscript(s) => printed(*s.value) + "["@ + printed(*s.subscript) + "]"@,
        Node::Return(r) => "return "@ + (match r.value {
            Some(v) => printed(*v),
            None => "null"@,
        }),
        Node::If(i) => "if "@ + printed(*i.condition) + " {\n"@ + printed_lines(
            i.block.statements@,
            0,
        ) + "}"@,
        Node::While(w) => "while "@ + printed(*w.condition) + " {\n"@ + printed_lines(
            w.block.statements@,
            0,
        ) + "}"@,
    }
}

/// Whether nodes are constants.
fn all_constant(nodes: &Vec<Node>) -> (b: bool)
    ensures
        b == constant_nodes(nodes@, 0),
    decreases nodes,
{
    let mut i: usize = 0;
    while i < nodes.len()
        invariant
            i <= nodes@.len(),
            constant_nodes(nodes@, i as int) == constant_nodes(nodes@, 0),
        decreases nodes@.len() - i,
    {
        if !nodes[i].is_constant() {
            return false;
        }
        i += 1;
    }
    true
}

/// Appends a number in decimal.
fn write_int(out: &mut String, i: i64)
    ensures
        final(out)@ == old(out)@ + int_text(i),
{
    if i < 0 {
        out.push('-');
        let magnitude: u64 = ((-(i + 1)) as u64) + 1;
        write_digits(out, magnitude);
        assert(out@ =~= old(out)@ + int_text(i));
    } else {
        write_digits(out, i as u64);
    }
}

/// Appends the texts of nodes, each followed by a line feed.
fn write_lines(out: &mut String, nodes: &Vec<Node>)
    ensures
        final(out)@ == old(out)@ + printed_lines(nodes@, 0),
    decreases nodes,
{
    let mut i: usize = 0;
    assert(out@ =~= old(out)@ + Seq::<char>::empty());
    while i < nodes.len()
        invariant
            i <= nodes@.len(),
            out@ + printed_lines(nodes@, i as int) == old(out)@ + printed_lines(nodes@, 0),
        decreases nodes@.len() - i,
    {
        let ghost before = out@;
        nodes[i].write(out);
        out.push('\n');
        assert(out@ + printed_lines(nodes@, i + 1) =~= before + printed_lines(nodes@, i as int));
        i += 1;
    }
    assert(out@ + printed_lines(nodes@, i as int) =~= out@);
}

/// Appends the texts of nodes, with `, ` between them.
fn write_list(out: &mut String, nodes: &Vec<Node>)
    ensures
        final(out)@ == old(out)@ + printed_list(nodes@, 0),
    decreases nodes,
{
    let mut i: usize = 0;
    assert(out@ =~= old(out)@ + Seq::<char>::empty());
    while i < nodes.len()
        invariant
            i <= nodes@.len(),
            out@ + printed_list(nodes@, i as int) == old(out)@ + printed_list(nodes@, 0),
        decreases nodes@.len() - i,
    {
        let ghost before = out@;
        nodes[i].write(out);
        if i + 1 < nodes.len() {
            out.append(", ");
        }
        assert(out@ + printed_list(nodes@, i + 1) =~= before + printed_list(nodes@, i as int));
        i += 1;
    }
    assert(out@ + printed_list(nodes@, i as int) =~= out@);
}

impl Node {
    /// Appends the text of the node.
    pub fn write(&self, out: &mut String)
        ensures
            final(out)@ == old(out)@ + printed(*self),
        decreases self,
    {
        match self {
            Node::Block(b) => {
                write_lines(out, &b.statements);
            },
            Node::FuncDef(f) => {
                out.append(f.name.value.as_str());
                out.append("(");
                write_list(out, &f.params);
                out.append(") {\n");
                write_lines(out, &f.body.statements);
                out.append("}");
            },
            Node::FuncCall(c) => {
                c.callee.write(out);
                out.append("(");
                write_list(out, &c.args);
                out.append(")");
            },
            Node::Assignment(a) => {
                a.left.write(out);
                out.append(" ");
                out.append(symbol_of(a.op));
                out.append(" ");
                a.right.write(out);
            },
            Node::BinaryOp(b) => {
                out.append("(");
                b.left.write(out);
                out.append(" ");
                out.append(symbol_of(b.op));
                out.append(" ");
                b.right.write(out);
                out.append(")");
            },
            Node::UnaryOp(u) => {
                out.append("(");
                out.append(symbol_of(u.op));
                u.value.write(out);
                out.append(")");
            },
            Node::Access(a) => {
                a.value.write(out);
                out.append(".");
                a.field.write(out);
            },
            Node::Id(i) => {
                out.append(i.value.as_str());
            },
            Node::Tuple(t) => {
                if t.is_list {
                    out.append("[");
                } else {
                    out.append("(");
                }
                write_list(out, &t.values);
                if t.is_list {
                    out.append("]");
                } else {
                    out.append(")");
                }
            },
            Node::Float(f) => {
                out.append(f.text.as_str());
            },
            Node::String(s) => {
                out.append("\"");
                out.append(s.value.as_str());
                out.append("\"");
            },
            Node::Int(i) => {
                write_int(out, i.value);
            },
            Node::Subscript(s) => {
                s.value.write(out);
                out.append("[");
                s.subscript.write(out);
                out.append("]");
            },
            Node::Return(r) => {
                out.append("return ");
                match &r.value {
                    Some(v) => {
                        v.write(out);
                    },
                    None => {
                        out.append("null");
                    },
                }
            },
            Node::If(i) => {
                out.append("if ");
                i.condition.write(out);
                out.append(" {\n");
                write_lines(out, &i.block.statements);
                out.append("}");
            },
            Node::While(w) => {
                out.append("while ");
                w.condition.write(out);
                out.append(" {\n");
                write_lines(out, &w.block.statements);
                out.append("}");
            },
        }
        assert(out@ =~= old(out)@ + printed(*self));
    }

    /// The text of the node.
    pub fn to_string(&self) -> (text: String)
        ensures
            text@ == printed(*self),
    {
        let mut text = String::new();
        self.write(&mut text);
        assert(text@ =~= printed(*self));
        text
    }

    /// The constant that the node stands for, if it is a literal whose value
    /// is known, or a tuple of such.
    pub fn to_constant(&self) -> (c: Option<Constant>)
        ensures
            option_constant_view(c) == constant_of(*self),
        decreases self,
    {
        match self {
            Node::Int(i) => Some(Constant::Int(i.value)),
            Node::Float(f) => match f.value {
                Some(v) => Some(Constant::Float(v)),
                None => None,
            },
            Node::String(s) => Some(Constant::String(s.value.clone())),
            Node::Tuple(t) => {
                let mut items: Vec<Constant> = Vec::new();
                let mut i: usize = 0;
                assert(constant_views(items@, 0) =~= Seq::<ConstantView>::empty());
                while i < t.values.len()
                    invariant
                        i <= t.values@.len(),
                        *self == Node::Tuple(*t),
                        constants_of(t.values@, i as int, constant_views(items@, 0))
                            == constants_of(t.values@, 0, Seq::empty()),
                    decreases t.values@.len() - i,
                {
                    match t.values[i].to_constant() {
                        Some(c) => {
                            proof {
                                lemma_constant_views_push(items@, c);
                            }
                            items.push(c);
                        },
                        None => {
                            return None;
                        },
                    }
                    i += 1;
                }
                Some(Constant::Tuple(items))
            },
            _ => None,
        }
    }

    /// Whether the node is a literal, or an operation or a tuple of
    /// constants.
    pub fn is_constant(&self) -> (b: bool)
        ensures
            b == constant_node(*self),
        decreases self,
    {
        match self {
            Node::Int(_) | Node::Float(_) | Node::String(_) => true,
            Node::BinaryOp(b) => b.left.is_constant() && b.right.is_constant(),
            Node::UnaryOp(u) => u.value.is_constant(),
            Node::Tuple(t) => all_constant(&t.values),
            _ => false,
        }
    }

    /// Whether compiling the node leaves a value on the stack.
    pub open spec fn leaves_value(self) -> bool {
        !(self is Assignment || self is Return || self is If || self is While || self is FuncDef)
    }

    /// Whether the node is a return.
    pub open spec fn is_return(self) -> bool {
        self is Return
    }

    /// Whether compiling the node leaves a value on the stack.
    pub fn pushes(&self) -> (b: bool)
        ensures
            b == self.leaves_value(),
    {
        match self {
            Node::Assignment(_) | Node::Return(_) | Node::If(_) | Node::While(_) | Node::FuncDef(
                _,
            ) => false,
            _ => true,
        }
    }

    /// Whether the node is a return.
    pub fn is_return_statement(&self) -> (b: bool)
        ensures
            b == self.is_return(),
    {
        match self {
            Node::Return(_) => true,
            _ => false,
        }
    }
}

/// Why a tree cannot be compiled.
#[derive(Debug, Clone, Copy, PartialEq, Eq, Structural)]
pub enum CompileError {
    /// A node of a kind that is not compiled: an access, a subscript or a
    /// tuple.
    Unimplemented,
    /// A node that leaves no value stands where a value is needed.
    NoValue,
    /// An assignment with another operator than `=`, or to a target that is
    /// neither a name nor a tuple.
    UnsupportedAssignment,
    /// An operation whose operator names no opcode.
    InvalidOperator(TokenType),
    /// A number with a fraction whose value has not been worked out.
    UnevaluatedFloat,
    /// A pool index, a count or a code offset does not fit in 32 bits.
    TooLarge,
    /// A block among the statements of a conditional body replaced the code
    /// that the jump over the body stands in.
    BlockInBody,
}

/// The pools of a module and the bytes of the code object that is compiled
/// into.
pub struct Unit {
    pub names: Seq<Seq<char>>,
    pub constants: Seq<ConstantView>,
    pub code: Seq<u8>,
}

/// The pools of a module with the bytes of a code object.
pub open spec fn unit_of(module: Module, code: Code) -> Unit {
    Unit {
        names: names_view(module.name_pool@),
        constants: pool_view(module.constant_pool@),
        code: code.code@,
    }
}

/// The unit after an opcode was emitted.
pub open spec fn with_opcode(u: Unit, opcode: Opcode) -> Unit {
    Unit { code: u.code.push(opcode.number()), ..u }
}

/// The unit after the load of a constant was emitted: the constant is taken
/// from the pool where an entry can stand for it, and is added to the pool
/// where none can.
pub open spec fn constant_loaded(u: Unit, wanted: ConstantView) -> Result<Unit, CompileError> {
    let at = first_match(u.constants, wanted, 0);
    if at > u32::MAX {
        Err(CompileError::TooLarge)
    } else {
        Ok(
            Unit {
                constants: if at < u.constants.len() {
                    u.constants
                } else {
                    u.constants.push(wanted)
                },
                code: u.code.push(Opcode::LOAD_CONST.number()) + le_u32(at as u32),
                ..u
            },
        )
    }
}

/// The unit after an opcode with a name as its operand was emitted: the name
/// is taken from the pool where it is in it, and is added where it is not.
pub open spec fn name_used(u: Unit, opcode: Opcode, name: Seq<char>) -> Result<Unit, CompileError> {
    let at = first_name(u.names, name, 0);
    if at > u32::MAX {
        Err(CompileError::TooLarge)
    } else {
        Ok(
            Unit {
                names: if at < u.names.len() {
                    u.names
                } else {
                    u.names.push(name)
                },
                code: u.code.push(opcode.number()) + le_u32(at as u32),
                ..u
            },
        )
    }
}

/// The opcode of a binary operator.
pub open spec fn binary_opcode(op: TokenType) -> Option<Opcode> {
    match op {
        TokenType::ADD => Some(Opcode::BINARY_ADD),
        TokenType::SUB => Some(Opcode::BINARY_SUB),
        TokenType::MUL => Some(Opcode::BINARY_MUL),
        TokenType::DIV => Some(Opcode::BINARY_DIV),
        TokenType::MOD => Some(Opcode::BINARY_MOD),
        TokenType::POW => Some(Opcode::BINARY_POW),
        TokenType::AND => Some(Opcode::BINARY_AND),
        TokenType::OR => Some(Opcode::BINARY_OR),
        TokenType::HAT => Some(Opcode::BINARY_XOR),
        TokenType::SHL => Some(Opcode::BINARY_LEFT_SHIFT),
        TokenType::SHR => Some(Opcode::BINARY_RIGHT_SHIFT),
        TokenType::BoolAnd => Some(Opcode::BINARY_BOOLEAN_AND),
        TokenType::BoolOr => Some(Opcode::BINARY_BOOLEAN_OR),
        TokenType::BoolEq => Some(Opcode::BINARY_BOOLEAN_EQUAL),
        TokenType::BoolNe => Some(Opcode::BINARY_BOOLEAN_NOT_EQUAL),
        TokenType::BoolGt => Some(Opcode::BINARY_BOOLEAN_GREATER_THAN),
        TokenType::BoolGte => Some(Opcode::BINARY_BOOLEAN_GREATER_THAN_OR_EQUAL_TO),
        TokenType::BoolLt => Some(Opcode::BINARY_BOOLEAN_LESS_THAN),
        TokenType::BoolLte => Some(Opcode::BINARY_BOOLEAN_LESS_THAN_OR_EQUAL_TO),
        _ => None,
    }
}

/// The opcode of a unary operator.
pub open spec fn unary_opcode(op: TokenType) -> Option<Opcode> {
    match op {
        TokenType::ADD => Some(Opcode::UNARY_ADD),
        TokenType::SUB => Some(Opcode::UNARY_SUB),
        TokenType::NOT => Some(Opcode::UNARY_NOT),
        TokenType::BoolNot => Some(Opcode::UNARY_BOOL_NOT),
        _ => None,
    }
}

/// The texts of nodes.
pub open spec fn printed_each(nodes: Seq<Node>) -> Seq<Seq<char>> {
    Seq::new(nodes.len(), |i: int| printed(nodes[i]))
}

/// The unit after the statements from index `i` on were compiled. The value
/// that a statement leaves is popped; `pop_last` says whether that of the
/// last statement is popped too.
pub open spec fn statements_compiled(
    statements: Seq<Node>,
    i: int,
    u: Unit,
    pop_last: bool,
) -> Result<Unit, CompileError>
    decreases statements, statements.len() - i,
{
    if 0 <= i < statements.len() {
        match compiled(statements[i], u) {
            Err(e) => Err(e),
            Ok(after) => statements_compiled(
                statements,
                i + 1,
                if statements[i].leaves_value() && (pop_last || i != statements.len() - 1) {
                    with_opcode(after, Opcode::POP_TOP)
                } else {
                    after
                },
                pop_last,
            ),
        }
    } else {
        Ok(u)
    }
}

/// The unit after the arguments from index `i` on were compiled.
pub open spec fn arguments_compiled(args: Seq<Node>, i: int, u: Unit) -> Result<Unit, CompileError>
    decreases args, args.len() - i,
{
    if 0 <= i < args.len() {
        match compiled(args[i], u) {
            Err(e) => Err(e),
            Ok(after) => arguments_compiled(args, i + 1, after),
        }
    } else {
        Ok(u)
    }
}

/// The unit after the load of what a node that leaves no value stands for
/// was emitted: an assignment to a name stands for that name.
pub open spec fn pushed(node: Node, u: Unit) -> Result<Unit, CompileError> {
    match node {
        Node::Assignment(a) => match *a.left {
            Node::Id(i) => name_used(u, Opcode::LOAD_NAME, i.value@),
            _ => Err(CompileError::NoValue),
        },
        _ => Err(CompileError::NoValue),
    }
}

/// The unit after a node was compiled where its value is needed.
pub open spec fn value_compiled(node: Node, u: Unit) -> Result<Unit, CompileError>
    decreases node, 1int,
{
    match compiled(node, u) {
        Err(e) => Err(e),
        Ok(after) => if node.leaves_value() {
            Ok(after)
        } else {
            pushed(node, after)
        },
    }
}

/// The unit after the stores to the targets from index `i` on were emitted.
pub open spec fn targets_assigned(
    targets: Seq<Node>,
    i: int,
    op: TokenType,
    u: Unit,
) -> Result<Unit, CompileError>
    decreases targets, targets.len() - i,
{
    if 0 <= i < targets.len() {
        match target_assigned(targets[i], op, u) {
            Err(e) => Err(e),
            Ok(after) => targets_assigned(targets, i + 1, op, after),
        }
    } else {
        Ok(u)
    }
}

/// The unit after the store to a target was emitted: a name is stored to, a
/// tuple is unpacked into its members.
pub open spec fn target_assigned(target: Node, op: TokenType, u: Unit) -> Result<
    Unit,
    CompileError,
>
    decreases target, 0int,
{
    match target {
        Node::Id(i) => if op == TokenType::EQUALS {
            name_used(u, Opcode::STORE_NAME, i.value@)
        } else {
            Err(CompileError::UnsupportedAssignment)
        },
        Node::Tuple(t) => if t.values@.len() > u32::MAX {
            Err(CompileError::TooLarge)
        } else {
            targets_assigned(
                t.values@,
                0,
                op,
                Unit {
                    code: u.code.push(Opcode::UNPACK_SEQUENCE.number()) + le_u32(
                        t.values@.len() as u32,
                    ),
                    ..u
                },
            )
        },
        _ => Err(CompileError::UnsupportedAssignment),
    }
}

/// The unit after the null constant was loaded at the end of a body that
/// does not end with a return.
pub open spec fn ended(statements: Seq<Node>, u: Unit) -> Result<Unit, CompileError> {
    if statements.len() == 0 || !statements.last().is_return() {
        constant_loaded(u, ConstantView::Null)
    } else {
        Ok(u)
    }
}

/// The unit after a conditional body was compiled: the jump over it, whose
/// slot starts at index `slot` of the code, goes to its end.
pub open spec fn jump_closed(u: Unit, slot: int) -> Result<Unit, CompileError> {
    if slot + 4 > u.code.len() {
        Err(CompileError::BlockInBody)
    } else if u.code.len() > u32::MAX {
        Err(CompileError::TooLarge)
    } else {
        Ok(Unit { code: patched_u32(u.code, slot, u.code.len() as u32), ..u })
    }
}

/// The unit after a node was compiled.
pub open spec fn compiled(node: Node, u: Unit) -> Result<Unit, CompileError>
    decreases node, 0int,
{
    match node {
        Node::Block(b) => {
            let statements = b.statements@;
            match statements_compiled(statements, 0, Unit { code: Seq::empty(), ..u }, false) {
                Err(e) => Err(e),
                Ok(after) => if statements.len() == 0 || !statements.last().is_return() {
                    let loaded = if statements.len() == 0 || !statements.last().leaves_value() {
                        constant_loaded(after, ConstantView::Null)
                    } else {
                        Ok(after)
                    };
                    match loaded {
                        Err(e) => Err(e),
                        Ok(last) => Ok(with_opcode(last, Opcode::RETURN)),
                    }
                } else {
                    Ok(after)
                },
            }
        },
        Node::Assignment(a) => match value_compiled(*a.right, u) {
            Err(e) => Err(e),
            Ok(after) => target_assigned(*a.left, a.op, after),
        },
        Node::BinaryOp(b) => match compiled(*b.left, u) {
            Err(e) => Err(e),
            Ok(first) => match compiled(*b.right, first) {
                Err(e) => Err(e),
                Ok(second) => match binary_opcode(b.op) {
                    Some(opcode) => Ok(with_opcode(second, opcode)),
                    None => Err(CompileError::InvalidOperator(b.op)),
                },
            },
        },
        Node::UnaryOp(n) => match compiled(*n.value, u) {
            Err(e) => Err(e),
            Ok(after) => match unary_opcode(n.op) {
                Some(opcode) => Ok(with_opcode(after, opcode)),
                None => Err(CompileError::InvalidOperator(n.op)),
            },
        },
        Node::Return(r) => {
            let valued = match r.value {
                Some(v) => value_compiled(*v, u),
                None => constant_loaded(u, ConstantView::Null),
            };
            match valued {
                Err(e) => Err(e),
                Ok(after) => Ok(with_opcode(after, Opcode::RETURN)),
            }
        },
        Node::If(i) => match value_compiled(*i.condition, u) {
            Err(e) => Err(e),
            Ok(tested) => {
                let slot = tested.code.len() as int + 1;
                let open = Unit {
                    code: tested.code.push(Opcode::POP_JUMP_IF_FALSE.number()) + le_u32(0),
                    ..tested
                };
                match statements_compiled(i.block.statements@, 0, open, true) {
                    Err(e) => Err(e),
                    Ok(body) => jump_closed(body, slot),
                }
            },
        },
        Node::While(w) => match value_compiled(*w.condition, u) {
            Err(e) => Err(e),
            Ok(tested) => {
                let slot = tested.code.len() as int + 1;
                let open = Unit {
                    code: tested.code.push(Opcode::POP_JUMP_IF_FALSE.number()) + le_u32(0),
                    ..tested
                };
                match statements_compiled(w.block.statements@, 0, open, true) {
                    Err(e) => Err(e),
                    Ok(body) => if u.code.len() > u32::MAX {
                        Err(CompileError::TooLarge)
                    } else {
                        jump_closed(
                            Unit {
                                code: body.code.push(Opcode::JUMP.number()) + le_u32(
                                    u.code.len() as u32,
                                ),
                                ..body
                            },
                            slot,
                        )
                    },
                }
            },
        },
        Node::Int(i) => constant_loaded(u, ConstantView::Int(i.value)),
        Node::Float(f) => match f.value {
            Some(v) => constant_loaded(u, ConstantView::Float(v)),
            None => Err(CompileError::UnevaluatedFloat),
        },
        Node::String(s) => constant_loaded(u, ConstantView::String(s.value@)),
        Node::Id(i) => name_used(u, Opcode::LOAD_NAME, i.value@),
        Node::FuncDef(f) => {
            let statements = f.body.statements@;
            match statements_compiled(statements, 0, Unit { code: Seq::empty(), ..u }, true) {
                Err(e) => Err(e),
                Ok(body) => match ended(statements, body) {
                    Err(e) => Err(e),
                    Ok(whole) => {
                        let function = CodeView {
                            name: f.name.value@,
                            params: printed_each(f.params@),
                            code: whole.code,
                        };
                        match constant_loaded(
                            Unit { code: u.code, ..whole },
                            ConstantView::Code(function),
                        ) {
                            Err(e) => Err(e),
                            Ok(loaded) => name_used(loaded, Opcode::STORE_NAME, f.name.value@),
                        }
                    },
                },
            }
        },
        Node::FuncCall(c) => match compiled(*c.callee, u) {
            Err(e) => Err(e),
            Ok(callee) => match arguments_compiled(c.args@, 0, callee) {
                Err(e) => Err(e),
                Ok(args) => {
                    let count = c.args@.len() + (if c.add_arg {
                        1int
                    } else {
                        0int
                    });
                    if count > u32::MAX {
                        Err(CompileError::TooLarge)
                    } else {
                        Ok(
                            Unit {
                                code: args.code.push(Opcode::CALL.number()) + le_u32(count as u32),
                                ..args
                            },
                        )
                    }
                },
            },
        },
        Node::Access(_) | Node::Subscript(_) | Node::Tuple(_) => Err(CompileError::Unimplemented),
    }
}

/// Whether a module and a code object keep what compiling does not touch.
pub open spec fn untouched(before: (Module, Code), after: (Module, Code)) -> bool {
    &&& after.0.name == before.0.name
    &&& after.0.entry == before.0.entry
    &&& after.1.name == before.1.name
    &&& after.1.params == before.1.params
}

/// Whether the outcome of a step of the compiler is what the specification
/// says of it.
pub open spec fn outcome(
    said: Result<Unit, CompileError>,
    r: Result<(), CompileError>,
    after: (Module, Code),
) -> bool {
    match said {
        Ok(u) => r is Ok && unit_of(after.0, after.1) == u,
        Err(e) => r == Err::<(), CompileError>(e),
    }
}

/// Emits the load of a constant, which is added to the pool where no entry
/// can stand for it.
fn emit_constant(module: &mut Module, code: &mut Code, wanted: Constant) -> (r: Result<
    (),
    CompileError,
>)
    ensures
        outcome(
            constant_loaded(unit_of(*old(module), *old(code)), constant_view(wanted)),
            r,
            (*final(module), *final(code)),
        ),
        untouched((*old(module), *old(code)), (*final(module), *final(code))),
{
    let found = find_constant(&module.constant_pool, &wanted);
    let at = match found {
        Some(i) => i,
        None => module.constant_pool.len(),
    };
    if at > 0xffff_ffff {
        return Err(CompileError::TooLarge);
    }
    code.emit8(Opcode::LOAD_CONST.encode());
    if found.is_none() {
        module.constant_pool.push(wanted);
        assert(pool_view(module.constant_pool@) =~= pool_view(old(module).constant_pool@).push(
            constant_view(wanted),
        ));
    }
    code.emit32(at as u32);
    Ok(())
}

/// Emits an opcode with a name as its operand. The name is added to the pool
/// where it is not in it.
fn emit_name(module: &mut Module, code: &mut Code, opcode: Opcode, name: &String) -> (r: Result<
    (),
    CompileError,
>)
    ensures
        outcome(
            name_used(unit_of(*old(module), *old(code)), opcode, name@),
            r,
            (*final(module), *final(code)),
        ),
        untouched((*old(module), *old(code)), (*final(module), *final(code))),
{
    let found = find_name(&module.name_pool, name);
    let at = match found {
        Some(i) => i,
        None => module.name_pool.len(),
    };
    if at > 0xffff_ffff {
        return Err(CompileError::TooLarge);
    }
    code.emit8(opcode.encode());
    if found.is_none() {
        module.name_pool.push(name.clone());
        assert(names_view(module.name_pool@) =~= names_view(old(module).name_pool@).push(name@));
    }
    code.emit32(at as u32);
    Ok(())
}

/// The opcode of a binary operator.
fn binary_opcode_of(op: TokenType) -> (r: Option<Opcode>)
    ensures
        r == binary_opcode(op),
{
    match op {
        TokenType::ADD => Some(Opcode::BINARY_ADD),
        TokenType::SUB => Some(Opcode::BINARY_SUB),
        TokenType::MUL => Some(Opcode::BINARY_MUL),
        TokenType::DIV => Some(Opcode::BINARY_DIV),
        TokenType::MOD => Some(Opcode::BINARY_MOD),
        TokenType::POW => Some(Opcode::BINARY_POW),
        TokenType::AND => Some(Opcode::BINARY_AND),
        TokenType::OR => Some(Opcode::BINARY_OR),
        TokenType::HAT => Some(Opcode::BINARY_XOR),
        TokenType::SHL => Some(Opcode::BINARY_LEFT_SHIFT),
        TokenType::SHR => Some(Opcode::BINARY_RIGHT_SHIFT),
        TokenType::BoolAnd => Some(Opcode::BINARY_BOOLEAN_AND),
        TokenType::BoolOr => Some(Opcode::BINARY_BOOLEAN_OR),
        TokenType::BoolEq => Some(Opcode::BINARY_BOOLEAN_EQUAL),
        TokenType::BoolNe => Some(Opcode::BINARY_BOOLEAN_NOT_EQUAL),
        TokenType::BoolGt => Some(Opcode::BINARY_BOOLEAN_GREATER_THAN),
        TokenType::BoolGte => Some(Opcode::BINARY_BOOLEAN_GREATER_THAN_OR_EQUAL_TO),
        TokenType::BoolLt => Some(Opcode::BINARY_BOOLEAN_LESS_THAN),
        TokenType::BoolLte => Some(Opcode::BINARY_BOOLEAN_LESS_THAN_OR_EQUAL_TO),
        _ => None,
    }
}

/// The opcode of a unary operator.
fn unary_opcode_of(op: TokenType) -> (r: Option<Opcode>)
    ensures
        r == unary_opcode(op),
{
    match op {
        TokenType::ADD => Some(Opcode::UNARY_ADD),
        TokenType::SUB => Some(Opcode::UNARY_SUB),
        TokenType::NOT => Some(Opcode::UNARY_NOT),
        TokenType::BoolNot => Some(Opcode::UNARY_BOOL_NOT),
        _ => None,
    }
}

/// Compiles statements. The value that a statement leaves is popped;
/// `pop_last` says whether that of the last statement is popped too.
fn compile_statements(
    statements: &Vec<Node>,
    module: &mut Module,
    code: &mut Code,
    pop_last: bool,
) -> (r: Result<(), CompileError>)
    ensures
        outcome(
            statements_compiled(statements@, 0, unit_of(*old(module), *old(code)), pop_last),
            r,
            (*final(module), *final(code)),
        ),
        untouched((*old(module), *old(code)), (*final(module), *final(code))),
    decreases statements,
{
    let ghost goal = statements_compiled(
        statements@,
        0,
        unit_of(*old(module), *old(code)),
        pop_last,
    );
    let mut i: usize = 0;
    while i < statements.len()
        invariant
            i <= statements@.len(),
            untouched((*old(module), *old(code)), (*module, *code)),
            goal == statements_compiled(
                statements@,
                0,
                unit_of(*old(module), *old(code)),
                pop_last,
            ),
            goal == statements_compiled(statements@, i as int, unit_of(*module, *code), pop_last),
        decreases statements@.len() - i,
    {
        match statements[i].compile(module, code) {
            Ok(()) => {},
            Err(e) => {
                return Err(e);
            },
        }
        if statements[i].pushes() && (pop_last || i != statements.len() - 1) {
            code.emit8(Opcode::POP_TOP.encode());
        }
        i += 1;
    }
    Ok(())
}

/// Compiles the arguments of a call.
fn compile_arguments(args: &Vec<Node>, module: &mut Module, code: &mut Code) -> (r: Result<
    (),
    CompileError,
>)
    ensures
        outcome(
            arguments_compiled(args@, 0, unit_of(*old(module), *old(code))),
            r,
            (*final(module), *final(code)),
        ),
        untouched((*old(module), *old(code)), (*final(module), *final(code))),
    decreases args,
{
    let ghost goal = arguments_compiled(args@, 0, unit_of(*old(module), *old(code)));
    let mut i: usize = 0;
    while i < args.len()
        invariant
            i <= args@.len(),
            untouched((*old(module), *old(code)), (*module, *code)),
            goal == arguments_compiled(args@, 0, unit_of(*old(module), *old(code))),
            goal == arguments_compiled(args@, i as int, unit_of(*module, *code)),
        decreases args@.len() - i,
    {
        match args[i].compile(module, code) {
            Ok(()) => {},
            Err(e) => {
                return Err(e);
            },
        }
        i += 1;
    }
    Ok(())
}

/// Emits the stores to the targets of an assignment.
fn assign_targets(targets: &Vec<Node>, op: TokenType, module: &mut Module, code: &mut Code) -> (r:
    Result<(), CompileError>)
    ensures
        outcome(
            targets_assigned(targets@, 0, op, unit_of(*old(module), *old(code))),
            r,
            (*final(module), *final(code)),
        ),
        untouched((*old(module), *old(code)), (*final(module), *final(code))),
    decreases targets,
{
    let ghost goal = targets_assigned(targets@, 0, op, unit_of(*old(module), *old(code)));
    let mut i: usize = 0;
    while i < targets.len()
        invariant
            i <= targets@.len(),
            untouched((*old(module), *old(code)), (*module, *code)),
            goal == targets_assigned(targets@, 0, op, unit_of(*old(module), *old(code))),
            goal == targets_assigned(targets@, i as int, op, unit_of(*module, *code)),
        decreases targets@.len() - i,
    {
        match assign_target(&targets[i], op, module, code) {
            Ok(()) => {},
            Err(e) => {
                return Err(e);
            },
        }
        i += 1;
    }
    Ok(())
}

/// Emits the store to the target of an assignment.
fn assign_target(target: &Node, op: TokenType, module: &mut Module, code: &mut Code) -> (r: Result<
    (),
    CompileError,
>)
    ensures
        outcome(
            target_assigned(*target, op, unit_of(*old(module), *old(code))),
            r,
            (*final(module), *final(code)),
        ),
        untouched((*old(module), *old(code)), (*final(module), *final(code))),
    decreases target, 0int,
{
    match target {
        Node::Id(i) => {
            if op != TokenType::EQUALS {
                return Err(CompileError::UnsupportedAssignment);
            }
            emit_name(module, code, Opcode::STORE_NAME, &i.value)
        },
        Node::Tuple(t) => {
            if t.values.len() > 0xffff_ffff {
                return Err(CompileError::TooLarge);
            }
            code.emit8(Opcode::UNPACK_SEQUENCE.encode());
            code.emit32(t.values.len() as u32);
            assign_targets(&t.values, op, module, code)
        },
        _ => Err(CompileError::UnsupportedAssignment),
    }
}

/// Loads the null constant at the end of a body that does not end with a
/// return.
fn end_body(statements: &Vec<Node>, module: &mut Module, code: &mut Code) -> (r: Result<
    (),
    CompileError,
>)
    ensures
        outcome(
            ended(statements@, unit_of(*old(module), *old(code))),
            r,
            (*final(module), *final(code)),
        ),
        untouched((*old(module), *old(code)), (*final(module), *final(code))),
{
    if statements.len() == 0 || !statements[statements.len() - 1].is_return_statement() {
        emit_constant(module, code, Constant::Null)
    } else {
        Ok(())
    }
}

/// Writes the end of the code into the slot of the jump over a conditional
/// body.
fn close_jump(module: &Module, code: &mut Code, slot: usize) -> (r: Result<(), CompileError>)
    ensures
        outcome(
            jump_closed(unit_of(*module, *old(code)), slot as int),
            r,
            (*module, *final(code)),
        ),
        untouched((*module, *old(code)), (*module, *final(code))),
{
    if code.code.len() < 4 || slot > code.code.len() - 4 {
        return Err(CompileError::BlockInBody);
    }
    if code.code.len() > 0xffff_ffff {
        return Err(CompileError::TooLarge);
    }
    let end = code.code.len() as u32;
    code.patch32(slot, end);
    Ok(())
}

/// The texts of nodes.
fn texts_of(nodes: &Vec<Node>) -> (texts: Vec<String>)
    ensures
        names_view(texts@) == printed_each(nodes@),
{
    let mut texts: Vec<String> = Vec::new();
    let mut i: usize = 0;
    while i < nodes.len()
        invariant
            i <= nodes@.len(),
            texts@.len() == i,
            forall|j: int| 0 <= j < i ==> (#[trigger] texts@[j])@ == printed(nodes@[j]),
        decreases nodes@.len() - i,
    {
        texts.push(nodes[i].to_string());
        i += 1;
    }
    assert(names_view(texts@) =~= printed_each(nodes@));
    texts
}

/// Compiles a node where its value is needed.
fn compile_value(node: &Node, module: &mut Module, code: &mut Code) -> (r: Result<(), CompileError>)
    ensures
        outcome(
            value_compiled(*node, unit_of(*old(module), *old(code))),
            r,
            (*final(module), *final(code)),
        ),
        untouched((*old(module), *old(code)), (*final(module), *final(code))),
    decreases node, 1int,
{
    match node.compile(module, code) {
        Ok(()) => {},
        Err(e) => {
            return Err(e);
        },
    }
    if node.pushes() {
        Ok(())
    } else {
        node.push(module, code)
    }
}

impl Node {
    /// Emits the load of what the node stands for, for a node that leaves no
    /// value: an assignment to a name stands for that name.
    pub fn push(&self, module: &mut Module, code: &mut Code) -> (r: Result<(), CompileError>)
        ensures
            outcome(
                pushed(*self, unit_of(*old(module), *old(code))),
                r,
                (*final(module), *final(code)),
            ),
            untouched((*old(module), *old(code)), (*final(module), *final(code))),
    {
        match self {
            Node::Assignment(a) => match &*a.left {
                Node::Id(i) => emit_name(module, code, Opcode::LOAD_NAME, &i.value),
                _ => Err(CompileError::NoValue),
            },
            _ => Err(CompileError::NoValue),
        }
    }

    /// Compiles the node into `code`, with the pools of `module`. A block
    /// replaces what `code` holds; every other node appends to it.
    pub fn compile(&self, module: &mut Module, code: &mut Code) -> (r: Result<(), CompileError>)
        ensures
            outcome(
                compiled(*self, unit_of(*old(module), *old(code))),
                r,
                (*final(module), *final(code)),
            ),
            untouched((*old(module), *old(code)), (*final(module), *final(code))),
        decreases self, 0int,
    {
        match self {
            Node::Block(b) => compile_block(b, module, code),
            Node::Assignment(a) => compile_assignment(a, module, code),
            Node::BinaryOp(b) => compile_binary(b, module, code),
            Node::UnaryOp(n) => compile_unary(n, module, code),
            Node::Return(r) => compile_return(r, module, code),
            Node::If(i) => compile_if(i, module, code),
            Node::While(w) => compile_while(w, module, code),
            Node::Int(i) => emit_constant(module, code, Constant::Int(i.value)),
            Node::Float(f) => match f.value {
                Some(v) => emit_constant(module, code, Constant::Float(v)),
                None => Err(CompileError::UnevaluatedFloat),
            },
            Node::String(s) => emit_constant(module, code, Constant::String(s.value.clone())),
            Node::Id(i) => emit_name(module, code, Opcode::LOAD_NAME, &i.value),
            Node::FuncDef(f) => compile_function(f, module, code),
            Node::FuncCall(c) => compile_call(c, module, code),
            Node::Access(_) | Node::Subscript(_) | Node::Tuple(_) => Err(
                CompileError::Unimplemented,
            ),
        }
    }
}

fn compile_block(b: &BlockNode, module: &mut Module, code: &mut Code) -> (r: Result<
    (),
    CompileError,
>)
    ensures
        outcome(
            compiled(Node::Block(*b), unit_of(*old(module), *old(code))),
            r,
            (*final(module), *final(code)),
        ),
        untouched((*old(module), *old(code)), (*final(module), *final(code))),
    decreases b,
{
    code.code.clear();
    match compile_statements(&b.statements, module, code, false) {
        Ok(()) => {},
        Err(e) => {
            return Err(e);
        },
    }
    let n = b.statements.len();
    if n == 0 || !b.statements[n - 1].is_return_statement() {
        if n == 0 || !b.statements[n - 1].pushes() {
            match emit_constant(module, code, Constant::Null) {
                Ok(()) => {},
                Err(e) => {
                    return Err(e);
                },
            }
        }
        code.emit8(Opcode::RETURN.encode());
    }
    Ok(())
}

fn compile_assignment(a: &AssignmentNode, module: &mut Module, code: &mut Code) -> (r: Result<
    (),
    CompileError,
>)
    ensures
        outcome(
            compiled(Node::Assignment(*a), unit_of(*old(module), *old(code))),
            r,
            (*final(module), *final(code)),
        ),
        untouched((*old(module), *old(code)), (*final(module), *final(code))),
    decreases a,
{
    match compile_value(&a.right, module, code) {
        Ok(()) => {},
        Err(e) => {
            return Err(e);
        },
    }
    assign_target(&a.left, a.op, module, code)
}

fn compile_binary(b: &BinaryOpNode, module: &mut Module, code: &mut Code) -> (r: Result<
    (),
    CompileError,
>)
    ensures
        outcome(
            compiled(Node::BinaryOp(*b), unit_of(*old(module), *old(code))),
            r,
            (*final(module), *final(code)),
        ),
        untouched((*old(module), *old(code)), (*final(module), *final(code))),
    decreases b,
{
    match b.left.compile(module, code) {
        Ok(()) => {},
        Err(e) => {
            return Err(e);
        },
    }
    match b.right.compile(module, code) {
        Ok(()) => {},
        Err(e) => {
            return Err(e);
        },
    }
    match binary_opcode_of(b.op) {
        Some(opcode) => {
            code.emit8(opcode.encode());
            Ok(())
        },
        None => Err(CompileError::InvalidOperator(b.op)),
    }
}

fn compile_unary(n: &UnaryOpNode, module: &mut Module, code: &mut Code) -> (r: Result<
    (),
    CompileError,
>)
    ensures
        outcome(
            compiled(Node::UnaryOp(*n), unit_of(*old(module), *old(code))),
            r,
            (*final(module), *final(code)),
        ),
        untouched((*old(module), *old(code)), (*final(module), *final(code))),
    decreases n,
{
    match n.value.compile(module, code) {
        Ok(()) => {},
        Err(e) => {
            return Err(e);
        },
    }
    match unary_opcode_of(n.op) {
        Some(opcode) => {
            code.emit8(opcode.encode());
            Ok(())
        },
        None => Err(CompileError::InvalidOperator(n.op)),
    }
}

fn compile_return(node: &ReturnNode, module: &mut Module, code: &mut Code) -> (r: Result<
    (),
    CompileError,
>)
    ensures
        outcome(
            compiled(Node::Return(*node), unit_of(*old(module), *old(code))),
            r,
            (*final(module), *final(code)),
        ),
        untouched((*old(module), *old(code)), (*final(module), *final(code))),
    decreases node,
{
    let valued = match &node.value {
        Some(v) => compile_value(v, module, code),
        None => emit_constant(module, code, Constant::Null),
    };
    match valued {
        Ok(()) => {},
        Err(e) => {
            return Err(e);
        },
    }
    code.emit8(Opcode::RETURN.encode());
    Ok(())
}

fn compile_if(i: &IfNode, module: &mut Module, code: &mut Code) -> (r: Result<(), CompileError>)
    ensures
        outcome(
            compiled(Node::If(*i), unit_of(*old(module), *old(code))),
            r,
            (*final(module), *final(code)),
        ),
        untouched((*old(module), *old(code)), (*final(module), *final(code))),
    decreases i,
{
    match compile_value(&i.condition, module, code) {
        Ok(()) => {},
        Err(e) => {
            return Err(e);
        },
    }
    code.emit8(Opcode::POP_JUMP_IF_FALSE.encode());
    let end_offset = code.emit32(0);
    match compile_statements(&i.block.statements, module, code, true) {
        Ok(()) => {},
        Err(e) => {
            return Err(e);
        },
    }
    close_jump(module, code, end_offset)
}

fn compile_while(w: &WhileNode, module: &mut Module, code: &mut Code) -> (r: Result<
    (),
    CompileError,
>)
    ensures
        outcome(
            compiled(Node::While(*w), unit_of(*old(module), *old(code))),
            r,
            (*final(module), *final(code)),
        ),
        untouched((*old(module), *old(code)), (*final(module), *final(code))),
    decreases w,
{
    let condition_offset = code.code.len();
    match compile_value(&w.condition, module, code) {
        Ok(()) => {},
        Err(e) => {
            return Err(e);
        },
    }
    code.emit8(Opcode::POP_JUMP_IF_FALSE.encode());
    let end_offset = code.emit32(0);
    match compile_statements(&w.block.statements, module, code, true) {
        Ok(()) => {},
        Err(e) => {
            return Err(e);
        },
    }
    if condition_offset > 0xffff_ffff {
        return Err(CompileError::TooLarge);
    }
    code.emit8(Opcode::JUMP.encode());
    code.emit32(condition_offset as u32);
    close_jump(module, code, end_offset)
}

fn compile_function(f: &FuncDefNode, module: &mut Module, code: &mut Code) -> (r: Result<
    (),
    CompileError,
>)
    ensures
        outcome(
            compiled(Node::FuncDef(*f), unit_of(*old(module), *old(code))),
            r,
            (*final(module), *final(code)),
        ),
        untouched((*old(module), *old(code)), (*final(module), *final(code))),
    decreases f,
{
    let mut function = Code::new(f.name.value.clone(), texts_of(&f.params), Vec::new());
    match compile_statements(&f.body.statements, module, &mut function, true) {
        Ok(()) => {},
        Err(e) => {
            return Err(e);
        },
    }
    match end_body(&f.body.statements, module, &mut function) {
        Ok(()) => {},
        Err(e) => {
            return Err(e);
        },
    }
    assert(function@ == (CodeView {
        name: f.name.value@,
        params: printed_each(f.params@),
        code: function.code@,
    }));
    match emit_constant(module, code, Constant::Code(function)) {
        Ok(()) => {},
        Err(e) => {
            return Err(e);
        },
    }
    emit_name(module, code, Opcode::STORE_NAME, &f.name.value)
}

fn compile_call(c: &FuncCallNode, module: &mut Module, code: &mut Code) -> (r: Result<
    (),
    CompileError,
>)
    ensures
        outcome(
            compiled(Node::FuncCall(*c), unit_of(*old(module), *old(code))),
            r,
            (*final(module), *final(code)),
        ),
        untouched((*old(module), *old(code)), (*final(module), *final(code))),
    decreases c,
{
    match c.callee.compile(module, code) {
        Ok(()) => {},
        Err(e) => {
            return Err(e);
        },
    }
    match compile_arguments(&c.args, module, code) {
        Ok(()) => {},
        Err(e) => {
            return Err(e);
        },
    }
    let extra: usize = if c.add_arg {
        1
    } else {
        0
    };
    if c.args.len() > 0xffff_ffff - extra {
        return Err(CompileError::TooLarge);
    }
    code.emit8(Opcode::CALL.encode());
    code.emit32((c.args.len() + extra) as u32);
    Ok(())
}

} // verus!
