//! The nodes of the syntax tree and their mathematical values.

use vstd::prelude::*;
use crate::syntax::ast::constant::{Const, ConstV};
use crate::syntax::ast::op::{BinOp, FunctionKind, UnaryOp};

verus! {

/// One construct of a program: an expression, a declaration or a statement.
/// Each node owns its children.
#[derive(Debug, PartialEq, Eq)]
pub enum Node {
    /// A literal.
    Const(Const),
    /// A reference to a binding by name.
    Identifier(Vec<u8>),
    /// `this`.
    This,
    /// A pattern literal: body and flags.
    Pattern(Vec<u8>, Vec<u8>),
    /// `[a, b, c]`.
    ArrayDecl(Vec<Node>),
    /// An operator applied to one operand.
    UnaryOp(UnaryOp, Box<Node>),
    /// An operator applied to two operands.
    BinOp(BinOp, Box<Node>, Box<Node>),
    /// `target = value`.
    Assign(Box<Node>, Box<Node>),
    /// `condition ? a : b`.
    ConditionalOp(Box<Node>, Box<Node>, Box<Node>),
    /// `callee(arguments)`.
    Call(Box<Node>, Vec<Node>),
    /// `new callee(arguments)`.
    New(Box<Node>, Vec<Node>),
    /// `object.name`.
    GetConstField(Box<Node>, Vec<u8>),
    /// `object[key]`.
    GetField(Box<Node>, Box<Node>),
    /// `await operand`.
    Await(Box<Node>),
    /// `yield`, `yield operand` or, with the flag set, `yield* operand`.
    Yield(Option<Box<Node>>, bool),
    /// `function name(parameters) { body }`.
    FunctionDecl(FunctionKind, Vec<u8>, Vec<FormalParameter>, StatementList),
    /// A function used as an expression; its name is optional.
    FunctionExpr(FunctionKind, Option<Vec<u8>>, Vec<FormalParameter>, StatementList),
    /// `(parameters) => body`.
    ArrowFunctionDecl(Vec<FormalParameter>, StatementList),
    /// `var a = 1, b`.
    VarDeclList(Vec<Declaration>),
    /// `let a = 1, b`.
    LetDeclList(Vec<Declaration>),
    /// `const a = 1`.
    ConstDeclList(Vec<Declaration>),
    /// `{ statements }`.
    Block(Vec<Node>),
    /// `if (condition) consequent else alternate`.
    If(Box<Node>, Box<Node>, Option<Box<Node>>),
    /// `while (condition) body`.
    WhileLoop(Box<Node>, Box<Node>),
    /// `do body while (condition)`: body first, condition second.
    DoWhileLoop(Box<Node>, Box<Node>),
    /// `for (init; condition; step) body`.
    ForLoop(Option<Box<Node>>, Option<Box<Node>>, Option<Box<Node>>, Box<Node>),
    /// `return` or `return value`.
    Return(Option<Box<Node>>),
    /// `break`.
    Break,
    /// `continue`.
    Continue,
    /// `throw value`.
    Throw(Box<Node>),
    /// `class name extends heritage { methods }`.
    ClassDecl(Vec<u8>, Option<Box<Node>>, Vec<ClassMethod>),
    /// `;` alone.
    Empty,
}

/// One method of a class.
#[derive(Debug, PartialEq, Eq)]
pub struct ClassMethod {
    pub name: Vec<u8>,
    pub is_static: bool,
    pub params: Vec<FormalParameter>,
    pub body: StatementList,
}

/// One binding of a `var`, `let` or `const` declaration.
#[derive(Debug, PartialEq, Eq)]
pub struct Declaration {
    pub name: Vec<u8>,
    pub init: Option<Node>,
}

/// One parameter of a function.
#[derive(Debug, PartialEq, Eq)]
pub struct FormalParameter {
    pub name: Vec<u8>,
    pub init: Option<Node>,
    pub is_rest: bool,
}

/// The statements of a script or of a function body, with the names that are
/// bound before the first statement runs: `functions` to the declared
/// functions, `variables` to nothing yet.
#[derive(Debug, PartialEq, Eq)]
pub struct StatementList {
    pub items: Vec<Node>,
    pub functions: Vec<Vec<u8>>,
    pub variables: Vec<Vec<u8>>,
}

/// The mathematical value of a [`Node`].
pub enum NodeV {
    Const(ConstV),
    Identifier(Seq<u8>),
    This,
    Pattern(Seq<u8>, Seq<u8>),
    ArrayDecl(Seq<NodeV>),
    UnaryOp(UnaryOp, Box<NodeV>),
    BinOp(BinOp, Box<NodeV>, Box<NodeV>),
    Assign(Box<NodeV>, Box<NodeV>),
    ConditionalOp(Box<NodeV>, Box<NodeV>, Box<NodeV>),
    Call(Box<NodeV>, Seq<NodeV>),
    New(Box<NodeV>, Seq<NodeV>),
    GetConstField(Box<NodeV>, Seq<u8>),
    GetField(Box<NodeV>, Box<NodeV>),
    Await(Box<NodeV>),
    Yield(Option<Box<NodeV>>, bool),
    FunctionDecl(FunctionKind, Seq<u8>, Seq<FormalParameterV>, StatementListV),
    FunctionExpr(FunctionKind, Option<Seq<u8>>, Seq<FormalParameterV>, StatementListV),
    ArrowFunctionDecl(Seq<FormalParameterV>, StatementListV),
    VarDeclList(Seq<DeclarationV>),
    LetDeclList(Seq<DeclarationV>),
    ConstDeclList(Seq<DeclarationV>),
    Block(Seq<NodeV>),
    If(Box<NodeV>, Box<NodeV>, Option<Box<NodeV>>),
    WhileLoop(Box<NodeV>, Box<NodeV>),
    DoWhileLoop(Box<NodeV>, Box<NodeV>),
    ForLoop(Option<Box<NodeV>>, Option<Box<NodeV>>, Option<Box<NodeV>>, Box<NodeV>),
    Return(Option<Box<NodeV>>),
    Break,
    Continue,
    Throw(Box<NodeV>),
    ClassDecl(Seq<u8>, Option<Box<NodeV>>, Seq<ClassMethodV>),
    Empty,
}

/// The mathematical value of a [`ClassMethod`].
pub struct ClassMethodV {
    pub name: Seq<u8>,
    pub is_static: bool,
    pub params: Seq<FormalParameterV>,
    pub body: StatementListV,
}

/// The mathematical value of a [`Declaration`].
pub struct DeclarationV {
    pub name: Seq<u8>,
    pub init: Option<NodeV>,
}

/// The mathematical value of a [`FormalParameter`].
pub struct FormalParameterV {
    pub name: Seq<u8>,
    pub init: Option<NodeV>,
    pub is_rest: bool,
}

/// The mathematical value of a [`StatementList`].
pub struct StatementListV {
    pub items: Seq<NodeV>,
    pub functions: Seq<Seq<u8>>,
    pub variables: Seq<Seq<u8>>,
}

/// The values of a sequence of byte strings.
pub open spec fn name_views(names: Seq<Vec<u8>>) -> Seq<Seq<u8>> {
    Seq::new(names.len(), |i: int| names[i]@)
}

/// The value of an optional byte string.
pub open spec fn name_option_view(name: Option<Vec<u8>>) -> Option<Seq<u8>> {
    match name {
        Some(n) => Some(n@),
        None => None,
    }
}

impl Node {
    /// The mathematical value of this node.
    #[verifier::opaque]
    pub open spec fn model(&self) -> NodeV
        decreases self,
    {
        match self {
            Node::Const(c) => NodeV::Const(c@),
            Node::Identifier(name) => NodeV::Identifier(name@),
            Node::This => NodeV::This,
            Node::Pattern(body, flags) => NodeV::Pattern(body@, flags@),
            Node::ArrayDecl(items) => NodeV::ArrayDecl(
                Seq::new(
                    items.len() as nat,
                    |i: int| if 0 <= i < items.len() { items[i].model() } else { arbitrary() },
                ),
            ),
            Node::UnaryOp(op, e) => NodeV::UnaryOp(*op, Box::new(e.model())),
            Node::BinOp(op, l, r) => NodeV::BinOp(*op, Box::new(l.model()), Box::new(r.model())),
            Node::Assign(l, r) => NodeV::Assign(Box::new(l.model()), Box::new(r.model())),
            Node::ConditionalOp(c, a, b) => NodeV::ConditionalOp(
                Box::new(c.model()),
                Box::new(a.model()),
                Box::new(b.model()),
            ),
            Node::Call(f, args) => NodeV::Call(
                Box::new(f.model()),
                Seq::new(
                    args.len() as nat,
                    |i: int| if 0 <= i < args.len() { args[i].model() } else { arbitrary() },
                ),
            ),
            Node::New(f, args) => NodeV::New(
                Box::new(f.model()),
                Seq::new(
                    args.len() as nat,
                    |i: int| if 0 <= i < args.len() { args[i].model() } else { arbitrary() },
                ),
            ),
            Node::GetConstField(o, name) => NodeV::GetConstField(Box::new(o.model()), name@),
            Node::GetField(o, k) => NodeV::GetField(Box::new(o.model()), Box::new(k.model())),
            Node::Await(e) => NodeV::Await(Box::new(e.model())),
            Node::Yield(e, delegate) => NodeV::Yield(
                match e {
                    Some(e) => Some(Box::new(e.model())),
                    None => None,
                },
                *delegate,
            ),
            Node::FunctionDecl(kind, name, params, body) => NodeV::FunctionDecl(
                *kind,
                name@,
                Seq::new(
                    params.len() as nat,
                    |i: int| if 0 <= i < params.len() { params[i].model() } else { arbitrary() },
                ),
                body.model(),
            ),
            Node::FunctionExpr(kind, name, params, body) => NodeV::FunctionExpr(
                *kind,
                name_option_view(*name),
                Seq::new(
                    params.len() as nat,
                    |i: int| if 0 <= i < params.len() { params[i].model() } else { arbitrary() },
                ),
                body.model(),
            ),
            Node::ArrowFunctionDecl(params, body) => NodeV::ArrowFunctionDecl(
                Seq::new(
                    params.len() as nat,
                    |i: int| if 0 <= i < params.len() { params[i].model() } else { arbitrary() },
                ),
                body.model(),
            ),
            Node::VarDeclList(decls) => NodeV::VarDeclList(
                Seq::new(
                    decls.len() as nat,
                    |i: int| if 0 <= i < decls.len() { decls[i].model() } else { arbitrary() },
                ),
            ),
            Node::LetDeclList(decls) => NodeV::LetDeclList(
                Seq::new(
                    decls.len() as nat,
                    |i: int| if 0 <= i < decls.len() { decls[i].model() } else { arbitrary() },
                ),
            ),
            Node::ConstDeclList(decls) => NodeV::ConstDeclList(
                Seq::new(
                    decls.len() as nat,
                    |i: int| if 0 <= i < decls.len() { decls[i].model() } else { arbitrary() },
                ),
            ),
            Node::Block(items) => NodeV::Block(
                Seq::new(
                    items.len() as nat,
                    |i: int| if 0 <= i < items.len() { items[i].model() } else { arbitrary() },
                ),
            ),
            Node::If(c, a, b) => NodeV::If(
                Box::new(c.model()),
                Box::new(a.model()),
                match b {
                    Some(b) => Some(Box::new(b.model())),
                    None => None,
                },
            ),
            Node::WhileLoop(c, b) => NodeV::WhileLoop(Box::new(c.model()), Box::new(b.model())),
            Node::DoWhileLoop(b, c) => NodeV::DoWhileLoop(Box::new(b.model()), Box::new(c.model())),
            Node::ForLoop(init, c, step, b) => NodeV::ForLoop(
                match init {
                    Some(e) => Some(Box::new(e.model())),
                    None => None,
                },
                match c {
                    Some(e) => Some(Box::new(e.model())),
                    None => None,
                },
                match step {
                    Some(e) => Some(Box::new(e.model())),
                    None => None,
                },
                Box::new(b.model()),
            ),
            Node::Return(e) => NodeV::Return(
                match e {
                    Some(e) => Some(Box::new(e.model())),
                    None => None,
                },
            ),
            Node::Break => NodeV::Break,
            Node::Continue => NodeV::Continue,
            Node::Throw(e) => NodeV::Throw(Box::new(e.model())),
            Node::ClassDecl(name, heritage, methods) => NodeV::ClassDecl(
                name@,
                match heritage {
                    Some(h) => Some(Box::new(h.model())),
                    None => None,
                },
                Seq::new(
                    methods.len() as nat,
                    |i: int| if 0 <= i < methods.len() { methods[i].model() } else { arbitrary() },
                ),
            ),
            Node::Empty => NodeV::Empty,
        }
    }
}

impl ClassMethod {
    /// The mathematical value of this method.
    pub open spec fn model(&self) -> ClassMethodV
        decreases self,
    {
        ClassMethodV {
            name: self.name@,
            is_static: self.is_static,
            params: Seq::new(
                self.params.len() as nat,
                |i: int| if 0 <= i < self.params.len() { self.params[i].model() } else { arbitrary() },
            ),
            body: self.body.model(),
        }
    }

    /// The method with the given parts.
    pub fn new(name: Vec<u8>, is_static: bool, params: Vec<FormalParameter>, body: StatementList) -> (m:
        ClassMethod)
        ensures
            m@ == (ClassMethodV {
                name: name@,
                is_static,
                params: parameter_views(params@),
                body: body@,
            }),
    {
        let m = ClassMethod { name, is_static, params, body };
        assert(m@.params =~= parameter_views(params@));
        m
    }

    /// The values of the parts of this method.
    pub proof fn lemma_parts(&self)
        ensures
            self@.params == parameter_views(self.params@),
            self@.body == self.body@,
            self@.name == self.name@,
            self@.is_static == self.is_static,
    {
        assert(self@.params =~= parameter_views(self.params@));
    }
}

impl View for ClassMethod {
    type V = ClassMethodV;

    open spec fn view(&self) -> ClassMethodV {
        self.model()
    }
}

/// The values of a sequence of methods.
pub open spec fn method_views(methods: Seq<ClassMethod>) -> Seq<ClassMethodV> {
    Seq::new(methods.len(), |i: int| methods[i]@)
}

/// The values of the methods of a list that one more was pushed on.
pub proof fn lemma_method_views_push(methods: Seq<ClassMethod>, method: ClassMethod)
    ensures
        method_views(methods.push(method)) == method_views(methods).push(method@),
{
    assert(method_views(methods.push(method)) =~= method_views(methods).push(method@));
}

impl Declaration {
    /// The mathematical value of this binding.
    pub open spec fn model(&self) -> DeclarationV
        decreases self,
    {
        DeclarationV {
            name: self.name@,
            init: match self.init {
                Some(e) => Some(e.model()),
                None => None,
            },
        }
    }
}

impl FormalParameter {
    /// The mathematical value of this parameter.
    pub open spec fn model(&self) -> FormalParameterV
        decreases self,
    {
        FormalParameterV {
            name: self.name@,
            init: match self.init {
                Some(e) => Some(e.model()),
                None => None,
            },
            is_rest: self.is_rest,
        }
    }
}

impl StatementList {
    /// The mathematical value of this list.
    pub open spec fn model(&self) -> StatementListV
        decreases self,
    {
        StatementListV {
            items: Seq::new(
                    self.items.len() as nat,
                    |i: int| if 0 <= i < self.items.len() { self.items[i].model() } else { arbitrary() },
                ),
            functions: name_views(self.functions@),
            variables: name_views(self.variables@),
        }
    }
}

impl View for Node {
    type V = NodeV;

    open spec fn view(&self) -> NodeV {
        self.model()
    }
}

impl View for Declaration {
    type V = DeclarationV;

    open spec fn view(&self) -> DeclarationV {
        self.model()
    }
}

impl View for FormalParameter {
    type V = FormalParameterV;

    open spec fn view(&self) -> FormalParameterV {
        self.model()
    }
}

impl View for StatementList {
    type V = StatementListV;

    open spec fn view(&self) -> StatementListV {
        self.model()
    }
}

/// The values of a sequence of nodes.
pub open spec fn node_views(nodes: Seq<Node>) -> Seq<NodeV> {
    Seq::new(nodes.len(), |i: int| nodes[i]@)
}

/// The values of a sequence of bindings.
pub open spec fn declaration_views(decls: Seq<Declaration>) -> Seq<DeclarationV> {
    Seq::new(decls.len(), |i: int| decls[i]@)
}

/// The values of a sequence of parameters.
pub open spec fn parameter_views(params: Seq<FormalParameter>) -> Seq<FormalParameterV> {
    Seq::new(params.len(), |i: int| params[i]@)
}

/// The value of an optional node.
pub open spec fn node_option_view(node: Option<Node>) -> Option<NodeV> {
    match node {
        Some(n) => Some(n@),
        None => None,
    }
}

/// The value of an optional boxed node.
pub open spec fn boxed_option(node: Option<NodeV>) -> Option<Box<NodeV>> {
    match node {
        Some(n) => Some(Box::new(n)),
        None => None,
    }
}

impl Node {
    /// A literal.
    pub fn constant(c: Const) -> (n: Node)
        ensures
            n@ == NodeV::Const(c@),
    {
        reveal(Node::model);
        Node::Const(c)
    }

    /// A reference to the binding `name`.
    pub fn identifier(name: Vec<u8>) -> (n: Node)
        ensures
            n@ == NodeV::Identifier(name@),
    {
        reveal(Node::model);
        Node::Identifier(name)
    }

    /// `this`.
    pub fn this() -> (n: Node)
        ensures
            n@ == NodeV::This,
    {
        reveal(Node::model);
        Node::This
    }

    /// A pattern literal.
    pub fn pattern(body: Vec<u8>, flags: Vec<u8>) -> (n: Node)
        ensures
            n@ == NodeV::Pattern(body@, flags@),
    {
        reveal(Node::model);
        Node::Pattern(body, flags)
    }

    /// `op` applied to `operand`.
    pub fn unary(op: UnaryOp, operand: Node) -> (n: Node)
        ensures
            n@ == NodeV::UnaryOp(op, Box::new(operand@)),
    {
        reveal(Node::model);
        Node::UnaryOp(op, Box::new(operand))
    }

    /// `op` applied to `left` and `right`.
    pub fn binary(op: BinOp, left: Node, right: Node) -> (n: Node)
        ensures
            n@ == NodeV::BinOp(op, Box::new(left@), Box::new(right@)),
    {
        reveal(Node::model);
        Node::BinOp(op, Box::new(left), Box::new(right))
    }

    /// `target = value`.
    pub fn assign(target: Node, value: Node) -> (n: Node)
        ensures
            n@ == NodeV::Assign(Box::new(target@), Box::new(value@)),
    {
        reveal(Node::model);
        Node::Assign(Box::new(target), Box::new(value))
    }

    /// `condition ? a : b`.
    pub fn conditional(condition: Node, a: Node, b: Node) -> (n: Node)
        ensures
            n@ == NodeV::ConditionalOp(Box::new(condition@), Box::new(a@), Box::new(b@)),
    {
        reveal(Node::model);
        Node::ConditionalOp(Box::new(condition), Box::new(a), Box::new(b))
    }

    /// `object.name`.
    pub fn get_const_field(object: Node, name: Vec<u8>) -> (n: Node)
        ensures
            n@ == NodeV::GetConstField(Box::new(object@), name@),
    {
        reveal(Node::model);
        Node::GetConstField(Box::new(object), name)
    }

    /// `object[key]`.
    pub fn get_field(object: Node, key: Node) -> (n: Node)
        ensures
            n@ == NodeV::GetField(Box::new(object@), Box::new(key@)),
    {
        reveal(Node::model);
        Node::GetField(Box::new(object), Box::new(key))
    }

    /// `await operand`.
    pub fn await_expression(operand: Node) -> (n: Node)
        ensures
            n@ == NodeV::Await(Box::new(operand@)),
    {
        reveal(Node::model);
        Node::Await(Box::new(operand))
    }

    /// `yield`, with or without an operand, delegating or not.
    pub fn yield_expression(operand: Option<Node>, delegate: bool) -> (n: Node)
        ensures
            n@ == NodeV::Yield(boxed_option(node_option_view(operand)), delegate),
    {
        reveal(Node::model);
        match operand {
            Some(e) => Node::Yield(Some(Box::new(e)), delegate),
            None => Node::Yield(None, delegate),
        }
    }

    /// `if (condition) consequent`, with or without `else alternate`.
    pub fn if_statement(condition: Node, consequent: Node, alternate: Option<Node>) -> (n: Node)
        ensures
            n@ == NodeV::If(
                Box::new(condition@),
                Box::new(consequent@),
                boxed_option(node_option_view(alternate)),
            ),
    {
        reveal(Node::model);
        match alternate {
            Some(a) => Node::If(Box::new(condition), Box::new(consequent), Some(Box::new(a))),
            None => Node::If(Box::new(condition), Box::new(consequent), None),
        }
    }

    /// `while (condition) body`.
    pub fn while_loop(condition: Node, body: Node) -> (n: Node)
        ensures
            n@ == NodeV::WhileLoop(Box::new(condition@), Box::new(body@)),
    {
        reveal(Node::model);
        Node::WhileLoop(Box::new(condition), Box::new(body))
    }

    /// `do body while (condition)`.
    pub fn do_while_loop(body: Node, condition: Node) -> (n: Node)
        ensures
            n@ == NodeV::DoWhileLoop(Box::new(body@), Box::new(condition@)),
    {
        reveal(Node::model);
        Node::DoWhileLoop(Box::new(body), Box::new(condition))
    }

    /// `for (init; condition; step) body`.
    pub fn for_loop(
        init: Option<Node>,
        condition: Option<Node>,
        step: Option<Node>,
        body: Node,
    ) -> (n: Node)
        ensures
            n@ == NodeV::ForLoop(
                boxed_option(node_option_view(init)),
                boxed_option(node_option_view(condition)),
                boxed_option(node_option_view(step)),
                Box::new(body@),
            ),
    {
        reveal(Node::model);
        Node::ForLoop(boxed(init), boxed(condition), boxed(step), Box::new(body))
    }

    /// `return`, with or without a value.
    pub fn return_statement(value: Option<Node>) -> (n: Node)
        ensures
            n@ == NodeV::Return(boxed_option(node_option_view(value))),
    {
        reveal(Node::model);
        Node::Return(boxed(value))
    }

    /// `break`.
    pub fn break_statement() -> (n: Node)
        ensures
            n@ == NodeV::Break,
    {
        reveal(Node::model);
        Node::Break
    }

    /// `continue`.
    pub fn continue_statement() -> (n: Node)
        ensures
            n@ == NodeV::Continue,
    {
        reveal(Node::model);
        Node::Continue
    }

    /// `throw value`.
    pub fn throw_statement(value: Node) -> (n: Node)
        ensures
            n@ == NodeV::Throw(Box::new(value@)),
    {
        reveal(Node::model);
        Node::Throw(Box::new(value))
    }

    /// A class declaration.
    pub fn class_decl(name: Vec<u8>, heritage: Option<Node>, methods: Vec<ClassMethod>) -> (n: Node)
        ensures
            n@ == NodeV::ClassDecl(
                name@,
                boxed_option(node_option_view(heritage)),
                method_views(methods@),
            ),
    {
        reveal(Node::model);
        let n = Node::ClassDecl(name, boxed(heritage), methods);
        assert(n@->ClassDecl_2 =~= method_views(methods@));
        n
    }

    /// `;` alone.
    pub fn empty() -> (n: Node)
        ensures
            n@ == NodeV::Empty,
    {
        reveal(Node::model);
        Node::Empty
    }

    /// Whether this node is a function declaration.
    pub fn is_function_declaration(&self) -> (r: bool)
        ensures
            r == (self@ is FunctionDecl),
    {
        reveal(Node::model);
        match self {
            Node::FunctionDecl(_, _, _, _) => true,
            _ => false,
        }
    }

    /// `[items]`.
    pub fn array(items: Vec<Node>) -> (n: Node)
        ensures
            n@ == NodeV::ArrayDecl(node_views(items@)),
    {
        reveal(Node::model);
        let n = Node::ArrayDecl(items);
        assert(n@->ArrayDecl_0 =~= node_views(items@));
        n
    }

    /// `callee(args)`.
    pub fn call(callee: Node, args: Vec<Node>) -> (n: Node)
        ensures
            n@ == NodeV::Call(Box::new(callee@), node_views(args@)),
    {
        reveal(Node::model);
        let n = Node::Call(Box::new(callee), args);
        assert(n@->Call_1 =~= node_views(args@));
        n
    }

    /// `new callee(args)`.
    pub fn construct(callee: Node, args: Vec<Node>) -> (n: Node)
        ensures
            n@ == NodeV::New(Box::new(callee@), node_views(args@)),
    {
        reveal(Node::model);
        let n = Node::New(Box::new(callee), args);
        assert(n@->New_1 =~= node_views(args@));
        n
    }

    /// `{ items }`.
    pub fn block(items: Vec<Node>) -> (n: Node)
        ensures
            n@ == NodeV::Block(node_views(items@)),
    {
        reveal(Node::model);
        let n = Node::Block(items);
        assert(n@->Block_0 =~= node_views(items@));
        n
    }

    /// `var` and the bindings `decls`.
    pub fn var_decl_list(decls: Vec<Declaration>) -> (n: Node)
        ensures
            n@ == NodeV::VarDeclList(declaration_views(decls@)),
    {
        reveal(Node::model);
        let n = Node::VarDeclList(decls);
        assert(n@->VarDeclList_0 =~= declaration_views(decls@));
        n
    }

    /// `let` and the bindings `decls`.
    pub fn let_decl_list(decls: Vec<Declaration>) -> (n: Node)
        ensures
            n@ == NodeV::LetDeclList(declaration_views(decls@)),
    {
        reveal(Node::model);
        let n = Node::LetDeclList(decls);
        assert(n@->LetDeclList_0 =~= declaration_views(decls@));
        n
    }

    /// `const` and the bindings `decls`.
    pub fn const_decl_list(decls: Vec<Declaration>) -> (n: Node)
        ensures
            n@ == NodeV::ConstDeclList(declaration_views(decls@)),
    {
        reveal(Node::model);
        let n = Node::ConstDeclList(decls);
        assert(n@->ConstDeclList_0 =~= declaration_views(decls@));
        n
    }

    /// A function declaration.
    pub fn function_decl(
        kind: FunctionKind,
        name: Vec<u8>,
        params: Vec<FormalParameter>,
        body: StatementList,
    ) -> (n: Node)
        ensures
            n@ == NodeV::FunctionDecl(kind, name@, parameter_views(params@), body@),
    {
        reveal(Node::model);
        let n = Node::FunctionDecl(kind, name, params, body);
        assert(n@->FunctionDecl_2 =~= parameter_views(params@));
        n
    }

    /// A function expression.
    pub fn function_expr(
        kind: FunctionKind,
        name: Option<Vec<u8>>,
        params: Vec<FormalParameter>,
        body: StatementList,
    ) -> (n: Node)
        ensures
            n@ == NodeV::FunctionExpr(
                kind,
                name_option_view(name),
                parameter_views(params@),
                body@,
            ),
    {
        reveal(Node::model);
        let n = Node::FunctionExpr(kind, name, params, body);
        assert(n@->FunctionExpr_2 =~= parameter_views(params@));
        n
    }

    /// An arrow function.
    pub fn arrow_function(params: Vec<FormalParameter>, body: StatementList) -> (n: Node)
        ensures
            n@ == NodeV::ArrowFunctionDecl(parameter_views(params@), body@),
    {
        reveal(Node::model);
        let n = Node::ArrowFunctionDecl(params, body);
        assert(n@->ArrowFunctionDecl_0 =~= parameter_views(params@));
        n
    }
}

/// The node in a box, where there is one.
pub fn boxed(node: Option<Node>) -> (b: Option<Box<Node>>)
    ensures
        match b {
            Some(b) => node matches Some(n) && *b == n,
            None => node is None,
        },
{
    match node {
        Some(n) => Some(Box::new(n)),
        None => None,
    }
}

/// The values of the nodes of a list that one more node was pushed on.
pub proof fn lemma_node_views_push(nodes: Seq<Node>, node: Node)
    ensures
        node_views(nodes.push(node)) == node_views(nodes).push(node@),
{
    assert(node_views(nodes.push(node)) =~= node_views(nodes).push(node@));
}

/// The values of the parameters of a list that one more was pushed on.
pub proof fn lemma_parameter_views_push(params: Seq<FormalParameter>, param: FormalParameter)
    ensures
        parameter_views(params.push(param)) == parameter_views(params).push(param@),
{
    assert(parameter_views(params.push(param)) =~= parameter_views(params).push(param@));
}

/// The values of the bindings of a list that one more was pushed on.
pub proof fn lemma_declaration_views_push(decls: Seq<Declaration>, decl: Declaration)
    ensures
        declaration_views(decls.push(decl)) == declaration_views(decls).push(decl@),
{
    assert(declaration_views(decls.push(decl)) =~= declaration_views(decls).push(decl@));
}

impl StatementList {
    /// The values of the items of this list.
    pub proof fn lemma_items(&self)
        ensures
            self@.items == node_views(self.items@),
    {
        reveal(Node::model);
        assert(self@.items =~= node_views(self.items@));
    }
}

} // verus!
