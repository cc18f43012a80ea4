//! The syntax tree that the parser builds and the evaluator walks, and its view: the same
//! tree with every text as a sequence of characters and every list as a sequence.

use vstd::prelude::*;
use std::rc::Rc;
use crate::interpret::{Value, ValueView};

verus! {

/// The statements of a program or of a function body, in order.
pub type Block = Vec<Statement>;

/// The arguments of a call, in order.
pub type ExpressionList = Vec<Expression>;

/// A name in the source.
pub type Identifier = String;

/// A prefix operator.
#[derive(Clone, Copy, Debug, PartialEq, Eq, Structural)]
pub enum UnaryOp {
    Positive,
    Negative,
    LogicalNot,
}

/// An infix operator.
#[derive(Clone, Copy, Debug, PartialEq, Eq, Structural)]
pub enum BinaryOp {
    Add,
    Subtract,
    Multiply,
    Divide,
    LogicalAnd,
    LogicalOr,
}

/// A block with an optional final expression, whose value the block returns.
#[derive(Debug)]
pub struct InnerBlock {
    pub block: Vec<Statement>,
    pub return_exp: Option<Box<Expression>>,
}

/// A statement.
#[derive(Debug)]
pub enum Statement {
    Expression(Expression),
    Declaration(Declaration),
    Throw(Expression),
    If(Expression, InnerBlock, Option<InnerBlock>),
    Empty,
}

/// A declaration of a variable, with an optional initial value, or of a function.
#[derive(Debug)]
pub enum Declaration {
    Variable(Identifier, Option<Expression>),
    Function(Identifier, Rc<Function>),
}

/// An expression.
#[derive(Debug)]
pub enum Expression {
    Assignment(Access, Box<Expression>),
    Access(Access),
    Call(Box<Expression>, ExpressionList),
    Literal(Value),
    Function(Rc<Function>),
    Unary(UnaryOp, Box<Expression>),
    Binary(BinaryOp, Box<Expression>, Box<Expression>),
    Ternary(Box<Expression>, Box<Expression>, Box<Expression>),
    Object(Vec<(String, Expression)>),
    This,
}

/// A place that can be read and written: a property of a value, or a variable.
#[derive(Debug)]
pub enum Access {
    Member(Box<Expression>, Accessor),
    Identifier(Identifier),
}

/// How a property is named: by a fixed name, or by an expression coerced to text.
#[derive(Debug)]
pub enum Accessor {
    Identifier(Identifier),
    Expression(Box<Expression>),
}

/// A function as written: its name if it has one, its parameters, its body and its text.
#[derive(Debug)]
pub struct Function {
    pub id: Option<Identifier>,
    pub parameters: Vec<String>,
    pub body: InnerBlock,
    pub source: String,
}

/// The view of an `InnerBlock`.
pub struct InnerBlockView {
    pub block: Seq<StatementView>,
    pub return_exp: Option<Box<ExpressionView>>,
}

/// The view of a `Statement`.
pub enum StatementView {
    Expression(ExpressionView),
    Declaration(DeclarationView),
    Throw(ExpressionView),
    If(ExpressionView, InnerBlockView, Option<InnerBlockView>),
    Empty,
}

/// The view of a `Declaration`.
pub enum DeclarationView {
    Variable(Seq<char>, Option<ExpressionView>),
    Function(Seq<char>, FunctionView),
}

/// The view of an `Expression`.
pub enum ExpressionView {
    Assignment(AccessView, Box<ExpressionView>),
    Access(AccessView),
    Call(Box<ExpressionView>, Seq<ExpressionView>),
    Literal(ValueView),
    Function(FunctionView),
    Unary(UnaryOp, Box<ExpressionView>),
    Binary(BinaryOp, Box<ExpressionView>, Box<ExpressionView>),
    Ternary(Box<ExpressionView>, Box<ExpressionView>, Box<ExpressionView>),
    Object(Seq<(Seq<char>, ExpressionView)>),
    This,
}

/// The view of an `Access`.
pub enum AccessView {
    Member(Box<ExpressionView>, AccessorView),
    Identifier(Seq<char>),
}

/// The view of an `Accessor`.
pub enum AccessorView {
    Identifier(Seq<char>),
    Expression(Box<ExpressionView>),
}

/// The view of a `Function`.
pub struct FunctionView {
    pub id: Option<Seq<char>>,
    pub parameters: Seq<Seq<char>>,
    pub body: InnerBlockView,
    pub source: Seq<char>,
}

/// The view of an expression: its shape, with every text as a sequence of characters.
pub open spec fn expression_view(e: Expression) -> ExpressionView
    decreases e,
{
    match e {
        Expression::Assignment(lhs, rhs) => ExpressionView::Assignment(
            access_view(lhs),
            Box::new(expression_view(*rhs)),
        ),
        Expression::Access(a) => ExpressionView::Access(access_view(a)),
        Expression::Call(f, arguments) => ExpressionView::Call(
            Box::new(expression_view(*f)),
            expressions_view(arguments),
        ),
        Expression::Literal(v) => ExpressionView::Literal(v@),
        Expression::Function(f) => ExpressionView::Function(function_view(*f)),
        Expression::Unary(op, operand) => ExpressionView::Unary(
            op,
            Box::new(expression_view(*operand)),
        ),
        Expression::Binary(op, left, right) => ExpressionView::Binary(
            op,
            Box::new(expression_view(*left)),
            Box::new(expression_view(*right)),
        ),
        Expression::Ternary(condition, consequent, alternate) => ExpressionView::Ternary(
            Box::new(expression_view(*condition)),
            Box::new(expression_view(*consequent)),
            Box::new(expression_view(*alternate)),
        ),
        Expression::Object(entries) => ExpressionView::Object(entries_view(entries)),
        Expression::This => ExpressionView::This,
    }
}

/// The view of a list of expressions: its shape, with every text as a sequence of characters.
pub open spec fn expressions_view(list: Vec<Expression>) -> Seq<ExpressionView>
    decreases list,
{
    Seq::new(
        list@.len(),
        |i: int|
            if 0 <= i < list@.len() {
                expression_view(list@[i])
            } else {
                ExpressionView::This
            },
    )
}

/// The view of the entries of an object literal: its shape, with every text as a sequence of characters.
pub open spec fn entries_view(entries: Vec<(String, Expression)>) -> Seq<
    (Seq<char>, ExpressionView),
>
    decreases entries,
{
    Seq::new(
        entries@.len(),
        |i: int|
            if 0 <= i < entries@.len() {
                (entries@[i].0@, expression_view(entries@[i].1))
            } else {
                (Seq::empty(), ExpressionView::This)
            },
    )
}

/// The view of a place: its shape, with every text as a sequence of characters.
pub open spec fn access_view(a: Access) -> AccessView
    decreases a,
{
    match a {
        Access::Member(target, accessor) => AccessView::Member(
            Box::new(expression_view(*target)),
            accessor_view(accessor),
        ),
        Access::Identifier(id) => AccessView::Identifier(id@),
    }
}

/// The view of the name of a property: its shape, with every text as a sequence of characters.
pub open spec fn accessor_view(a: Accessor) -> AccessorView
    decreases a,
{
    match a {
        Accessor::Identifier(id) => AccessorView::Identifier(id@),
        Accessor::Expression(e) => AccessorView::Expression(Box::new(expression_view(*e))),
    }
}

/// The view of a function: its shape, with every text as a sequence of characters.
pub open spec fn function_view(f: Function) -> FunctionView
    decreases f,
{
    FunctionView {
        id: match f.id {
            Some(id) => Some(id@),
            None => None,
        },
        parameters: Seq::new(f.parameters@.len(), |i: int| f.parameters@[i]@),
        body: inner_block_view(f.body),
        source: f.source@,
    }
}

/// The view of a block with a final expression: its shape, with every text as a sequence of characters.
pub open spec fn inner_block_view(b: InnerBlock) -> InnerBlockView
    decreases b,
{
    InnerBlockView {
        block: block_view(b.block),
        return_exp: match b.return_exp {
            Some(e) => Some(Box::new(expression_view(*e))),
            None => None,
        },
    }
}

/// The view of a block: its shape, with every text as a sequence of characters.
pub open spec fn block_view(block: Vec<Statement>) -> Seq<StatementView>
    decreases block,
{
    Seq::new(
        block@.len(),
        |i: int|
            if 0 <= i < block@.len() {
                statement_view(block@[i])
            } else {
                StatementView::Empty
            },
    )
}

/// The view of a statement: its shape, with every text as a sequence of characters.
pub open spec fn statement_view(s: Statement) -> StatementView
    decreases s,
{
    match s {
        Statement::Expression(e) => StatementView::Expression(expression_view(e)),
        Statement::Declaration(d) => StatementView::Declaration(declaration_view(d)),
        Statement::Throw(e) => StatementView::Throw(expression_view(e)),
        Statement::If(condition, consequent, alternate) => StatementView::If(
            expression_view(condition),
            inner_block_view(consequent),
            match alternate {
                Some(b) => Some(inner_block_view(b)),
                None => None,
            },
        ),
        Statement::Empty => StatementView::Empty,
    }
}

/// The view of a declaration: its shape, with every text as a sequence of characters.
pub open spec fn declaration_view(d: Declaration) -> DeclarationView
    decreases d,
{
    match d {
        Declaration::Variable(id, init) => DeclarationView::Variable(
            id@,
            match init {
                Some(e) => Some(expression_view(e)),
                None => None,
            },
        ),
        Declaration::Function(id, f) => DeclarationView::Function(id@, function_view(*f)),
    }
}

impl View for Expression {
    type V = ExpressionView;

    open spec fn view(&self) -> ExpressionView {
        expression_view(*self)
    }
}

impl View for Access {
    type V = AccessView;

    open spec fn view(&self) -> AccessView {
        access_view(*self)
    }
}

impl View for Accessor {
    type V = AccessorView;

    open spec fn view(&self) -> AccessorView {
        accessor_view(*self)
    }
}

impl View for Function {
    type V = FunctionView;

    open spec fn view(&self) -> FunctionView {
        function_view(*self)
    }
}

impl View for InnerBlock {
    type V = InnerBlockView;

    open spec fn view(&self) -> InnerBlockView {
        inner_block_view(*self)
    }
}

impl View for Statement {
    type V = StatementView;

    open spec fn view(&self) -> StatementView {
        statement_view(*self)
    }
}

impl View for Declaration {
    type V = DeclarationView;

    open spec fn view(&self) -> DeclarationView {
        declaration_view(*self)
    }
}

} // verus!
