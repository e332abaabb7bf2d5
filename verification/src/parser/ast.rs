//! The abstract syntax tree and its mathematical model.

use vstd::prelude::*;
use crate::model::option_view;
use crate::model::pair_views;
use crate::model::views;

verus! {

/// A source file: its top-level items, in order.
pub type Ast = Vec<Item>;

/// A top-level declaration.
#[derive(Debug, PartialEq)]
pub enum Item {
    Const { ident: String, ty: Type, value: Expr },
    Function { name: String, params: Vec<Binding>, return_type: Option<Type>, body: Expr },
    Struct { name: String, generic_params: Vec<String>, fields: Vec<Field> },
    Enum { name: String, generic_params: Vec<String>, variants: Vec<Variant> },
}

/// One alternative of an enum declaration.
#[derive(Debug, PartialEq)]
pub enum Variant {
    Unit(String),
    Tuple(String, Vec<Type>),
    Struct(String, Vec<Field>),
}

/// A named, typed member of a struct or of a struct-like variant.
#[derive(Debug, PartialEq)]
pub struct Field {
    pub name: String,
    pub ty: Type,
}

/// A name being introduced, optionally mutable and optionally annotated.
#[derive(Debug, PartialEq)]
pub struct Binding {
    pub mutable: bool,
    pub name: String,
    pub type_annotation: Option<Type>,
}

/// A type expression.
#[derive(Debug, PartialEq, Eq)]
pub enum Type {
    /// `name` or `name<T, U, ...>`
    Ident { name: String, generics: Vec<Type> },
    /// `[T]`
    Array(Box<Type>),
    /// `(T1, T2, ...)`
    Tuple(Vec<Type>),
    /// `fn(T1, ...): R`
    Fn { params: Vec<Type>, result: Box<Type> },
}

/// An expression.
#[allow(inconsistent_fields)]
#[derive(Debug, PartialEq)]
pub enum Expr {
    Literal(Lit),
    Ident(String),
    FnCall { fun: Box<Expr>, args: Vec<Expr> },
    BinaryOp { op: Bop, lhs: Box<Expr>, rhs: Box<Expr> },
    UnaryOp { op: Unop, expr: Box<Expr> },
    If { cond: Box<Expr>, th: Box<Expr>, el: Option<Box<Expr>> },
    Let { binding: Binding, value: Box<Expr> },
    Lambda { params: Vec<Binding>, return_type: Option<Type>, body: Box<Expr> },
    /// `trailing` tells whether the last expression is the block's value.
    Block { exprs: Vec<Expr>, trailing: bool },
}

/// A statement: an expression or a binding, closed by `;`.
#[derive(Debug, PartialEq)]
pub enum Stmt {
    /// `let [mut] ident [: type_annotation] = value;`
    Let { mutable: bool, ident: String, type_annotation: Option<String>, value: Expr },
    /// `ident = value;`
    Assign { ident: String, value: Expr },
    /// `expr;`
    Expr(Expr),
}

/// A literal. A floating-point literal carries its lexeme.
#[derive(Debug, PartialEq)]
pub enum Lit {
    Int(i64),
    Float(String),
    Str(String),
    Char(char),
    Bool(bool),
    Array(Vec<Expr>),
    Tuple(Vec<Expr>),
    /// Key-value pairs, in source order.
    Mapping(Vec<(Expr, Expr)>),
}

/// A binary operator.
#[derive(Debug, Clone, Copy, PartialEq, Eq, Structural)]
pub enum Bop {
    Add,
    Sub,
    Mul,
    Div,
    Exp,
    And,
    Or,
    Xor,
    BOr,
    BAnd,
    Gt,
    Lt,
    Eqq,
    Neq,
    Geq,
    Leq,
    Assign,
}

/// A prefix operator.
#[derive(Debug, Clone, Copy, PartialEq, Eq, Structural)]
pub enum Unop {
    Not,
    Neg,
}

/// Model of a [`Type`].
pub ghost enum TypeView {
    Ident { name: Seq<char>, generics: Seq<TypeView> },
    Array(Box<TypeView>),
    Tuple(Seq<TypeView>),
    Fn { params: Seq<TypeView>, result: Box<TypeView> },
}

/// Model of a [`Field`].
pub ghost struct FieldView {
    pub name: Seq<char>,
    pub ty: TypeView,
}

/// Model of a [`Binding`].
pub ghost struct BindingView {
    pub mutable: bool,
    pub name: Seq<char>,
    pub type_annotation: Option<TypeView>,
}

/// Model of a [`Variant`].
pub ghost enum VariantView {
    Unit(Seq<char>),
    Tuple(Seq<char>, Seq<TypeView>),
    Struct(Seq<char>, Seq<FieldView>),
}

/// Model of an [`Expr`].
#[allow(inconsistent_fields)]
pub ghost enum ExprView {
    Literal(LitView),
    Ident(Seq<char>),
    FnCall { fun: Box<ExprView>, args: Seq<ExprView> },
    BinaryOp { op: Bop, lhs: Box<ExprView>, rhs: Box<ExprView> },
    UnaryOp { op: Unop, expr: Box<ExprView> },
    If { cond: Box<ExprView>, th: Box<ExprView>, el: Option<Box<ExprView>> },
    Let { binding: BindingView, value: Box<ExprView> },
    Lambda { params: Seq<BindingView>, return_type: Option<TypeView>, body: Box<ExprView> },
    Block { exprs: Seq<ExprView>, trailing: bool },
}

/// Model of a [`Lit`].
pub ghost enum LitView {
    Int(int),
    Float(Seq<char>),
    Str(Seq<char>),
    Char(char),
    Bool(bool),
    Array(Seq<ExprView>),
    Tuple(Seq<ExprView>),
    Mapping(Seq<(ExprView, ExprView)>),
}

/// Model of a [`Stmt`].
pub ghost enum StmtView {
    Let { mutable: bool, ident: Seq<char>, type_annotation: Option<Seq<char>>, value: ExprView },
    Assign { ident: Seq<char>, value: ExprView },
    Expr(ExprView),
}

/// Model of an [`Item`].
pub ghost enum ItemView {
    Const { ident: Seq<char>, ty: TypeView, value: ExprView },
    Function { name: Seq<char>, params: Seq<BindingView>, return_type: Option<TypeView>, body: ExprView },
    Struct { name: Seq<char>, generic_params: Seq<Seq<char>>, fields: Seq<FieldView> },
    Enum { name: Seq<char>, generic_params: Seq<Seq<char>>, variants: Seq<VariantView> },
}

/// The model of a type expression.
#[verifier::opaque]
pub open spec fn type_view(ty: Type) -> TypeView
    decreases ty,
{
    match ty {
        Type::Ident { name, generics } => TypeView::Ident {
            name: name@,
            generics: Seq::new(
                generics@.len(),
                |i: int|
                    if 0 <= i < generics@.len() {
                        type_view(generics@[i])
                    } else {
                        TypeView::Tuple(Seq::empty())
                    },
            ),
        },
        Type::Array(inner) => TypeView::Array(Box::new(type_view(*inner))),
        Type::Tuple(members) => TypeView::Tuple(
            Seq::new(
                members@.len(),
                |i: int|
                    if 0 <= i < members@.len() {
                        type_view(members@[i])
                    } else {
                        TypeView::Tuple(Seq::empty())
                    },
            ),
        ),
        Type::Fn { params, result } => TypeView::Fn {
            params: Seq::new(
                params@.len(),
                |i: int|
                    if 0 <= i < params@.len() {
                        type_view(params@[i])
                    } else {
                        TypeView::Tuple(Seq::empty())
                    },
            ),
            result: Box::new(type_view(*result)),
        },
    }
}

impl View for Type {
    type V = TypeView;

    open spec fn view(&self) -> TypeView {
        type_view(*self)
    }
}

impl Type {
    /// The model of a type expression, by its form.
    pub proof fn lemma_view(self)
        ensures
            self@ == (match self {
                Type::Ident { name, generics } => TypeView::Ident {
                    name: name@,
                    generics: views(generics@),
                },
                Type::Array(inner) => TypeView::Array(Box::new((*inner)@)),
                Type::Tuple(members) => TypeView::Tuple(views(members@)),
                Type::Fn { params, result } => TypeView::Fn {
                    params: views(params@),
                    result: Box::new((*result)@),
                },
            }),
    {
        reveal(type_view);
        match self {
            Type::Ident { name, generics } => {
                assert(type_view(self)->Ident_generics =~= views(generics@));
            },
            Type::Array(inner) => {},
            Type::Tuple(members) => {
                assert(type_view(self)->Tuple_0 =~= views(members@));
            },
            Type::Fn { params, result } => {
                assert(type_view(self)->Fn_params =~= views(params@));
            },
        }
    }
}

impl View for Field {
    type V = FieldView;

    open spec fn view(&self) -> FieldView {
        FieldView { name: self.name@, ty: self.ty@ }
    }
}

impl View for Binding {
    type V = BindingView;

    open spec fn view(&self) -> BindingView {
        BindingView {
            mutable: self.mutable,
            name: self.name@,
            type_annotation: option_view(self.type_annotation),
        }
    }
}

impl View for Variant {
    type V = VariantView;

    open spec fn view(&self) -> VariantView {
        match *self {
            Variant::Unit(name) => VariantView::Unit(name@),
            Variant::Tuple(name, members) => VariantView::Tuple(name@, views(members@)),
            Variant::Struct(name, fields) => VariantView::Struct(name@, views(fields@)),
        }
    }
}

/// The model of an expression.
#[verifier::opaque]
pub open spec fn expr_view(expr: Expr) -> ExprView
    decreases expr,
{
    match expr {
        Expr::Literal(lit) => ExprView::Literal(
            match lit {
                Lit::Int(value) => LitView::Int(value as int),
                Lit::Float(lexeme) => LitView::Float(lexeme@),
                Lit::Str(text) => LitView::Str(text@),
                Lit::Char(c) => LitView::Char(c),
                Lit::Bool(b) => LitView::Bool(b),
                Lit::Array(elements) => LitView::Array(
                    Seq::new(
                        elements@.len(),
                        |i: int|
                            if 0 <= i < elements@.len() {
                                expr_view(elements@[i])
                            } else {
                                ExprView::Ident(Seq::empty())
                            },
                    ),
                ),
                Lit::Tuple(elements) => LitView::Tuple(
                    Seq::new(
                        elements@.len(),
                        |i: int|
                            if 0 <= i < elements@.len() {
                                expr_view(elements@[i])
                            } else {
                                ExprView::Ident(Seq::empty())
                            },
                    ),
                ),
                Lit::Mapping(entries) => LitView::Mapping(
                    Seq::new(
                        entries@.len(),
                        |i: int|
                            if 0 <= i < entries@.len() {
                                (expr_view(entries@[i].0), expr_view(entries@[i].1))
                            } else {
                                (ExprView::Ident(Seq::empty()), ExprView::Ident(Seq::empty()))
                            },
                    ),
                ),
            },
        ),
        Expr::Ident(name) => ExprView::Ident(name@),
        Expr::FnCall { fun, args } => ExprView::FnCall {
            fun: Box::new(expr_view(*fun)),
            args: Seq::new(
                args@.len(),
                |i: int|
                    if 0 <= i < args@.len() {
                        expr_view(args@[i])
                    } else {
                        ExprView::Ident(Seq::empty())
                    },
            ),
        },
        Expr::BinaryOp { op, lhs, rhs } => ExprView::BinaryOp {
            op,
            lhs: Box::new(expr_view(*lhs)),
            rhs: Box::new(expr_view(*rhs)),
        },
        Expr::UnaryOp { op, expr } => ExprView::UnaryOp { op, expr: Box::new(expr_view(*expr)) },
        Expr::If { cond, th, el } => ExprView::If {
            cond: Box::new(expr_view(*cond)),
            th: Box::new(expr_view(*th)),
            el: match el {
                Some(alt) => Some(Box::new(expr_view(*alt))),
                None => None,
            },
        },
        Expr::Let { binding, value } => ExprView::Let {
            binding: binding@,
            value: Box::new(expr_view(*value)),
        },
        Expr::Lambda { params, return_type, body } => ExprView::Lambda {
            params: views(params@),
            return_type: option_view(return_type),
            body: Box::new(expr_view(*body)),
        },
        Expr::Block { exprs, trailing } => ExprView::Block {
            exprs: Seq::new(
                exprs@.len(),
                |i: int|
                    if 0 <= i < exprs@.len() {
                        expr_view(exprs@[i])
                    } else {
                        ExprView::Ident(Seq::empty())
                    },
            ),
            trailing,
        },
    }
}

impl View for Expr {
    type V = ExprView;

    open spec fn view(&self) -> ExprView {
        expr_view(*self)
    }
}

impl Expr {
    /// The model of an expression, by its form.
    pub proof fn lemma_view(self)
        ensures
            self@ == (match self {
                Expr::Literal(lit) => ExprView::Literal(lit@),
                Expr::Ident(name) => ExprView::Ident(name@),
                Expr::FnCall { fun, args } => ExprView::FnCall {
                    fun: Box::new((*fun)@),
                    args: views(args@),
                },
                Expr::BinaryOp { op, lhs, rhs } => ExprView::BinaryOp {
                    op,
                    lhs: Box::new((*lhs)@),
                    rhs: Box::new((*rhs)@),
                },
                Expr::UnaryOp { op, expr } => ExprView::UnaryOp { op, expr: Box::new((*expr)@) },
                Expr::If { cond, th, el } => ExprView::If {
                    cond: Box::new((*cond)@),
                    th: Box::new((*th)@),
                    el: match el {
                        Some(alt) => Some(Box::new((*alt)@)),
                        None => None,
                    },
                },
                Expr::Let { binding, value } => ExprView::Let {
                    binding: binding@,
                    value: Box::new((*value)@),
                },
                Expr::Lambda { params, return_type, body } => ExprView::Lambda {
                    params: views(params@),
                    return_type: option_view(return_type),
                    body: Box::new((*body)@),
                },
                Expr::Block { exprs, trailing } => ExprView::Block {
                    exprs: views(exprs@),
                    trailing,
                },
            }),
    {
        reveal(expr_view);
        match self {
            Expr::FnCall { fun, args } => {
                assert(expr_view(self)->FnCall_args =~= views(args@));
            },
            Expr::Block { exprs, trailing } => {
                assert(expr_view(self)->Block_exprs =~= views(exprs@));
            },
            _ => {},
        }
    }
}

impl Lit {
    /// The model of a literal, by its form.
    pub proof fn lemma_view(self)
        ensures
            self matches Lit::Int(value) ==> self@ == LitView::Int(value as int),
            self matches Lit::Float(lexeme) ==> self@ == LitView::Float(lexeme@),
            self matches Lit::Str(text) ==> self@ == LitView::Str(text@),
            self matches Lit::Char(c) ==> self@ == LitView::Char(c),
            self matches Lit::Bool(b) ==> self@ == LitView::Bool(b),
            self matches Lit::Array(elements) ==> self@ == LitView::Array(views(elements@)),
            self matches Lit::Tuple(elements) ==> self@ == LitView::Tuple(views(elements@)),
            self matches Lit::Mapping(entries) ==> self@ == LitView::Mapping(pair_views(entries@)),
    {
        reveal(expr_view);
        match self {
            Lit::Array(elements) => {
                assert(self@->Array_0 =~= views(elements@));
            },
            Lit::Tuple(elements) => {
                assert(self@->Tuple_0 =~= views(elements@));
            },
            Lit::Mapping(entries) => {
                assert(self@->Mapping_0 =~= pair_views(entries@));
            },
            _ => {},
        }
    }
}

impl View for Lit {
    type V = LitView;

    open spec fn view(&self) -> LitView {
        match expr_view(Expr::Literal(*self)) {
            ExprView::Literal(lit) => lit,
            _ => LitView::Bool(false),
        }
    }
}

impl View for Stmt {
    type V = StmtView;

    open spec fn view(&self) -> StmtView {
        match *self {
            Stmt::Let { mutable, ident, type_annotation, value } => StmtView::Let {
                mutable,
                ident: ident@,
                type_annotation: option_view(type_annotation),
                value: value@,
            },
            Stmt::Assign { ident, value } => StmtView::Assign { ident: ident@, value: value@ },
            Stmt::Expr(expr) => StmtView::Expr(expr@),
        }
    }
}

impl From<Lit> for Expr {
    /// The expression that is the literal.
    fn from(value: Lit) -> (expr: Self) {
        Expr::Literal(value)
    }
}

impl vstd::std_specs::convert::FromSpecImpl<Lit> for Expr {
    open spec fn obeys_from_spec() -> bool {
        true
    }

    open spec fn from_spec(value: Lit) -> Self {
        Expr::Literal(value)
    }
}

impl From<Lit> for Box<Expr> {
    /// The expression that is the literal, in a box.
    fn from(value: Lit) -> (expr: Self) {
        Box::new(Expr::Literal(value))
    }
}

impl vstd::std_specs::convert::FromSpecImpl<Lit> for Box<Expr> {
    open spec fn obeys_from_spec() -> bool {
        true
    }

    open spec fn from_spec(value: Lit) -> Self {
        Box::new(Expr::Literal(value))
    }
}

impl View for Item {
    type V = ItemView;

    open spec fn view(&self) -> ItemView {
        match *self {
            Item::Const { ident, ty, value } => ItemView::Const {
                ident: ident@,
                ty: ty@,
                value: value@,
            },
            Item::Function { name, params, return_type, body } => ItemView::Function {
                name: name@,
                params: views(params@),
                return_type: option_view(return_type),
                body: body@,
            },
            Item::Struct { name, generic_params, fields } => ItemView::Struct {
                name: name@,
                generic_params: views(generic_params@),
                fields: views(fields@),
            },
            Item::Enum { name, generic_params, variants } => ItemView::Enum {
                name: name@,
                generic_params: views(generic_params@),
                variants: views(variants@),
            },
        }
    }
}

} // verus!
