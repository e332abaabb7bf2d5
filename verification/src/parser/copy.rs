//! Copies of syntax trees: `clone` for the nodes of the tree.

use vstd::prelude::*;
use crate::model::lemma_views_empty;
use crate::model::lemma_views_push;
use crate::model::option_view;
use crate::model::pair_views;
use crate::model::views;
use crate::parser::ast::Binding;
use crate::parser::ast::Expr;
use crate::parser::ast::Field;
use crate::parser::ast::Item;
use crate::parser::ast::Lit;
use crate::parser::ast::Stmt;
use crate::parser::ast::Type;
use crate::parser::ast::Variant;

verus! {

/// A copy of a type expression.
fn copy_type(ty: &Type) -> (copy: Type)
    ensures
        copy@ == ty@,
    decreases ty,
{
    proof {
        ty.lemma_view();
    }
    let copy = match ty {
        Type::Ident { name, generics } => Type::Ident {
            name: name.clone(),
            generics: copy_types(generics),
        },
        Type::Array(inner) => Type::Array(Box::new(copy_type(inner))),
        Type::Tuple(members) => Type::Tuple(copy_types(members)),
        Type::Fn { params, result } => Type::Fn {
            params: copy_types(params),
            result: Box::new(copy_type(result)),
        },
    };
    proof {
        copy.lemma_view();
    }
    copy
}

/// Copies of type expressions, in order.
fn copy_types(types: &Vec<Type>) -> (copies: Vec<Type>)
    ensures
        views(copies@) == views(types@),
    decreases types,
{
    let mut copies: Vec<Type> = Vec::new();
    let mut index: usize = 0;
    proof {
        lemma_views_empty::<Type>();
    }
    while index < types.len()
        invariant
            index <= types.len(),
            views(copies@) == views(types@.subrange(0, index as int)),
        decreases types.len() - index,
    {
        let copy = copy_type(&types[index]);
        proof {
            lemma_views_push(copies@, copy);
            lemma_views_push(types@.subrange(0, index as int), types@[index as int]);
        }
        copies.push(copy);
        index = index + 1;
    }
    copies
}

/// A copy of an optional type expression.
fn copy_optional_type(ty: &Option<Type>) -> (copy: Option<Type>)
    ensures
        option_view(copy) == option_view(*ty),
{
    match ty {
        Some(inner) => Some(copy_type(inner)),
        None => None,
    }
}

/// Copies of names, in order.
fn copy_names(names: &Vec<String>) -> (copies: Vec<String>)
    ensures
        views(copies@) == views(names@),
{
    let mut copies: Vec<String> = Vec::new();
    let mut index: usize = 0;
    proof {
        lemma_views_empty::<String>();
    }
    while index < names.len()
        invariant
            index <= names.len(),
            views(copies@) == views(names@.subrange(0, index as int)),
        decreases names.len() - index,
    {
        let copy = names[index].clone();
        proof {
            lemma_views_push(copies@, copy);
            lemma_views_push(names@.subrange(0, index as int), names@[index as int]);
        }
        copies.push(copy);
        index = index + 1;
    }
    copies
}

/// Copies of bindings, in order.
fn copy_bindings(bindings: &Vec<Binding>) -> (copies: Vec<Binding>)
    ensures
        views(copies@) == views(bindings@),
{
    let mut copies: Vec<Binding> = Vec::new();
    let mut index: usize = 0;
    proof {
        lemma_views_empty::<Binding>();
    }
    while index < bindings.len()
        invariant
            index <= bindings.len(),
            views(copies@) == views(bindings@.subrange(0, index as int)),
        decreases bindings.len() - index,
    {
        let copy = bindings[index].clone();
        proof {
            lemma_views_push(copies@, copy);
            lemma_views_push(bindings@.subrange(0, index as int), bindings@[index as int]);
        }
        copies.push(copy);
        index = index + 1;
    }
    copies
}

/// Copies of fields, in order.
fn copy_fields(fields: &Vec<Field>) -> (copies: Vec<Field>)
    ensures
        views(copies@) == views(fields@),
{
    let mut copies: Vec<Field> = Vec::new();
    let mut index: usize = 0;
    proof {
        lemma_views_empty::<Field>();
    }
    while index < fields.len()
        invariant
            index <= fields.len(),
            views(copies@) == views(fields@.subrange(0, index as int)),
        decreases fields.len() - index,
    {
        let copy = fields[index].clone();
        proof {
            lemma_views_push(copies@, copy);
            lemma_views_push(fields@.subrange(0, index as int), fields@[index as int]);
        }
        copies.push(copy);
        index = index + 1;
    }
    copies
}

/// Copies of variants, in order.
fn copy_variants(variants: &Vec<Variant>) -> (copies: Vec<Variant>)
    ensures
        views(copies@) == views(variants@),
{
    let mut copies: Vec<Variant> = Vec::new();
    let mut index: usize = 0;
    proof {
        lemma_views_empty::<Variant>();
    }
    while index < variants.len()
        invariant
            index <= variants.len(),
            views(copies@) == views(variants@.subrange(0, index as int)),
        decreases variants.len() - index,
    {
        let copy = variants[index].clone();
        proof {
            lemma_views_push(copies@, copy);
            lemma_views_push(variants@.subrange(0, index as int), variants@[index as int]);
        }
        copies.push(copy);
        index = index + 1;
    }
    copies
}

/// A copy of a literal.
fn copy_lit(lit: &Lit) -> (copy: Lit)
    ensures
        copy@ == lit@,
    decreases lit,
{
    proof {
        lit.lemma_view();
    }
    let copy = match lit {
        Lit::Int(value) => Lit::Int(*value),
        Lit::Float(lexeme) => Lit::Float(lexeme.clone()),
        Lit::Str(text) => Lit::Str(text.clone()),
        Lit::Char(c) => Lit::Char(*c),
        Lit::Bool(b) => Lit::Bool(*b),
        Lit::Array(elements) => Lit::Array(copy_exprs(elements)),
        Lit::Tuple(elements) => Lit::Tuple(copy_exprs(elements)),
        Lit::Mapping(entries) => Lit::Mapping(copy_entries(entries)),
    };
    proof {
        copy.lemma_view();
    }
    copy
}

/// A copy of an expression.
fn copy_expr(expr: &Expr) -> (copy: Expr)
    ensures
        copy@ == expr@,
    decreases expr,
{
    proof {
        expr.lemma_view();
    }
    let copy = match expr {
        Expr::Literal(lit) => Expr::Literal(copy_lit(lit)),
        Expr::Ident(name) => Expr::Ident(name.clone()),
        Expr::FnCall { fun, args } => Expr::FnCall {
            fun: Box::new(copy_expr(fun)),
            args: copy_exprs(args),
        },
        Expr::BinaryOp { op, lhs, rhs } => Expr::BinaryOp {
            op: *op,
            lhs: Box::new(copy_expr(lhs)),
            rhs: Box::new(copy_expr(rhs)),
        },
        Expr::UnaryOp { op, expr } => Expr::UnaryOp { op: *op, expr: Box::new(copy_expr(expr)) },
        Expr::If { cond, th, el } => Expr::If {
            cond: Box::new(copy_expr(cond)),
            th: Box::new(copy_expr(th)),
            el: match el {
                Some(alt) => Some(Box::new(copy_expr(alt))),
                None => None,
            },
        },
        Expr::Let { binding, value } => Expr::Let {
            binding: binding.clone(),
            value: Box::new(copy_expr(value)),
        },
        Expr::Lambda { params, return_type, body } => Expr::Lambda {
            params: copy_bindings(params),
            return_type: copy_optional_type(return_type),
            body: Box::new(copy_expr(body)),
        },
        Expr::Block { exprs, trailing } => Expr::Block {
            exprs: copy_exprs(exprs),
            trailing: *trailing,
        },
    };
    proof {
        copy.lemma_view();
    }
    copy
}

/// Copies of expressions, in order.
fn copy_exprs(exprs: &Vec<Expr>) -> (copies: Vec<Expr>)
    ensures
        views(copies@) == views(exprs@),
    decreases exprs,
{
    let mut copies: Vec<Expr> = Vec::new();
    let mut index: usize = 0;
    proof {
        lemma_views_empty::<Expr>();
    }
    while index < exprs.len()
        invariant
            index <= exprs.len(),
            views(copies@) == views(exprs@.subrange(0, index as int)),
        decreases exprs.len() - index,
    {
        let copy = copy_expr(&exprs[index]);
        proof {
            lemma_views_push(copies@, copy);
            lemma_views_push(exprs@.subrange(0, index as int), exprs@[index as int]);
        }
        copies.push(copy);
        index = index + 1;
    }
    copies
}

/// Copies of pairs of expressions, in order.
fn copy_entries(entries: &Vec<(Expr, Expr)>) -> (copies: Vec<(Expr, Expr)>)
    ensures
        pair_views(copies@) == pair_views(entries@),
    decreases entries,
{
    let mut copies: Vec<(Expr, Expr)> = Vec::new();
    let mut index: usize = 0;
    while index < entries.len()
        invariant
            index <= entries.len(),
            copies@.len() == index,
            pair_views(copies@) == pair_views(entries@.subrange(0, index as int)),
        decreases entries.len() - index,
    {
        let key = copy_expr(&entries[index].0);
        let value = copy_expr(&entries[index].1);
        proof {
            let longer = pair_views(copies@.push((key, value)));
            let wanted = pair_views(entries@.subrange(0, index + 1));
            assert forall|i: int| 0 <= i < index + 1 implies longer[i] == wanted[i] by {
                if i < index {
                    assert(pair_views(copies@)[i] == pair_views(
                        entries@.subrange(0, index as int),
                    )[i]);
                }
            }
        }
        copies.push((key, value));
        index = index + 1;
    }
    copies
}

impl Clone for Type {
    fn clone(&self) -> (copy: Self)
        ensures
            copy@ == self@,
    {
        copy_type(self)
    }
}

impl Clone for Field {
    fn clone(&self) -> (copy: Self)
        ensures
            copy@ == self@,
    {
        Field { name: self.name.clone(), ty: copy_type(&self.ty) }
    }
}

impl Clone for Binding {
    fn clone(&self) -> (copy: Self)
        ensures
            copy@ == self@,
    {
        Binding {
            mutable: self.mutable,
            name: self.name.clone(),
            type_annotation: copy_optional_type(&self.type_annotation),
        }
    }
}

impl Clone for Variant {
    fn clone(&self) -> (copy: Self)
        ensures
            copy@ == self@,
    {
        match self {
            Variant::Unit(name) => Variant::Unit(name.clone()),
            Variant::Tuple(name, members) => Variant::Tuple(name.clone(), copy_types(members)),
            Variant::Struct(name, fields) => Variant::Struct(name.clone(), copy_fields(fields)),
        }
    }
}

impl Clone for Lit {
    fn clone(&self) -> (copy: Self)
        ensures
            copy@ == self@,
    {
        copy_lit(self)
    }
}

impl Clone for Expr {
    fn clone(&self) -> (copy: Self)
        ensures
            copy@ == self@,
    {
        copy_expr(self)
    }
}

impl Clone for Stmt {
    fn clone(&self) -> (copy: Self)
        ensures
            copy@ == self@,
    {
        match self {
            Stmt::Let { mutable, ident, type_annotation, value } => Stmt::Let {
                mutable: *mutable,
                ident: ident.clone(),
                type_annotation: match type_annotation {
                    Some(name) => Some(name.clone()),
                    None => None,
                },
                value: copy_expr(value),
            },
            Stmt::Assign { ident, value } => Stmt::Assign {
                ident: ident.clone(),
                value: copy_expr(value),
            },
            Stmt::Expr(expr) => Stmt::Expr(copy_expr(expr)),
        }
    }
}

impl Clone for Item {
    fn clone(&self) -> (copy: Self)
        ensures
            copy@ == self@,
    {
        match self {
            Item::Const { ident, ty, value } => Item::Const {
                ident: ident.clone(),
                ty: copy_type(ty),
                value: copy_expr(value),
            },
            Item::Function { name, params, return_type, body } => Item::Function {
                name: name.clone(),
                params: copy_bindings(params),
                return_type: copy_optional_type(return_type),
                body: copy_expr(body),
            },
            Item::Struct { name, generic_params, fields } => Item::Struct {
                name: name.clone(),
                generic_params: copy_names(generic_params),
                fields: copy_fields(fields),
            },
            Item::Enum { name, generic_params, variants } => Item::Enum {
                name: name.clone(),
                generic_params: copy_names(generic_params),
                variants: copy_variants(variants),
            },
        }
    }
}

} // verus!
