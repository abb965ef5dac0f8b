//! The abstract syntax tree of expressions: a closed tagged union whose
//! composite variants exclusively own their children, and its ghost model.

use vstd::prelude::*;

use crate::token::{Literal, LiteralModel, Token, TokenModel};

verus! {

/// An expression tree.  A `Binary` or `Unary` node keeps the operator token
/// itself, so diagnostics and rendering can use its exact lexeme.
#[derive(Debug)]
pub enum Expression {
    Binary { left: Box<Expression>, operator: Token, right: Box<Expression> },
    Grouping(Box<Expression>),
    Unary { operator: Token, right: Box<Expression> },
    Literal(Literal),
}

/// Ghost model of an expression tree.
pub ghost enum ExprModel {
    Binary { left: Box<ExprModel>, operator: TokenModel, right: Box<ExprModel> },
    Grouping(Box<ExprModel>),
    Unary { operator: TokenModel, right: Box<ExprModel> },
    Literal(LiteralModel),
}

/// The model of an expression tree, one node at a time.
pub open spec fn expr_view(e: Expression) -> ExprModel
    decreases e,
{
    match e {
        Expression::Binary { left, operator, right } => ExprModel::Binary {
            left: Box::new(expr_view(*left)),
            operator: operator@,
            right: Box::new(expr_view(*right)),
        },
        Expression::Grouping(inner) => ExprModel::Grouping(Box::new(expr_view(*inner))),
        Expression::Unary { operator, right } => ExprModel::Unary {
            operator: operator@,
            right: Box::new(expr_view(*right)),
        },
        Expression::Literal(l) => ExprModel::Literal(l@),
    }
}

impl View for Expression {
    type V = ExprModel;

    open spec fn view(&self) -> ExprModel {
        expr_view(*self)
    }
}

/// The view of a whole expression sequence.
pub open spec fn exprs_view(es: Seq<Expression>) -> Seq<ExprModel> {
    es.map_values(|e: Expression| e@)
}

impl Expression {
    pub fn new_binary(left: Box<Expression>, operator: Token, right: Box<Expression>) -> (e:
        Expression)
        ensures
            e@ == (ExprModel::Binary {
                left: Box::new(left@),
                operator: operator@,
                right: Box::new(right@),
            }),
    {
        Expression::Binary { left, operator, right }
    }

    pub fn new_grouping(expression: Expression) -> (e: Expression)
        ensures
            e@ == ExprModel::Grouping(Box::new(expression@)),
    {
        Expression::Grouping(Box::new(expression))
    }

    pub fn new_unary(operator: Token, right: Box<Expression>) -> (e: Expression)
        ensures
            e@ == (ExprModel::Unary { operator: operator@, right: Box::new(right@) }),
    {
        Expression::Unary { operator, right }
    }

    pub fn new_literal(literal: Literal) -> (e: Expression)
        ensures
            e@ == ExprModel::Literal(literal@),
    {
        Expression::Literal(literal)
    }
}

} // verus!
