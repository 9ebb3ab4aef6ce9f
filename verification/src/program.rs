//! A lowered program: typed function definitions and the solve expression.

use vstd::prelude::*;
use crate::ast::Expr;
use crate::types::Ty;

verus! {

/// A typed parameter, with the brand its bytes carry when it has one.
#[derive(Debug)]
pub struct FunctionParam {
    pub name: String,
    pub ty: Ty,
    pub brand: Option<String>,
}

/// A `defn` with monomorphic types.
#[derive(Debug)]
pub struct FunctionDef {
    pub name: String,
    pub params: Vec<FunctionParam>,
    pub ret_ty: Ty,
    pub ret_brand: Option<String>,
    pub body: Expr,
}

/// A `defasync` with monomorphic types.
#[derive(Debug)]
pub struct AsyncFunctionDef {
    pub name: String,
    pub params: Vec<FunctionParam>,
    pub ret_ty: Ty,
    pub ret_brand: Option<String>,
    pub body: Expr,
}

/// An `extern` function and its signature.
#[derive(Debug)]
pub struct ExternFunctionRef {
    pub name: String,
    pub params: Vec<FunctionParam>,
    pub ret_ty: Ty,
}

/// A whole program.
#[derive(Debug)]
pub struct Program {
    pub functions: Vec<FunctionDef>,
    pub async_functions: Vec<AsyncFunctionDef>,
    pub extern_functions: Vec<ExternFunctionRef>,
    pub solve: Expr,
}

} // verus!
