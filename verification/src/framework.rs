//! Calls to the runtime support functions that generated code relies on.

use crate::ast::make::{arg, call, ident, member};
use crate::ast::expr::{Expr, ExprOrSpread};
use crate::ast::view::{
    expr_or_spreads_view, CalleeView, ExprOrSpreadView, ExprView,
};
use vstd::prelude::*;

verus! {

/// The expression `global.<name>(<args>)`.
pub open spec fn spec_call_framework_fn(name: Seq<char>, args: Seq<ExprOrSpreadView>) -> ExprView {
    ExprView::Call {
        callee: CalleeView::Expr(
            Box::new(
                ExprView::Member { obj: Box::new(ExprView::Ident("global"@)), prop: name },
            ),
        ),
        args,
    }
}

/// An argument that is not spread.
pub open spec fn spec_arg(expr: ExprView) -> ExprOrSpreadView {
    ExprOrSpreadView { spread: false, expr }
}

/// The call that turns a value into markup text at run time. It also
/// receives the collector of work to be done after the first flush.
pub open spec fn spec_call_framework_stringify(
    expr: ExprView,
    later_create_ident: Seq<char>,
) -> ExprView {
    spec_call_framework_fn(
        "___FRAMEWORK_JS_STRINGIFY___"@,
        seq![spec_arg(expr), spec_arg(ExprView::Ident(later_create_ident))],
    )
}

/// Builds the call `global.<fn_name>(<args>)`.
pub fn call_framework_fn(fn_name: &str, args: Vec<ExprOrSpread>) -> (r: Expr)
    ensures
        r@ == spec_call_framework_fn(fn_name@, expr_or_spreads_view(args@)),
{
    call(member(ident(String::from_str("global")), fn_name.to_owned()), args)
}

/// Builds the call that turns `expr` into markup text at run time.
pub fn call_framework_stringify(expr: Box<Expr>, later_create_ident: String) -> (r: Expr)
    ensures
        r@ == spec_call_framework_stringify(expr@, later_create_ident@),
{
    let mut args: Vec<ExprOrSpread> = Vec::new();
    args.push(arg(*expr));
    args.push(arg(ident(later_create_ident)));
    proof {
        assert(expr_or_spreads_view(args@) =~= seq![
            spec_arg(expr@),
            spec_arg(ExprView::Ident(later_create_ident@)),
        ]);
    }
    call_framework_fn("___FRAMEWORK_JS_STRINGIFY___", args)
}

} // verus!
