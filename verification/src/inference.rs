//! What the inference walk computes: the type of an expression, and the
//! state of the scopes and registers after a node was walked.

use crate::ast::view::{
    ArrowExprView, AssignTargetView, BlockStmtOrExprView, CalleeView, DeclView, DefaultDeclView,
    ExprOrSpreadView, ExprView, FunctionView, JSXAttrOrSpreadView, JSXAttrValueView,
    JSXElementChildView, JSXElementView, JSXExprView, ModuleItemView, NodeView, PatView,
    PropNameView, PropOrSpreadView, PropView, StmtView, VarDeclaratorView,
};
use crate::error::CompileError;
use crate::export_type::ExportType;
use crate::typecheck::{spec_get_variable_type, TypecheckerView};
use vstd::prelude::*;

verus! {

/// The inferred type of an expression: markup for a markup literal, the
/// awaited type under `await`, the type of the callee for a call, the join
/// of both branches for a conditional, the recorded type for an
/// identifier, the register of the arrow function left last for an arrow
/// function, `Other` for everything else.
pub open spec fn spec_get_expr_type(st: TypecheckerView, e: ExprView) -> ExportType
    decreases e,
{
    match e {
        ExprView::JSXElement(_) => ExportType::JSX,
        ExprView::JSXFragment(_) => ExportType::JSX,
        ExprView::Assign { left, right } => spec_get_expr_type(st, *right),
        ExprView::Await(arg) => spec_get_expr_type(st, *arg).spec_awaited(),
        ExprView::Call { callee, args } => match callee {
            CalleeView::Expr(c) => spec_get_expr_type(st, *c),
            CalleeView::Other => ExportType::Other,
        },
        ExprView::Cond { test, cons, alt } => spec_get_expr_type(st, *cons).spec_gt(
            spec_get_expr_type(st, *alt),
        ),
        ExprView::Arrow(_) => st.last_arrow,
        ExprView::Ident(name) => match spec_get_variable_type(st.scopes, name) {
            Some(t) => t,
            None => ExportType::Other,
        },
        ExprView::Paren(inner) => spec_get_expr_type(st, *inner),
        _ => ExportType::Other,
    }
}

impl TypecheckerView {
    /// The state with a new innermost scope.
    pub open spec fn push_scope(self) -> TypecheckerView {
        TypecheckerView { scopes: self.scopes.push(Map::empty()), ..self }
    }

    /// The state without its innermost scope.
    pub open spec fn pop_scope(self) -> TypecheckerView {
        if self.scopes.len() == 0 {
            self
        } else {
            TypecheckerView { scopes: self.scopes.drop_last(), ..self }
        }
    }

    /// The state with `name` bound to `t` in the innermost scope.
    pub open spec fn bind(self, name: Seq<char>, t: ExportType) -> TypecheckerView {
        if self.scopes.len() == 0 {
            self
        } else {
            TypecheckerView {
                scopes: self.scopes.drop_last().push(self.scopes.last().insert(name, t)),
                ..self
            }
        }
    }

    /// The state with the return-type register set to `t`.
    pub open spec fn with_return_type(self, t: ExportType) -> TypecheckerView {
        TypecheckerView { return_type: t, ..self }
    }
}

/// Whether one of the statements is a `return`. Statements nested in other
/// statements do not count.
pub open spec fn has_return(stmts: Seq<StmtView>) -> bool {
    exists|i: int| 0 <= i < stmts.len() && #[trigger] stmts[i] is Return
}

/// What is known of the type of an arrow function before its body is
/// walked: the type of an expression body, `Other` for a block without a
/// `return`, nothing for a block with one.
#[verifier::opaque]
pub open spec fn arrow_return_type(
    st: TypecheckerView,
    body: BlockStmtOrExprView,
) -> Option<ExportType> {
    match body {
        BlockStmtOrExprView::Expr(e) => Some(spec_get_expr_type(st, *e)),
        BlockStmtOrExprView::BlockStmt(stmts) => if has_return(stmts) {
            None
        } else {
            Some(ExportType::Other)
        },
    }
}

/// The state on entering an arrow function: a new scope.
pub open spec fn enter_arrow(st: TypecheckerView) -> TypecheckerView {
    st.push_scope()
}

/// The state on leaving an arrow function: the return-type register takes
/// the type known beforehand, if any, awaited for an async function; the
/// arrow register takes the same type; the scope is dropped.
#[verifier::opaque]
pub open spec fn exit_arrow(
    st: TypecheckerView,
    known: Option<ExportType>,
    is_async: bool,
) -> TypecheckerView {
    let returned = match known {
        Some(t) => t,
        None => st.return_type,
    };
    let returned = if is_async {
        returned.spec_awaited()
    } else {
        returned
    };
    TypecheckerView { return_type: returned, last_arrow: returned, ..st }.pop_scope()
}

/// The state after an assignment or a declarator was seen: the target, if
/// it is a plain identifier, is bound to the type of the right-hand side.
#[verifier::opaque]
pub open spec fn on_binding(
    st: TypecheckerView,
    target: Option<Seq<char>>,
    value: ExprView,
) -> TypecheckerView {
    match target {
        Some(name) => st.bind(name, spec_get_expr_type(st, value)),
        None => st,
    }
}

/// The state after a `return` was seen: the register takes the type of the
/// returned expression.
#[verifier::opaque]
pub open spec fn on_return(st: TypecheckerView, arg: Option<ExprView>) -> TypecheckerView {
    match arg {
        Some(e) => st.with_return_type(spec_get_expr_type(st, e)),
        None => st,
    }
}

/// The state on entering a function declaration: a new scope.
pub open spec fn enter_fn_decl(st: TypecheckerView) -> TypecheckerView {
    st.push_scope()
}

/// The state on leaving the function declaration `name`: the scope is
/// dropped; a body without a `return` forces the type `Other`; an async
/// function awaits it; the type is recorded under `name` in the enclosing
/// scope.
#[verifier::opaque]
pub open spec fn exit_fn_decl(
    st: TypecheckerView,
    name: Seq<char>,
    body: Option<Seq<StmtView>>,
    is_async: bool,
) -> TypecheckerView {
    let popped = st.pop_scope();
    let forced = match body {
        Some(stmts) => if has_return(stmts) {
            popped
        } else {
            popped.with_return_type(ExportType::Other)
        },
        None => popped,
    };
    if forced.scopes.len() == 0 {
        forced
    } else {
        let returned = if is_async {
            forced.return_type.spec_awaited()
        } else {
            forced.return_type
        };
        forced.with_return_type(returned).bind(name, returned)
    }
}

/// The name a pattern binds, if it is a plain identifier.
pub open spec fn pat_name(p: PatView) -> Option<Seq<char>> {
    match p {
        PatView::Ident(n) => Some(n),
        _ => None,
    }
}

/// The name an assignment target binds, if it is a plain identifier.
pub open spec fn target_name(t: AssignTargetView) -> Option<Seq<char>> {
    match t {
        AssignTargetView::Ident(n) => Some(n),
        _ => None,
    }
}

/// The state after an expression was walked.
pub open spec fn walk_expr(e: ExprView, st: TypecheckerView) -> TypecheckerView
    decreases e, 0nat,
{
    match e {
        ExprView::Lit(_) => st,
        ExprView::Ident(_) => st,
        ExprView::Tpl(t) => walk_exprs(t.exprs, 0, st),
        ExprView::Array(elems) => walk_elems(elems, 0, st),
        ExprView::Object(o) => walk_props(o.props, 0, st),
        ExprView::Call { callee, args } => {
            let called = match callee {
                CalleeView::Expr(c) => walk_expr(*c, st),
                CalleeView::Other => st,
            };
            walk_args(args, 0, called)
        },
        ExprView::Member { obj, prop } => walk_expr(*obj, st),
        ExprView::Await(arg) => walk_expr(*arg, st),
        ExprView::Arrow(a) => walk_arrow(a, st),
        ExprView::Paren(inner) => walk_expr(*inner, st),
        ExprView::Cond { test, cons, alt } => walk_expr(
            *alt,
            walk_expr(*cons, walk_expr(*test, st)),
        ),
        ExprView::Assign { left, right } => {
            let bound = on_binding(st, target_name(left), *right);
            let walked = match left {
                AssignTargetView::Ident(_) => bound,
                AssignTargetView::Other(o) => walk_nodes(o.children, 0, bound),
            };
            walk_expr(*right, walked)
        },
        ExprView::JSXElement(el) => walk_jsx_element(*el, st),
        ExprView::JSXFragment(children) => walk_jsx_children(children, 0, st),
        ExprView::Other(o) => walk_nodes(o.children, 0, st),
    }
}

/// The state after an arrow function was walked: its scope is entered,
/// parameters and body are walked, and the scope is left.
pub open spec fn walk_arrow(a: ArrowExprView, st: TypecheckerView) -> TypecheckerView
    decreases a, 0nat,
{
    let entered = enter_arrow(st);
    let known = arrow_return_type(entered, a.body);
    let params = walk_pats(a.params, 0, entered);
    let body = match a.body {
        BlockStmtOrExprView::Expr(e) => walk_expr(*e, params),
        BlockStmtOrExprView::BlockStmt(stmts) => walk_stmts(stmts, 0, params),
    };
    exit_arrow(body, known, a.is_async)
}

/// The state after the expressions from number `k` on were walked.
pub open spec fn walk_exprs(s: Seq<ExprView>, k: nat, st: TypecheckerView) -> TypecheckerView
    decreases s, s.len() - k,
{
    if k >= s.len() {
        st
    } else {
        walk_exprs(s, k + 1, walk_expr(s[k as int], st))
    }
}

/// The state after the array elements from number `k` on were walked.
pub open spec fn walk_elems(
    s: Seq<Option<ExprOrSpreadView>>,
    k: nat,
    st: TypecheckerView,
) -> TypecheckerView
    decreases s, s.len() - k,
{
    if k >= s.len() {
        st
    } else {
        walk_elems(
            s,
            k + 1,
            match s[k as int] {
                Some(x) => walk_expr(x.expr, st),
                None => st,
            },
        )
    }
}

/// The state after the arguments from number `k` on were walked.
pub open spec fn walk_args(s: Seq<ExprOrSpreadView>, k: nat, st: TypecheckerView) -> TypecheckerView
    decreases s, s.len() - k,
{
    if k >= s.len() {
        st
    } else {
        walk_args(s, k + 1, walk_expr(s[k as int].expr, st))
    }
}

/// The state after the object entries from number `k` on were walked.
pub open spec fn walk_props(s: Seq<PropOrSpreadView>, k: nat, st: TypecheckerView)
    -> TypecheckerView
    decreases s, s.len() - k,
{
    if k >= s.len() {
        st
    } else {
        walk_props(s, k + 1, walk_prop(s[k as int], st))
    }
}

/// The state after an object entry was walked.
pub open spec fn walk_prop(p: PropOrSpreadView, st: TypecheckerView) -> TypecheckerView
    decreases p, 0nat,
{
    match p {
        PropOrSpreadView::Spread(e) => walk_expr(e, st),
        PropOrSpreadView::Prop(PropView::Shorthand(_)) => st,
        PropOrSpreadView::Prop(PropView::KeyValue { key, value }) => {
            let keyed = match key {
                PropNameView::Computed(e) => walk_expr(*e, st),
                _ => st,
            };
            walk_expr(*value, keyed)
        },
        PropOrSpreadView::Prop(PropView::Other(o)) => walk_nodes(o.children, 0, st),
    }
}

/// The state after a pattern was walked.
pub open spec fn walk_pat(p: PatView, st: TypecheckerView) -> TypecheckerView
    decreases p, 0nat,
{
    match p {
        PatView::Ident(_) => st,
        PatView::Array(elems) => walk_opt_pats(elems, 0, st),
        PatView::Other(o) => walk_nodes(o.children, 0, st),
    }
}

/// The state after the patterns from number `k` on were walked.
pub open spec fn walk_pats(s: Seq<PatView>, k: nat, st: TypecheckerView) -> TypecheckerView
    decreases s, s.len() - k,
{
    if k >= s.len() {
        st
    } else {
        walk_pats(s, k + 1, walk_pat(s[k as int], st))
    }
}

/// The state after the elements of an array pattern from number `k` on
/// were walked.
pub open spec fn walk_opt_pats(s: Seq<Option<PatView>>, k: nat, st: TypecheckerView)
    -> TypecheckerView
    decreases s, s.len() - k,
{
    if k >= s.len() {
        st
    } else {
        walk_opt_pats(
            s,
            k + 1,
            match s[k as int] {
                Some(p) => walk_pat(p, st),
                None => st,
            },
        )
    }
}

/// The state after the children of an opaque node from number `k` on were
/// walked.
pub open spec fn walk_nodes(s: Seq<NodeView>, k: nat, st: TypecheckerView) -> TypecheckerView
    decreases s, s.len() - k,
{
    if k >= s.len() {
        st
    } else {
        walk_nodes(
            s,
            k + 1,
            match s[k as int] {
                NodeView::Expr(e) => walk_expr(e, st),
                NodeView::Stmt(x) => walk_stmt(x, st),
                NodeView::Pat(p) => walk_pat(p, st),
            },
        )
    }
}

/// The state after a statement was walked.
pub open spec fn walk_stmt(s: StmtView, st: TypecheckerView) -> TypecheckerView
    decreases s, 0nat,
{
    match s {
        StmtView::Return(arg) => match arg {
            Some(e) => walk_expr(e, on_return(st, arg)),
            None => st,
        },
        StmtView::Decl(d) => walk_decl(d, st),
        StmtView::Expr(e) => walk_expr(e, st),
        StmtView::Other(o) => walk_nodes(o.children, 0, st),
    }
}

/// The state after the statements from number `k` on were walked.
pub open spec fn walk_stmts(s: Seq<StmtView>, k: nat, st: TypecheckerView) -> TypecheckerView
    decreases s, s.len() - k,
{
    if k >= s.len() {
        st
    } else {
        walk_stmts(s, k + 1, walk_stmt(s[k as int], st))
    }
}

/// The state after parameters and body of a function were walked.
pub open spec fn walk_function(f: FunctionView, st: TypecheckerView) -> TypecheckerView
    decreases f, 0nat,
{
    let params = walk_pats(f.params, 0, st);
    match f.body {
        Some(stmts) => walk_stmts(stmts, 0, params),
        None => params,
    }
}

/// The state after a declaration was walked. A function declaration opens
/// a scope of its own and records its type under its name.
pub open spec fn walk_decl(d: DeclView, st: TypecheckerView) -> TypecheckerView
    decreases d, 0nat,
{
    match d {
        DeclView::Class { ident, class } => walk_nodes(class.children, 0, st),
        DeclView::Fn { ident, function } => exit_fn_decl(
            walk_function(function, enter_fn_decl(st)),
            ident,
            function.body,
            function.is_async,
        ),
        DeclView::Var(v) => walk_declarators(v.decls, 0, st),
        DeclView::Other(o) => walk_nodes(o.children, 0, st),
    }
}

/// The state after the declarators from number `k` on were walked.
pub open spec fn walk_declarators(
    s: Seq<VarDeclaratorView>,
    k: nat,
    st: TypecheckerView,
) -> TypecheckerView
    decreases s, s.len() - k,
{
    if k >= s.len() {
        st
    } else {
        walk_declarators(s, k + 1, walk_declarator(s[k as int], st))
    }
}

/// The state after a declarator was walked: the type of the initializer is
/// computed and bound first, then pattern and initializer are walked.
#[verifier::opaque]
pub open spec fn walk_declarator(d: VarDeclaratorView, st: TypecheckerView) -> TypecheckerView
    decreases d, 0nat,
{
    match d.init {
        Some(init) => walk_expr(init, walk_pat(d.name, on_binding(st, pat_name(d.name), init))),
        None => walk_pat(d.name, st),
    }
}

/// The walk of a declarator, written out.
pub proof fn lemma_walk_declarator(d: VarDeclaratorView, st: TypecheckerView)
    ensures
        walk_declarator(d, st) == match d.init {
            Some(init) => walk_expr(
                init,
                walk_pat(d.name, on_binding(st, pat_name(d.name), init)),
            ),
            None => walk_pat(d.name, st),
        },
{
    reveal_with_fuel(walk_declarator, 1);
}

/// The state after a markup element was walked: attributes, then children.
pub open spec fn walk_jsx_element(el: JSXElementView, st: TypecheckerView) -> TypecheckerView
    decreases el, 0nat,
{
    walk_jsx_children(el.children, 0, walk_jsx_attrs(el.attrs, 0, st))
}

/// The state after the attributes from number `k` on were walked.
pub open spec fn walk_jsx_attrs(
    s: Seq<JSXAttrOrSpreadView>,
    k: nat,
    st: TypecheckerView,
) -> TypecheckerView
    decreases s, s.len() - k,
{
    if k >= s.len() {
        st
    } else {
        walk_jsx_attrs(s, k + 1, walk_jsx_attr(s[k as int], st))
    }
}

/// The state after an attribute was walked.
pub open spec fn walk_jsx_attr(a: JSXAttrOrSpreadView, st: TypecheckerView) -> TypecheckerView
    decreases a, 0nat,
{
    match a {
        JSXAttrOrSpreadView::SpreadElement { expr, printed } => walk_expr(*expr, st),
        JSXAttrOrSpreadView::JSXAttr { name, value } => match value {
            Some(JSXAttrValueView::JSXExprContainer(JSXExprView::Expr(e))) => walk_expr(*e, st),
            Some(JSXAttrValueView::JSXElement(el)) => walk_jsx_element(*el, st),
            Some(JSXAttrValueView::JSXFragment(children)) => walk_jsx_children(children, 0, st),
            _ => st,
        },
    }
}

/// The state after the children from number `k` on were walked.
pub open spec fn walk_jsx_children(
    s: Seq<JSXElementChildView>,
    k: nat,
    st: TypecheckerView,
) -> TypecheckerView
    decreases s, s.len() - k,
{
    if k >= s.len() {
        st
    } else {
        walk_jsx_children(s, k + 1, walk_jsx_child(s[k as int], st))
    }
}

/// The state after a child of a markup element was walked.
pub open spec fn walk_jsx_child(c: JSXElementChildView, st: TypecheckerView) -> TypecheckerView
    decreases c, 0nat,
{
    match c {
        JSXElementChildView::JSXText(_) => st,
        JSXElementChildView::JSXExprContainer(JSXExprView::JSXEmptyExpr) => st,
        JSXElementChildView::JSXExprContainer(JSXExprView::Expr(e)) => walk_expr(*e, st),
        JSXElementChildView::JSXSpreadChild(e) => walk_expr(*e, st),
        JSXElementChildView::JSXElement(el) => walk_jsx_element(*el, st),
        JSXElementChildView::JSXFragment(children) => walk_jsx_children(children, 0, st),
    }
}

/// The inference state together with the exports recorded so far.
pub struct InferState {
    pub tc: TypecheckerView,
    pub exports: Map<Seq<char>, ExportType>,
}

/// The type under which the binding `name` is exported: what the scopes
/// record for it, `Other` if nothing.
pub open spec fn exported_type(tc: TypecheckerView, name: Seq<char>) -> ExportType {
    match spec_get_variable_type(tc.scopes, name) {
        Some(t) => t,
        None => ExportType::Other,
    }
}

/// The exports after the plain-identifier bindings of the declarators
/// from number `k` on were recorded.
pub open spec fn export_declarators(
    s: Seq<VarDeclaratorView>,
    k: nat,
    tc: TypecheckerView,
    exports: Map<Seq<char>, ExportType>,
) -> Map<Seq<char>, ExportType>
    decreases s.len() - k,
{
    if k >= s.len() {
        exports
    } else {
        export_declarators(
            s,
            k + 1,
            tc,
            match pat_name(s[k as int].name) {
                Some(n) => exports.insert(n, exported_type(tc, n)),
                None => exports,
            },
        )
    }
}

/// The exports after an exported declaration was recorded: a class or a
/// function under its name, variables under each plain identifier.
/// Type-level declarations export nothing.
pub open spec fn export_decl(
    d: DeclView,
    tc: TypecheckerView,
    exports: Map<Seq<char>, ExportType>,
) -> Map<Seq<char>, ExportType> {
    match d {
        DeclView::Class { ident, class } => exports.insert(ident, exported_type(tc, ident)),
        DeclView::Fn { ident, function } => exports.insert(ident, exported_type(tc, ident)),
        DeclView::Var(v) => export_declarators(v.decls, 0, tc, exports),
        DeclView::Other(_) => exports,
    }
}

/// The exports after a default export was recorded: a named class or
/// function under its name, an anonymous function under `default` with
/// the type in the return-type register. An anonymous class and an
/// interface export nothing.
pub open spec fn export_default_decl(
    d: DefaultDeclView,
    tc: TypecheckerView,
    exports: Map<Seq<char>, ExportType>,
) -> Map<Seq<char>, ExportType> {
    match d {
        DefaultDeclView::Class { ident, class } => match ident {
            Some(n) => exports.insert(n, exported_type(tc, n)),
            None => exports,
        },
        DefaultDeclView::Fn { ident, function } => match ident {
            Some(n) => exports.insert(n, exported_type(tc, n)),
            None => exports.insert("default"@, tc.return_type),
        },
        DefaultDeclView::TsInterfaceDecl => exports,
    }
}

/// The state after a default-exported declaration was walked. Neither a
/// class nor a function expression opens a scope.
pub open spec fn walk_default_decl(d: DefaultDeclView, st: TypecheckerView) -> TypecheckerView {
    match d {
        DefaultDeclView::Class { ident, class } => walk_nodes(class.children, 0, st),
        DefaultDeclView::Fn { ident, function } => walk_function(function, st),
        DefaultDeclView::TsInterfaceDecl => st,
    }
}

/// The state after a top-level item was walked. Re-exporting everything
/// and exporting an expression by default are refused.
pub open spec fn walk_module_item(
    item: ModuleItemView,
    st: InferState,
) -> Result<InferState, CompileError> {
    match item {
        ModuleItemView::ExportAll => Err(CompileError::ExportAll),
        ModuleItemView::ExportDefaultExpr(_) => Err(CompileError::ExportDefaultExpr),
        ModuleItemView::ExportDecl(d) => {
            let tc = walk_decl(d, st.tc);
            Ok(InferState { tc, exports: export_decl(d, tc, st.exports) })
        },
        ModuleItemView::ExportDefaultDecl(d) => {
            let tc = walk_default_decl(d, st.tc);
            Ok(InferState { tc, exports: export_default_decl(d, tc, st.exports) })
        },
        ModuleItemView::Stmt(s) => Ok(InferState { tc: walk_stmt(s, st.tc), exports: st.exports }),
        ModuleItemView::Other(o) => Ok(
            InferState { tc: walk_nodes(o.children, 0, st.tc), exports: st.exports },
        ),
    }
}

/// The state after the top-level items from number `k` on were walked, or
/// the fault of the first item that is refused.
pub open spec fn walk_module_items(
    s: Seq<ModuleItemView>,
    k: nat,
    st: InferState,
) -> Result<InferState, CompileError>
    decreases s.len() - k,
{
    if k >= s.len() {
        Ok(st)
    } else {
        match walk_module_item(s[k as int], st) {
            Err(e) => Err(e),
            Ok(next) => walk_module_items(s, k + 1, next),
        }
    }
}

/// The exports of a module: what the walk of its items records, starting
/// from one empty scope and both registers `Other`.
pub open spec fn spec_infer_exports(
    items: Seq<ModuleItemView>,
    later_create_ident: Seq<char>,
) -> Result<Map<Seq<char>, ExportType>, CompileError> {
    match walk_module_items(
        items,
        0,
        InferState { tc: TypecheckerView::initial(later_create_ident), exports: Map::empty() },
    ) {
        Ok(st) => Ok(st.exports),
        Err(e) => Err(e),
    }
}

} // verus!
