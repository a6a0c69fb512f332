//! Type inference over bindings: the scope stack, the typing of
//! expressions and the handlers that the tree walk calls.

use crate::ast::expr::{
    ArrowExpr, AssignTarget, BlockStmtOrExpr, Callee, Decl, Expr, ExprOrSpread, Function,
    JSXAttrOrSpread, JSXAttrValue, JSXElement, JSXElementChild, JSXExpr, Node, Pat, Prop, PropName,
    PropOrSpread, Stmt, VarDeclarator,
};
use crate::ast::view::{
    expr_or_spreads_view, exprs_view, jsx_attrs_view, jsx_children_view, nodes_view,
    opt_expr_or_spreads_view, opt_pats_view, pats_view, prop_or_spreads_view, stmts_view,
    var_declarators_view, ExprView, StmtView,
};
use crate::export_type::ExportType;
use crate::inference::{
    arrow_return_type, enter_arrow, enter_fn_decl, exit_arrow, exit_fn_decl, has_return,
    on_binding, on_return, lemma_walk_declarator, spec_get_expr_type, walk_arrow, walk_args,
    walk_decl, walk_declarator, walk_declarators, walk_elems, walk_expr, walk_exprs, walk_function,
    walk_jsx_attr, walk_jsx_attrs, walk_jsx_child, walk_jsx_children, walk_jsx_element, walk_nodes,
    walk_opt_pats, walk_pat, walk_pats, walk_prop, walk_props, walk_stmt, walk_stmts,
};
use crate::names::{generate_random_variable_name, is_random_name};
use crate::string_map::StringMap;
use vstd::prelude::*;

verus! {

/// The types of the bindings of one scope, or of the exports of a module.
pub type Exports = StringMap<ExportType>;

/// The key under which an anonymous default export is recorded.
pub const DEFAULT_EXPORT_KEY: &'static str = "default";

/// The maps of a stack of scopes, outermost first.
pub open spec fn scopes_view(scopes: Seq<Exports>) -> Seq<Map<Seq<char>, ExportType>> {
    Seq::new(scopes.len(), |i: int| scopes[i]@)
}

/// The type recorded for `name` in the innermost scope that binds it.
pub open spec fn spec_get_variable_type(
    scopes: Seq<Map<Seq<char>, ExportType>>,
    name: Seq<char>,
) -> Option<ExportType>
    decreases scopes.len(),
{
    if scopes.len() == 0 {
        None
    } else if scopes.last().contains_key(name) {
        Some(scopes.last()[name])
    } else {
        spec_get_variable_type(scopes.drop_last(), name)
    }
}

/// The state of the inference walk: the scope stack and the registers for
/// the type of the function being left and of the arrow function left last.
pub struct TypecheckerCommon {
    pub return_type: ExportType,
    pub later_create_ident: String,
    pub function_variable_types: Vec<Exports>,
    pub last_arrow_function_return_type: ExportType,
}

/// The mathematical value of the inference state.
pub struct TypecheckerView {
    pub return_type: ExportType,
    pub later_create_ident: Seq<char>,
    pub scopes: Seq<Map<Seq<char>, ExportType>>,
    pub last_arrow: ExportType,
}

impl TypecheckerView {
    /// The state a walk starts in: one empty scope, both registers `Other`.
    pub open spec fn initial(later_create_ident: Seq<char>) -> TypecheckerView {
        TypecheckerView {
            return_type: ExportType::Other,
            later_create_ident,
            scopes: seq![Map::empty()],
            last_arrow: ExportType::Other,
        }
    }
}

impl TypecheckerCommon {
    /// The mathematical value of the state.
    pub open spec fn view(&self) -> TypecheckerView {
        TypecheckerView {
            return_type: self.return_type,
            later_create_ident: self.later_create_ident@,
            scopes: scopes_view(self.function_variable_types@),
            last_arrow: self.last_arrow_function_return_type,
        }
    }

    /// The state a walk starts in, with `later_create_ident` as the name of
    /// the collector of deferred work.
    pub fn with_ident(later_create_ident: String) -> (r: TypecheckerCommon)
        ensures
            r@ == TypecheckerView::initial(later_create_ident@),
    {
        let mut scopes: Vec<Exports> = Vec::new();
        scopes.push(StringMap::new());
        let r = TypecheckerCommon {
            return_type: ExportType::Other,
            later_create_ident,
            function_variable_types: scopes,
            last_arrow_function_return_type: ExportType::Other,
        };
        assert(r@.scopes =~= seq![Map::empty()]);
        r
    }

    /// The state a walk starts in, with a fresh name for the collector of
    /// deferred work.
    pub fn new() -> (r: TypecheckerCommon)
        ensures
            is_random_name(r@.later_create_ident, 16),
            r@ == TypecheckerView::initial(r@.later_create_ident),
    {
        TypecheckerCommon::with_ident(generate_random_variable_name(16))
    }

    /// The type recorded for `name` in the innermost scope that binds it.
    pub fn get_variable_type(&self, name: &str) -> (r: Option<ExportType>)
        ensures
            r == spec_get_variable_type(self@.scopes, name@),
    {
        let ghost scopes = self@.scopes;
        let mut i: usize = self.function_variable_types.len();
        assert(scopes.take(i as int) =~= scopes);
        while i > 0
            invariant
                i <= self.function_variable_types.len(),
                scopes == self@.scopes,
                spec_get_variable_type(scopes.take(i as int), name@) == spec_get_variable_type(
                    scopes,
                    name@,
                ),
            decreases i,
        {
            i -= 1;
            assert(scopes.take(i + 1).drop_last() =~= scopes.take(i as int));
            assert(scopes.take(i + 1).last() == self.function_variable_types@[i as int]@);
            match self.function_variable_types[i].get(name) {
                Some(vt) => {
                    return Some(*vt);
                },
                None => {},
            }
        }
        None
    }

    /// The type of the identifier `name`: what the scopes record for it,
    /// `Other` if nothing.
    pub fn is_ident_jsx(&self, name: &str) -> (r: ExportType)
        ensures
            r == match spec_get_variable_type(self@.scopes, name@) {
                Some(t) => t,
                None => ExportType::Other,
            },
    {
        match self.get_variable_type(name) {
            Some(t) => t,
            None => ExportType::Other,
        }
    }
}

/// Whether one of the statements is a `return`.
pub fn any_return(stmts: &Vec<Stmt>) -> (r: bool)
    ensures
        r == has_return(stmts_view(stmts@)),
{
    let mut i: usize = 0;
    while i < stmts.len()
        invariant
            i <= stmts.len(),
            forall|j: int| 0 <= j < i ==> !(#[trigger] stmts_view(stmts@)[j] is Return),
        decreases stmts.len() - i,
    {
        match &stmts[i] {
            Stmt::Return(_) => {
                assert(stmts_view(stmts@)[i as int] is Return);
                return true;
            },
            _ => {},
        }
        i += 1;
    }
    false
}

/// The view of an optional expression.
pub open spec fn opt_expr_view(e: Option<Expr>) -> Option<ExprView> {
    match e {
        Some(x) => Some(x@),
        None => None,
    }
}

/// The views of optional statements of a body.
pub open spec fn opt_stmts_view(body: Option<Vec<Stmt>>) -> Option<Seq<StmtView>> {
    match body {
        Some(stmts) => Some(stmts_view(stmts@)),
        None => None,
    }
}

impl TypecheckerCommon {
    /// The inferred type of an expression.
    pub fn get_expr_type(&self, to_assign_expr: &Expr) -> (r: ExportType)
        ensures
            r == spec_get_expr_type(self@, to_assign_expr@),
        decreases to_assign_expr,
    {
        let ghost ev = to_assign_expr@;
        match to_assign_expr {
            Expr::JSXElement(el) => {
                assert(ev is JSXElement);
                ExportType::JSX
            },
            Expr::JSXFragment(c) => {
                assert(ev is JSXFragment);
                ExportType::JSX
            },
            Expr::Assign { left, right } => {
                assert(ev == ExprView::Assign { left: left@, right: Box::new(right@) });
                self.get_expr_type(right)
            },
            Expr::Await(arg) => {
                assert(ev == ExprView::Await(Box::new(arg@)));
                self.get_expr_type(arg).awaited()
            },
            Expr::Call { callee, args } => {
                assert(ev == ExprView::Call { callee: callee@, args: expr_or_spreads_view(args@) });
                match callee {
                    Callee::Expr(e) => {
                        assert(callee@ == crate::ast::view::CalleeView::Expr(Box::new(e@)));
                        self.get_expr_type(e)
                    },
                    Callee::Other => {
                        assert(callee@ == crate::ast::view::CalleeView::Other);
                        ExportType::Other
                    },
                }
            },
            Expr::Cond { test, cons, alt } => {
                assert(ev == ExprView::Cond {
                    test: Box::new(test@),
                    cons: Box::new(cons@),
                    alt: Box::new(alt@),
                });
                let c = self.get_expr_type(cons);
                let a = self.get_expr_type(alt);
                c.gt(a)
            },
            Expr::Arrow(arrow) => {
                assert(ev is Arrow);
                self.last_arrow_function_return_type
            },
            Expr::Ident(ident) => {
                assert(ev == ExprView::Ident(ident@));
                self.is_ident_jsx(ident.as_str())
            },
            Expr::Paren(inner) => {
                assert(ev == ExprView::Paren(Box::new(inner@)));
                self.get_expr_type(inner)
            },
            Expr::Lit(_) => {
                assert(ev is Lit);
                ExportType::Other
            },
            Expr::Tpl(_) => {
                assert(ev is Tpl);
                ExportType::Other
            },
            Expr::Array(_) => {
                assert(ev is Array);
                ExportType::Other
            },
            Expr::Object(_) => {
                assert(ev is Object);
                ExportType::Other
            },
            Expr::Member { obj, prop } => {
                assert(ev is Member);
                ExportType::Other
            },
            Expr::Other(_) => {
                assert(ev is Other);
                ExportType::Other
            },
        }
    }

    /// Opens a new innermost scope.
    pub fn push_scope(&mut self)
        ensures
            final(self)@ == old(self)@.push_scope(),
    {
        self.function_variable_types.push(StringMap::new());
        assert(self@.scopes =~= old(self)@.scopes.push(Map::empty()));
    }

    /// Drops the innermost scope.
    pub fn pop_scope(&mut self)
        ensures
            final(self)@ == old(self)@.pop_scope(),
    {
        let dropped = self.function_variable_types.pop();
        proof {
            if old(self)@.scopes.len() > 0 {
                assert(self@.scopes =~= old(self)@.scopes.drop_last());
            } else {
                assert(self@.scopes =~= old(self)@.scopes);
            }
        }
    }

    /// Binds `name` to `t` in the innermost scope.
    pub fn bind(&mut self, name: String, t: ExportType)
        ensures
            final(self)@ == old(self)@.bind(name@, t),
    {
        match self.function_variable_types.pop() {
            Some(last) => {
                let mut last = last;
                last.insert(name, t);
                self.function_variable_types.push(last);
                assert(self@.scopes =~= old(self)@.scopes.drop_last().push(
                    old(self)@.scopes.last().insert(name@, t),
                ));
            },
            None => {
                assert(self@.scopes =~= old(self)@.scopes);
            },
        }
    }

    /// Enters an arrow function: opens its scope and says what is known of
    /// its type before its body is walked.
    pub fn enter_arrow_expr(&mut self, body: &BlockStmtOrExpr) -> (known: Option<ExportType>)
        ensures
            final(self)@ == enter_arrow(old(self)@),
            known == arrow_return_type(final(self)@, body@),
    {
        proof {
            reveal(arrow_return_type);
        }
        self.push_scope();
        match body {
            BlockStmtOrExpr::Expr(expr) => Some(self.get_expr_type(expr)),
            BlockStmtOrExpr::BlockStmt(block) => {
                if !any_return(block) {
                    Some(ExportType::Other)
                } else {
                    None
                }
            },
        }
    }

    /// Leaves an arrow function: settles both registers and drops the
    /// scope.
    pub fn exit_arrow_expr(&mut self, known: Option<ExportType>, is_async: bool)
        ensures
            final(self)@ == exit_arrow(old(self)@, known, is_async),
    {
        proof {
            reveal(exit_arrow);
        }
        if let Some(return_type) = known {
            self.return_type = return_type;
        }
        if is_async {
            self.return_type = self.return_type.awaited();
        }
        self.last_arrow_function_return_type = self.return_type;
        self.pop_scope();
    }

    /// Records the binding that an assignment or a declarator makes: the
    /// target, if it is a plain identifier, gets the type of `value`.
    pub fn record_binding(&mut self, target: Option<&String>, value: &Expr)
        ensures
            final(self)@ == on_binding(
                old(self)@,
                match target {
                    Some(n) => Some(n@),
                    None => None,
                },
                value@,
            ),
    {
        proof {
            reveal(on_binding);
        }
        match target {
            Some(name) => {
                let is_jsx = self.get_expr_type(value);
                self.bind(name.clone(), is_jsx);
            },
            None => {},
        }
    }

    /// Records a `return`: the register takes the type of the returned
    /// expression.
    pub fn record_return(&mut self, arg: &Option<Expr>)
        ensures
            final(self)@ == on_return(old(self)@, opt_expr_view(*arg)),
    {
        proof {
            reveal(on_return);
        }
        match arg {
            Some(e) => {
                self.return_type = self.get_expr_type(e);
            },
            None => {},
        }
    }

    /// Walks an arrow function.
    pub fn visit_mut_arrow_expr(&mut self, arrow: &ArrowExpr)
        ensures
            final(self)@ == walk_arrow(arrow@, old(self)@),
        decreases arrow, 0nat,
    {
        assert(arrow@.params == pats_view(arrow.params@));
        assert(arrow@.body == arrow.body@);
        let known = self.enter_arrow_expr(&arrow.body);
        self.visit_pats(&arrow.params);
        match &arrow.body {
            BlockStmtOrExpr::Expr(expr) => {
                assert(arrow.body@ == crate::ast::view::BlockStmtOrExprView::Expr(Box::new(expr@)));
                self.visit_expr(expr);
            },
            BlockStmtOrExpr::BlockStmt(block) => {
                assert(arrow.body@ == crate::ast::view::BlockStmtOrExprView::BlockStmt(
                    stmts_view(block@),
                ));
                self.visit_stmts(block);
            },
        }
        self.exit_arrow_expr(known, arrow.is_async);
    }

    /// Walks an assignment: the binding is recorded first, then target and
    /// right-hand side are walked.
    pub fn visit_mut_assign_expr(&mut self, left: &AssignTarget, right: &Expr)
        ensures
            final(self)@ == walk_expr(
                ExprView::Assign { left: left@, right: Box::new(right@) },
                old(self)@,
            ),
    {
        match left {
            AssignTarget::Ident(name) => {
                assert(left@ == crate::ast::view::AssignTargetView::Ident(name@));
                self.record_binding(Some(name), right);
            },
            AssignTarget::Other(o) => {
                assert(left@ == crate::ast::view::AssignTargetView::Other(o@));
                assert(o@.children == nodes_view(o.children@));
                self.record_binding(None, right);
                self.visit_nodes(&o.children);
            },
        }
        self.visit_expr(right);
    }

    /// Walks a declarator: the binding is recorded first, then pattern and
    /// initializer are walked.
    pub fn visit_mut_var_declarator(&mut self, declarator: &VarDeclarator)
        ensures
            final(self)@ == walk_declarator(declarator@, old(self)@),
        decreases declarator, 0nat,
    {
        proof {
            lemma_walk_declarator(declarator@, old(self)@);
        }
        assert(declarator@.name == declarator.name@);
        match &declarator.init {
            Some(init) => {
                assert(declarator@.init == Some(init@));
                match &declarator.name {
                    Pat::Ident(name) => {
                        assert(declarator.name@ == crate::ast::view::PatView::Ident(name@));
                        self.record_binding(Some(name), init);
                    },
                    Pat::Array(a) => {
                        assert(declarator.name@ is Array);
                        self.record_binding(None, init);
                    },
                    Pat::Other(o) => {
                        assert(declarator.name@ is Other);
                        self.record_binding(None, init);
                    },
                }
                self.visit_pat(&declarator.name);
                self.visit_expr(init);
            },
            None => {
                assert(declarator@.init is None);
                self.visit_pat(&declarator.name);
            },
        }
    }

    /// Walks a `return`: the register takes the type of the returned
    /// expression, then the expression is walked.
    pub fn visit_mut_return_stmt(&mut self, arg: &Option<Expr>)
        ensures
            final(self)@ == walk_stmt(StmtView::Return(opt_expr_view(*arg)), old(self)@),
    {
        match arg {
            Some(e) => {
                self.record_return(arg);
                self.visit_expr(e);
            },
            None => {},
        }
    }

    /// Leaves the function declaration `name`: drops its scope, settles
    /// its type and records it under `name` in the enclosing scope.
    pub fn exit_fn_decl(&mut self, name: &str, body: &Option<Vec<Stmt>>, is_async: bool)
        ensures
            final(self)@ == exit_fn_decl(old(self)@, name@, opt_stmts_view(*body), is_async),
    {
        proof {
            reveal(exit_fn_decl);
        }
        self.pop_scope();
        if let Some(stmts) = body {
            if !any_return(stmts) {
                self.return_type = ExportType::Other;
            }
        }
        if self.function_variable_types.len() > 0 {
            if is_async {
                self.return_type = self.return_type.awaited();
            }
            self.bind(name.to_owned(), self.return_type);
        }
    }

    /// Leaves the function declaration `name` when it is already known
    /// whether its body forces the type `Other`.
    pub(crate) fn exit_fn_decl_known(
        &mut self,
        name: &str,
        forced: bool,
        is_async: bool,
        Ghost(body): Ghost<Option<Seq<StmtView>>>,
    )
        requires
            forced == (body matches Some(stmts) && !has_return(stmts)),
        ensures
            final(self)@ == exit_fn_decl(old(self)@, name@, body, is_async),
    {
        proof {
            reveal(exit_fn_decl);
        }
        self.pop_scope();
        if forced {
            self.return_type = ExportType::Other;
        }
        if self.function_variable_types.len() > 0 {
            if is_async {
                self.return_type = self.return_type.awaited();
            }
            self.bind(name.to_owned(), self.return_type);
        }
    }

    /// Walks a function declaration.
    pub fn visit_mut_fn_decl(&mut self, ident: &str, function: &Function)
        ensures
            final(self)@ == exit_fn_decl(
                walk_function(function@, enter_fn_decl(old(self)@)),
                ident@,
                function@.body,
                function@.is_async,
            ),
    {
        assert(function@.body == opt_stmts_view(function.body));
        self.push_scope();
        self.visit_function(function);
        self.exit_fn_decl(ident, &function.body, function.is_async);
    }

    /// Walks parameters and body of a function.
    pub fn visit_function(&mut self, function: &Function)
        ensures
            final(self)@ == walk_function(function@, old(self)@),
        decreases function, 0nat,
    {
        assert(function@.params == pats_view(function.params@));
        assert(function@.body == opt_stmts_view(function.body));
        self.visit_pats(&function.params);
        match &function.body {
            Some(stmts) => {
                self.visit_stmts(stmts);
            },
            None => {},
        }
    }

    /// Walks an expression.
    pub fn visit_expr(&mut self, e: &Expr)
        ensures
            final(self)@ == walk_expr(e@, old(self)@),
        decreases e, 0nat,
    {
        let ghost ev = e@;
        match e {
            Expr::Lit(l) => {
                assert(ev is Lit);
            },
            Expr::Ident(i) => {
                assert(ev is Ident);
            },
            Expr::Tpl(t) => {
                assert(ev == ExprView::Tpl(t@));
                assert(t@.exprs == exprs_view(t.exprs@));
                self.visit_exprs(&t.exprs);
            },
            Expr::Array(elems) => {
                assert(ev == ExprView::Array(opt_expr_or_spreads_view(elems@)));
                self.visit_elems(elems);
            },
            Expr::Object(o) => {
                assert(ev == ExprView::Object(o@));
                assert(o@.props == prop_or_spreads_view(o.props@));
                self.visit_props(&o.props);
            },
            Expr::Call { callee, args } => {
                assert(ev == ExprView::Call { callee: callee@, args: expr_or_spreads_view(args@) });
                match callee {
                    Callee::Expr(c) => {
                        assert(callee@ == crate::ast::view::CalleeView::Expr(Box::new(c@)));
                        self.visit_expr(c);
                    },
                    Callee::Other => {
                        assert(callee@ == crate::ast::view::CalleeView::Other);
                    },
                }
                self.visit_args(args);
            },
            Expr::Member { obj, prop } => {
                assert(ev == ExprView::Member { obj: Box::new(obj@), prop: prop@ });
                self.visit_expr(obj);
            },
            Expr::Await(arg) => {
                assert(ev == ExprView::Await(Box::new(arg@)));
                self.visit_expr(arg);
            },
            Expr::Arrow(a) => {
                assert(ev == ExprView::Arrow(a@));
                self.visit_mut_arrow_expr(a);
            },
            Expr::Paren(inner) => {
                assert(ev == ExprView::Paren(Box::new(inner@)));
                self.visit_expr(inner);
            },
            Expr::Cond { test, cons, alt } => {
                assert(ev == ExprView::Cond {
                    test: Box::new(test@),
                    cons: Box::new(cons@),
                    alt: Box::new(alt@),
                });
                self.visit_expr(test);
                self.visit_expr(cons);
                self.visit_expr(alt);
            },
            Expr::Assign { left, right } => {
                assert(ev == ExprView::Assign { left: left@, right: Box::new(right@) });
                match left {
                    AssignTarget::Ident(name) => {
                        assert(left@ == crate::ast::view::AssignTargetView::Ident(name@));
                        self.record_binding(Some(name), right);
                    },
                    AssignTarget::Other(o) => {
                        assert(left@ == crate::ast::view::AssignTargetView::Other(o@));
                        assert(o@.children == nodes_view(o.children@));
                        self.record_binding(None, right);
                        self.visit_nodes(&o.children);
                    },
                }
                self.visit_expr(right);
            },
            Expr::JSXElement(el) => {
                assert(ev == ExprView::JSXElement(Box::new(el@)));
                self.visit_jsx_element(el);
            },
            Expr::JSXFragment(children) => {
                assert(ev == ExprView::JSXFragment(jsx_children_view(children@)));
                self.visit_jsx_children(children);
            },
            Expr::Other(o) => {
                assert(ev == ExprView::Other(o@));
                assert(o@.children == nodes_view(o.children@));
                self.visit_nodes(&o.children);
            },
        }
    }

    /// Walks a sequence of expressions.
    pub fn visit_exprs(&mut self, s: &Vec<Expr>)
        ensures
            final(self)@ == walk_exprs(exprs_view(s@), 0, old(self)@),
        decreases s, 0nat,
    {
        let ghost sv = exprs_view(s@);
        let mut i: usize = 0;
        while i < s.len()
            invariant
                i <= s.len(),
                sv == exprs_view(s@),
                decreases_to!(s => s@),
                walk_exprs(sv, i as nat, self@) == walk_exprs(sv, 0, old(self)@),
            decreases s.len() - i,
        {
            let ghost before = self@;
            self.visit_expr(&s[i]);
            i += 1;
        }
    }

    /// Walks the elements of an array literal.
    pub fn visit_elems(&mut self, s: &Vec<Option<ExprOrSpread>>)
        ensures
            final(self)@ == walk_elems(opt_expr_or_spreads_view(s@), 0, old(self)@),
        decreases s, 0nat,
    {
        let ghost sv = opt_expr_or_spreads_view(s@);
        let mut i: usize = 0;
        while i < s.len()
            invariant
                i <= s.len(),
                sv == opt_expr_or_spreads_view(s@),
                decreases_to!(s => s@),
                walk_elems(sv, i as nat, self@) == walk_elems(sv, 0, old(self)@),
            decreases s.len() - i,
        {
            let ghost before = self@;
            match &s[i] {
                Some(x) => {
                    assert(sv[i as int] == Some(x@));
                    assert(x@.expr == x.expr@);
                    self.visit_expr(&x.expr);
                },
                None => {
                    assert(sv[i as int] is None);
                },
            }
            i += 1;
        }
    }

    /// Walks the arguments of a call.
    pub fn visit_args(&mut self, s: &Vec<ExprOrSpread>)
        ensures
            final(self)@ == walk_args(expr_or_spreads_view(s@), 0, old(self)@),
        decreases s, 0nat,
    {
        let ghost sv = expr_or_spreads_view(s@);
        let mut i: usize = 0;
        while i < s.len()
            invariant
                i <= s.len(),
                sv == expr_or_spreads_view(s@),
                decreases_to!(s => s@),
                walk_args(sv, i as nat, self@) == walk_args(sv, 0, old(self)@),
            decreases s.len() - i,
        {
            let ghost before = self@;
            assert(sv[i as int].expr == s[i as int].expr@);
            self.visit_expr(&s[i].expr);
            i += 1;
        }
    }

    /// Walks the entries of an object literal.
    pub fn visit_props(&mut self, s: &Vec<PropOrSpread>)
        ensures
            final(self)@ == walk_props(prop_or_spreads_view(s@), 0, old(self)@),
        decreases s, 0nat,
    {
        let ghost sv = prop_or_spreads_view(s@);
        let mut i: usize = 0;
        while i < s.len()
            invariant
                i <= s.len(),
                sv == prop_or_spreads_view(s@),
                decreases_to!(s => s@),
                walk_props(sv, i as nat, self@) == walk_props(sv, 0, old(self)@),
            decreases s.len() - i,
        {
            let ghost before = self@;
            self.visit_prop(&s[i]);
            i += 1;
        }
    }

    /// Walks an entry of an object literal.
    pub fn visit_prop(&mut self, p: &PropOrSpread)
        ensures
            final(self)@ == walk_prop(p@, old(self)@),
        decreases p, 0nat,
    {
        let ghost pv = p@;
        match p {
            PropOrSpread::Spread(e) => {
                assert(pv == crate::ast::view::PropOrSpreadView::Spread(e@));
                self.visit_expr(e);
            },
            PropOrSpread::Prop(prop) => {
                assert(pv == crate::ast::view::PropOrSpreadView::Prop(prop@));
                match prop {
                    Prop::Shorthand(n) => {
                        assert(prop@ is Shorthand);
                    },
                    Prop::KeyValue { key, value } => {
                        assert(prop@ == crate::ast::view::PropView::KeyValue {
                            key: key@,
                            value: Box::new(value@),
                        });
                        match key {
                            PropName::Computed(e) => {
                                assert(key@ == crate::ast::view::PropNameView::Computed(
                                    Box::new(e@),
                                ));
                                self.visit_expr(e);
                            },
                            PropName::Ident(_) => {
                                assert(key@ is Ident);
                            },
                            PropName::Str(_) => {
                                assert(key@ is Str);
                            },
                            PropName::Num(_) => {
                                assert(key@ is Num);
                            },
                            PropName::BigInt(_) => {
                                assert(key@ is BigInt);
                            },
                        }
                        self.visit_expr(value);
                    },
                    Prop::Other(o) => {
                        assert(prop@ == crate::ast::view::PropView::Other(o@));
                        assert(o@.children == nodes_view(o.children@));
                        self.visit_nodes(&o.children);
                    },
                }
            },
        }
    }

    /// Walks a pattern.
    pub fn visit_pat(&mut self, p: &Pat)
        ensures
            final(self)@ == walk_pat(p@, old(self)@),
        decreases p, 0nat,
    {
        let ghost pv = p@;
        match p {
            Pat::Ident(n) => {
                assert(pv is Ident);
            },
            Pat::Array(elems) => {
                assert(pv == crate::ast::view::PatView::Array(opt_pats_view(elems@)));
                self.visit_opt_pats(elems);
            },
            Pat::Other(o) => {
                assert(pv == crate::ast::view::PatView::Other(o@));
                assert(o@.children == nodes_view(o.children@));
                self.visit_nodes(&o.children);
            },
        }
    }

    /// Walks a sequence of patterns.
    pub fn visit_pats(&mut self, s: &Vec<Pat>)
        ensures
            final(self)@ == walk_pats(pats_view(s@), 0, old(self)@),
        decreases s, 0nat,
    {
        let ghost sv = pats_view(s@);
        let mut i: usize = 0;
        while i < s.len()
            invariant
                i <= s.len(),
                sv == pats_view(s@),
                decreases_to!(s => s@),
                walk_pats(sv, i as nat, self@) == walk_pats(sv, 0, old(self)@),
            decreases s.len() - i,
        {
            let ghost before = self@;
            self.visit_pat(&s[i]);
            i += 1;
        }
    }

    /// Walks the elements of an array pattern.
    pub fn visit_opt_pats(&mut self, s: &Vec<Option<Pat>>)
        ensures
            final(self)@ == walk_opt_pats(opt_pats_view(s@), 0, old(self)@),
        decreases s, 0nat,
    {
        let ghost sv = opt_pats_view(s@);
        let mut i: usize = 0;
        while i < s.len()
            invariant
                i <= s.len(),
                sv == opt_pats_view(s@),
                decreases_to!(s => s@),
                walk_opt_pats(sv, i as nat, self@) == walk_opt_pats(sv, 0, old(self)@),
            decreases s.len() - i,
        {
            let ghost before = self@;
            match &s[i] {
                Some(p) => {
                    assert(sv[i as int] == Some(p@));
                    self.visit_pat(p);
                },
                None => {
                    assert(sv[i as int] is None);
                },
            }
            i += 1;
        }
    }

    /// Walks the children of an opaque node.
    pub fn visit_nodes(&mut self, s: &Vec<Node>)
        ensures
            final(self)@ == walk_nodes(nodes_view(s@), 0, old(self)@),
        decreases s, 0nat,
    {
        let ghost sv = nodes_view(s@);
        let mut i: usize = 0;
        while i < s.len()
            invariant
                i <= s.len(),
                sv == nodes_view(s@),
                decreases_to!(s => s@),
                walk_nodes(sv, i as nat, self@) == walk_nodes(sv, 0, old(self)@),
            decreases s.len() - i,
        {
            let ghost before = self@;
            match &s[i] {
                Node::Expr(e) => {
                    assert(sv[i as int] == crate::ast::view::NodeView::Expr(e@));
                    self.visit_expr(e);
                },
                Node::Stmt(x) => {
                    assert(sv[i as int] == crate::ast::view::NodeView::Stmt(x@));
                    self.visit_stmt(x);
                },
                Node::Pat(p) => {
                    assert(sv[i as int] == crate::ast::view::NodeView::Pat(p@));
                    self.visit_pat(p);
                },
            }
            i += 1;
        }
    }

    /// Walks a statement.
    pub fn visit_stmt(&mut self, s: &Stmt)
        ensures
            final(self)@ == walk_stmt(s@, old(self)@),
        decreases s, 0nat,
    {
        let ghost sv = s@;
        match s {
            Stmt::Return(arg) => {
                assert(sv == StmtView::Return(opt_expr_view(*arg)));
                match arg {
                    Some(e) => {
                        self.record_return(arg);
                        self.visit_expr(e);
                    },
                    None => {},
                }
            },
            Stmt::Decl(d) => {
                assert(sv == StmtView::Decl(d@));
                self.visit_decl(d);
            },
            Stmt::Expr(e) => {
                assert(sv == StmtView::Expr(e@));
                self.visit_expr(e);
            },
            Stmt::Other(o) => {
                assert(sv == StmtView::Other(o@));
                assert(o@.children == nodes_view(o.children@));
                self.visit_nodes(&o.children);
            },
        }
    }

    /// Walks a sequence of statements.
    pub fn visit_stmts(&mut self, s: &Vec<Stmt>)
        ensures
            final(self)@ == walk_stmts(stmts_view(s@), 0, old(self)@),
        decreases s, 0nat,
    {
        let ghost sv = stmts_view(s@);
        let mut i: usize = 0;
        while i < s.len()
            invariant
                i <= s.len(),
                sv == stmts_view(s@),
                decreases_to!(s => s@),
                walk_stmts(sv, i as nat, self@) == walk_stmts(sv, 0, old(self)@),
            decreases s.len() - i,
        {
            let ghost before = self@;
            self.visit_stmt(&s[i]);
            i += 1;
        }
    }

    /// Walks a declaration.
    pub fn visit_decl(&mut self, d: &Decl)
        ensures
            final(self)@ == walk_decl(d@, old(self)@),
        decreases d, 0nat,
    {
        let ghost dv = d@;
        match d {
            Decl::Class { ident, class } => {
                assert(dv == crate::ast::view::DeclView::Class { ident: ident@, class: class@ });
                assert(class@.children == nodes_view(class.children@));
                self.visit_nodes(&class.children);
            },
            Decl::Fn { ident, function } => {
                assert(dv == crate::ast::view::DeclView::Fn {
                    ident: ident@,
                    function: function@,
                });
                assert(function@.body == opt_stmts_view(function.body));
                self.push_scope();
                self.visit_function(function);
                self.exit_fn_decl(ident.as_str(), &function.body, function.is_async);
            },
            Decl::Var(v) => {
                assert(dv == crate::ast::view::DeclView::Var(v@));
                assert(v@.decls == var_declarators_view(v.decls@));
                self.visit_declarators(&v.decls);
            },
            Decl::Other(o) => {
                assert(dv == crate::ast::view::DeclView::Other(o@));
                assert(o@.children == nodes_view(o.children@));
                self.visit_nodes(&o.children);
            },
        }
    }

    /// Walks the declarators of a variable declaration.
    pub fn visit_declarators(&mut self, s: &Vec<VarDeclarator>)
        ensures
            final(self)@ == walk_declarators(var_declarators_view(s@), 0, old(self)@),
        decreases s, 0nat,
    {
        let ghost sv = var_declarators_view(s@);
        let mut i: usize = 0;
        while i < s.len()
            invariant
                i <= s.len(),
                sv == var_declarators_view(s@),
                decreases_to!(s => s@),
                walk_declarators(sv, i as nat, self@) == walk_declarators(sv, 0, old(self)@),
            decreases s.len() - i,
        {
            let ghost before = self@;
            self.visit_mut_var_declarator(&s[i]);
            i += 1;
        }
    }

    /// Walks a markup element: attributes, then children.
    pub fn visit_jsx_element(&mut self, el: &JSXElement)
        ensures
            final(self)@ == walk_jsx_element(el@, old(self)@),
        decreases el, 0nat,
    {
        assert(el@.attrs == jsx_attrs_view(el.attrs@));
        assert(el@.children == jsx_children_view(el.children@));
        self.visit_jsx_attrs(&el.attrs);
        self.visit_jsx_children(&el.children);
    }

    /// Walks the attributes of a markup element.
    pub fn visit_jsx_attrs(&mut self, s: &Vec<JSXAttrOrSpread>)
        ensures
            final(self)@ == walk_jsx_attrs(jsx_attrs_view(s@), 0, old(self)@),
        decreases s, 0nat,
    {
        let ghost sv = jsx_attrs_view(s@);
        let mut i: usize = 0;
        while i < s.len()
            invariant
                i <= s.len(),
                sv == jsx_attrs_view(s@),
                decreases_to!(s => s@),
                walk_jsx_attrs(sv, i as nat, self@) == walk_jsx_attrs(sv, 0, old(self)@),
            decreases s.len() - i,
        {
            let ghost before = self@;
            self.visit_jsx_attr(&s[i]);
            i += 1;
        }
    }

    /// Walks an attribute of a markup element.
    pub fn visit_jsx_attr(&mut self, a: &JSXAttrOrSpread)
        ensures
            final(self)@ == walk_jsx_attr(a@, old(self)@),
        decreases a, 0nat,
    {
        let ghost av = a@;
        match a {
            JSXAttrOrSpread::SpreadElement { expr, printed } => {
                assert(av == crate::ast::view::JSXAttrOrSpreadView::SpreadElement {
                    expr: Box::new(expr@),
                    printed: printed@,
                });
                self.visit_expr(expr);
            },
            JSXAttrOrSpread::JSXAttr { name, value } => {
                assert(av == crate::ast::view::JSXAttrOrSpreadView::JSXAttr {
                    name: name@,
                    value: crate::ast::view::opt_attr_value_view(*value),
                });
                match value {
                    Some(v) => match v {
                        JSXAttrValue::JSXExprContainer(c) => {
                            assert(v@ == crate::ast::view::JSXAttrValueView::JSXExprContainer(c@));
                            match c {
                                JSXExpr::Expr(e) => {
                                    assert(c@ == crate::ast::view::JSXExprView::Expr(Box::new(e@)));
                                    self.visit_expr(e);
                                },
                                JSXExpr::JSXEmptyExpr => {
                                    assert(c@ is JSXEmptyExpr);
                                },
                            }
                        },
                        JSXAttrValue::JSXElement(el) => {
                            assert(v@ == crate::ast::view::JSXAttrValueView::JSXElement(
                                Box::new(el@),
                            ));
                            self.visit_jsx_element(el);
                        },
                        JSXAttrValue::JSXFragment(children) => {
                            assert(v@ == crate::ast::view::JSXAttrValueView::JSXFragment(
                                jsx_children_view(children@),
                            ));
                            self.visit_jsx_children(children);
                        },
                        JSXAttrValue::Lit(l) => {
                            assert(v@ is Lit);
                        },
                    },
                    None => {},
                }
            },
        }
    }

    /// Walks the children of a markup element or fragment.
    pub fn visit_jsx_children(&mut self, s: &Vec<JSXElementChild>)
        ensures
            final(self)@ == walk_jsx_children(jsx_children_view(s@), 0, old(self)@),
        decreases s, 0nat,
    {
        let ghost sv = jsx_children_view(s@);
        let mut i: usize = 0;
        while i < s.len()
            invariant
                i <= s.len(),
                sv == jsx_children_view(s@),
                decreases_to!(s => s@),
                walk_jsx_children(sv, i as nat, self@) == walk_jsx_children(sv, 0, old(self)@),
            decreases s.len() - i,
        {
            let ghost before = self@;
            self.visit_jsx_child(&s[i]);
            i += 1;
        }
    }

    /// Walks a child of a markup element.
    pub fn visit_jsx_child(&mut self, c: &JSXElementChild)
        ensures
            final(self)@ == walk_jsx_child(c@, old(self)@),
        decreases c, 0nat,
    {
        let ghost cv = c@;
        match c {
            JSXElementChild::JSXText(t) => {
                assert(cv is JSXText);
            },
            JSXElementChild::JSXExprContainer(container) => {
                assert(cv == crate::ast::view::JSXElementChildView::JSXExprContainer(container@));
                match container {
                    JSXExpr::JSXEmptyExpr => {
                        assert(container@ is JSXEmptyExpr);
                    },
                    JSXExpr::Expr(e) => {
                        assert(container@ == crate::ast::view::JSXExprView::Expr(Box::new(e@)));
                        self.visit_expr(e);
                    },
                }
            },
            JSXElementChild::JSXSpreadChild(e) => {
                assert(cv == crate::ast::view::JSXElementChildView::JSXSpreadChild(Box::new(e@)));
                self.visit_expr(e);
            },
            JSXElementChild::JSXElement(el) => {
                assert(cv == crate::ast::view::JSXElementChildView::JSXElement(Box::new(el@)));
                self.visit_jsx_element(el);
            },
            JSXElementChild::JSXFragment(children) => {
                assert(cv == crate::ast::view::JSXElementChildView::JSXFragment(
                    jsx_children_view(children@),
                ));
                self.visit_jsx_children(children);
            },
        }
    }
}

} // verus!
