//! Top-level assembly: the expression that yields the markup available at
//! once together with the continuation that streams every deferred
//! component into its placeholder.

use crate::ast::expr::{Expr, ExprOrSpread, JSXElement, Pat, Stmt};
use crate::ast::make::{
    arg, array, arrow_block, arrow_expr, call, const_decl, expr_stmt, ident, lit_regex, lit_str,
    member, paren, pat_array, pat_ident, return_stmt, tpl,
};
use crate::ast::view::{
    expr_or_spreads_view, opt_expr_or_spreads_view, opt_pats_view, pats_view, stmts_view,
    ArrowExprView, BlockStmtOrExprView, CalleeView, DeclView, ExprOrSpreadView, ExprView,
    JSXElementView, LitView, PatView, RegexView, StmtView, VarDeclView, VarDeclaratorView,
};
use crate::ast::expr::VarDeclKind;
use crate::error::CompileError;
use crate::framework::spec_arg;
use crate::lowering::{
    extends, spec_lower_element, LowerCtx, LowerState, ProcessedView,
};
use crate::names::{generate_random_variable_name, is_random_name};
use crate::style_name::{StyleNameCache, StyleNameCacheView};
use crate::text::concat3;
use crate::tpl_wrapper::{TplWrapper, TplWrapperView};
use crate::transpiler::{deferred_view, lower_element, Processed, ToCreateAsync, TranspileVisitor};
use vstd::prelude::*;

verus! {

/// The names that the streaming code of one top-level markup expression
/// binds.
pub struct StreamNames {
    /// The stream controller, parameter of the continuation.
    pub controller: String,
    /// The markup that a deferred component resolved to.
    pub html: String,
    /// The hydration function that a deferred component resolved to.
    pub later_fn: String,
    /// The array of pending promises.
    pub array: String,
    /// The parameter of the function that starts the queued callables.
    pub map_var: String,
}

/// The mathematical value of the names.
pub struct StreamNamesView {
    pub controller: Seq<char>,
    pub html: Seq<char>,
    pub later_fn: Seq<char>,
    pub array: Seq<char>,
    pub map_var: Seq<char>,
}

impl StreamNames {
    /// The mathematical value.
    pub open spec fn view(&self) -> StreamNamesView {
        StreamNamesView {
            controller: self.controller@,
            html: self.html@,
            later_fn: self.later_fn@,
            array: self.array@,
            map_var: self.map_var@,
        }
    }

    /// Five fresh names.
    pub fn generate() -> (r: StreamNames)
        ensures
            r@.fresh(),
    {
        let controller = generate_random_variable_name(12);
        let html = generate_random_variable_name(12);
        let later_fn = generate_random_variable_name(12);
        let array = generate_random_variable_name(12);
        let map_var = generate_random_variable_name(12);
        StreamNames { controller, html, later_fn, array, map_var }
    }
}

impl StreamNamesView {
    /// Every name has the shape of a generated name.
    pub open spec fn fresh(self) -> bool {
        &&& is_random_name(self.controller, 12)
        &&& is_random_name(self.html, 12)
        &&& is_random_name(self.later_fn, 12)
        &&& is_random_name(self.array, 12)
        &&& is_random_name(self.map_var, 12)
    }
}

/// `callee(args)` with an expression as callee.
pub open spec fn call_of(callee: ExprView, args: Seq<ExprOrSpreadView>) -> ExprView {
    ExprView::Call { callee: CalleeView::Expr(Box::new(callee)), args }
}

/// `obj.prop`
pub open spec fn member_of(obj: ExprView, prop: Seq<char>) -> ExprView {
    ExprView::Member { obj: Box::new(obj), prop }
}

/// `const name = init;`
pub open spec fn const_of(name: PatView, init: ExprView) -> StmtView {
    StmtView::Decl(
        DeclView::Var(
            VarDeclView {
                kind: VarDeclKind::Const,
                decls: seq![VarDeclaratorView { name, init: Some(init) }],
            },
        ),
    )
}

/// An arrow function with a block as body.
pub open spec fn arrow_of(params: Seq<PatView>, stmts: Seq<StmtView>, is_async: bool) -> ExprView {
    ExprView::Arrow(
        ArrowExprView { params, body: BlockStmtOrExprView::BlockStmt(stmts), is_async },
    )
}

/// The opening of the script that replaces the placeholder `id`, up to the
/// backtick that opens the markup.
pub open spec fn script_open(script_id: Seq<char>, id: Seq<char>) -> Seq<char> {
    "<script id=\""@ + script_id + "\">document.getElementById(\""@ + id + "\").outerHTML = \\`"@
}

/// The end of the script: the closing backtick and the removal of the
/// script element itself.
pub open spec fn script_close(script_id: Seq<char>) -> Seq<char> {
    "\\`;document.getElementById(\""@ + script_id + "\").remove();</script>"@
}

/// `html.replace(/`/mg, "\\`")`: the markup with its backticks escaped.
pub open spec fn escape_backticks(html: Seq<char>) -> ExprView {
    call_of(
        member_of(ExprView::Ident(html), "replace"@),
        seq![
            spec_arg(ExprView::Lit(LitView::Regex(RegexView { exp: "`"@, flags: "mg"@ }))),
            spec_arg(ExprView::Lit(LitView::Str("\\`"@))),
        ],
    )
}

/// The statement that starts one deferred creation at once and collects its
/// promise: an async callable awaits the component, enqueues the script
/// that replaces the placeholder, and returns the call of the hydration
/// function.
pub open spec fn deferred_stmt(
    names: StreamNamesView,
    entry: (Seq<char>, ExprView),
    script_id: Seq<char>,
) -> StmtView {
    let decl = const_of(
        PatView::Array(
            seq![Some(PatView::Ident(names.html)), Some(PatView::Ident(names.later_fn))],
        ),
        entry.1,
    );
    let script = TplWrapperView::empty().append_quasi(script_open(script_id, entry.0)).append_expr(
        escape_backticks(names.html),
    ).append_quasi(script_close(script_id)).build();
    let enqueue = StmtView::Expr(
        call_of(
            member_of(ExprView::Ident(names.controller), "enqueue"@),
            seq![spec_arg(ExprView::Tpl(script))],
        ),
    );
    let later = StmtView::Return(
        Some(
            call_of(
                ExprView::Ident(names.later_fn),
                seq![spec_arg(ExprView::Ident(names.controller))],
            ),
        ),
    );
    StmtView::Expr(
        call_of(
            member_of(ExprView::Ident(names.array), "push"@),
            seq![
                spec_arg(
                    call_of(
                        ExprView::Paren(
                            Box::new(arrow_of(Seq::empty(), seq![decl, enqueue, later], true)),
                        ),
                        Seq::empty(),
                    ),
                ),
            ],
        ),
    )
}

/// The statements for the first `n` deferred creations.
pub open spec fn deferred_stmts(
    names: StreamNamesView,
    created: Seq<(Seq<char>, ExprView)>,
    script_ids: Seq<Seq<char>>,
    n: nat,
) -> Seq<StmtView>
    decreases n,
{
    if n == 0 {
        Seq::empty()
    } else {
        deferred_stmts(names, created, script_ids, (n - 1) as nat).push(
            deferred_stmt(names, created[n - 1], script_ids[n - 1]),
        )
    }
}

/// `const array = later.map((f) => f(controller));`: starts the callables
/// queued in the collector and collects their promises.
pub open spec fn array_decl(names: StreamNamesView, later_create_ident: Seq<char>) -> StmtView {
    const_of(
        PatView::Ident(names.array),
        call_of(
            member_of(ExprView::Ident(later_create_ident), "map"@),
            seq![
                spec_arg(
                    ExprView::Arrow(
                        ArrowExprView {
                            params: seq![PatView::Ident(names.map_var)],
                            body: BlockStmtOrExprView::Expr(
                                Box::new(
                                    call_of(
                                        ExprView::Ident(names.map_var),
                                        seq![spec_arg(ExprView::Ident(names.controller))],
                                    ),
                                ),
                            ),
                            is_async: false,
                        },
                    ),
                ),
            ],
        ),
    )
}

/// `return Promise.allSettled(array);`: waits for every promise, whether
/// it resolves or rejects.
pub open spec fn settle_all(names: StreamNamesView) -> StmtView {
    StmtView::Return(
        Some(
            call_of(
                member_of(ExprView::Ident("Promise"@), "allSettled"@),
                seq![spec_arg(ExprView::Ident(names.array))],
            ),
        ),
    )
}

/// The streaming continuation: a function of the stream controller that
/// starts everything and settles all.
pub open spec fn continuation(
    names: StreamNamesView,
    later_create_ident: Seq<char>,
    created: Seq<(Seq<char>, ExprView)>,
    script_ids: Seq<Seq<char>>,
) -> ExprView {
    arrow_of(
        seq![PatView::Ident(names.controller)],
        seq![array_decl(names, later_create_ident)] + deferred_stmts(
            names,
            created,
            script_ids,
            created.len(),
        ) + seq![settle_all(names)],
        false,
    )
}

/// The whole assembly: an immediately invoked async closure that declares
/// the collector and returns `[first, continuation]`.
pub open spec fn spec_assemble(
    first: ExprView,
    created: Seq<(Seq<char>, ExprView)>,
    later_create_ident: Seq<char>,
    names: StreamNamesView,
    script_ids: Seq<Seq<char>>,
) -> ExprView {
    call_of(
        ExprView::Paren(
            Box::new(
                arrow_of(
                    Seq::empty(),
                    seq![
                        const_of(PatView::Ident(later_create_ident), ExprView::Array(Seq::empty())),
                        StmtView::Return(
                            Some(
                                ExprView::Array(
                                    seq![
                                        Some(spec_arg(first)),
                                        Some(
                                            spec_arg(
                                                continuation(
                                                    names,
                                                    later_create_ident,
                                                    created,
                                                    script_ids,
                                                ),
                                            ),
                                        ),
                                    ],
                                ),
                            ),
                        ),
                    ],
                    true,
                ),
            ),
        ),
        Seq::empty(),
    )
}

/// The markup that is available at once: the placeholder as a string where
/// the root is deferred, the processed expression otherwise.
pub open spec fn first_of(p: ProcessedView) -> ExprView {
    match p {
        ProcessedView::Async(div) => ExprView::Lit(LitView::Str(div)),
        ProcessedView::Sync(e) => e,
    }
}

/// What a top-level markup expression compiles to under the given ids,
/// names and script ids, together with the name cache afterwards.
pub open spec fn spec_lower_top_level(
    el: JSXElementView,
    ctx: LowerCtx,
    ids: Seq<Seq<char>>,
    names: StreamNamesView,
    script_ids: Seq<Seq<char>>,
    cache: StyleNameCacheView,
) -> Result<(ExprView, StyleNameCacheView), CompileError> {
    match spec_lower_element(el, ctx, ids, LowerState { deferred: Seq::empty(), cache }) {
        Err(e) => Err(e),
        Ok((p, st)) => Ok(
            (
                spec_assemble(first_of(p), st.deferred, ctx.later_create_ident, names, script_ids),
                st.cache,
            ),
        ),
    }
}

fn one_arg(e: Expr) -> (r: Vec<ExprOrSpread>)
    ensures
        expr_or_spreads_view(r@) == seq![spec_arg(e@)],
{
    let mut args: Vec<ExprOrSpread> = Vec::new();
    args.push(arg(e));
    assert(expr_or_spreads_view(args@) =~= seq![spec_arg(e@)]);
    args
}

fn no_args() -> (r: Vec<ExprOrSpread>)
    ensures
        expr_or_spreads_view(r@) == Seq::<ExprOrSpreadView>::empty(),
{
    let args: Vec<ExprOrSpread> = Vec::new();
    assert(expr_or_spreads_view(args@) =~= Seq::<ExprOrSpreadView>::empty());
    args
}

fn no_params() -> (r: Vec<Pat>)
    ensures
        pats_view(r@) == Seq::<PatView>::empty(),
{
    let params: Vec<Pat> = Vec::new();
    assert(pats_view(params@) =~= Seq::<PatView>::empty());
    params
}

fn one_param(name: String) -> (r: Vec<Pat>)
    ensures
        pats_view(r@) == seq![PatView::Ident(name@)],
{
    let mut params: Vec<Pat> = Vec::new();
    params.push(pat_ident(name));
    assert(pats_view(params@) =~= seq![PatView::Ident(name@)]);
    params
}

fn escape_backticks_call(html: &str) -> (r: Expr)
    ensures
        r@ == escape_backticks(html@),
{
    let mut args: Vec<ExprOrSpread> = Vec::new();
    args.push(arg(lit_regex(String::from_str("`"), String::from_str("mg"))));
    args.push(arg(lit_str(String::from_str("\\`"))));
    assert(expr_or_spreads_view(args@) =~= seq![
        spec_arg(ExprView::Lit(LitView::Regex(RegexView { exp: "`"@, flags: "mg"@ }))),
        spec_arg(ExprView::Lit(LitView::Str("\\`"@))),
    ]);
    call(member(ident(html.to_owned()), String::from_str("replace")), args)
}

/// Builds the statement that starts one deferred creation.
pub fn build_deferred_stmt(names: &StreamNames, id: String, expr: Expr, script_id: &str)
    -> (r: Stmt)
    ensures
        r@ == deferred_stmt(names@, (id@, expr@), script_id@),
{
    let mut elems: Vec<Option<Pat>> = Vec::new();
    elems.push(Some(pat_ident(names.html.clone())));
    elems.push(Some(pat_ident(names.later_fn.clone())));
    assert(opt_pats_view(elems@) =~= seq![
        Some(PatView::Ident(names@.html)),
        Some(PatView::Ident(names@.later_fn)),
    ]);
    let decl = const_decl(pat_array(elems), expr);

    let mut script = TplWrapper::new();
    let mut open = String::from_str("<script id=\"");
    open.append(script_id);
    open.append("\">document.getElementById(\"");
    open.append(id.as_str());
    open.append("\").outerHTML = \\`");
    script.append_quasi(open.as_str());
    script.append_expr(escape_backticks_call(names.html.as_str()));
    script.append_quasi(
        concat3("\\`;document.getElementById(\"", script_id, "\").remove();</script>").as_str(),
    );
    let enqueue = expr_stmt(
        call(
            member(ident(names.controller.clone()), String::from_str("enqueue")),
            one_arg(tpl(script.build())),
        ),
    );
    let later = return_stmt(
        call(ident(names.later_fn.clone()), one_arg(ident(names.controller.clone()))),
    );
    let mut stmts: Vec<Stmt> = Vec::new();
    stmts.push(decl);
    stmts.push(enqueue);
    stmts.push(later);
    assert(stmts_view(stmts@) =~= seq![decl@, enqueue@, later@]);
    let callable = call(paren(arrow_block(no_params(), stmts, true)), no_args());
    expr_stmt(
        call(member(ident(names.array.clone()), String::from_str("push")), one_arg(callable)),
    )
}

/// Assembles the result of a top-level markup expression from the markup
/// available at once and the list of deferred creations. `script_ids`
/// names the script elements, one for each deferred creation.
pub fn assemble(
    first: Expr,
    created: ToCreateAsync,
    later_create_ident: &str,
    names: &StreamNames,
    script_ids: &Vec<String>,
) -> (r: Expr)
    requires
        script_ids@.len() == created@.len(),
    ensures
        r@ == spec_assemble(
            first@,
            deferred_view(created@),
            later_create_ident@,
            names@,
            crate::ast::view::strings_view(script_ids@),
        ),
{
    let ghost cv = deferred_view(created@);
    let ghost sv = crate::ast::view::strings_view(script_ids@);
    let ghost orig = created@;
    let map_call = call(ident(names.map_var.clone()), one_arg(ident(names.controller.clone())));
    let starter = arrow_expr(one_param(names.map_var.clone()), map_call, false);
    let decl = const_decl(
        pat_ident(names.array.clone()),
        call(
            member(ident(later_create_ident.to_owned()), String::from_str("map")),
            one_arg(starter),
        ),
    );
    assert(decl@ == array_decl(names@, later_create_ident@));
    let mut stmts: Vec<Stmt> = Vec::new();
    stmts.push(decl);
    assert(stmts_view(stmts@) =~= seq![array_decl(names@, later_create_ident@)]
        + deferred_stmts(names@, cv, sv, 0));
    let mut i: usize = 0;
    for entry in it: created
        invariant
            it.seq() == orig,
            cv == deferred_view(orig),
            sv == crate::ast::view::strings_view(script_ids@),
            script_ids@.len() == orig.len(),
            i == it.index(),
            stmts_view(stmts@) == seq![array_decl(names@, later_create_ident@)] + deferred_stmts(
                names@,
                cv,
                sv,
                i as nat,
            ),
    {
        assert(entry == orig[i as int]);
        let (id, expr) = entry;
        assert(i < script_ids.len());
        let stmt = build_deferred_stmt(names, id, expr, script_ids[i].as_str());
        let ghost before = stmts_view(stmts@);
        stmts.push(stmt);
        assert(stmts_view(stmts@) =~= before.push(stmt@));
        assert(stmts_view(stmts@) =~= seq![array_decl(names@, later_create_ident@)]
            + deferred_stmts(names@, cv, sv, (i + 1) as nat));
        i = i + 1;
    }
    let settle = return_stmt(
        call(
            member(ident(String::from_str("Promise")), String::from_str("allSettled")),
            one_arg(ident(names.array.clone())),
        ),
    );
    let ghost before = stmts_view(stmts@);
    stmts.push(settle);
    assert(stmts_view(stmts@) =~= before.push(settle@));
    assert(stmts_view(stmts@) =~= seq![array_decl(names@, later_create_ident@)] + deferred_stmts(
        names@,
        cv,
        sv,
        cv.len(),
    ) + seq![settle_all(names@)]);
    let cont = arrow_block(one_param(names.controller.clone()), stmts, false);
    assert(cont@ == continuation(names@, later_create_ident@, cv, sv));

    let empty: Vec<Option<ExprOrSpread>> = Vec::new();
    assert(opt_expr_or_spreads_view(empty@) =~= Seq::<Option<ExprOrSpreadView>>::empty());
    let collector = const_decl(pat_ident(later_create_ident.to_owned()), array(empty));
    let mut pair: Vec<Option<ExprOrSpread>> = Vec::new();
    pair.push(Some(arg(first)));
    pair.push(Some(arg(cont)));
    assert(opt_expr_or_spreads_view(pair@) =~= seq![
        Some(spec_arg(first@)),
        Some(spec_arg(cont@)),
    ]);
    let result = return_stmt(array(pair));
    let mut body: Vec<Stmt> = Vec::new();
    body.push(collector);
    body.push(result);
    assert(stmts_view(body@) =~= seq![collector@, result@]);
    call(paren(arrow_block(no_params(), body, true)), no_args())
}

/// Whether a lowering ended as `expected` says.
pub open spec fn top_level_outcome(
    expected: Result<(ExprView, StyleNameCacheView), CompileError>,
    r: Result<Expr, CompileError>,
    cache: StyleNameCacheView,
) -> bool {
    match expected {
        Ok((e, c)) => r matches Ok(got) && got@ == e && cache == c,
        Err(e) => r matches Err(got) && got == e,
    }
}

/// Compiles a markup expression that stands at the top level: lowers the
/// tree with a fresh list of deferred creations and assembles the markup
/// available at once with the streaming continuation.
///
/// Ids and names are drawn at random. The contract states that the result
/// is what `spec_lower_top_level` gives for some ids, names and script ids;
/// the names and the script ids have the shape of generated names.
pub fn lower_top_level(
    v: &TranspileVisitor,
    jsx_element: Box<JSXElement>,
    cache: &mut StyleNameCache,
) -> (r: Result<Expr, CompileError>)
    ensures
        exists|ids: Seq<Seq<char>>, names: StreamNamesView, script_ids: Seq<Seq<char>>|
            {
                &&& names.fresh()
                &&& forall|i: int|
                    0 <= i < script_ids.len() ==> is_random_name(#[trigger] script_ids[i], 12)
                &&& #[trigger] top_level_outcome(
                    spec_lower_top_level(
                        jsx_element@,
                        v.ctx(),
                        ids,
                        names,
                        script_ids,
                        old(cache)@,
                    ),
                    r,
                    final(cache)@,
                )
            },
{
    let ghost elv = jsx_element@;
    let ghost c0 = cache@;
    let mut created: ToCreateAsync = Vec::new();
    assert(deferred_view(created@) =~= Seq::<(Seq<char>, ExprView)>::empty());
    let lowered = lower_element(v, jsx_element, &mut created, cache);
    let ghost ids = Seq::new(created@.len(), |i: int| created@[i].0@);
    assert(extends(ids, deferred_view(created@)));
    let names = StreamNames::generate();
    match lowered {
        Err(e) => {
            proof {
                let script_ids = Seq::<Seq<char>>::empty();
                assert(top_level_outcome(
                    spec_lower_top_level(elv, v.ctx(), ids, names@, script_ids, c0),
                    Err::<Expr, CompileError>(e),
                    cache@,
                ));
            }
            Err(e)
        },
        Ok(p) => {
            let first = match p {
                Processed::Async(div) => lit_str(div),
                Processed::Sync(transformed) => transformed,
            };
            let mut script_ids: Vec<String> = Vec::new();
            let mut i: usize = 0;
            while i < created.len()
                invariant
                    i <= created.len(),
                    script_ids@.len() == i,
                    forall|j: int|
                        0 <= j < i ==> is_random_name(#[trigger] script_ids@[j]@, 12),
                decreases created.len() - i,
            {
                script_ids.push(generate_random_variable_name(12));
                i += 1;
            }
            let ghost sv = crate::ast::view::strings_view(script_ids@);
            let ghost dv = deferred_view(created@);
            let out = assemble(
                first,
                created,
                v.typechecker.later_create_ident.as_str(),
                &names,
                &script_ids,
            );
            proof {
                assert forall|j: int|
                    0 <= j < sv.len() implies is_random_name(#[trigger] sv[j], 12) by {
                    assert(sv[j] == script_ids@[j]@);
                }
                assert(top_level_outcome(
                    spec_lower_top_level(elv, v.ctx(), ids, names@, sv, c0),
                    Ok::<Expr, CompileError>(out),
                    cache@,
                ));
            }
            Ok(out)
        },
    }
}

} // verus!
