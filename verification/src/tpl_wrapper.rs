//! The template builder: literal runs and expression slots, kept in
//! alternation while pieces are appended.

use crate::ast::expr::{Expr, Lit, Tpl};
use crate::ast::view::{exprs_view, strings_view, ExprView, TplView};
use crate::stringify::{stringify_lit, Stringify};
use vstd::prelude::*;

verus! {

/// A template under construction. `is_expr_next` says that the last piece
/// appended was a literal run, so that an expression can follow directly.
#[derive(Debug)]
pub struct TplWrapper {
    pub exprs: Vec<Expr>,
    pub quasis: Vec<String>,
    pub is_expr_next: bool,
}

/// The mathematical value of a template under construction.
pub struct TplWrapperView {
    pub exprs: Seq<ExprView>,
    pub quasis: Seq<Seq<char>>,
    pub is_expr_next: bool,
}

impl TplWrapperView {
    /// Literal runs and expressions alternate, starting with a literal run:
    /// there is one run per expression, and one more when a run came last.
    pub open spec fn wf(self) -> bool {
        self.quasis.len() == self.exprs.len() + if self.is_expr_next {
            1nat
        } else {
            0nat
        }
    }

    /// The empty builder.
    pub open spec fn empty() -> TplWrapperView {
        TplWrapperView { exprs: Seq::empty(), quasis: Seq::empty(), is_expr_next: false }
    }

    /// The builder after the literal text `quasi` was appended: it extends
    /// the last run if a run came last, and starts a new run otherwise.
    pub open spec fn append_quasi(self, quasi: Seq<char>) -> TplWrapperView {
        if self.is_expr_next && self.quasis.len() > 0 {
            TplWrapperView {
                exprs: self.exprs,
                quasis: self.quasis.drop_last().push(self.quasis.last() + quasi),
                is_expr_next: true,
            }
        } else {
            TplWrapperView {
                exprs: self.exprs,
                quasis: self.quasis.push(quasi),
                is_expr_next: true,
            }
        }
    }

    /// The builder after `expr` was put into an expression slot of its own,
    /// with an empty run before it where two expressions would meet.
    pub open spec fn push_expr(self, expr: ExprView) -> TplWrapperView {
        TplWrapperView {
            exprs: self.exprs.push(expr),
            quasis: if self.is_expr_next {
                self.quasis
            } else {
                self.quasis.push(Seq::empty())
            },
            is_expr_next: false,
        }
    }

    /// The builder after `expr` was appended: a literal becomes literal
    /// text, a template is merged piece by piece, anything else takes a
    /// slot.
    pub open spec fn append_expr(self, expr: ExprView) -> TplWrapperView
        decreases expr, 0nat,
    {
        match expr {
            ExprView::Lit(lit) => self.append_quasi(stringify_lit(lit)),
            ExprView::Tpl(tpl) => self.append_pieces(tpl.quasis, tpl.exprs, 0),
            _ => self.push_expr(expr),
        }
    }

    /// The builder after the pieces of a template were appended from piece
    /// number `k` on. Piece `2 * i` is the run `quasis[i]`, piece
    /// `2 * i + 1` the expression `exprs[i]`; appending stops at the first
    /// piece that is missing.
    pub open spec fn append_pieces(
        self,
        quasis: Seq<Seq<char>>,
        exprs: Seq<ExprView>,
        k: nat,
    ) -> TplWrapperView
        decreases exprs, 2 * (quasis.len() + exprs.len()) + 2 - k,
    {
        if k % 2 == 0 {
            if (k / 2) < quasis.len() {
                self.append_quasi(quasis[k as int / 2]).append_pieces(quasis, exprs, k + 1)
            } else {
                self
            }
        } else {
            if (k / 2) < exprs.len() {
                self.append_expr(exprs[k as int / 2]).append_pieces(quasis, exprs, k + 1)
            } else {
                self
            }
        }
    }

    /// The finished template: an empty run closes it where an expression
    /// came last.
    pub open spec fn build(self) -> TplView {
        TplView {
            quasis: if self.is_expr_next {
                self.quasis
            } else {
                self.quasis.push(Seq::empty())
            },
            exprs: self.exprs,
        }
    }
}

/// Anything that can be taken apart into the literal runs and the
/// expressions of a template.
pub trait DestructTpl: Sized {
    /// The literal runs.
    spec fn spec_quasis(self) -> Seq<Seq<char>>;

    /// The expressions.
    spec fn spec_exprs(self) -> Seq<ExprView>;

    /// Hands out the literal runs and the expressions.
    fn get_quasis_and_exprs(self) -> (r: (Vec<String>, Vec<Expr>))
        ensures
            strings_view(r.0@) == self.spec_quasis(),
            exprs_view(r.1@) == self.spec_exprs(),
    ;
}

impl DestructTpl for Tpl {
    open spec fn spec_quasis(self) -> Seq<Seq<char>> {
        self@.quasis
    }

    open spec fn spec_exprs(self) -> Seq<ExprView> {
        self@.exprs
    }

    fn get_quasis_and_exprs(self) -> (r: (Vec<String>, Vec<Expr>)) {
        (self.quasis, self.exprs)
    }
}

impl DestructTpl for TplWrapper {
    open spec fn spec_quasis(self) -> Seq<Seq<char>> {
        self@.quasis
    }

    open spec fn spec_exprs(self) -> Seq<ExprView> {
        self@.exprs
    }

    fn get_quasis_and_exprs(self) -> (r: (Vec<String>, Vec<Expr>)) {
        (self.quasis, self.exprs)
    }
}

/// Appending keeps literal runs and expressions in alternation.
pub proof fn lemma_append_quasi_wf(t: TplWrapperView, quasi: Seq<char>)
    requires
        t.wf(),
    ensures
        t.append_quasi(quasi).wf(),
        t.append_quasi(quasi).exprs == t.exprs,
        t.append_quasi(quasi).is_expr_next,
{
}

/// Appending an expression keeps literal runs and expressions in
/// alternation.
pub proof fn lemma_append_expr_wf(t: TplWrapperView, expr: ExprView)
    requires
        t.wf(),
    ensures
        t.append_expr(expr).wf(),
    decreases expr, 0nat,
{
    match expr {
        ExprView::Tpl(tpl) => {
            lemma_append_pieces_wf(t, tpl.quasis, tpl.exprs, 0);
        },
        _ => {},
    }
}

/// Appending the pieces of a template keeps literal runs and expressions in
/// alternation.
pub proof fn lemma_append_pieces_wf(
    t: TplWrapperView,
    quasis: Seq<Seq<char>>,
    exprs: Seq<ExprView>,
    k: nat,
)
    requires
        t.wf(),
    ensures
        t.append_pieces(quasis, exprs, k).wf(),
    decreases exprs, 2 * (quasis.len() + exprs.len()) + 2 - k,
{
    if k % 2 == 0 {
        if (k / 2) < quasis.len() {
            lemma_append_pieces_wf(t.append_quasi(quasis[k as int / 2]), quasis, exprs, k + 1);
        }
    } else {
        if (k / 2) < exprs.len() {
            lemma_append_expr_wf(t, exprs[k as int / 2]);
            lemma_append_pieces_wf(t.append_expr(exprs[k as int / 2]), quasis, exprs, k + 1);
        }
    }
}

impl TplWrapper {
    /// The mathematical value of the builder.
    pub open spec fn view(&self) -> TplWrapperView {
        TplWrapperView {
            exprs: exprs_view(self.exprs@),
            quasis: strings_view(self.quasis@),
            is_expr_next: self.is_expr_next,
        }
    }

    /// An empty builder.
    pub fn new() -> (r: TplWrapper)
        ensures
            r@ == TplWrapperView::empty(),
            r@.wf(),
    {
        let r = TplWrapper { exprs: Vec::new(), quasis: Vec::new(), is_expr_next: false };
        assert(r@.exprs =~= Seq::<ExprView>::empty());
        assert(r@.quasis =~= Seq::<Seq<char>>::empty());
        r
    }

    /// Appends the text form of a literal as literal text.
    pub fn append_lit(&mut self, lit: Lit)
        ensures
            final(self)@ == old(self)@.append_quasi(stringify_lit(lit@)),
            old(self)@.wf() ==> final(self)@.wf(),
    {
        let text = lit.stringify();
        self.append_quasi(text.as_str());
    }

    /// Appends literal text: to the last run if a run came last, as a new
    /// run otherwise.
    pub fn append_quasi(&mut self, quasi: &str)
        ensures
            final(self)@ == old(self)@.append_quasi(quasi@),
            old(self)@.wf() ==> final(self)@.wf(),
    {
        if self.is_expr_next && self.quasis.len() > 0 {
            let mut last = self.quasis.pop().unwrap();
            last.append(quasi);
            self.quasis.push(last);
            assert(self@.quasis =~= old(self)@.quasis.drop_last().push(
                old(self)@.quasis.last() + quasi@,
            ));
        } else {
            self.quasis.push(quasi.to_owned());
            self.is_expr_next = true;
            assert(self@.quasis =~= old(self)@.quasis.push(quasi@));
        }
    }

    /// Appends an expression: a literal as literal text, a template piece
    /// by piece, anything else in a slot of its own.
    pub fn append_expr(&mut self, expr: Expr)
        ensures
            final(self)@ == old(self)@.append_expr(expr@),
            old(self)@.wf() ==> final(self)@.wf(),
        decreases expr,
    {
        proof {
            if old(self)@.wf() {
                lemma_append_expr_wf(old(self)@, expr@);
            }
        }
        let ghost ev = expr@;
        match expr {
            Expr::Lit(lit) => {
                assert(ev == ExprView::Lit(lit@));
                self.append_lit(lit);
            },
            Expr::Tpl(tpl) => {
                assert(ev == ExprView::Tpl(tpl@));
                self.append_parts(tpl.quasis, tpl.exprs);
            },
            other => {
                assert(ev == other@);
                assert(!(other@ is Lit) && !(other@ is Tpl));
                if !self.is_expr_next {
                    self.quasis.push(String::new());
                }
                self.exprs.push(other);
                self.is_expr_next = false;
                assert(self@.exprs =~= old(self)@.exprs.push(other@));
                assert(self@.quasis =~= old(self)@.push_expr(other@).quasis);
            },
        }
    }

    /// Appends the pieces of a template in turn: run, expression, run, and
    /// so on, until a piece is missing.
    pub fn append_parts(&mut self, quasis: Vec<String>, exprs: Vec<Expr>)
        ensures
            final(self)@ == old(self)@.append_pieces(strings_view(quasis@), exprs_view(exprs@), 0),
            old(self)@.wf() ==> final(self)@.wf(),
        decreases exprs,
    {
        let ghost qs = strings_view(quasis@);
        let ghost es = exprs_view(exprs@);
        let ghost orig = exprs@;
        let ghost goal = old(self)@.append_pieces(qs, es, 0);
        proof {
            if old(self)@.wf() {
                lemma_append_pieces_wf(old(self)@, qs, es, 0);
            }
        }
        if quasis.len() == 0 {
            return ;
        }
        self.append_quasi(quasis[0].as_str());
        assert(goal == self@.append_pieces(qs, es, 1));
        let mut next: usize = 1;
        for e in it: exprs
            invariant
                it.seq() == orig,
                orig == exprs@,
                es == exprs_view(orig),
                qs == strings_view(quasis@),
                goal == old(self)@.append_pieces(qs, es, 0),
                old(self)@.wf() ==> goal.wf(),
                decreases_to!(exprs => orig),
                next == it.index() + 1,
                next <= quasis.len(),
                self@.append_pieces(qs, es, (2 * it.index() + 1) as nat) == goal,
        {
            assert(e == orig[it.index() as int]);
            let ghost i = it.index() as nat;
            let ghost before = self@;
            assert(before.append_pieces(qs, es, 2 * i + 1) == before.append_expr(
                es[i as int],
            ).append_pieces(qs, es, 2 * i + 2));
            self.append_expr(e);
            let ghost mid = self@;
            if next < quasis.len() {
                assert(mid.append_pieces(qs, es, 2 * i + 2) == mid.append_quasi(
                    qs[i as int + 1],
                ).append_pieces(qs, es, 2 * i + 3));
                self.append_quasi(quasis[next].as_str());
                next = next + 1;
            } else {
                assert(mid.append_pieces(qs, es, 2 * i + 2) == mid);
                return ;
            }
        }
    }

    /// Appends the pieces of another template or builder.
    pub fn append_tpl<TPL: DestructTpl>(&mut self, tpl: TPL)
        ensures
            final(self)@ == old(self)@.append_pieces(tpl.spec_quasis(), tpl.spec_exprs(), 0),
            old(self)@.wf() ==> final(self)@.wf(),
    {
        let (quasis, exprs) = tpl.get_quasis_and_exprs();
        self.append_parts(quasis, exprs);
    }

    /// Finishes the template, closing it with an empty run where an
    /// expression came last.
    pub fn build(self) -> (r: Tpl)
        ensures
            r@ == self@.build(),
            self@.wf() ==> r@.quasis.len() == r@.exprs.len() + 1,
    {
        let mut quasis = self.quasis;
        if !self.is_expr_next {
            quasis.push(String::new());
            assert(strings_view(quasis@) =~= self@.quasis.push(Seq::empty()));
        }
        Tpl { quasis, exprs: self.exprs }
    }
}

} // verus!
