//! The inference pass over a module: the walk of its items and the record
//! of what it exports.

use crate::ast::expr::{Decl, DefaultDecl, ModuleItem, Pat, Program, VarDeclarator};
use crate::ast::view::{
    module_items_view, nodes_view, var_declarators_view, DeclView, DefaultDeclView,
    ModuleItemView, PatView,
};
use crate::error::CompileError;
use crate::export_type::ExportType;
use crate::inference::{
    export_decl, export_declarators, exported_type, spec_infer_exports, walk_module_item,
    walk_module_items, InferState,
};
use crate::names::is_random_name;
use crate::string_map::StringMap;
use crate::typecheck::{
    spec_get_variable_type, Exports, TypecheckerCommon, TypecheckerView, DEFAULT_EXPORT_KEY,
};
use vstd::prelude::*;

verus! {

/// The inference pass with the exports it has recorded.
pub struct TypecheckerVisitor {
    pub typechecker: TypecheckerCommon,
    pub exports: Exports,
}

/// Whether a walk ended as `expected` says.
pub open spec fn walk_outcome(
    expected: Result<InferState, CompileError>,
    r: Result<(), CompileError>,
    st: InferState,
) -> bool {
    match expected {
        Ok(s) => r is Ok && st == s,
        Err(e) => r == Err::<(), CompileError>(e),
    }
}

impl TypecheckerVisitor {
    /// The mathematical value of the pass.
    pub open spec fn view(&self) -> InferState {
        InferState { tc: self.typechecker@, exports: self.exports@ }
    }

    /// A pass in its initial state, with `later_create_ident` as the name
    /// of the collector of deferred work.
    pub fn with_ident(later_create_ident: String) -> (r: TypecheckerVisitor)
        ensures
            r@ == (InferState {
                tc: TypecheckerView::initial(later_create_ident@),
                exports: Map::empty(),
            }),
    {
        TypecheckerVisitor {
            typechecker: TypecheckerCommon::with_ident(later_create_ident),
            exports: StringMap::new(),
        }
    }

    /// A pass in its initial state, with a fresh name for the collector of
    /// deferred work.
    pub fn new() -> (r: TypecheckerVisitor)
        ensures
            is_random_name(r@.tc.later_create_ident, 16),
            r@ == (InferState {
                tc: TypecheckerView::initial(r@.tc.later_create_ident),
                exports: Map::empty(),
            }),
    {
        TypecheckerVisitor { typechecker: TypecheckerCommon::new(), exports: StringMap::new() }
    }

    /// The type recorded for `name` in the innermost scope that binds it.
    pub fn get_variable_type(&self, name: &str) -> (r: Option<ExportType>)
        ensures
            r == spec_get_variable_type(self@.tc.scopes, name@),
    {
        self.typechecker.get_variable_type(name)
    }

    /// Records the binding `name` as exported, with the type the scopes
    /// give it.
    pub fn export_name(&mut self, name: &str)
        ensures
            final(self)@ == (InferState {
                tc: old(self)@.tc,
                exports: old(self)@.exports.insert(name@, exported_type(old(self)@.tc, name@)),
            }),
    {
        let value = match self.typechecker.get_variable_type(name) {
            Some(t) => t,
            None => ExportType::Other,
        };
        self.exports.insert(name.to_owned(), value);
    }

    /// Refuses `export * from "..."`.
    pub fn visit_mut_export_all(&mut self) -> (r: Result<(), CompileError>)
        ensures
            r == Err::<(), CompileError>(CompileError::ExportAll),
            final(self)@ == old(self)@,
    {
        Err(CompileError::ExportAll)
    }

    /// Refuses `export default` followed by an expression.
    pub fn visit_mut_export_default_expr(&mut self) -> (r: Result<(), CompileError>)
        ensures
            r == Err::<(), CompileError>(CompileError::ExportDefaultExpr),
            final(self)@ == old(self)@,
    {
        Err(CompileError::ExportDefaultExpr)
    }

    fn export_declarators(&mut self, decls: &Vec<VarDeclarator>)
        ensures
            final(self)@ == (InferState {
                tc: old(self)@.tc,
                exports: export_declarators(
                    var_declarators_view(decls@),
                    0,
                    old(self)@.tc,
                    old(self)@.exports,
                ),
            }),
    {
        let ghost sv = var_declarators_view(decls@);
        let mut i: usize = 0;
        while i < decls.len()
            invariant
                i <= decls.len(),
                sv == var_declarators_view(decls@),
                self@.tc == old(self)@.tc,
                export_declarators(sv, i as nat, self@.tc, self@.exports) == export_declarators(
                    sv,
                    0,
                    old(self)@.tc,
                    old(self)@.exports,
                ),
            decreases decls.len() - i,
        {
            assert(sv[i as int].name == decls[i as int].name@);
            match &decls[i].name {
                Pat::Ident(name) => {
                    assert(decls[i as int].name@ == PatView::Ident(name@));
                    self.export_name(name.as_str());
                },
                Pat::Array(_) => {
                    assert(decls[i as int].name@ is Array);
                },
                Pat::Other(_) => {
                    assert(decls[i as int].name@ is Other);
                },
            }
            i += 1;
        }
    }

    /// Walks an exported declaration and records what it exports.
    pub fn visit_mut_export_decl(&mut self, export_decl: &Decl)
        ensures
            walk_module_item(ModuleItemView::ExportDecl(export_decl@), old(self)@) == Ok::<
                InferState,
                CompileError,
            >(final(self)@),
    {
        self.typechecker.visit_decl(export_decl);
        let ghost dv = export_decl@;
        match export_decl {
            Decl::Class { ident, class } => {
                assert(dv == DeclView::Class { ident: ident@, class: class@ });
                self.export_name(ident.as_str());
            },
            Decl::Fn { ident, function } => {
                assert(dv == DeclView::Fn { ident: ident@, function: function@ });
                self.export_name(ident.as_str());
            },
            Decl::Var(v) => {
                assert(dv == DeclView::Var(v@));
                assert(v@.decls == var_declarators_view(v.decls@));
                self.export_declarators(&v.decls);
            },
            Decl::Other(o) => {
                assert(dv == DeclView::Other(o@));
            },
        }
    }

    /// Walks a default-exported declaration and records what it exports.
    pub fn visit_mut_export_default_decl(&mut self, default: &DefaultDecl)
        ensures
            walk_module_item(ModuleItemView::ExportDefaultDecl(default@), old(self)@) == Ok::<
                InferState,
                CompileError,
            >(final(self)@),
    {
        let ghost dv = default@;
        match default {
            DefaultDecl::Class { ident, class } => {
                assert(dv == DefaultDeclView::Class {
                    ident: crate::ast::view::opt_string_view(*ident),
                    class: class@,
                });
                assert(class@.children == nodes_view(class.children@));
                self.typechecker.visit_nodes(&class.children);
                match ident {
                    Some(i) => {
                        self.export_name(i.as_str());
                    },
                    None => {},
                }
            },
            DefaultDecl::Fn { ident, function } => {
                assert(dv == DefaultDeclView::Fn {
                    ident: crate::ast::view::opt_string_view(*ident),
                    function: function@,
                });
                self.typechecker.visit_function(function);
                match ident {
                    Some(i) => {
                        self.export_name(i.as_str());
                    },
                    None => {
                        self.exports.insert(
                            DEFAULT_EXPORT_KEY.to_owned(),
                            self.typechecker.return_type,
                        );
                    },
                }
            },
            DefaultDecl::TsInterfaceDecl => {
                assert(dv is TsInterfaceDecl);
            },
        }
    }

    /// Walks one top-level item.
    pub fn visit_module_item(&mut self, item: &ModuleItem) -> (r: Result<(), CompileError>)
        ensures
            walk_outcome(walk_module_item(item@, old(self)@), r, final(self)@),
    {
        let ghost iv = item@;
        match item {
            ModuleItem::ExportAll => {
                assert(iv is ExportAll);
                self.visit_mut_export_all()
            },
            ModuleItem::ExportDefaultExpr(e) => {
                assert(iv is ExportDefaultExpr);
                self.visit_mut_export_default_expr()
            },
            ModuleItem::ExportDecl(d) => {
                assert(iv == ModuleItemView::ExportDecl(d@));
                self.visit_mut_export_decl(d);
                Ok(())
            },
            ModuleItem::ExportDefaultDecl(d) => {
                assert(iv == ModuleItemView::ExportDefaultDecl(d@));
                self.visit_mut_export_default_decl(d);
                Ok(())
            },
            ModuleItem::Stmt(s) => {
                assert(iv == ModuleItemView::Stmt(s@));
                self.typechecker.visit_stmt(s);
                Ok(())
            },
            ModuleItem::Other(o) => {
                assert(iv == ModuleItemView::Other(o@));
                assert(o@.children == nodes_view(o.children@));
                self.typechecker.visit_nodes(&o.children);
                Ok(())
            },
        }
    }

    /// Walks a module from its first item to its last, or to the first
    /// item that is refused.
    pub fn visit_program(&mut self, program: &Program) -> (r: Result<(), CompileError>)
        ensures
            walk_outcome(walk_module_items(program@.body, 0, old(self)@), r, final(self)@),
    {
        let ghost sv = module_items_view(program.body@);
        assert(program@.body == sv);
        let mut i: usize = 0;
        while i < program.body.len()
            invariant
                i <= program.body.len(),
                sv == module_items_view(program.body@),
                walk_module_items(sv, i as nat, self@) == walk_module_items(sv, 0, old(self)@),
            decreases program.body.len() - i,
        {
            match self.visit_module_item(&program.body[i]) {
                Ok(()) => {},
                Err(e) => {
                    return Err(e);
                },
            }
            i += 1;
        }
        Ok(())
    }
}

/// Infers the types of the exports of a module. Re-exporting everything
/// and exporting an expression by default are refused.
pub fn infer_exports(program: &Program) -> (r: Result<Exports, CompileError>)
    ensures
        match spec_infer_exports(program@.body, Seq::empty()) {
            Ok(exports) => r matches Ok(got) && got@ == exports,
            Err(e) => r matches Err(got) && got == e,
        },
{
    let mut visitor = TypecheckerVisitor::with_ident(String::new());
    match visitor.visit_program(program) {
        Ok(()) => Ok(visitor.exports),
        Err(e) => Err(e),
    }
}

} // verus!
