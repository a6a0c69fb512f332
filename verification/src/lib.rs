//! Compiler core for component markup embedded in script source.
//!
//! The crate turns markup expressions into templates of literal text and
//! expression slots, and generates the code that streams components which
//! resolve later into an already flushed response.
//!
//! * [`export_type`], [`typecheck`], [`inference`], [`visitor`]: the lattice
//!   of inferred types and the walk that infers the type of every binding
//!   and export.
//! * [`tpl_wrapper`]: the template builder.
//! * [`style_name`], [`style`]: the serializer of style objects.
//! * [`lowering`], [`transpiler`], [`static_markup`]: lowering of a markup
//!   tree and the list of deferred creations.
//! * [`streaming`]: the assembly of a top-level markup expression.
//! * [`rewriting`], [`rewriter`], [`unfold`]: the walk that compiles every
//!   markup expression of a module.
//! * [`type_info`]: the record of inferred types, its byte layout and the
//!   cache lookup.
//! * [`ast`]: the syntax tree, its mathematical view and constructors.
//! * [`text`], [`names`], [`string_map`], [`path`], [`framework`],
//!   [`stringify`], [`error`]: helpers.
//!
//! Executable functions carry contracts over the mathematical views, and
//! the contracts are proved. What is believed without proof is marked
//! `external_body`: single calls into `std`, `rand` and `ring`.

pub mod ast;
pub mod error;
pub mod export_type;
pub mod framework;
pub mod inference;
pub mod lowering;
pub mod names;
pub mod path;
pub mod rewriter;
pub mod rewriting;
pub mod static_markup;
pub mod streaming;
pub mod string_map;
pub mod style;
pub mod stringify;
pub mod style_name;
pub mod text;
pub mod tpl_wrapper;
pub mod transpiler;
pub mod type_info;
pub mod typecheck;
pub mod unfold;
pub mod visitor;
