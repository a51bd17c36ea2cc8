//! A compiler for wasp, a small Lisp-like language, to WebAssembly.
//!
//! `parser::parse` reads a program into its syntax tree and
//! `compiler::compile` turns the tree into a WebAssembly module; `run`
//! does both.  Each is proved against its specification: the grammar in
//! `grammar.rs` and the meaning of compilation in `semantics.rs`.
//! `laws.rs`, `layout.rs`, `scope.rs` and `depth.rs` prove properties that hold of
//! every program; `project.rs` orders the files of a project.
use vstd::prelude::*;
use crate::grammar::{ParseError, program};
use crate::compiler::{CompileError, compile};
use crate::semantics::{CompileErrorV, compile_program};
use crate::module::{Module, ModuleV};

pub mod ast;
pub mod text;
pub mod grammar;
pub mod parser;
pub mod module;
pub mod semantics;
pub mod compiler;
pub mod laws;
pub mod layout;
pub mod scope;
pub mod comments;
pub mod meaning;
pub mod literals;
pub mod depth;
pub mod project;

verus! {

/// Why a source text does not become a module.
#[derive(Debug, PartialEq)]
pub enum WaspError {
    Parse(ParseError),
    Compile(CompileError),
}

pub enum WaspErrorV {
    Parse(ParseError),
    Compile(CompileErrorV),
}

impl View for WaspError {
    type V = WaspErrorV;

    open spec fn view(&self) -> WaspErrorV {
        match self {
            WaspError::Parse(e) => WaspErrorV::Parse(*e),
            WaspError::Compile(e) => WaspErrorV::Compile(e@),
        }
    }
}

/// The module of a source text: its program compiled, or why there is none.
pub open spec fn build(content: Seq<char>) -> Result<ModuleV, WaspErrorV> {
    match program(content) {
        Err(e) => Err(WaspErrorV::Parse(e)),
        Ok(tops) => match compile_program(tops) {
            Ok(m) => Ok(m),
            Err(e) => Err(WaspErrorV::Compile(e)),
        },
    }
}

/// Parses and compiles a source text.
pub fn run(content: &str) -> (r: Result<Module, WaspError>)
    ensures
        match r {
            Ok(m) => build(content@) == Ok::<ModuleV, WaspErrorV>(m@),
            Err(e) => build(content@) == Err::<ModuleV, WaspErrorV>(e@),
        },
{
    let app = match crate::parser::parse(content) {
        Ok(app) => app,
        Err(e) => {
            return Err(WaspError::Parse(e));
        },
    };
    match compile(app) {
        Ok(m) => Ok(m),
        Err(e) => Err(WaspError::Compile(e)),
    }
}

} // verus!
