//! Grey compiler core: frontend, intermediate representation, the Betti RDL
//! backend (placement, deterministic event injection, code emission), a
//! deterministic in-process execution engine, and the cross-implementation
//! parity harness.

pub mod ast;
pub mod backend;
pub mod betti_rdl;
pub mod constraints;
pub mod diagnostics;
pub mod engine;
pub mod harness;
pub mod ir;
pub mod lexer;
pub mod parser;
pub mod types;
pub mod text;

use vstd::prelude::*;
use crate::diagnostics::DiagnosticError;

verus! {

/// Parse Grey source code into an AST.
pub fn parse_source(source: &str) -> (r: Result<ast::Program, DiagnosticError>) {
    let tokens = match lexer::lex(source) {
        Ok(t) => t,
        Err(e) => {
            return Err(e);
        },
    };
    parser::parse_program(&tokens)
}

/// Type check a parsed Grey program. The module structure is preserved: one
/// typed module per module, names and item counts unchanged.
pub fn type_check_program(program: &ast::Program) -> (r: Result<
    types::TypedProgram,
    DiagnosticError,
>)
    ensures
        match r {
            Ok(tp) => {
                &&& tp.modules@.len() == program.modules@.len()
                &&& forall|i: int|
                    0 <= i < tp.modules@.len() ==> {
                        &&& (#[trigger] tp.modules@[i]).name@ == program.modules@[i].name@
                        &&& tp.modules@[i].processes@.len()
                            == program.modules@[i].processes@.len()
                        &&& tp.modules@[i].events@.len() == program.modules@[i].events@.len()
                        &&& tp.modules@[i].constants@.len()
                            == program.modules@[i].constants@.len()
                    }
            },
            Err(_) => true,
        },
{
    let mut typechecker = types::TypeChecker::new();
    typechecker.check_program(program)
}

/// Validate a typed program against the bounded-memory constraints.
pub fn validate_program(program: &types::TypedProgram) -> (r: Result<(), DiagnosticError>)
    ensures
        r is Ok,
{
    let mut validator = constraints::O1Validator::new();
    validator.validate_program(program)
}

/// Compile pipeline: parse, type check, validate.
pub fn compile(source: &str) -> (r: Result<types::TypedProgram, DiagnosticError>) {
    let program = match parse_source(source) {
        Ok(p) => p,
        Err(e) => {
            return Err(e);
        },
    };
    let typed_program = match type_check_program(&program) {
        Ok(tp) => tp,
        Err(e) => {
            return Err(e);
        },
    };
    match validate_program(&typed_program) {
        Ok(()) => Ok(typed_program),
        Err(e) => Err(e),
    }
}

} // verus!
