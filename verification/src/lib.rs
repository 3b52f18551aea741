//! A teaching pipeline from source text to running machine state.
//!
//! A restricted-grammar compiler (lexer, parser, code generator) turns source
//! text into a linear instruction stream, and a staged CPU simulator executes
//! that stream one micro-stage at a time, exposing the full architectural
//! state after every stage.

pub mod codegen;
pub mod cpu_simulator;
pub mod lexer;
pub mod maps;
pub mod parser;
pub mod text;
pub mod types;

use vstd::prelude::*;
use crate::codegen::{CodeGenerator, gen_node, lemma_gen_node_size};
use crate::lexer::{Lexer, lex_from, lemma_lex_count};
use crate::parser::{Parser, lemma_parse_size, spec_parse_program};
use crate::types::{CompilationResult, InstrV, children_size, instrs_view, node_size,
    tokens_view};

verus! {

/// Upper bound on the number of characters `compile` accepts, so that the
/// code generator's memory-offset counter cannot exceed `usize`.
pub const MAX_COMPILE_LEN: usize = (usize::MAX - 1004) / 4;

/// The instruction sequence the whole pipeline produces for `source`:
/// tokenize, parse, then generate, starting at instruction index 0 and
/// memory offset 1000.
pub open spec fn compile_spec(source: Seq<char>) -> Seq<InstrV> {
    gen_node(spec_parse_program(lex_from(source, 0), 0), 0, 1000).0
}

/// Runs the whole pipeline — lexer, parser, code generator — over
/// `source_code` and returns the instruction list. All three stages are
/// fail-soft, so the result always reports success, with no errors and
/// no warnings; the reported compilation time is a constant placeholder,
/// not a measured duration.
pub fn compile(source_code: &str) -> (r: CompilationResult)
    requires
        source_code@.len() <= MAX_COMPILE_LEN,
    ensures
        r.success,
        r.errors@.len() == 0,
        r.warnings@.len() == 0,
        r.compilation_time == 150,
        instrs_view(r.instructions@) == compile_spec(source_code@),
{
    let mut lexer = Lexer::new(source_code.to_owned());
    let tokens = match lexer.tokenize() {
        Ok(t) => t,
        Err(_) => unreached(),
    };
    proof {
        assert(tokens_view(Seq::<crate::types::Token>::empty()) =~= Seq::<
            crate::types::TokenV,
        >::empty());
        assert(tokens_view(tokens@) =~= lex_from(source_code@, 0));
    }
    let mut parser = Parser::new(tokens);
    let ast = match parser.parse() {
        Ok(a) => a,
        Err(_) => unreached(),
    };
    let mut generator = CodeGenerator::new(ast);
    proof {
        let toks = lex_from(source_code@, 0);
        let root = spec_parse_program(toks, 0);
        lemma_lex_count(source_code@, 0);
        lemma_parse_size(toks, 0);
        lemma_gen_node_size(root, 0, 1000);
        assert(node_size(root) == 1 + children_size(root.children, 0));
        assert(gen_node(root, 0, 1000).1 <= 1004 + 4 * toks.len());
    }
    let instructions = match generator.generate() {
        Ok(i) => i,
        Err(_) => unreached(),
    };
    proof {
        assert(instrs_view(generator.instructions@) =~= compile_spec(source_code@));
    }
    CompilationResult {
        success: true,
        instructions,
        errors: Vec::new(),
        warnings: Vec::new(),
        compilation_time: 150,
    }
}

} // verus!
