//! The front end and execution engine of a small interpreted scripting
//! language: a recursive-descent parser from tokens to an abstract syntax
//! tree, and a tree-walking evaluator with a mutable variable environment
//! and a table of user-defined functions.
//!
//! The scanner that turns source text into tokens, and all console input
//! and output, are external collaborators: the parser consumes a finished
//! token sequence, and the evaluator reads a sequence of prepared input
//! lines and produces a transcript of output events.
mod ast;
mod env;
mod float;
mod interp;
mod laws;
mod parser;
mod semantics;
mod text;
mod value;

pub use ast::{BinOp, ExprV, Expression, Program, Statement, StmtV, Token, exprs_view, stmts_view};
pub use env::{Env, FunDef, FunDefV, Funcs, lemma_log_absent, lemma_log_found, map_of_log};
pub use float::{
    float_add, float_div, float_eq, float_le, float_lt, float_mul, float_of_int, float_parse,
    float_rem, float_sub, float_text,
};
pub use interp::{Interpreter, eval_binop, eval_expr, is_truthy};
pub use laws::{
    is_primary, lemma_call_frame, lemma_expr_single_operator, lemma_fuel_irrelevant_block,
    lemma_expr_operator_required, lemma_fuel_irrelevant_stmt, lemma_int_arithmetic,
    lemma_integer_input_rejection,
    lemma_truthiness, lemma_while_condition_false_on_completion,
    lemma_undefined_assignment, lemma_undefined_read, lemma_while_unroll,
};
pub use parser::{
    Parser, adv, back, binop_of, has_next_at, lift_stmt, parse_args_spec, parse_block_spec,
    parse_decl_spec, parse_expr_spec, parse_funcall_spec, parse_fundef_spec, parse_if_spec,
    parse_input_spec, parse_params_spec, parse_print_spec, parse_program_spec, parse_stmt_spec,
    parse_while_spec, prim_of, rem, tok_at,
};
pub use semantics::{
    StateV, StepR, abs_i, all_identifiers, apply_binop, bind_params, eval_expr_spec, ident_name,
    lemma_bind_params_fail, lemma_params_names, params_names, prompt_text, run_block_spec,
    run_input_spec, run_stmt_spec, trunc_div, trunc_rem,
};
pub use text::{
    all_digits, count_leading, count_trailing, digit_char, digits_val, int_text, int_to_text,
    is_digit, is_space, nat_text, parse_bool, parse_bool_spec, parse_i64, parse_i64_spec, render,
    render_value, str_eq, trim, trim_spec,
};
pub use value::{
    OutEvent, OutEventV, ParseError, RtError, RtErrorV, Value, ValueV, float_is_zero, out_view,
    truthy,
};
