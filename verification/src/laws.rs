//! The load-bearing properties of the language, stated and proved over
//! the semantics: arithmetic fidelity, the undefined-identifier rules,
//! the call-frame discipline, the one-operator expression grammar, loop
//! re-evaluation, and truthiness.
use crate::ast::{BinOp, ExprV, StmtV};
use crate::parser::{binop_of, parse_expr_spec, prim_of, tok_at};
use crate::semantics::{StateV, StepR, apply_binop, eval_expr_spec, run_block_spec, run_stmt_spec,
    trunc_div, trunc_rem};
use crate::value::{OutEventV, RtErrorV, ValueV, truthy};
use vstd::prelude::*;

verus! {

/// For two integer operands and an arithmetic operator, evaluation
/// follows native machine arithmetic on 64-bit signed integers: sum,
/// difference and product whenever the result is representable, and
/// division and remainder truncating toward zero for a nonzero divisor
/// whenever the quotient is representable. For nonnegative operands the
/// truncating division is plain integer division.
pub proof fn lemma_int_arithmetic(a: i64, b: i64)
    ensures
        i64::MIN <= a + b <= i64::MAX ==> apply_binop(
            ValueV::Integer(a),
            BinOp::Plus,
            ValueV::Integer(b),
        ) == Some(ValueV::Integer((a + b) as i64)),
        i64::MIN <= a - b <= i64::MAX ==> apply_binop(
            ValueV::Integer(a),
            BinOp::Minus,
            ValueV::Integer(b),
        ) == Some(ValueV::Integer((a - b) as i64)),
        i64::MIN <= a * b <= i64::MAX ==> apply_binop(
            ValueV::Integer(a),
            BinOp::Multiply,
            ValueV::Integer(b),
        ) == Some(ValueV::Integer((a * b) as i64)),
        b != 0 && i64::MIN <= trunc_div(a as int, b as int) <= i64::MAX ==> apply_binop(
            ValueV::Integer(a),
            BinOp::Divide,
            ValueV::Integer(b),
        ) == Some(ValueV::Integer(trunc_div(a as int, b as int) as i64)),
        b != 0 && i64::MIN <= trunc_div(a as int, b as int) <= i64::MAX ==> apply_binop(
            ValueV::Integer(a),
            BinOp::Modulo,
            ValueV::Integer(b),
        ) == Some(ValueV::Integer(trunc_rem(a as int, b as int) as i64)),
        a >= 0 && b > 0 ==> trunc_div(a as int, b as int) == a as int / b as int,
        a >= 0 && b > 0 ==> trunc_rem(a as int, b as int) == a as int % b as int,
{
}

/// Reading an undefined identifier never faults: it yields the absent
/// value, and printing it emits exactly the fixed word that the absent
/// value renders as.
pub proof fn lemma_undefined_read(st: StateV, name: Seq<char>, fuel: nat)
    requires
        !st.env.contains_key(name),
    ensures
        eval_expr_spec(st.env, ExprV::Identifier(name)) == Some(ValueV::Absent),
        run_stmt_spec(st, StmtV::Print(ExprV::Identifier(name)), fuel) == StepR::Done(
            StateV { output: st.output.push(OutEventV::Line("khali"@)), ..st },
        ),
{
}

/// Assigning to an undefined identifier stops the run at once, with the
/// state unchanged.
pub proof fn lemma_undefined_assignment(st: StateV, name: Seq<char>, e: ExprV, fuel: nat)
    requires
        !st.env.contains_key(name),
    ensures
        run_stmt_spec(st, StmtV::Assignment(name, e), fuel) == StepR::Fail(
            st,
            RtErrorV::AssignUndefined(name),
        ),
{
}

/// A function call that completes leaves every caller variable except
/// the explicit destination exactly as it was: same bindings, same
/// values. Only the destination is (re)bound, to the returned value.
pub proof fn lemma_call_frame(
    st: StateV,
    fname: Seq<char>,
    args: Seq<ExprV>,
    dest: Seq<char>,
    fuel: nat,
    st2: StateV,
)
    requires
        run_stmt_spec(st, StmtV::FunctionCall(fname, args, dest), fuel) == StepR::Done(st2),
    ensures
        st2.env.contains_key(dest),
        forall|v: Seq<char>|
            v != dest ==> (#[trigger] st2.env.contains_key(v) <==> st.env.contains_key(v)),
        forall|v: Seq<char>|
            v != dest && st.env.contains_key(v) ==> #[trigger] st2.env[v] == st.env[v],
{
}

/// Whether an expression is a bare literal or identifier.
pub open spec fn is_primary(e: ExprV) -> bool {
    !(e is BinaryOp)
}

/// The expression grammar composes at most one binary operator: whatever
/// it accepts is a primary, or one operator applied to two primaries,
/// and it consumes at most three tokens of the sequence.
pub proof fn lemma_expr_single_operator(toks: Seq<crate::ast::Token>, pos: int)
    ensures
        (match parse_expr_spec(toks, pos).1 {
            Ok(e) => match e {
                ExprV::BinaryOp(l, op, r) => is_primary(*l) && is_primary(*r),
                _ => true,
            },
            Err(_) => true,
        }),
        parse_expr_spec(toks, pos).0 <= pos + 3,
{
}

/// Once two primaries are parsed, the token after them decides: a
/// recognized binary operator composes exactly one operation node, with
/// the cursor ending past the operator; anything else — the end of the
/// input included — is a fatal expected-operator fault, and no operand
/// is silently dropped.
pub proof fn lemma_expr_operator_required(toks: Seq<crate::ast::Token>, pos: int)
    requires
        prim_of(tok_at(toks, pos)) is Some,
        prim_of(tok_at(toks, pos + 1)) is Some,
    ensures
        (match binop_of(tok_at(toks, pos + 2)) {
            Some(op) => parse_expr_spec(toks, pos) == (
                pos + 3,
                Ok::<ExprV, crate::value::ParseError>(
                    ExprV::BinaryOp(
                        Box::new(prim_of(tok_at(toks, pos))->Some_0),
                        op,
                        Box::new(prim_of(tok_at(toks, pos + 1))->Some_0),
                    ),
                ),
            ),
            None => parse_expr_spec(toks, pos) == (
                pos + 2,
                Err::<ExprV, crate::value::ParseError>(crate::value::ParseError::ExpectedOperator),
            ),
        }),
{
}

/// One unrolling of a loop statement: the condition is evaluated anew
/// before every iteration; a falsy condition ends the loop at once, with
/// zero iterations and the state untouched; a truthy one runs the body
/// once and then faces the loop again.
pub proof fn lemma_while_unroll(st: StateV, c: ExprV, body: Seq<StmtV>, fuel: nat)
    requires
        fuel > 0,
    ensures
        (match eval_expr_spec(st.env, c) {
            None => run_stmt_spec(st, StmtV::While { condition: c, body }, fuel) == StepR::Fail(
                st,
                RtErrorV::InvalidOperation,
            ),
            Some(v) => if !truthy(v) {
                run_stmt_spec(st, StmtV::While { condition: c, body }, fuel) == StepR::Done(st)
            } else {
                run_stmt_spec(st, StmtV::While { condition: c, body }, fuel) == (
                match run_block_spec(st, body, (fuel - 1) as nat) {
                    StepR::Fail(st2, e) => StepR::Fail(st2, e),
                    StepR::Done(st2) => run_stmt_spec(
                        st2,
                        StmtV::While { condition: c, body },
                        (fuel - 1) as nat,
                    ),
                })
            },
        }),
{
}

/// An integer-typed input statement whose line does not read as an
/// integer faults at once: the prompt is emitted and the line consumed,
/// but the environment is untouched — no binding for the destination is
/// created and nothing further runs.
pub proof fn lemma_integer_input_rejection(st: StateV, name: Seq<char>, line: Seq<char>)
    requires
        st.inputs.len() > 0,
        st.inputs[0] == line,
        crate::text::parse_i64_spec(crate::text::trim_spec(line)) is None,
    ensures
        crate::semantics::run_input_spec(st, name, "sankhya"@) == StepR::Fail(
            StateV {
                inputs: st.inputs.drop_first(),
                output: st.output.push(
                    OutEventV::Prompt(crate::semantics::prompt_text(name, "sankhya"@)),
                ),
                ..st
            },
            RtErrorV::InputParse(line),
        ),
{
}

/// A loop statement that completes leaves a state in which its condition
/// evaluates falsy: the condition is re-evaluated in the current state
/// after every body execution, and only a falsy evaluation ends the loop.
pub proof fn lemma_while_condition_false_on_completion(
    st: StateV,
    c: ExprV,
    body: Seq<StmtV>,
    fuel: nat,
    st2: StateV,
)
    requires
        run_stmt_spec(st, StmtV::While { condition: c, body }, fuel) == StepR::Done(st2),
    ensures
        eval_expr_spec(st2.env, c) is Some,
        !truthy(eval_expr_spec(st2.env, c)->Some_0),
    decreases fuel,
{
    if fuel > 0 {
        match eval_expr_spec(st.env, c) {
            Some(v) => {
                if truthy(v) {
                    match run_block_spec(st, body, (fuel - 1) as nat) {
                        StepR::Done(stm) => {
                            lemma_while_condition_false_on_completion(
                                stm,
                                c,
                                body,
                                (fuel - 1) as nat,
                                st2,
                            );
                        },
                        StepR::Fail(_, _) => {},
                    }
                }
            },
            None => {},
        }
    }
}

/// The step budget is an artifact, not part of the semantics: any
/// outcome other than budget exhaustion stays exactly the same under
/// every larger budget.
pub proof fn lemma_fuel_irrelevant_stmt(st: StateV, s: StmtV, f1: nat, f2: nat)
    requires
        f1 <= f2,
    ensures
        (match run_stmt_spec(st, s, f1) {
            StepR::Done(st2) => run_stmt_spec(st, s, f2) == StepR::Done(st2),
            StepR::Fail(st2, e) => !(e is OutOfFuel) ==> run_stmt_spec(st, s, f2)
                == StepR::Fail(st2, e),
        }),
    decreases f1, 0nat,
{
    match s {
        StmtV::If { condition, then_block, else_block } => {
            if f1 > 0 {
                lemma_fuel_irrelevant_block(st, then_block, (f1 - 1) as nat, (f2 - 1) as nat);
                lemma_fuel_irrelevant_block(st, else_block, (f1 - 1) as nat, (f2 - 1) as nat);
            }
        },
        StmtV::While { condition, body } => {
            if f1 > 0 {
                match eval_expr_spec(st.env, condition) {
                    Some(v) => {
                        if truthy(v) {
                            lemma_fuel_irrelevant_block(st, body, (f1 - 1) as nat, (f2 - 1) as nat);
                            match run_block_spec(st, body, (f1 - 1) as nat) {
                                StepR::Done(st2) => {
                                    lemma_fuel_irrelevant_stmt(st2, s, (f1 - 1) as nat, (f2
                                        - 1) as nat);
                                },
                                StepR::Fail(_, _) => {},
                            }
                        }
                    },
                    None => {},
                }
            }
        },
        StmtV::FunctionCall(fname, args, dest) => {
            if f1 > 0 && st.funcs.contains_key(fname) {
                let fd = st.funcs[fname];
                match crate::semantics::bind_params(st.env, st.env, fd.params, args) {
                    Some(local) => {
                        lemma_fuel_irrelevant_block(
                            StateV { env: local, ..st },
                            fd.body,
                            (f1 - 1) as nat,
                            (f2 - 1) as nat,
                        );
                    },
                    None => {},
                }
            }
        },
        _ => {},
    }
}

/// The block form of `lemma_fuel_irrelevant_stmt`.
pub proof fn lemma_fuel_irrelevant_block(st: StateV, ss: Seq<StmtV>, f1: nat, f2: nat)
    requires
        f1 <= f2,
    ensures
        (match run_block_spec(st, ss, f1) {
            StepR::Done(st2) => run_block_spec(st, ss, f2) == StepR::Done(st2),
            StepR::Fail(st2, e) => !(e is OutOfFuel) ==> run_block_spec(st, ss, f2)
                == StepR::Fail(st2, e),
        }),
    decreases f1, ss.len(),
{
    if ss.len() > 0 {
        lemma_fuel_irrelevant_stmt(st, ss[0], f1, f2);
        match run_stmt_spec(st, ss[0], f1) {
            StepR::Done(st2) => {
                lemma_fuel_irrelevant_block(st2, ss.drop_first(), f1, f2);
            },
            StepR::Fail(_, _) => {},
        }
    }
}

/// Truthiness: integer zero, both floating-point zeros, the empty text
/// and the absent value are falsy; every other integer, float bit
/// pattern with a nonzero magnitude, and nonempty text is truthy;
/// booleans are themselves.
pub proof fn lemma_truthiness()
    ensures
        !truthy(ValueV::Integer(0)),
        forall|i: i64| i != 0 ==> truthy(ValueV::Integer(i)),
        !truthy(ValueV::Float(0)),
        !truthy(ValueV::Float(0x8000_0000_0000_0000)),
        forall|bits: u64| bits & 0x7fff_ffff_ffff_ffff != 0 ==> truthy(ValueV::Float(bits)),
        !truthy(ValueV::Text(Seq::empty())),
        forall|s: Seq<char>| s.len() > 0 ==> truthy(ValueV::Text(s)),
        truthy(ValueV::Boolean(true)),
        !truthy(ValueV::Boolean(false)),
        !truthy(ValueV::Absent),
{
    assert(0x8000_0000_0000_0000u64 & 0x7fff_ffff_ffff_ffffu64 == 0) by (bit_vector);
    assert(0u64 & 0x7fff_ffff_ffff_ffffu64 == 0) by (bit_vector);
}

} // verus!
