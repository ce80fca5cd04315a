//! The mathematical semantics of the language: what evaluating an
//! expression yields, and how executing a statement transforms the
//! interpreter state.
//!
//! Loops and calls of the language have no internal bound, so statement
//! execution is indexed by a step budget (`fuel`): entering a conditional,
//! one loop iteration, and one function call each spend one unit. With
//! enough fuel the result is independent of the budget; an exhausted
//! budget is reported as its own failure.
use crate::ast::{BinOp, ExprV, StmtV};
use crate::env::FunDefV;
use crate::float::{
    float_add, float_div, float_eq, float_le, float_lt, float_mul, float_of_int, float_parse,
    float_rem, float_sub,
};
use crate::text::{parse_bool_spec, parse_i64_spec, render, trim_spec};
use crate::value::{OutEventV, RtErrorV, ValueV, truthy};
use vstd::prelude::*;

verus! {

/// The whole observable state of a run: the variable environment, the
/// function table, the input lines not yet consumed, and the output
/// events emitted so far.
pub ghost struct StateV {
    pub env: Map<Seq<char>, ValueV>,
    pub funcs: Map<Seq<char>, FunDefV>,
    pub inputs: Seq<Seq<char>>,
    pub output: Seq<OutEventV>,
}

/// The outcome of executing statements: the new state, or the state at
/// the moment of a fatal fault together with the fault.
pub ghost enum StepR {
    Done(StateV),
    Fail(StateV, RtErrorV),
}

/// The absolute value.
pub open spec fn abs_i(a: int) -> int {
    if a < 0 {
        -a
    } else {
        a
    }
}

/// Division truncating toward zero, the native semantics of `/` on
/// signed machine integers.
pub open spec fn trunc_div(a: int, b: int) -> int {
    let q = abs_i(a) / abs_i(b);
    if (a < 0) != (b < 0) {
        -q
    } else {
        q
    }
}

/// Remainder paired with `trunc_div`: it takes the sign of the dividend.
pub open spec fn trunc_rem(a: int, b: int) -> int {
    let m = abs_i(a) % abs_i(b);
    if a < 0 {
        -m
    } else {
        m
    }
}

/// The fixed result table of a binary operation, given the two operand
/// values. `None` is the fatal "invalid operation": a combination outside
/// the table, an integer result out of range, or an integer division or
/// remainder by zero.
///
/// Concatenation of text with a non-text value renders the other operand
/// exactly as printing would (the absent value as "khali").
pub open spec fn apply_binop(l: ValueV, op: BinOp, r: ValueV) -> Option<ValueV> {
    match op {
        BinOp::Plus => match (l, r) {
            (ValueV::Integer(a), ValueV::Integer(b)) => if i64::MIN <= a + b <= i64::MAX {
                Some(ValueV::Integer((a + b) as i64))
            } else {
                None
            },
            (ValueV::Float(a), ValueV::Float(b)) => Some(ValueV::Float(float_add(a, b))),
            (ValueV::Text(a), ValueV::Text(b)) => Some(ValueV::Text(a + b)),
            (ValueV::Text(a), other) => Some(ValueV::Text(a + render(other))),
            (other, ValueV::Text(b)) => Some(ValueV::Text(render(other) + b)),
            (ValueV::Integer(a), ValueV::Float(b)) => Some(
                ValueV::Float(float_add(float_of_int(a), b)),
            ),
            (ValueV::Float(a), ValueV::Integer(b)) => Some(
                ValueV::Float(float_add(a, float_of_int(b))),
            ),
            _ => None,
        },
        BinOp::Minus => match (l, r) {
            (ValueV::Integer(a), ValueV::Integer(b)) => if i64::MIN <= a - b <= i64::MAX {
                Some(ValueV::Integer((a - b) as i64))
            } else {
                None
            },
            (ValueV::Float(a), ValueV::Float(b)) => Some(ValueV::Float(float_sub(a, b))),
            _ => None,
        },
        BinOp::Multiply => match (l, r) {
            (ValueV::Integer(a), ValueV::Integer(b)) => if i64::MIN <= a * b <= i64::MAX {
                Some(ValueV::Integer((a * b) as i64))
            } else {
                None
            },
            (ValueV::Float(a), ValueV::Float(b)) => Some(ValueV::Float(float_mul(a, b))),
            _ => None,
        },
        BinOp::Divide => match (l, r) {
            (ValueV::Integer(a), ValueV::Integer(b)) => if b != 0 && i64::MIN <= trunc_div(
                a as int,
                b as int,
            ) <= i64::MAX {
                Some(ValueV::Integer(trunc_div(a as int, b as int) as i64))
            } else {
                None
            },
            (ValueV::Float(a), ValueV::Float(b)) => Some(ValueV::Float(float_div(a, b))),
            _ => None,
        },
        BinOp::Modulo => match (l, r) {
            (ValueV::Integer(a), ValueV::Integer(b)) => if b != 0 && i64::MIN <= trunc_div(
                a as int,
                b as int,
            ) <= i64::MAX {
                Some(ValueV::Integer(trunc_rem(a as int, b as int) as i64))
            } else {
                None
            },
            (ValueV::Float(a), ValueV::Float(b)) => Some(ValueV::Float(float_rem(a, b))),
            _ => None,
        },
        BinOp::LessThan => match (l, r) {
            (ValueV::Integer(a), ValueV::Integer(b)) => Some(ValueV::Boolean(a < b)),
            (ValueV::Float(a), ValueV::Float(b)) => Some(ValueV::Boolean(float_lt(a, b))),
            _ => None,
        },
        BinOp::GreaterThan => match (l, r) {
            (ValueV::Integer(a), ValueV::Integer(b)) => Some(ValueV::Boolean(a > b)),
            (ValueV::Float(a), ValueV::Float(b)) => Some(ValueV::Boolean(float_lt(b, a))),
            _ => None,
        },
        BinOp::LessThanOrEqual => match (l, r) {
            (ValueV::Integer(a), ValueV::Integer(b)) => Some(ValueV::Boolean(a <= b)),
            (ValueV::Float(a), ValueV::Float(b)) => Some(ValueV::Boolean(float_le(a, b))),
            _ => None,
        },
        BinOp::GreaterThanOrEqual => match (l, r) {
            (ValueV::Integer(a), ValueV::Integer(b)) => Some(ValueV::Boolean(a >= b)),
            (ValueV::Float(a), ValueV::Float(b)) => Some(ValueV::Boolean(float_le(b, a))),
            _ => None,
        },
        BinOp::Equals => match (l, r) {
            (ValueV::Integer(a), ValueV::Integer(b)) => Some(ValueV::Boolean(a == b)),
            (ValueV::Float(a), ValueV::Float(b)) => Some(ValueV::Boolean(float_eq(a, b))),
            (ValueV::Text(a), ValueV::Text(b)) => Some(ValueV::Boolean(a == b)),
            (ValueV::Boolean(a), ValueV::Boolean(b)) => Some(ValueV::Boolean(a == b)),
            _ => None,
        },
        BinOp::NotEquals => match (l, r) {
            (ValueV::Integer(a), ValueV::Integer(b)) => Some(ValueV::Boolean(a != b)),
            (ValueV::Float(a), ValueV::Float(b)) => Some(ValueV::Boolean(!float_eq(a, b))),
            (ValueV::Text(a), ValueV::Text(b)) => Some(ValueV::Boolean(a != b)),
            (ValueV::Boolean(a), ValueV::Boolean(b)) => Some(ValueV::Boolean(a != b)),
            _ => None,
        },
        BinOp::And => match (l, r) {
            (ValueV::Boolean(a), ValueV::Boolean(b)) => Some(ValueV::Boolean(a && b)),
            _ => None,
        },
        BinOp::Or => match (l, r) {
            (ValueV::Boolean(a), ValueV::Boolean(b)) => Some(ValueV::Boolean(a || b)),
            _ => None,
        },
    }
}

/// What evaluating an expression against an environment yields. Reading
/// an unbound identifier is not a fault: it yields the absent value.
/// `None` is the fatal "invalid operation".
pub open spec fn eval_expr_spec(env: Map<Seq<char>, ValueV>, e: ExprV) -> Option<ValueV>
    decreases e,
{
    match e {
        ExprV::Integer(i) => Some(ValueV::Integer(i)),
        ExprV::Float(b) => Some(ValueV::Float(b)),
        ExprV::Text(s) => Some(ValueV::Text(s)),
        ExprV::Boolean(b) => Some(ValueV::Boolean(b)),
        ExprV::Identifier(name) => Some(
            if env.contains_key(name) {
                env[name]
            } else {
                ValueV::Absent
            },
        ),
        ExprV::BinaryOp(l, op, r) => match eval_expr_spec(env, *l) {
            None => None,
            Some(lv) => match eval_expr_spec(env, *r) {
                None => None,
                Some(rv) => apply_binop(lv, op, rv),
            },
        },
    }
}

/// The overlay of a call: the caller's environment extended with each
/// parameter bound to its argument, evaluated left to right against the
/// caller's environment. Pairing stops at the shorter list. `None` is a
/// fatal fault in evaluating an argument.
pub open spec fn bind_params(
    ev: Map<Seq<char>, ValueV>,
    cur: Map<Seq<char>, ValueV>,
    params: Seq<Seq<char>>,
    args: Seq<ExprV>,
) -> Option<Map<Seq<char>, ValueV>>
    decreases params.len(),
{
    if params.len() == 0 || args.len() == 0 {
        Some(cur)
    } else {
        match eval_expr_spec(ev, args[0]) {
            None => None,
            Some(v) => bind_params(ev, cur.insert(params[0], v), params.drop_first(),
                args.drop_first()),
        }
    }
}

/// The parameter names of a definition, provided every parameter
/// expression is a bare identifier; `None` otherwise, which is the fatal
/// "invalid parameter" fault.
pub open spec fn params_names(params: Seq<ExprV>) -> Option<Seq<Seq<char>>>
    decreases params.len(),
{
    if params.len() == 0 {
        Some(Seq::empty())
    } else {
        match params[0] {
            ExprV::Identifier(n) => match params_names(params.drop_first()) {
                None => None,
                Some(rest) => Some(seq![n] + rest),
            },
            _ => None,
        }
    }
}

/// The name under an identifier expression; the empty name for anything
/// else.
pub open spec fn ident_name(e: ExprV) -> Seq<char> {
    match e {
        ExprV::Identifier(n) => n,
        _ => Seq::empty(),
    }
}

/// Whether every expression of the list is a bare identifier.
pub open spec fn all_identifiers(pv: Seq<ExprV>) -> bool {
    forall|j: int| 0 <= j < pv.len() ==> pv[j] is Identifier
}

/// `params_names` succeeds exactly on lists of bare identifiers, and then
/// yields their names in order.
pub proof fn lemma_params_names(pv: Seq<ExprV>)
    ensures
        all_identifiers(pv) ==> params_names(pv) == Some(
            Seq::new(pv.len(), |j: int| ident_name(pv[j])),
        ),
        !all_identifiers(pv) ==> params_names(pv) is None,
    decreases pv.len(),
{
    if pv.len() == 0 {
        assert(Seq::new(0, |j: int| ident_name(pv[j])) =~= Seq::<Seq<char>>::empty());
    } else {
        lemma_params_names(pv.drop_first());
        match pv[0] {
            ExprV::Identifier(n) => {
                if all_identifiers(pv) {
                    assert(all_identifiers(pv.drop_first())) by {
                        assert(forall|j: int|
                            0 <= j < pv.drop_first().len() ==> pv.drop_first()[j] == pv[j + 1]);
                    }
                    assert(seq![n] + Seq::new(
                        pv.drop_first().len(),
                        |j: int| ident_name(pv.drop_first()[j]),
                    ) =~= Seq::new(pv.len(), |j: int| ident_name(pv[j])));
                } else {
                    let bad = choose|j: int| 0 <= j < pv.len() && !(pv[j] is Identifier);
                    assert(pv.drop_first()[bad - 1] == pv[bad]);
                    assert(!all_identifiers(pv.drop_first()));
                }
            },
            _ => {},
        }
    }
}

/// If the first faulting argument comes at position `k` of the zipped
/// lists, the whole overlay fails, whatever map it started from.
pub proof fn lemma_bind_params_fail(
    ev: Map<Seq<char>, ValueV>,
    cur: Map<Seq<char>, ValueV>,
    params: Seq<Seq<char>>,
    args: Seq<ExprV>,
    k: int,
)
    requires
        0 <= k < params.len(),
        k < args.len(),
        forall|j: int| 0 <= j < k ==> eval_expr_spec(ev, #[trigger] args[j]) is Some,
        eval_expr_spec(ev, args[k]) is None,
    ensures
        bind_params(ev, cur, params, args) is None,
    decreases k,
{
    if k > 0 {
        let v = eval_expr_spec(ev, args[0])->Some_0;
        assert(forall|j: int|
            0 <= j < k - 1 ==> args.drop_first()[j] == #[trigger] args[j + 1]);
        lemma_bind_params_fail(ev, cur.insert(params[0], v), params.drop_first(),
            args.drop_first(), k - 1);
    }
}

/// The prompt an input statement emits before reading a line.
pub open spec fn prompt_text(name: Seq<char>, dtype: Seq<char>) -> Seq<char> {
    name + " ("@ + dtype + ") >>> "@
}

/// What an input statement does: emit the prompt, consume one line (an
/// exhausted input reads as the empty line), trim it, and bind the value
/// it denotes under the requested type, which must be one of the four
/// recognized type names.
pub open spec fn run_input_spec(st: StateV, name: Seq<char>, dtype: Seq<char>) -> StepR {
    let line = if st.inputs.len() > 0 {
        st.inputs[0]
    } else {
        Seq::empty()
    };
    let st1 = StateV {
        inputs: if st.inputs.len() > 0 {
            st.inputs.drop_first()
        } else {
            st.inputs
        },
        output: st.output.push(OutEventV::Prompt(prompt_text(name, dtype))),
        ..st
    };
    let t = trim_spec(line);
    if dtype == "sankhya"@ {
        match parse_i64_spec(t) {
            None => StepR::Fail(st1, RtErrorV::InputParse(line)),
            Some(i) => StepR::Done(StateV { env: st1.env.insert(name, ValueV::Integer(i)), ..st1 }),
        }
    } else if dtype == "dasamlav"@ {
        match float_parse(t) {
            None => StepR::Fail(st1, RtErrorV::InputParse(line)),
            Some(bits) => StepR::Done(
                StateV { env: st1.env.insert(name, ValueV::Float(bits)), ..st1 },
            ),
        }
    } else if dtype == "paath"@ {
        StepR::Done(StateV { env: st1.env.insert(name, ValueV::Text(t)), ..st1 })
    } else if dtype == "tark"@ {
        match parse_bool_spec(t) {
            None => StepR::Fail(st1, RtErrorV::InputParse(line)),
            Some(b) => StepR::Done(StateV { env: st1.env.insert(name, ValueV::Boolean(b)), ..st1 }),
        }
    } else {
        StepR::Fail(st1, RtErrorV::UnknownInputType(dtype))
    }
}

/// How one statement transforms the state, with `fuel` bounding the
/// nesting of conditionals, loop iterations and calls.
pub open spec fn run_stmt_spec(st: StateV, s: StmtV, fuel: nat) -> StepR
    decreases fuel, 0nat,
{
    match s {
        StmtV::Declaration(name, e) => match eval_expr_spec(st.env, e) {
            None => StepR::Fail(st, RtErrorV::InvalidOperation),
            Some(v) => StepR::Done(StateV { env: st.env.insert(name, v), ..st }),
        },
        StmtV::Assignment(name, e) => if !st.env.contains_key(name) {
            StepR::Fail(st, RtErrorV::AssignUndefined(name))
        } else {
            match eval_expr_spec(st.env, e) {
                None => StepR::Fail(st, RtErrorV::InvalidOperation),
                Some(v) => StepR::Done(StateV { env: st.env.insert(name, v), ..st }),
            }
        },
        StmtV::If { condition, then_block, else_block } => if fuel == 0 {
            StepR::Fail(st, RtErrorV::OutOfFuel)
        } else {
            match eval_expr_spec(st.env, condition) {
                None => StepR::Fail(st, RtErrorV::InvalidOperation),
                Some(c) => if truthy(c) {
                    run_block_spec(st, then_block, (fuel - 1) as nat)
                } else {
                    run_block_spec(st, else_block, (fuel - 1) as nat)
                },
            }
        },
        StmtV::While { condition, body } => if fuel == 0 {
            StepR::Fail(st, RtErrorV::OutOfFuel)
        } else {
            match eval_expr_spec(st.env, condition) {
                None => StepR::Fail(st, RtErrorV::InvalidOperation),
                Some(c) => if !truthy(c) {
                    StepR::Done(st)
                } else {
                    match run_block_spec(st, body, (fuel - 1) as nat) {
                        StepR::Fail(st2, e) => StepR::Fail(st2, e),
                        StepR::Done(st2) => run_stmt_spec(st2, s, (fuel - 1) as nat),
                    }
                },
            }
        },
        StmtV::Print(e) => match eval_expr_spec(st.env, e) {
            None => StepR::Fail(st, RtErrorV::InvalidOperation),
            Some(v) => StepR::Done(
                StateV { output: st.output.push(OutEventV::Line(render(v))), ..st },
            ),
        },
        StmtV::Input(name, dtype) => run_input_spec(st, name, dtype),
        StmtV::FunctionDef(name, params, body, ret) => match params_names(params) {
            None => StepR::Fail(st, RtErrorV::InvalidParameter),
            Some(ns) => StepR::Done(
                StateV {
                    funcs: st.funcs.insert(name, FunDefV { params: ns, body, ret }),
                    ..st
                },
            ),
        },
        StmtV::FunctionCall(fname, args, dest) => if fuel == 0 {
            StepR::Fail(st, RtErrorV::OutOfFuel)
        } else if !st.funcs.contains_key(fname) {
            StepR::Fail(st, RtErrorV::UnknownFunction(fname))
        } else {
            let fd = st.funcs[fname];
            match bind_params(st.env, st.env, fd.params, args) {
                None => StepR::Fail(st, RtErrorV::InvalidOperation),
                Some(local) => match run_block_spec(
                    StateV { env: local, ..st },
                    fd.body,
                    (fuel - 1) as nat,
                ) {
                    StepR::Fail(st2, e) => StepR::Fail(st2, e),
                    StepR::Done(st2) => match eval_expr_spec(st2.env, fd.ret) {
                        None => StepR::Fail(st2, RtErrorV::InvalidOperation),
                        Some(rv) => StepR::Done(
                            StateV {
                                env: st.env.insert(dest, rv),
                                funcs: st2.funcs,
                                inputs: st2.inputs,
                                output: st2.output,
                            },
                        ),
                    },
                },
            }
        },
    }
}

/// How a sequence of statements transforms the state: each statement in
/// order, stopping at the first fault.
pub open spec fn run_block_spec(st: StateV, ss: Seq<StmtV>, fuel: nat) -> StepR
    decreases fuel, ss.len(),
{
    if ss.len() == 0 {
        StepR::Done(st)
    } else {
        match run_stmt_spec(st, ss[0], fuel) {
            StepR::Fail(st2, e) => StepR::Fail(st2, e),
            StepR::Done(st2) => run_block_spec(st2, ss.drop_first(), fuel),
        }
    }
}

} // verus!
