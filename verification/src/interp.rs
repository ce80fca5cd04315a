//! The tree-walking evaluator: executes a program's statements in order
//! against a mutable environment and a table of user-defined functions,
//! exactly as the `semantics` module describes.
use crate::ast::{BinOp, Expression, Program, Statement, StmtV, expr_dup, lemma_exprs_view_index,
    lemma_stmts_view_index, stmts_dup, stmts_view};
use crate::env::{Env, FunDef, Funcs};
use crate::float::{f_add, f_div, f_eq, f_le, f_lt, f_mul, f_of_int, f_parse, f_rem, f_sub,
    f_text};
use crate::semantics::{StateV, StepR, apply_binop, bind_params, eval_expr_spec, params_names,
    run_block_spec, run_input_spec, run_stmt_spec, trunc_div, trunc_rem};
use crate::text::{parse_bool, parse_i64, render_value, str_eq, trim};
use crate::value::{OutEvent, RtError, Value, lemma_out_view_index, out_view, truthy};
use std::rc::Rc;
use vstd::prelude::*;
use vstd::string::StrSliceExecFns;
use vstd::string::StringExecFns;

verus! {

broadcast use vstd::std_specs::vec::group_vec_axioms, vstd::seq::group_seq_axioms;

/// The truthiness of a value, as the `truthy` rule states it.
pub fn is_truthy(v: &Value) -> (r: bool)
    ensures
        r == truthy(v@),
{
    match v {
        Value::Boolean(b) => *b,
        Value::Integer(i) => *i != 0,
        Value::Float(bits) => *bits & 0x7fff_ffff_ffff_ffff != 0,
        Value::Text(s) => !s.as_str().is_empty(),
        Value::Absent => false,
    }
}

/// One binary operation on two evaluated operands, as `apply_binop`
/// states it; `None` is the fatal invalid operation.
pub fn eval_binop(l: &Value, op: &BinOp, r: &Value) -> (res: Option<Value>)
    ensures
        match res {
            Option::Some(v) => apply_binop(l@, *op, r@) == Some(v@),
            Option::None => apply_binop(l@, *op, r@) is None,
        },
{
    match op {
        BinOp::Plus => match (l, r) {
            (Value::Integer(a), Value::Integer(b)) => {
                let v: i128 = *a as i128 + *b as i128;
                if i64::MIN as i128 <= v && v <= i64::MAX as i128 {
                    Option::Some(Value::Integer(v as i64))
                } else {
                    Option::None
                }
            },
            (Value::Float(a), Value::Float(b)) => Option::Some(Value::Float(f_add(*a, *b))),
            (Value::Text(a), Value::Text(b)) => Option::Some(
                Value::Text(a.clone().concat(b.as_str())),
            ),
            (Value::Text(a), rr) => {
                let t = render_value(rr);
                Option::Some(Value::Text(a.clone().concat(t.as_str())))
            },
            (ll, Value::Text(b)) => {
                let t = render_value(ll);
                Option::Some(Value::Text(t.concat(b.as_str())))
            },
            (Value::Integer(a), Value::Float(b)) => Option::Some(
                Value::Float(f_add(f_of_int(*a), *b)),
            ),
            (Value::Float(a), Value::Integer(b)) => Option::Some(
                Value::Float(f_add(*a, f_of_int(*b))),
            ),
            _ => Option::None,
        },
        BinOp::Minus => match (l, r) {
            (Value::Integer(a), Value::Integer(b)) => {
                let v: i128 = *a as i128 - *b as i128;
                if i64::MIN as i128 <= v && v <= i64::MAX as i128 {
                    Option::Some(Value::Integer(v as i64))
                } else {
                    Option::None
                }
            },
            (Value::Float(a), Value::Float(b)) => Option::Some(Value::Float(f_sub(*a, *b))),
            _ => Option::None,
        },
        BinOp::Multiply => match (l, r) {
            (Value::Integer(a), Value::Integer(b)) => {
                proof {
                    let x = *a as int;
                    let y = *b as int;
                    assert(i128::MIN <= x * y <= i128::MAX) by (nonlinear_arith)
                        requires
                            i64::MIN <= x <= i64::MAX,
                            i64::MIN <= y <= i64::MAX,
                    ;
                }
                let v: i128 = *a as i128 * *b as i128;
                if i64::MIN as i128 <= v && v <= i64::MAX as i128 {
                    Option::Some(Value::Integer(v as i64))
                } else {
                    Option::None
                }
            },
            (Value::Float(a), Value::Float(b)) => Option::Some(Value::Float(f_mul(*a, *b))),
            _ => Option::None,
        },
        BinOp::Divide => match (l, r) {
            (Value::Integer(a), Value::Integer(b)) => int_divide(*a, *b, true),
            (Value::Float(a), Value::Float(b)) => Option::Some(Value::Float(f_div(*a, *b))),
            _ => Option::None,
        },
        BinOp::Modulo => match (l, r) {
            (Value::Integer(a), Value::Integer(b)) => int_divide(*a, *b, false),
            (Value::Float(a), Value::Float(b)) => Option::Some(Value::Float(f_rem(*a, *b))),
            _ => Option::None,
        },
        BinOp::LessThan => match (l, r) {
            (Value::Integer(a), Value::Integer(b)) => Option::Some(Value::Boolean(*a < *b)),
            (Value::Float(a), Value::Float(b)) => Option::Some(Value::Boolean(f_lt(*a, *b))),
            _ => Option::None,
        },
        BinOp::GreaterThan => match (l, r) {
            (Value::Integer(a), Value::Integer(b)) => Option::Some(Value::Boolean(*a > *b)),
            (Value::Float(a), Value::Float(b)) => Option::Some(Value::Boolean(f_lt(*b, *a))),
            _ => Option::None,
        },
        BinOp::LessThanOrEqual => match (l, r) {
            (Value::Integer(a), Value::Integer(b)) => Option::Some(Value::Boolean(*a <= *b)),
            (Value::Float(a), Value::Float(b)) => Option::Some(Value::Boolean(f_le(*a, *b))),
            _ => Option::None,
        },
        BinOp::GreaterThanOrEqual => match (l, r) {
            (Value::Integer(a), Value::Integer(b)) => Option::Some(Value::Boolean(*a >= *b)),
            (Value::Float(a), Value::Float(b)) => Option::Some(Value::Boolean(f_le(*b, *a))),
            _ => Option::None,
        },
        BinOp::Equals => match (l, r) {
            (Value::Integer(a), Value::Integer(b)) => Option::Some(Value::Boolean(*a == *b)),
            (Value::Float(a), Value::Float(b)) => Option::Some(Value::Boolean(f_eq(*a, *b))),
            (Value::Text(a), Value::Text(b)) => Option::Some(
                Value::Boolean(str_eq(a.as_str(), b.as_str())),
            ),
            (Value::Boolean(a), Value::Boolean(b)) => Option::Some(Value::Boolean(*a == *b)),
            _ => Option::None,
        },
        BinOp::NotEquals => match (l, r) {
            (Value::Integer(a), Value::Integer(b)) => Option::Some(Value::Boolean(*a != *b)),
            (Value::Float(a), Value::Float(b)) => Option::Some(Value::Boolean(!f_eq(*a, *b))),
            (Value::Text(a), Value::Text(b)) => Option::Some(
                Value::Boolean(!str_eq(a.as_str(), b.as_str())),
            ),
            (Value::Boolean(a), Value::Boolean(b)) => Option::Some(Value::Boolean(*a != *b)),
            _ => Option::None,
        },
        BinOp::And => match (l, r) {
            (Value::Boolean(a), Value::Boolean(b)) => Option::Some(Value::Boolean(*a && *b)),
            _ => Option::None,
        },
        BinOp::Or => match (l, r) {
            (Value::Boolean(a), Value::Boolean(b)) => Option::Some(Value::Boolean(*a || *b)),
            _ => Option::None,
        },
    }
}

/// Integer division or remainder, truncating toward zero, with the same
/// faults as the native operations: a zero divisor or an out-of-range
/// quotient is an invalid operation.
fn int_divide(a: i64, b: i64, want_quotient: bool) -> (res: Option<Value>)
    ensures
        match res {
            Option::Some(v) => b != 0 && i64::MIN <= trunc_div(a as int, b as int) <= i64::MAX
                && v@ == crate::value::ValueV::Integer(
                (if want_quotient {
                    trunc_div(a as int, b as int)
                } else {
                    trunc_rem(a as int, b as int)
                }) as i64,
            ),
            Option::None => b == 0 || !(i64::MIN <= trunc_div(a as int, b as int) <= i64::MAX),
        },
{
    if b == 0 {
        return Option::None;
    }
    let ma: u64 = if a < 0 {
        (-(a as i128)) as u64
    } else {
        a as u64
    };
    let mb: u64 = if b < 0 {
        (-(b as i128)) as u64
    } else {
        b as u64
    };
    let q: u64 = ma / mb;
    let neg_q = (a < 0) != (b < 0);
    let qv: i128 = if neg_q {
        -(q as i128)
    } else {
        q as i128
    };
    if !(i64::MIN as i128 <= qv && qv <= i64::MAX as i128) {
        return Option::None;
    }
    if want_quotient {
        Option::Some(Value::Integer(qv as i64))
    } else {
        let m: u64 = ma % mb;
        let mv: i128 = if a < 0 {
            -(m as i128)
        } else {
            m as i128
        };
        Option::Some(Value::Integer(mv as i64))
    }
}

/// What an expression evaluates to against the given environment, as
/// `eval_expr_spec` states it; `None` is the fatal invalid operation.
pub fn eval_expr(env: &Env, e: &Expression) -> (r: Option<Value>)
    ensures
        match r {
            Option::Some(v) => eval_expr_spec(env@, e.view()) == Some(v@),
            Option::None => eval_expr_spec(env@, e.view()) is None,
        },
    decreases e,
{
    match e {
        Expression::Integer(i) => Option::Some(Value::Integer(*i)),
        Expression::Float(b) => Option::Some(Value::Float(*b)),
        Expression::Text(s) => Option::Some(Value::Text(s.clone())),
        Expression::Boolean(b) => Option::Some(Value::Boolean(*b)),
        Expression::Identifier(name) => match env.get(name) {
            Option::Some(v) => Option::Some(v),
            Option::None => Option::Some(Value::Absent),
        },
        Expression::BinaryOp(le, op, re) => match eval_expr(env, le) {
            Option::None => Option::None,
            Option::Some(lv) => match eval_expr(env, re) {
                Option::None => Option::None,
                Option::Some(rv) => eval_binop(&lv, op, &rv),
            },
        },
    }
}

/// The interpreter: the mutable state of one run. Inputs are handed in
/// up front as whole lines; output is collected as a transcript of
/// events that the driver replays on the console.
pub struct Interpreter {
    env: Env,
    funcs: Funcs,
    inputs: Vec<String>,
    output: Vec<OutEvent>,
}

impl Interpreter {
    /// The state of the run as the semantics sees it.
    pub closed spec fn view(&self) -> StateV {
        StateV {
            env: self.env@,
            funcs: self.funcs@,
            inputs: Seq::new(self.inputs@.len(), |i: int| self.inputs@[i]@),
            output: out_view(self.output@),
        }
    }

    /// A fresh interpreter: nothing bound, nothing defined, no input,
    /// no output.
    pub fn new() -> (r: Interpreter)
        ensures
            r@.env =~= Map::<Seq<char>, crate::value::ValueV>::empty(),
            r@.funcs =~= Map::<Seq<char>, crate::env::FunDefV>::empty(),
            r@.inputs =~= Seq::<Seq<char>>::empty(),
            r@.output =~= Seq::<crate::value::OutEventV>::empty(),
    {
        Interpreter { env: Env::new(), funcs: Funcs::new(), inputs: Vec::new(), output: Vec::new() }
    }

    /// Hands the interpreter the console input, as the sequence of lines
    /// the run may consume.
    pub fn set_inputs(&mut self, lines: Vec<String>)
        ensures
            final(self)@.inputs =~= Seq::new(lines@.len(), |i: int| lines@[i]@),
            final(self)@.env == old(self)@.env,
            final(self)@.funcs == old(self)@.funcs,
            final(self)@.output == old(self)@.output,
    {
        self.inputs = lines;
    }

    /// The transcript of output events emitted so far.
    pub fn output_events(&self) -> (r: &Vec<OutEvent>)
        ensures
            out_view(r@) == self@.output,
    {
        &self.output
    }

    /// Executes the statements of a block in order, stopping at the
    /// first fault, exactly as `run_block_spec` describes.
    fn exec_block(&mut self, ss: &Vec<Statement>, fuel: u64) -> (r: Result<(), RtError>)
        ensures
            match r {
                Result::Ok(_) => run_block_spec(old(self)@, stmts_view(ss@), fuel as nat)
                    == StepR::Done(final(self)@),
                Result::Err(e) => run_block_spec(old(self)@, stmts_view(ss@), fuel as nat)
                    == StepR::Fail(final(self)@, e@),
            },
            old(self).env.log().is_prefix_of(final(self).env.log()),
        decreases fuel, ss@.len(),
    {
        let ghost st0 = self@;
        let ghost ssv = stmts_view(ss@);
        let ghost log0 = self.env.log();
        proof {
            lemma_stmts_view_index(ss@);
        }
        let mut i: usize = 0;
        proof {
            assert(ssv.skip(0) =~= ssv);
        }
        while i < ss.len()
            invariant
                st0 == old(self)@,
                log0 == old(self).env.log(),
                0 <= i <= ss@.len(),
                ssv == stmts_view(ss@),
                ssv.len() == ss@.len(),
                forall|k: int| 0 <= k < ss@.len() ==> ssv[k] == ss@[k].view(),
                run_block_spec(st0, ssv, fuel as nat) == run_block_spec(
                    self@,
                    ssv.skip(i as int),
                    fuel as nat,
                ),
                log0.is_prefix_of(self.env.log()),
            decreases ss@.len() - i,
        {
            let ghost pre = self@;
            let r = self.exec_stmt(&ss[i], fuel);
            proof {
                assert(ssv.skip(i as int)[0] == ssv[i as int]);
                assert(ssv.skip(i as int).drop_first() =~= ssv.skip(i + 1));
            }
            if let Result::Err(e) = r {
                return Result::Err(e);
            }
            i = i + 1;
        }
        proof {
            assert(ssv.skip(i as int) =~= Seq::<StmtV>::empty());
        }
        Result::Ok(())
    }

    /// Executes one statement, exactly as `run_stmt_spec` describes.
    /// The environment's binding history only ever grows or is cut back
    /// to a point at or after where it stood on entry, so the history on
    /// entry is always a prefix of the history on exit.
    fn exec_stmt(&mut self, s: &Statement, fuel: u64) -> (r: Result<(), RtError>)
        ensures
            match r {
                Result::Ok(_) => run_stmt_spec(old(self)@, s.view(), fuel as nat) == StepR::Done(
                    final(self)@,
                ),
                Result::Err(e) => run_stmt_spec(old(self)@, s.view(), fuel as nat) == StepR::Fail(
                    final(self)@,
                    e@,
                ),
            },
            old(self).env.log().is_prefix_of(final(self).env.log()),
        decreases fuel, 0nat,
    {
        match s {
            Statement::Declaration(name, e) => {
                match eval_expr(&self.env, e) {
                    Option::None => Result::Err(RtError::InvalidOperation),
                    Option::Some(v) => {
                        self.env.set(name.clone(), v);
                        Result::Ok(())
                    },
                }
            },
            Statement::Assignment(name, e) => {
                match self.env.get(name) {
                    Option::None => Result::Err(RtError::AssignUndefined(name.clone())),
                    Option::Some(_) => match eval_expr(&self.env, e) {
                        Option::None => Result::Err(RtError::InvalidOperation),
                        Option::Some(v) => {
                            self.env.set(name.clone(), v);
                            Result::Ok(())
                        },
                    },
                }
            },
            Statement::If { condition, then_block, else_block } => {
                if fuel == 0 {
                    return Result::Err(RtError::OutOfFuel);
                }
                match eval_expr(&self.env, condition) {
                    Option::None => Result::Err(RtError::InvalidOperation),
                    Option::Some(c) => {
                        if is_truthy(&c) {
                            self.exec_block(then_block, fuel - 1)
                        } else {
                            self.exec_block(else_block, fuel - 1)
                        }
                    },
                }
            },
            Statement::While { condition, body } => {
                if fuel == 0 {
                    return Result::Err(RtError::OutOfFuel);
                }
                let ghost st0 = self@;
                let ghost sv = s.view();
                let ghost log0 = self.env.log();
                let mut f: u64 = fuel;
                loop
                    invariant
                        st0 == old(self)@,
                        log0 == old(self).env.log(),
                        sv == s.view(),
                        0 <= f <= fuel,
                        sv == (StmtV::While {
                            condition: condition.view(),
                            body: stmts_view(body@),
                        }),
                        run_stmt_spec(st0, sv, fuel as nat) == run_stmt_spec(
                            self@,
                            sv,
                            f as nat,
                        ),
                        log0.is_prefix_of(self.env.log()),
                    decreases f,
                {
                    if f == 0 {
                        return Result::Err(RtError::OutOfFuel);
                    }
                    match eval_expr(&self.env, condition) {
                        Option::None => {
                            return Result::Err(RtError::InvalidOperation);
                        },
                        Option::Some(c) => {
                            if !is_truthy(&c) {
                                return Result::Ok(());
                            }
                            let ghost pre = self@;
                            match self.exec_block(body, f - 1) {
                                Result::Err(e) => {
                                    return Result::Err(e);
                                },
                                Result::Ok(_) => {
                                    proof {
                                        assert(run_stmt_spec(pre, sv, f as nat) == run_stmt_spec(
                                            self@,
                                            sv,
                                            (f - 1) as nat,
                                        ));
                                    }
                                    f = f - 1;
                                },
                            }
                        },
                    }
                }
            },
            Statement::Print(e) => {
                match eval_expr(&self.env, e) {
                    Option::None => Result::Err(RtError::InvalidOperation),
                    Option::Some(v) => {
                        let line = render_value(&v);
                        let ghost oldout = self.output@;
                        self.output.push(OutEvent::Line(line));
                        proof {
                            assert(self.output@.drop_last() =~= oldout);
                        }
                        Result::Ok(())
                    },
                }
            },
            Statement::Input(name, dtype) => self.exec_input(name, dtype),
            Statement::FunctionDef(name, params, body, ret) => {
                let ghost pv = crate::ast::exprs_view(params@);
                let ghost sv = s.view();
                proof {
                    lemma_exprs_view_index(params@);
                    crate::semantics::lemma_params_names(pv);
                }
                let mut names: Vec<String> = Vec::new();
                let mut k: usize = 0;
                while k < params.len()
                    invariant
                        sv == s.view(),
                        sv == StmtV::FunctionDef(name@, pv, stmts_view(body@), ret.view()),
                        self@ == old(self)@,
                        0 <= k <= params@.len(),
                        pv == crate::ast::exprs_view(params@),
                        pv.len() == params@.len(),
                        forall|j: int| 0 <= j < params@.len() ==> pv[j] == params@[j].view(),
                        names@.len() == k,
                        forall|j: int|
                            0 <= j < k ==> pv[j] is Identifier && names@[j]@
                                == crate::semantics::ident_name(pv[j]),
                    decreases params@.len() - k,
                {
                    match &params[k] {
                        Expression::Identifier(n) => {
                            names.push(n.clone());
                        },
                        _ => {
                            proof {
                                assert(!(pv[k as int] is Identifier));
                                assert(!crate::semantics::all_identifiers(pv));
                                crate::semantics::lemma_params_names(pv);
                                assert(params_names(pv) is None);
                            }
                            return Result::Err(RtError::InvalidParameter);
                        },
                    }
                    k = k + 1;
                }
                proof {
                    crate::semantics::lemma_params_names(pv);
                    assert(crate::semantics::all_identifiers(pv));
                }
                let fd = FunDef { params: names, body: stmts_dup(body), ret: expr_dup(ret) };
                proof {
                    assert(fd.view().params =~= Seq::new(
                        pv.len(),
                        |j: int| crate::semantics::ident_name(pv[j]),
                    ));
                }
                self.funcs.set(name.clone(), Rc::new(fd));
                Result::Ok(())
            },
            Statement::FunctionCall(fname, args, dest) => {
                if fuel == 0 {
                    return Result::Err(RtError::OutOfFuel);
                }
                let fd = match self.funcs.get(fname) {
                    Option::None => {
                        return Result::Err(RtError::UnknownFunction(fname.clone()));
                    },
                    Option::Some(fd) => fd,
                };
                let ghost fdv = fd.view();
                let ghost env0 = self.env@;
                let ghost st_entry = self@;
                let ghost argsv = crate::ast::exprs_view(args@);
                proof {
                    lemma_exprs_view_index(args@);
                }
                let np = fd.params.len();
                let na = args.len();
                let m = if np < na {
                    np
                } else {
                    na
                };
                let ghost sv = s.view();
                let mut vals: Vec<Value> = Vec::new();
                let mut k: usize = 0;
                while k < m
                    invariant
                        st_entry == old(self)@,
                        fuel > 0,
                        sv == s.view(),
                        sv == StmtV::FunctionCall(fname@, argsv, dest@),
                        old(self)@.funcs.contains_key(fname@),
                        fdv == old(self)@.funcs[fname@],
                        0 <= k <= m,
                        m <= args@.len(),
                        m <= fdv.params.len(),
                        m == if fdv.params.len() < args@.len() {
                            fdv.params.len()
                        } else {
                            args@.len()
                        },
                        self@ == st_entry,
                        env0 == self.env@,
                        fdv == fd.view(),
                        argsv == crate::ast::exprs_view(args@),
                        argsv.len() == args@.len(),
                        forall|j: int| 0 <= j < args@.len() ==> argsv[j] == args@[j].view(),
                        vals@.len() == k,
                        forall|j: int|
                            0 <= j < k ==> eval_expr_spec(env0, #[trigger] argsv[j]) == Some(
                                vals@[j]@,
                            ),
                    decreases m - k,
                {
                    match eval_expr(&self.env, &args[k]) {
                        Option::None => {
                            proof {
                                crate::semantics::lemma_bind_params_fail(
                                    env0,
                                    env0,
                                    fdv.params,
                                    argsv,
                                    k as int,
                                );
                            }
                            return Result::Err(RtError::InvalidOperation);
                        },
                        Option::Some(v) => {
                            vals.push(v);
                        },
                    }
                    k = k + 1;
                }
                let saved = self.env.depth();
                let ghost log_saved = self.env.log();
                let mut k2: usize = 0;
                proof {
                    assert(fdv.params.skip(0) =~= fdv.params);
                    assert(argsv.skip(0) =~= argsv);
                }
                while k2 < m
                    invariant
                        st_entry == old(self)@,
                        env0 == old(self)@.env,
                        log_saved == old(self).env.log(),
                        0 <= k2 <= m,
                        m <= vals@.len(),
                        m <= fd.params@.len(),
                        m == if fdv.params.len() < argsv.len() {
                            fdv.params.len()
                        } else {
                            argsv.len()
                        },
                        fdv == fd.view(),
                        fdv.params.len() == fd.params@.len(),
                        vals@.len() == m,
                        forall|j: int|
                            0 <= j < m ==> eval_expr_spec(env0, #[trigger] argsv[j]) == Some(
                                vals@[j]@,
                            ),
                        bind_params(env0, env0, fdv.params, argsv) == bind_params(
                            env0,
                            self.env@,
                            fdv.params.skip(k2 as int),
                            argsv.skip(k2 as int),
                        ),
                        log_saved.is_prefix_of(self.env.log()),
                        log_saved.len() == saved,
                        self@.funcs == st_entry.funcs,
                        self@.inputs == st_entry.inputs,
                        self@.output == st_entry.output,
                    decreases m - k2,
                {
                    let pname = fd.params[k2].clone();
                    let v = vals[k2].dup();
                    let ghost cur_pre = self.env@;
                    self.env.set(pname, v);
                    proof {
                        assert(fdv.params.skip(k2 as int)[0] == fdv.params[k2 as int]);
                        assert(argsv.skip(k2 as int)[0] == argsv[k2 as int]);
                        assert(fdv.params.skip(k2 as int).drop_first() =~= fdv.params.skip(
                            k2 + 1,
                        ));
                        assert(argsv.skip(k2 as int).drop_first() =~= argsv.skip(k2 + 1));
                    }
                    k2 = k2 + 1;
                }
                proof {
                    if fdv.params.len() < argsv.len() {
                        assert(fdv.params.skip(m as int).len() == 0);
                    } else {
                        assert(argsv.skip(m as int).len() == 0);
                    }
                    assert(bind_params(env0, env0, fdv.params, argsv) == Some(self.env@));
                }
                let ghost local = self.env@;
                let r = self.exec_block(&fd.body, fuel - 1);
                if let Result::Err(e) = r {
                    return Result::Err(e);
                }
                let rv = match eval_expr(&self.env, &fd.ret) {
                    Option::None => {
                        return Result::Err(RtError::InvalidOperation);
                    },
                    Option::Some(v) => v,
                };
                proof {
                    assert(log_saved.is_prefix_of(self.env.log()));
                }
                self.env.truncate_to(saved);
                proof {
                    assert(self.env.log() =~= log_saved);
                    assert(self.env@ == env0);
                }
                self.env.set(dest.clone(), rv);
                Result::Ok(())
            },
        }
    }

    /// Executes one input statement: emits the prompt, consumes one line
    /// (the empty line once input is exhausted), and binds the value the
    /// trimmed line denotes under the requested type.
    fn exec_input(&mut self, name: &String, dtype: &String) -> (r: Result<(), RtError>)
        ensures
            match r {
                Result::Ok(_) => run_input_spec(old(self)@, name@, dtype@) == StepR::Done(
                    final(self)@,
                ),
                Result::Err(e) => run_input_spec(old(self)@, name@, dtype@) == StepR::Fail(
                    final(self)@,
                    e@,
                ),
            },
            old(self).env.log().is_prefix_of(final(self).env.log()),
    {
        let mut p = name.clone();
        p.append(" (");
        p.append(dtype.as_str());
        p.append(") >>> ");
        proof {
            assert(p@ =~= crate::semantics::prompt_text(name@, dtype@));
        }
        let ghost oldout = self.output@;
        let ghost oldin = Seq::new(self.inputs@.len(), |i: int| self.inputs@[i]@);
        self.output.push(OutEvent::Prompt(p));
        proof {
            assert(self.output@.drop_last() =~= oldout);
        }
        let line: String = if self.inputs.len() > 0 {
            let l = self.inputs.remove(0);
            proof {
                assert(Seq::new(self.inputs@.len(), |i: int| self.inputs@[i]@) =~= oldin
                    .drop_first());
            }
            l
        } else {
            String::new()
        };
        let t = trim(line.as_str());
        if str_eq(dtype.as_str(), "sankhya") {
            match parse_i64(t) {
                Option::None => Result::Err(RtError::InputParse(line)),
                Option::Some(i) => {
                    self.env.set(name.clone(), Value::Integer(i));
                    Result::Ok(())
                },
            }
        } else if str_eq(dtype.as_str(), "dasamlav") {
            match f_parse(t) {
                Option::None => Result::Err(RtError::InputParse(line)),
                Option::Some(bits) => {
                    self.env.set(name.clone(), Value::Float(bits));
                    Result::Ok(())
                },
            }
        } else if str_eq(dtype.as_str(), "paath") {
            let owned = t.to_owned();
            self.env.set(name.clone(), Value::Text(owned));
            Result::Ok(())
        } else if str_eq(dtype.as_str(), "tark") {
            match parse_bool(t) {
                Option::None => Result::Err(RtError::InputParse(line)),
                Option::Some(b) => {
                    self.env.set(name.clone(), Value::Boolean(b));
                    Result::Ok(())
                },
            }
        } else {
            Result::Err(RtError::UnknownInputType(dtype.clone()))
        }
    }

    /// Runs a whole program: its statements in order, against the state
    /// as it stands, within the given step budget.
    pub fn run(&mut self, program: &Program, fuel: u64) -> (r: Result<(), RtError>)
        ensures
            match r {
                Result::Ok(_) => run_block_spec(old(self)@, program@, fuel as nat) == StepR::Done(
                    final(self)@,
                ),
                Result::Err(e) => run_block_spec(old(self)@, program@, fuel as nat)
                    == StepR::Fail(final(self)@, e@),
            },
    {
        self.exec_block(&program.statements, fuel)
    }
}

} // verus!
