//! The recursive-descent parser: a deterministic, single-pass translation
//! of a token sequence into a program, using a cursor with one-token
//! lookahead and a one-step-backward correction.
//!
//! The `*_spec` functions are the grammar itself, as total functions from
//! a token sequence and a cursor position to the new position and the
//! parse result; each exec method returns exactly what its spec function
//! states. The cursor never moves past the first `TheEnd` sentinel (a
//! missing sentinel reads as an immediate end of input), and it advances
//! at least one token for every statement attempt, so parsing always
//! terminates, also on malformed input.
use crate::ast::{BinOp, ExprV, Expression, Program, Statement, StmtV, stmts_view};
use crate::value::ParseError;
use vstd::prelude::*;

verus! {

broadcast use vstd::std_specs::vec::group_vec_axioms, vstd::seq::group_seq_axioms;

/// The token at a position; past the end every position reads as the
/// sentinel.
pub open spec fn tok_at(toks: Seq<crate::ast::Token>, pos: int) -> crate::ast::Token {
    if 0 <= pos < toks.len() {
        toks[pos]
    } else {
        crate::ast::Token::TheEnd
    }
}

/// Whether the cursor still stands before the sentinel.
pub open spec fn has_next_at(toks: Seq<crate::ast::Token>, pos: int) -> bool {
    !(tok_at(toks, pos) is TheEnd)
}

/// One step forward; at the sentinel the cursor stays.
pub open spec fn adv(toks: Seq<crate::ast::Token>, pos: int) -> int {
    if has_next_at(toks, pos) {
        pos + 1
    } else {
        pos
    }
}

/// One step backward; at the start the cursor stays.
pub open spec fn back(pos: int) -> int {
    if pos > 0 {
        pos - 1
    } else {
        pos
    }
}

/// How many tokens remain before the end; the termination measure of the
/// grammar.
pub open spec fn rem(toks: Seq<crate::ast::Token>, pos: int) -> int {
    if pos <= toks.len() {
        toks.len() - pos
    } else {
        0
    }
}

/// The primary expression a single token denotes, if any: a literal or an
/// identifier.
pub open spec fn prim_of(t: crate::ast::Token) -> Option<ExprV> {
    match t {
        crate::ast::Token::Integer(i) => Some(ExprV::Integer(i)),
        crate::ast::Token::Float(b) => Some(ExprV::Float(b)),
        crate::ast::Token::Text(s) => Some(ExprV::Text(s@)),
        crate::ast::Token::Identifier(n) => Some(ExprV::Identifier(n@)),
        crate::ast::Token::True => Some(ExprV::Boolean(true)),
        crate::ast::Token::False => Some(ExprV::Boolean(false)),
        _ => None,
    }
}

/// The binary operator a token denotes, if any.
pub open spec fn binop_of(t: crate::ast::Token) -> Option<BinOp> {
    match t {
        crate::ast::Token::Plus => Some(BinOp::Plus),
        crate::ast::Token::Minus => Some(BinOp::Minus),
        crate::ast::Token::Multiply => Some(BinOp::Multiply),
        crate::ast::Token::Divide => Some(BinOp::Divide),
        crate::ast::Token::Modulo => Some(BinOp::Modulo),
        crate::ast::Token::LessThan => Some(BinOp::LessThan),
        crate::ast::Token::GreaterThan => Some(BinOp::GreaterThan),
        crate::ast::Token::LessThanOrEqual => Some(BinOp::LessThanOrEqual),
        crate::ast::Token::GreaterThanOrEqual => Some(BinOp::GreaterThanOrEqual),
        crate::ast::Token::Equals => Some(BinOp::Equals),
        crate::ast::Token::NotEquals => Some(BinOp::NotEquals),
        crate::ast::Token::And => Some(BinOp::And),
        crate::ast::Token::Or => Some(BinOp::Or),
        _ => None,
    }
}

/// The expression grammar: one primary, then at most one operator applied
/// to a second primary. Once a second primary is parsed, the token after
/// it must be a recognized binary operator — anything else, the end of
/// input included, is a fatal expected-operator fault. When no second
/// primary stands at the cursor, the cursor steps back so the statement
/// parser sees the token again.
pub open spec fn parse_expr_spec(toks: Seq<crate::ast::Token>, pos: int) -> (int, Result<
    ExprV,
    ParseError,
>) {
    match prim_of(tok_at(toks, pos)) {
        None => (pos, Err(ParseError::ExpectedPrimary)),
        Some(left) => {
            let p1 = adv(toks, pos);
            let right = prim_of(tok_at(toks, p1));
            let p2 = adv(toks, p1);
            match right {
                None => {
                    let p3 = if tok_at(toks, p2) is TheEnd {
                        p2
                    } else {
                        back(p2)
                    };
                    (p3, Ok(left))
                },
                Some(r) => {
                    match binop_of(tok_at(toks, p2)) {
                        None => (p2, Err(ParseError::ExpectedOperator)),
                        Some(op) => (
                            adv(toks, p2),
                            Ok(ExprV::BinaryOp(Box::new(left), op, Box::new(r))),
                        ),
                    }
                },
            }
        },
    }
}

/// A parameter-list region: primaries until the list-end marker. Running
/// into the sentinel first, or into a token that is no primary, is a
/// syntax fault.
pub open spec fn parse_params_spec(toks: Seq<crate::ast::Token>, pos: int) -> (int, Result<
    Seq<ExprV>,
    ParseError,
>)
    decreases rem(toks, pos), 2int,
{
    if tok_at(toks, pos) is ParamEnd {
        (pos, Ok(Seq::empty()))
    } else if tok_at(toks, pos) is TheEnd {
        (pos, Err(ParseError::InvalidSyntax))
    } else {
        match prim_of(tok_at(toks, pos)) {
            None => (pos, Err(ParseError::ExpectedPrimary)),
            Some(e) => {
                let r = parse_params_spec(toks, pos + 1);
                match r.1 {
                    Err(er) => (r.0, Err(er)),
                    Ok(rest) => (r.0, Ok(seq![e] + rest)),
                }
            },
        }
    }
}

/// An argument-list region: primaries until the return marker, with the
/// same faults as a parameter list.
pub open spec fn parse_args_spec(toks: Seq<crate::ast::Token>, pos: int) -> (int, Result<
    Seq<ExprV>,
    ParseError,
>)
    decreases rem(toks, pos), 2int,
{
    if tok_at(toks, pos) is FunctionReturn {
        (pos, Ok(Seq::empty()))
    } else if tok_at(toks, pos) is TheEnd {
        (pos, Err(ParseError::InvalidSyntax))
    } else {
        match prim_of(tok_at(toks, pos)) {
            None => (pos, Err(ParseError::ExpectedPrimary)),
            Some(e) => {
                let r = parse_args_spec(toks, pos + 1);
                match r.1 {
                    Err(er) => (r.0, Err(er)),
                    Ok(rest) => (r.0, Ok(seq![e] + rest)),
                }
            },
        }
    }
}

/// A declaration: the keyword, an identifier, the assignment marker, an
/// expression.
pub open spec fn parse_decl_spec(toks: Seq<crate::ast::Token>, pos: int) -> (int, Result<
    StmtV,
    ParseError,
>) {
    let p1 = adv(toks, pos);
    match tok_at(toks, p1) {
        crate::ast::Token::Identifier(name) => {
            let p2 = adv(toks, p1);
            if !(tok_at(toks, p2) is Assign) {
                (p2, Err(ParseError::InvalidSyntax))
            } else {
                let p3 = adv(toks, p2);
                let r = parse_expr_spec(toks, p3);
                match r.1 {
                    Err(er) => (r.0, Err(er)),
                    Ok(e) => (r.0, Ok(StmtV::Declaration(name@, e))),
                }
            }
        },
        _ => (p1, Err(ParseError::ExpectedIdentifier)),
    }
}

/// A print statement: the keyword, an expression.
pub open spec fn parse_print_spec(toks: Seq<crate::ast::Token>, pos: int) -> (int, Result<
    StmtV,
    ParseError,
>) {
    let p1 = adv(toks, pos);
    let r = parse_expr_spec(toks, p1);
    match r.1 {
        Err(er) => (r.0, Err(er)),
        Ok(e) => (r.0, Ok(StmtV::Print(e))),
    }
}

/// An input statement: the keyword, the destination identifier, then the
/// identifier naming the requested type.
pub open spec fn parse_input_spec(toks: Seq<crate::ast::Token>, pos: int) -> (int, Result<
    StmtV,
    ParseError,
>) {
    let p1 = adv(toks, pos);
    match tok_at(toks, p1) {
        crate::ast::Token::Identifier(name) => {
            let p2 = adv(toks, p1);
            match tok_at(toks, p2) {
                crate::ast::Token::Identifier(dtype) => {
                    let p3 = adv(toks, p2);
                    (p3, Ok(StmtV::Input(name@, dtype@)))
                },
                _ => (p2, Err(ParseError::ExpectedIdentifier)),
            }
        },
        _ => (p1, Err(ParseError::ExpectedIdentifier)),
    }
}

/// A conditional: the keyword, a condition, the then-block, and an
/// optional else-block after the else keyword.
pub open spec fn parse_if_spec(toks: Seq<crate::ast::Token>, pos: int) -> (int, Result<
    StmtV,
    ParseError,
>)
    decreases rem(toks, pos), 2int,
{
    let p1 = adv(toks, pos);
    let rc = parse_expr_spec(toks, p1);
    match rc.1 {
        Err(er) => (rc.0, Err(er)),
        Ok(cond) => if rc.0 <= pos {
            (rc.0, Err(ParseError::InvalidSyntax))
        } else {
            let rt = parse_block_spec(toks, rc.0);
            match rt.1 {
                Err(er) => (rt.0, Err(er)),
                Ok(then_b) => if tok_at(toks, rt.0) is Else {
                    let p2 = adv(toks, rt.0);
                    if p2 <= pos {
                        (p2, Err(ParseError::InvalidSyntax))
                    } else {
                        let re = parse_block_spec(toks, p2);
                        match re.1 {
                            Err(er) => (re.0, Err(er)),
                            Ok(else_b) => (
                                re.0,
                                Ok(
                                    StmtV::If {
                                        condition: cond,
                                        then_block: then_b,
                                        else_block: else_b,
                                    },
                                ),
                            ),
                        }
                    }
                } else {
                    (
                        rt.0,
                        Ok(
                            StmtV::If {
                                condition: cond,
                                then_block: then_b,
                                else_block: Seq::empty(),
                            },
                        ),
                    )
                },
            }
        },
    }
}

/// A loop: the keyword, a condition, the body block.
pub open spec fn parse_while_spec(toks: Seq<crate::ast::Token>, pos: int) -> (int, Result<
    StmtV,
    ParseError,
>)
    decreases rem(toks, pos), 2int,
{
    let p1 = adv(toks, pos);
    let rc = parse_expr_spec(toks, p1);
    match rc.1 {
        Err(er) => (rc.0, Err(er)),
        Ok(cond) => if rc.0 <= pos {
            (rc.0, Err(ParseError::InvalidSyntax))
        } else {
            let rb = parse_block_spec(toks, rc.0);
            match rb.1 {
                Err(er) => (rb.0, Err(er)),
                Ok(body) => (rb.0, Ok(StmtV::While { condition: cond, body })),
            }
        },
    }
}

/// A function definition: the keyword, the name, the parameter-list
/// region up to its end marker, the body block, then the return keyword
/// and the return expression.
pub open spec fn parse_fundef_spec(toks: Seq<crate::ast::Token>, pos: int) -> (int, Result<
    StmtV,
    ParseError,
>)
    decreases rem(toks, pos), 3int,
{
    let p1 = adv(toks, pos);
    match tok_at(toks, p1) {
        crate::ast::Token::Identifier(fname) => {
            let p2 = adv(toks, p1);
            let p3 = adv(toks, p2);
            if p3 <= pos {
                (p3, Err(ParseError::InvalidSyntax))
            } else {
                let rp = parse_params_spec(toks, p3);
                match rp.1 {
                    Err(er) => (rp.0, Err(er)),
                    Ok(params) => {
                        let p5 = adv(toks, rp.0);
                        if p5 <= pos {
                            (p5, Err(ParseError::InvalidSyntax))
                        } else {
                            let rb = parse_block_spec(toks, p5);
                            match rb.1 {
                                Err(er) => (rb.0, Err(er)),
                                Ok(body) => {
                                    let p7 = adv(toks, rb.0);
                                    let rr = parse_expr_spec(toks, p7);
                                    match rr.1 {
                                        Err(er) => (rr.0, Err(er)),
                                        Ok(ret) => (
                                            rr.0,
                                            Ok(StmtV::FunctionDef(fname@, params, body, ret)),
                                        ),
                                    }
                                },
                            }
                        }
                    },
                }
            }
        },
        _ => (p1, Err(ParseError::ExpectedIdentifier)),
    }
}

/// A function call: the keyword, the function name, the argument-list
/// region up to the return marker, the destination identifier, and the
/// call terminator.
pub open spec fn parse_funcall_spec(toks: Seq<crate::ast::Token>, pos: int) -> (int, Result<
    StmtV,
    ParseError,
>)
    decreases rem(toks, pos), 3int,
{
    let p1 = adv(toks, pos);
    match tok_at(toks, p1) {
        crate::ast::Token::Identifier(fname) => {
            let p2 = adv(toks, p1);
            if p2 <= pos {
                (p2, Err(ParseError::InvalidSyntax))
            } else {
                let ra = parse_args_spec(toks, p2);
                match ra.1 {
                    Err(er) => (ra.0, Err(er)),
                    Ok(args) => {
                        let p4 = adv(toks, ra.0);
                        match tok_at(toks, p4) {
                            crate::ast::Token::Identifier(dest) => {
                                let p5 = adv(toks, p4);
                                if tok_at(toks, p5) is FunctionCallEnd {
                                    (
                                        adv(toks, p5),
                                        Ok(StmtV::FunctionCall(fname@, args, dest@)),
                                    )
                                } else {
                                    (p5, Err(ParseError::InvalidSyntax))
                                }
                            },
                            _ => (p4, Err(ParseError::ExpectedIdentifier)),
                        }
                    },
                }
            }
        },
        _ => (p1, Err(ParseError::ExpectedIdentifier)),
    }
}

/// One statement attempt at the cursor: a recognized statement keyword
/// parses its statement; any other token is skipped, the cursor moving
/// one forward.
pub open spec fn parse_stmt_spec(toks: Seq<crate::ast::Token>, pos: int) -> (int, Result<
    Option<StmtV>,
    ParseError,
>)
    decreases rem(toks, pos), 4int,
{
    match tok_at(toks, pos) {
        crate::ast::Token::Let => lift_stmt(parse_decl_spec(toks, pos)),
        crate::ast::Token::If => lift_stmt(parse_if_spec(toks, pos)),
        crate::ast::Token::While => lift_stmt(parse_while_spec(toks, pos)),
        crate::ast::Token::Print => lift_stmt(parse_print_spec(toks, pos)),
        crate::ast::Token::Input => lift_stmt(parse_input_spec(toks, pos)),
        crate::ast::Token::FunctionDef => lift_stmt(parse_fundef_spec(toks, pos)),
        crate::ast::Token::FunctionCallStart => lift_stmt(parse_funcall_spec(toks, pos)),
        _ => (adv(toks, pos), Ok(None)),
    }
}

/// Wraps a parsed statement as a produced statement, faults unchanged.
pub open spec fn lift_stmt(r: (int, Result<StmtV, ParseError>)) -> (int, Result<
    Option<StmtV>,
    ParseError,
>) {
    match r.1 {
        Ok(st) => (r.0, Ok(Some(st))),
        Err(e) => (r.0, Err(e)),
    }
}

/// Block parsing: statements until a block-end marker (consumed), an
/// else or return keyword (left for the caller), or the end of input.
pub open spec fn parse_block_spec(toks: Seq<crate::ast::Token>, pos: int) -> (int, Result<
    Seq<StmtV>,
    ParseError,
>)
    decreases rem(toks, pos), 5int,
{
    match tok_at(toks, pos) {
        crate::ast::Token::BlockEnd => (adv(toks, pos), Ok(Seq::empty())),
        crate::ast::Token::Else => (pos, Ok(Seq::empty())),
        crate::ast::Token::Return => (pos, Ok(Seq::empty())),
        crate::ast::Token::TheEnd => (pos, Ok(Seq::empty())),
        _ => {
            let r = parse_stmt_spec(toks, pos);
            match r.1 {
                Err(e) => (r.0, Err(e)),
                Ok(opt) => if r.0 <= pos {
                    (r.0, Err(ParseError::InvalidSyntax))
                } else {
                    let rrest = parse_block_spec(toks, r.0);
                    match rrest.1 {
                        Err(e) => (rrest.0, Err(e)),
                        Ok(rest) => (
                            rrest.0,
                            Ok(
                                match opt {
                                    Some(st) => seq![st] + rest,
                                    None => rest,
                                },
                            ),
                        ),
                    }
                },
            }
        },
    }
}

/// The whole program: statement attempts until the sentinel.
pub open spec fn parse_program_spec(toks: Seq<crate::ast::Token>, pos: int) -> (int, Result<
    Seq<StmtV>,
    ParseError,
>)
    decreases rem(toks, pos), 6int,
{
    if !has_next_at(toks, pos) {
        (pos, Ok(Seq::empty()))
    } else {
        let r = parse_stmt_spec(toks, pos);
        match r.1 {
            Err(e) => (r.0, Err(e)),
            Ok(opt) => if r.0 <= pos {
                (r.0, Err(ParseError::InvalidSyntax))
            } else {
                let rrest = parse_program_spec(toks, r.0);
                match rrest.1 {
                    Err(e) => (rrest.0, Err(e)),
                    Ok(rest) => (
                        rrest.0,
                        Ok(
                            match opt {
                                Some(st) => seq![st] + rest,
                                None => rest,
                            },
                        ),
                    ),
                }
            },
        }
    }
}

/// The parser: the token sequence and a cursor into it.
pub struct Parser {
    tokens: Vec<crate::ast::Token>,
    pos: usize,
}

impl Parser {
    /// The token sequence being parsed.
    pub closed spec fn toks(&self) -> Seq<crate::ast::Token> {
        self.tokens@
    }

    /// The cursor position.
    pub closed spec fn at(&self) -> int {
        self.pos as int
    }

    /// The cursor never stands past the end of the sequence.
    pub closed spec fn wf(&self) -> bool {
        self.pos <= self.tokens@.len()
    }

    /// A parser over the given tokens, cursor at the start.
    pub fn new(tokens: Vec<crate::ast::Token>) -> (r: Parser)
        ensures
            r.toks() == tokens@,
            r.at() == 0,
            r.wf(),
    {
        Parser { tokens, pos: 0 }
    }

    /// The token under the cursor; the sentinel once the cursor stands at
    /// the end.
    fn current(&self) -> (t: crate::ast::Token)
        requires
            self.wf(),
        ensures
            t == tok_at(self.toks(), self.at()),
    {
        if self.pos < self.tokens.len() {
            self.tokens[self.pos].dup()
        } else {
            crate::ast::Token::TheEnd
        }
    }

    /// Steps the cursor forward, unless it stands at the sentinel.
    fn next_token(&mut self)
        requires
            old(self).wf(),
        ensures
            final(self).wf(),
            final(self).toks() == old(self).toks(),
            final(self).at() == adv(old(self).toks(), old(self).at()),
    {
        let c = self.current();
        match c {
            crate::ast::Token::TheEnd => {},
            _ => {
                proof {
                    assert(self.pos < self.tokens@.len());
                }
                let n = self.tokens.len();
                if self.pos < n {
                    self.pos = self.pos + 1;
                }
            },
        }
    }

    /// Steps the cursor backward, unless it stands at the start.
    fn previous_token(&mut self)
        requires
            old(self).wf(),
        ensures
            final(self).wf(),
            final(self).toks() == old(self).toks(),
            final(self).at() == back(old(self).at()),
    {
        if self.pos > 0 {
            self.pos = self.pos - 1;
        }
    }

    /// Whether the cursor stands before the sentinel.
    fn has_next(&self) -> (r: bool)
        requires
            self.wf(),
        ensures
            r == has_next_at(self.toks(), self.at()),
    {
        let c = self.current();
        match c {
            crate::ast::Token::TheEnd => false,
            _ => true,
        }
    }

    /// Walks the cursor over the remaining tokens and puts it back; the
    /// parser is left exactly as it was.
    pub fn print_tokens(&mut self)
        requires
            old(self).wf(),
        ensures
            *final(self) == *old(self),
    {
        let mut i: usize = self.pos;
        while i < self.tokens.len()
            invariant
                self.wf(),
            decreases self.tokens@.len() - i,
        {
            match &self.tokens[i] {
                crate::ast::Token::TheEnd => {
                    break ;
                },
                _ => {
                    i = i + 1;
                },
            }
        }
    }

    /// The primary expression the token under the cursor denotes, if
    /// any; the cursor does not move.
    fn parse_primary(&self) -> (r: Option<Expression>)
        requires
            self.wf(),
        ensures
            match r {
                Some(e) => prim_of(tok_at(self.toks(), self.at())) == Some(e.view()),
                None => prim_of(tok_at(self.toks(), self.at())) is None,
            },
    {
        let c = self.current();
        match c {
            crate::ast::Token::Integer(i) => Some(Expression::Integer(i)),
            crate::ast::Token::Float(b) => Some(Expression::Float(b)),
            crate::ast::Token::Text(s) => Some(Expression::Text(s)),
            crate::ast::Token::Identifier(n) => Some(Expression::Identifier(n)),
            crate::ast::Token::True => Some(Expression::Boolean(true)),
            crate::ast::Token::False => Some(Expression::Boolean(false)),
            _ => None,
        }
    }

    /// The binary operator the token under the cursor denotes, if any;
    /// the cursor does not move.
    fn parse_binary_operator(&self) -> (r: Option<BinOp>)
        requires
            self.wf(),
        ensures
            r == binop_of(tok_at(self.toks(), self.at())),
    {
        let c = self.current();
        match c {
            crate::ast::Token::Plus => Some(BinOp::Plus),
            crate::ast::Token::Minus => Some(BinOp::Minus),
            crate::ast::Token::Multiply => Some(BinOp::Multiply),
            crate::ast::Token::Divide => Some(BinOp::Divide),
            crate::ast::Token::Modulo => Some(BinOp::Modulo),
            crate::ast::Token::LessThan => Some(BinOp::LessThan),
            crate::ast::Token::GreaterThan => Some(BinOp::GreaterThan),
            crate::ast::Token::LessThanOrEqual => Some(BinOp::LessThanOrEqual),
            crate::ast::Token::GreaterThanOrEqual => Some(BinOp::GreaterThanOrEqual),
            crate::ast::Token::Equals => Some(BinOp::Equals),
            crate::ast::Token::NotEquals => Some(BinOp::NotEquals),
            crate::ast::Token::And => Some(BinOp::And),
            crate::ast::Token::Or => Some(BinOp::Or),
            _ => None,
        }
    }

    /// One expression, as `parse_expr_spec` states it.
    fn parse_expression(&mut self) -> (r: Result<Expression, ParseError>)
        requires
            old(self).wf(),
        ensures
            final(self).wf(),
            final(self).toks() == old(self).toks(),
            ({
                let sr = parse_expr_spec(old(self).toks(), old(self).at());
                final(self).at() == sr.0 && match r {
                    Ok(e) => sr.1 == Ok::<ExprV, ParseError>(e.view()),
                    Err(pe) => sr.1 == Err::<ExprV, ParseError>(pe),
                }
            }),
            old(self).at() <= final(self).at(),
            r is Ok ==> old(self).at() < final(self).at(),
    {
        let left = match self.parse_primary() {
            None => {
                return Err(ParseError::ExpectedPrimary);
            },
            Some(e) => e,
        };
        self.next_token();
        let right = self.parse_primary();
        self.next_token();
        match right {
            None => {
                let c = self.current();
                match c {
                    crate::ast::Token::TheEnd => {},
                    _ => {
                        self.previous_token();
                    },
                }
                Ok(left)
            },
            Some(r2) => {
                match self.parse_binary_operator() {
                    None => Err(ParseError::ExpectedOperator),
                    Some(op) => {
                        self.next_token();
                        Ok(Expression::BinaryOp(Box::new(left), op, Box::new(r2)))
                    },
                }
            },
        }
    }

    /// One declaration statement, as `parse_decl_spec` states it.
    fn parse_declaration(&mut self) -> (r: Result<Statement, ParseError>)
        requires
            old(self).wf(),
        ensures
            final(self).wf(),
            final(self).toks() == old(self).toks(),
            ({
                let sr = parse_decl_spec(old(self).toks(), old(self).at());
                final(self).at() == sr.0 && match r {
                    Ok(st) => sr.1 == Ok::<StmtV, ParseError>(st.view()),
                    Err(pe) => sr.1 == Err::<StmtV, ParseError>(pe),
                }
            }),
            old(self).at() <= final(self).at(),
            has_next_at(old(self).toks(), old(self).at()) ==> old(self).at() < final(self).at(),
    {
        self.next_token();
        let var_name = match self.current() {
            crate::ast::Token::Identifier(name) => name,
            _ => {
                return Err(ParseError::ExpectedIdentifier);
            },
        };
        self.next_token();
        match self.current() {
            crate::ast::Token::Assign => {},
            _ => {
                return Err(ParseError::InvalidSyntax);
            },
        }
        self.next_token();
        match self.parse_expression() {
            Err(e) => Err(e),
            Ok(expr) => Ok(Statement::Declaration(var_name, expr)),
        }
    }

    /// One print statement, as `parse_print_spec` states it.
    fn parse_print(&mut self) -> (r: Result<Statement, ParseError>)
        requires
            old(self).wf(),
        ensures
            final(self).wf(),
            final(self).toks() == old(self).toks(),
            ({
                let sr = parse_print_spec(old(self).toks(), old(self).at());
                final(self).at() == sr.0 && match r {
                    Ok(st) => sr.1 == Ok::<StmtV, ParseError>(st.view()),
                    Err(pe) => sr.1 == Err::<StmtV, ParseError>(pe),
                }
            }),
            old(self).at() <= final(self).at(),
            has_next_at(old(self).toks(), old(self).at()) ==> old(self).at() < final(self).at(),
    {
        self.next_token();
        match self.parse_expression() {
            Err(e) => Err(e),
            Ok(expr) => Ok(Statement::Print(expr)),
        }
    }

    /// One input statement, as `parse_input_spec` states it.
    fn parse_input(&mut self) -> (r: Result<Statement, ParseError>)
        requires
            old(self).wf(),
        ensures
            final(self).wf(),
            final(self).toks() == old(self).toks(),
            ({
                let sr = parse_input_spec(old(self).toks(), old(self).at());
                final(self).at() == sr.0 && match r {
                    Ok(st) => sr.1 == Ok::<StmtV, ParseError>(st.view()),
                    Err(pe) => sr.1 == Err::<StmtV, ParseError>(pe),
                }
            }),
            old(self).at() <= final(self).at(),
            has_next_at(old(self).toks(), old(self).at()) ==> old(self).at() < final(self).at(),
    {
        self.next_token();
        let var_name = match self.current() {
            crate::ast::Token::Identifier(name) => name,
            _ => {
                return Err(ParseError::ExpectedIdentifier);
            },
        };
        self.next_token();
        let var_type = match self.current() {
            crate::ast::Token::Identifier(name) => name,
            _ => {
                return Err(ParseError::ExpectedIdentifier);
            },
        };
        self.next_token();
        Ok(Statement::Input(var_name, var_type))
    }

    /// A parameter-list region, as `parse_params_spec` states it.
    fn parse_params(&mut self) -> (r: Result<Vec<Expression>, ParseError>)
        requires
            old(self).wf(),
        ensures
            final(self).wf(),
            final(self).toks() == old(self).toks(),
            ({
                let sr = parse_params_spec(old(self).toks(), old(self).at());
                final(self).at() == sr.0 && match r {
                    Ok(es) => sr.1 == Ok::<Seq<ExprV>, ParseError>(crate::ast::exprs_view(es@)),
                    Err(pe) => sr.1 == Err::<Seq<ExprV>, ParseError>(pe),
                }
            }),
            old(self).at() <= final(self).at(),
    {
        let mut es: Vec<Expression> = Vec::new();
        proof {
            assert(crate::ast::exprs_view(es@) =~= Seq::<ExprV>::empty());
        }
        loop
            invariant
                self.wf(),
                self.toks() == old(self).toks(),
                old(self).at() <= self.at(),
                ({
                    let s_all = parse_params_spec(old(self).toks(), old(self).at());
                    let s_cur = parse_params_spec(self.toks(), self.at());
                    s_all == (
                        s_cur.0,
                        match s_cur.1 {
                            Ok(rest) => Ok::<Seq<ExprV>, ParseError>(
                                crate::ast::exprs_view(es@) + rest,
                            ),
                            Err(e) => Err::<Seq<ExprV>, ParseError>(e),
                        },
                    )
                }),
            decreases rem(self.toks(), self.at()),
        {
            let c = self.current();
            match c {
                crate::ast::Token::ParamEnd => {
                    proof {
                        assert(crate::ast::exprs_view(es@) + Seq::<ExprV>::empty()
                            =~= crate::ast::exprs_view(es@));
                    }
                    return Ok(es);
                },
                crate::ast::Token::TheEnd => {
                    return Err(ParseError::InvalidSyntax);
                },
                _ => {
                    match self.parse_primary() {
                        None => {
                            return Err(ParseError::ExpectedPrimary);
                        },
                        Some(e) => {
                            let ghost prev = es@;
                            let ghost ev = e.view();
                            es.push(e);
                            self.next_token();
                            proof {
                                assert(es@.drop_last() =~= prev);
                                assert(crate::ast::exprs_view(es@) =~= crate::ast::exprs_view(
                                    prev,
                                ).push(ev));
                                assert forall|rest: Seq<ExprV>|
                                    crate::ast::exprs_view(es@) + rest =~= crate::ast::exprs_view(
                                        prev,
                                    ) + (seq![ev] + rest) by {};
                            }
                        },
                    }
                },
            }
        }
    }

    /// An argument-list region, as `parse_args_spec` states it.
    fn parse_args(&mut self) -> (r: Result<Vec<Expression>, ParseError>)
        requires
            old(self).wf(),
        ensures
            final(self).wf(),
            final(self).toks() == old(self).toks(),
            ({
                let sr = parse_args_spec(old(self).toks(), old(self).at());
                final(self).at() == sr.0 && match r {
                    Ok(es) => sr.1 == Ok::<Seq<ExprV>, ParseError>(crate::ast::exprs_view(es@)),
                    Err(pe) => sr.1 == Err::<Seq<ExprV>, ParseError>(pe),
                }
            }),
            old(self).at() <= final(self).at(),
    {
        let mut es: Vec<Expression> = Vec::new();
        proof {
            assert(crate::ast::exprs_view(es@) =~= Seq::<ExprV>::empty());
        }
        loop
            invariant
                self.wf(),
                self.toks() == old(self).toks(),
                old(self).at() <= self.at(),
                ({
                    let s_all = parse_args_spec(old(self).toks(), old(self).at());
                    let s_cur = parse_args_spec(self.toks(), self.at());
                    s_all == (
                        s_cur.0,
                        match s_cur.1 {
                            Ok(rest) => Ok::<Seq<ExprV>, ParseError>(
                                crate::ast::exprs_view(es@) + rest,
                            ),
                            Err(e) => Err::<Seq<ExprV>, ParseError>(e),
                        },
                    )
                }),
            decreases rem(self.toks(), self.at()),
        {
            let c = self.current();
            match c {
                crate::ast::Token::FunctionReturn => {
                    proof {
                        assert(crate::ast::exprs_view(es@) + Seq::<ExprV>::empty()
                            =~= crate::ast::exprs_view(es@));
                    }
                    return Ok(es);
                },
                crate::ast::Token::TheEnd => {
                    return Err(ParseError::InvalidSyntax);
                },
                _ => {
                    match self.parse_primary() {
                        None => {
                            return Err(ParseError::ExpectedPrimary);
                        },
                        Some(e) => {
                            let ghost prev = es@;
                            let ghost ev = e.view();
                            es.push(e);
                            self.next_token();
                            proof {
                                assert(es@.drop_last() =~= prev);
                                assert(crate::ast::exprs_view(es@) =~= crate::ast::exprs_view(
                                    prev,
                                ).push(ev));
                                assert forall|rest: Seq<ExprV>|
                                    crate::ast::exprs_view(es@) + rest =~= crate::ast::exprs_view(
                                        prev,
                                    ) + (seq![ev] + rest) by {};
                            }
                        },
                    }
                },
            }
        }
    }

    /// One conditional statement, as `parse_if_spec` states it.
    fn parse_if(&mut self) -> (r: Result<Statement, ParseError>)
        requires
            old(self).wf(),
        ensures
            final(self).wf(),
            final(self).toks() == old(self).toks(),
            ({
                let sr = parse_if_spec(old(self).toks(), old(self).at());
                final(self).at() == sr.0 && match r {
                    Ok(st) => sr.1 == Ok::<StmtV, ParseError>(st.view()),
                    Err(pe) => sr.1 == Err::<StmtV, ParseError>(pe),
                }
            }),
            old(self).at() <= final(self).at(),
            has_next_at(old(self).toks(), old(self).at()) ==> old(self).at() < final(self).at(),
        decreases rem(self.toks(), self.at()), 2int,
    {
        self.next_token();
        let condition = match self.parse_expression() {
            Err(e) => {
                return Err(e);
            },
            Ok(c) => c,
        };
        let then_block = match self.parse_block() {
            Err(e) => {
                return Err(e);
            },
            Ok(b) => b,
        };
        let c = self.current();
        match c {
            crate::ast::Token::Else => {
                self.next_token();
                let else_block = match self.parse_block() {
                    Err(e) => {
                        return Err(e);
                    },
                    Ok(b) => b,
                };
                Ok(Statement::If { condition, then_block, else_block })
            },
            _ => Ok(Statement::If { condition, then_block, else_block: Vec::new() }),
        }
    }

    /// One loop statement, as `parse_while_spec` states it.
    fn parse_while(&mut self) -> (r: Result<Statement, ParseError>)
        requires
            old(self).wf(),
        ensures
            final(self).wf(),
            final(self).toks() == old(self).toks(),
            ({
                let sr = parse_while_spec(old(self).toks(), old(self).at());
                final(self).at() == sr.0 && match r {
                    Ok(st) => sr.1 == Ok::<StmtV, ParseError>(st.view()),
                    Err(pe) => sr.1 == Err::<StmtV, ParseError>(pe),
                }
            }),
            old(self).at() <= final(self).at(),
            has_next_at(old(self).toks(), old(self).at()) ==> old(self).at() < final(self).at(),
        decreases rem(self.toks(), self.at()), 2int,
    {
        self.next_token();
        let condition = match self.parse_expression() {
            Err(e) => {
                return Err(e);
            },
            Ok(c) => c,
        };
        let body = match self.parse_block() {
            Err(e) => {
                return Err(e);
            },
            Ok(b) => b,
        };
        Ok(Statement::While { condition, body })
    }

    /// One function definition, as `parse_fundef_spec` states it.
    fn parse_function_def(&mut self) -> (r: Result<Statement, ParseError>)
        requires
            old(self).wf(),
        ensures
            final(self).wf(),
            final(self).toks() == old(self).toks(),
            ({
                let sr = parse_fundef_spec(old(self).toks(), old(self).at());
                final(self).at() == sr.0 && match r {
                    Ok(st) => sr.1 == Ok::<StmtV, ParseError>(st.view()),
                    Err(pe) => sr.1 == Err::<StmtV, ParseError>(pe),
                }
            }),
            old(self).at() <= final(self).at(),
            has_next_at(old(self).toks(), old(self).at()) ==> old(self).at() < final(self).at(),
        decreases rem(self.toks(), self.at()), 3int,
    {
        self.next_token();
        let func_name = match self.current() {
            crate::ast::Token::Identifier(name) => name,
            _ => {
                return Err(ParseError::ExpectedIdentifier);
            },
        };
        self.next_token();
        self.next_token();
        let params = match self.parse_params() {
            Err(e) => {
                return Err(e);
            },
            Ok(ps) => ps,
        };
        self.next_token();
        let body = match self.parse_block() {
            Err(e) => {
                return Err(e);
            },
            Ok(b) => b,
        };
        self.next_token();
        let return_data = match self.parse_expression() {
            Err(e) => {
                return Err(e);
            },
            Ok(e) => e,
        };
        Ok(Statement::FunctionDef(func_name, params, body, return_data))
    }

    /// One function call statement, as `parse_funcall_spec` states it.
    fn parse_function_call(&mut self) -> (r: Result<Statement, ParseError>)
        requires
            old(self).wf(),
        ensures
            final(self).wf(),
            final(self).toks() == old(self).toks(),
            ({
                let sr = parse_funcall_spec(old(self).toks(), old(self).at());
                final(self).at() == sr.0 && match r {
                    Ok(st) => sr.1 == Ok::<StmtV, ParseError>(st.view()),
                    Err(pe) => sr.1 == Err::<StmtV, ParseError>(pe),
                }
            }),
            old(self).at() <= final(self).at(),
            has_next_at(old(self).toks(), old(self).at()) ==> old(self).at() < final(self).at(),
        decreases rem(self.toks(), self.at()), 3int,
    {
        self.next_token();
        let func_name = match self.current() {
            crate::ast::Token::Identifier(name) => name,
            _ => {
                return Err(ParseError::ExpectedIdentifier);
            },
        };
        self.next_token();
        let args = match self.parse_args() {
            Err(e) => {
                return Err(e);
            },
            Ok(a) => a,
        };
        self.next_token();
        let var_name = match self.current() {
            crate::ast::Token::Identifier(name) => name,
            _ => {
                return Err(ParseError::ExpectedIdentifier);
            },
        };
        self.next_token();
        let c = self.current();
        match c {
            crate::ast::Token::FunctionCallEnd => {
                self.next_token();
                Ok(Statement::FunctionCall(func_name, args, var_name))
            },
            _ => Err(ParseError::InvalidSyntax),
        }
    }

    /// One statement attempt: a statement for a recognized keyword, or
    /// nothing with the cursor moved one forward.
    fn parse_statement(&mut self) -> (r: Result<Option<Statement>, ParseError>)
        requires
            old(self).wf(),
        ensures
            final(self).wf(),
            final(self).toks() == old(self).toks(),
            ({
                let sr = parse_stmt_spec(old(self).toks(), old(self).at());
                final(self).at() == sr.0 && match r {
                    Ok(Some(st)) => sr.1 == Ok::<Option<StmtV>, ParseError>(Some(st.view())),
                    Ok(None) => sr.1 == Ok::<Option<StmtV>, ParseError>(None),
                    Err(pe) => sr.1 == Err::<Option<StmtV>, ParseError>(pe),
                }
            }),
            old(self).at() <= final(self).at(),
            has_next_at(old(self).toks(), old(self).at()) ==> old(self).at() < final(self).at(),
        decreases rem(self.toks(), self.at()), 4int,
    {
        let c = self.current();
        match c {
            crate::ast::Token::Let => match self.parse_declaration() {
                Ok(st) => Ok(Some(st)),
                Err(e) => Err(e),
            },
            crate::ast::Token::If => match self.parse_if() {
                Ok(st) => Ok(Some(st)),
                Err(e) => Err(e),
            },
            crate::ast::Token::While => match self.parse_while() {
                Ok(st) => Ok(Some(st)),
                Err(e) => Err(e),
            },
            crate::ast::Token::Print => match self.parse_print() {
                Ok(st) => Ok(Some(st)),
                Err(e) => Err(e),
            },
            crate::ast::Token::Input => match self.parse_input() {
                Ok(st) => Ok(Some(st)),
                Err(e) => Err(e),
            },
            crate::ast::Token::FunctionDef => match self.parse_function_def() {
                Ok(st) => Ok(Some(st)),
                Err(e) => Err(e),
            },
            crate::ast::Token::FunctionCallStart => match self.parse_function_call() {
                Ok(st) => Ok(Some(st)),
                Err(e) => Err(e),
            },
            _ => {
                self.next_token();
                Ok(None)
            },
        }
    }

    /// One block, as `parse_block_spec` states it.
    fn parse_block(&mut self) -> (r: Result<Vec<Statement>, ParseError>)
        requires
            old(self).wf(),
        ensures
            final(self).wf(),
            final(self).toks() == old(self).toks(),
            ({
                let sr = parse_block_spec(old(self).toks(), old(self).at());
                final(self).at() == sr.0 && match r {
                    Ok(ss) => sr.1 == Ok::<Seq<StmtV>, ParseError>(stmts_view(ss@)),
                    Err(pe) => sr.1 == Err::<Seq<StmtV>, ParseError>(pe),
                }
            }),
            old(self).at() <= final(self).at(),
        decreases rem(self.toks(), self.at()), 5int,
    {
        let mut statements: Vec<Statement> = Vec::new();
        proof {
            assert(stmts_view(statements@) =~= Seq::<StmtV>::empty());
        }
        loop
            invariant
                self.wf(),
                self.toks() == old(self).toks(),
                old(self).at() <= self.at(),
                ({
                    let s_all = parse_block_spec(old(self).toks(), old(self).at());
                    let s_cur = parse_block_spec(self.toks(), self.at());
                    s_all == (
                        s_cur.0,
                        match s_cur.1 {
                            Ok(rest) => Ok::<Seq<StmtV>, ParseError>(
                                stmts_view(statements@) + rest,
                            ),
                            Err(e) => Err::<Seq<StmtV>, ParseError>(e),
                        },
                    )
                }),
            decreases rem(self.toks(), self.at()),
        {
            let c = self.current();
            match c {
                crate::ast::Token::BlockEnd => {
                    self.next_token();
                    proof {
                        assert(stmts_view(statements@) + Seq::<StmtV>::empty() =~= stmts_view(
                            statements@,
                        ));
                    }
                    return Ok(statements);
                },
                crate::ast::Token::Else | crate::ast::Token::Return
                    | crate::ast::Token::TheEnd => {
                    proof {
                        assert(stmts_view(statements@) + Seq::<StmtV>::empty() =~= stmts_view(
                            statements@,
                        ));
                    }
                    return Ok(statements);
                },
                _ => {
                    match self.parse_statement() {
                        Err(e) => {
                            return Err(e);
                        },
                        Ok(Some(st)) => {
                            let ghost prev = statements@;
                            let ghost sv = st.view();
                            statements.push(st);
                            proof {
                                assert(statements@.drop_last() =~= prev);
                                assert(stmts_view(statements@) =~= stmts_view(prev).push(sv));
                                assert forall|rest: Seq<StmtV>|
                                    stmts_view(statements@) + rest =~= stmts_view(prev) + (
                                    seq![sv] + rest) by {};
                            }
                        },
                        Ok(None) => {},
                    }
                },
            }
        }
    }

    /// The whole program: repeatedly attempts one statement until the
    /// cursor reaches the sentinel, as `parse_program_spec` states it.
    pub fn parse(&mut self) -> (r: Result<Program, ParseError>)
        requires
            old(self).wf(),
        ensures
            final(self).wf(),
            final(self).toks() == old(self).toks(),
            ({
                let sr = parse_program_spec(old(self).toks(), old(self).at());
                final(self).at() == sr.0 && match r {
                    Ok(prog) => sr.1 == Ok::<Seq<StmtV>, ParseError>(prog@),
                    Err(pe) => sr.1 == Err::<Seq<StmtV>, ParseError>(pe),
                }
            }),
    {
        let mut statements: Vec<Statement> = Vec::new();
        proof {
            assert(stmts_view(statements@) =~= Seq::<StmtV>::empty());
        }
        loop
            invariant
                self.wf(),
                self.toks() == old(self).toks(),
                old(self).at() <= self.at(),
                ({
                    let s_all = parse_program_spec(old(self).toks(), old(self).at());
                    let s_cur = parse_program_spec(self.toks(), self.at());
                    s_all == (
                        s_cur.0,
                        match s_cur.1 {
                            Ok(rest) => Ok::<Seq<StmtV>, ParseError>(
                                stmts_view(statements@) + rest,
                            ),
                            Err(e) => Err::<Seq<StmtV>, ParseError>(e),
                        },
                    )
                }),
            decreases rem(self.toks(), self.at()),
        {
            if !self.has_next() {
                proof {
                    assert(stmts_view(statements@) + Seq::<StmtV>::empty() =~= stmts_view(
                        statements@,
                    ));
                }
                return Ok(Program { statements });
            }
            match self.parse_statement() {
                Err(e) => {
                    return Err(e);
                },
                Ok(Some(st)) => {
                    let ghost prev = statements@;
                    let ghost sv = st.view();
                    statements.push(st);
                    proof {
                        assert(statements@.drop_last() =~= prev);
                        assert(stmts_view(statements@) =~= stmts_view(prev).push(sv));
                        assert forall|rest: Seq<StmtV>|
                            stmts_view(statements@) + rest =~= stmts_view(prev) + (seq![sv]
                                + rest) by {};
                    }
                },
                Ok(None) => {},
            }
        }
    }
}

} // verus!
