//! Tokens and the abstract syntax tree of the language, together with the
//! mathematical views that the contracts of the parser and the evaluator
//! speak about.
//!
//! Floating-point literals are carried as their IEEE-754 double-precision
//! bit patterns (`u64`); all float semantics live behind the named
//! operations of the `float` module.
use vstd::prelude::*;

verus! {

broadcast use vstd::std_specs::vec::group_vec_axioms, vstd::seq::group_seq_axioms;

/// One lexical unit as handed over by the scanner. The scanner itself is an
/// external collaborator; the parser only consumes a finite token sequence
/// that ends in the `TheEnd` sentinel.
#[derive(Debug)]
pub enum Token {
    Let,
    If,
    Else,
    While,
    BlockEnd,
    StatementEnd,
    TheEnd,
    Integer(i64),
    Float(u64),
    True,
    False,
    Text(String),
    Identifier(String),
    Plus,
    Minus,
    Multiply,
    Divide,
    Modulo,
    Assign,
    Equals,
    NotEquals,
    LessThan,
    GreaterThan,
    LessThanOrEqual,
    GreaterThanOrEqual,
    And,
    Or,
    Not,
    Comma,
    DoubleQuote,
    SingleQuote,
    OpenParen,
    CloseParen,
    Print,
    Input,
    FunctionDef,
    ParamStart,
    ParamEnd,
    Return,
    FunctionCallStart,
    FunctionReturn,
    FunctionCallEnd,
}

impl Token {
    /// An exact copy of the token; the contracts need to know the copy is
    /// equal, which a derived `Clone` would not state.
    pub fn dup(&self) -> (r: Token)
        ensures
            r == *self,
    {
        match self {
            Token::Let => Token::Let,
            Token::If => Token::If,
            Token::Else => Token::Else,
            Token::While => Token::While,
            Token::BlockEnd => Token::BlockEnd,
            Token::StatementEnd => Token::StatementEnd,
            Token::TheEnd => Token::TheEnd,
            Token::Integer(i) => Token::Integer(*i),
            Token::Float(b) => Token::Float(*b),
            Token::True => Token::True,
            Token::False => Token::False,
            Token::Text(s) => Token::Text(s.clone()),
            Token::Identifier(s) => Token::Identifier(s.clone()),
            Token::Plus => Token::Plus,
            Token::Minus => Token::Minus,
            Token::Multiply => Token::Multiply,
            Token::Divide => Token::Divide,
            Token::Modulo => Token::Modulo,
            Token::Assign => Token::Assign,
            Token::Equals => Token::Equals,
            Token::NotEquals => Token::NotEquals,
            Token::LessThan => Token::LessThan,
            Token::GreaterThan => Token::GreaterThan,
            Token::LessThanOrEqual => Token::LessThanOrEqual,
            Token::GreaterThanOrEqual => Token::GreaterThanOrEqual,
            Token::And => Token::And,
            Token::Or => Token::Or,
            Token::Not => Token::Not,
            Token::Comma => Token::Comma,
            Token::DoubleQuote => Token::DoubleQuote,
            Token::SingleQuote => Token::SingleQuote,
            Token::OpenParen => Token::OpenParen,
            Token::CloseParen => Token::CloseParen,
            Token::Print => Token::Print,
            Token::Input => Token::Input,
            Token::FunctionDef => Token::FunctionDef,
            Token::ParamStart => Token::ParamStart,
            Token::ParamEnd => Token::ParamEnd,
            Token::Return => Token::Return,
            Token::FunctionCallStart => Token::FunctionCallStart,
            Token::FunctionReturn => Token::FunctionReturn,
            Token::FunctionCallEnd => Token::FunctionCallEnd,
        }
    }
}

/// The binary operators of the language. There are no unary operators.
#[derive(Debug, Clone, Copy, PartialEq, Eq, Structural)]
pub enum BinOp {
    Plus,
    Minus,
    Multiply,
    Divide,
    Modulo,
    LessThan,
    GreaterThan,
    LessThanOrEqual,
    GreaterThanOrEqual,
    Equals,
    NotEquals,
    And,
    Or,
}

/// An expression node. The grammar allows at most one binary operator per
/// expression, so a well-parsed tree is either a primary or one operator
/// applied to two primaries; the type itself permits deeper trees so that
/// programs may still build them by hand.
#[derive(Debug)]
pub enum Expression {
    Integer(i64),
    Float(u64),
    Text(String),
    Boolean(bool),
    Identifier(String),
    BinaryOp(Box<Expression>, BinOp, Box<Expression>),
}

/// The mathematical shape of an `Expression`.
pub enum ExprV {
    Integer(i64),
    Float(u64),
    Text(Seq<char>),
    Boolean(bool),
    Identifier(Seq<char>),
    BinaryOp(Box<ExprV>, BinOp, Box<ExprV>),
}

impl Expression {
    pub open spec fn view(&self) -> ExprV
        decreases self,
    {
        match self {
            Expression::Integer(i) => ExprV::Integer(*i),
            Expression::Float(b) => ExprV::Float(*b),
            Expression::Text(s) => ExprV::Text(s@),
            Expression::Boolean(b) => ExprV::Boolean(*b),
            Expression::Identifier(s) => ExprV::Identifier(s@),
            Expression::BinaryOp(l, op, r) => ExprV::BinaryOp(
                Box::new(l.view()),
                *op,
                Box::new(r.view()),
            ),
        }
    }
}

/// A statement node, as the parser produces it.
#[derive(Debug)]
pub enum Statement {
    Declaration(String, Expression),
    Assignment(String, Expression),
    If { condition: Expression, then_block: Vec<Statement>, else_block: Vec<Statement> },
    While { condition: Expression, body: Vec<Statement> },
    Print(Expression),
    Input(String, String),
    FunctionDef(String, Vec<Expression>, Vec<Statement>, Expression),
    FunctionCall(String, Vec<Expression>, String),
}

/// The mathematical shape of a `Statement`.
pub enum StmtV {
    Declaration(Seq<char>, ExprV),
    Assignment(Seq<char>, ExprV),
    If { condition: ExprV, then_block: Seq<StmtV>, else_block: Seq<StmtV> },
    While { condition: ExprV, body: Seq<StmtV> },
    Print(ExprV),
    Input(Seq<char>, Seq<char>),
    FunctionDef(Seq<char>, Seq<ExprV>, Seq<StmtV>, ExprV),
    FunctionCall(Seq<char>, Seq<ExprV>, Seq<char>),
}

/// View of a sequence of expressions, element by element.
pub open spec fn exprs_view(es: Seq<Expression>) -> Seq<ExprV>
    decreases es,
{
    if es.len() == 0 {
        Seq::empty()
    } else {
        exprs_view(es.drop_last()).push(es.last().view())
    }
}

/// View of a sequence of statements, element by element.
pub open spec fn stmts_view(ss: Seq<Statement>) -> Seq<StmtV>
    decreases ss,
{
    if ss.len() == 0 {
        Seq::empty()
    } else {
        stmts_view(ss.drop_last()).push(ss.last().view())
    }
}

impl Statement {
    pub open spec fn view(&self) -> StmtV
        decreases self,
    {
        match self {
            Statement::Declaration(name, e) => StmtV::Declaration(name@, e.view()),
            Statement::Assignment(name, e) => StmtV::Assignment(name@, e.view()),
            Statement::If { condition, then_block, else_block } => StmtV::If {
                condition: condition.view(),
                then_block: stmts_view(then_block@),
                else_block: stmts_view(else_block@),
            },
            Statement::While { condition, body } => StmtV::While {
                condition: condition.view(),
                body: stmts_view(body@),
            },
            Statement::Print(e) => StmtV::Print(e.view()),
            Statement::Input(name, dtype) => StmtV::Input(name@, dtype@),
            Statement::FunctionDef(name, params, body, ret) => StmtV::FunctionDef(
                name@,
                exprs_view(params@),
                stmts_view(body@),
                ret.view(),
            ),
            Statement::FunctionCall(name, args, dest) => StmtV::FunctionCall(
                name@,
                exprs_view(args@),
                dest@,
            ),
        }
    }
}

/// An exact copy of an expression, equal under the view.
pub fn expr_dup(e: &Expression) -> (r: Expression)
    ensures
        r.view() == e.view(),
    decreases e,
{
    match e {
        Expression::Integer(i) => Expression::Integer(*i),
        Expression::Float(b) => Expression::Float(*b),
        Expression::Text(s) => Expression::Text(s.clone()),
        Expression::Boolean(b) => Expression::Boolean(*b),
        Expression::Identifier(s) => Expression::Identifier(s.clone()),
        Expression::BinaryOp(l, op, r2) => Expression::BinaryOp(
            Box::new(expr_dup(l)),
            *op,
            Box::new(expr_dup(r2)),
        ),
    }
}

/// An exact copy of a list of expressions, equal under the view.
pub fn exprs_dup(es: &Vec<Expression>) -> (r: Vec<Expression>)
    ensures
        exprs_view(r@) == exprs_view(es@),
    decreases es,
{
    let mut r: Vec<Expression> = Vec::new();
    let mut i: usize = 0;
    while i < es.len()
        invariant
            0 <= i <= es@.len(),
            r@.len() == i,
            forall|k: int| 0 <= k < i ==> r@[k].view() == es@[k].view(),
        decreases es@.len() - i,
    {
        r.push(expr_dup(&es[i]));
        i = i + 1;
    }
    proof {
        lemma_exprs_view_index(r@);
        lemma_exprs_view_index(es@);
        assert(exprs_view(r@) =~= exprs_view(es@));
    }
    r
}

/// An exact copy of a statement, equal under the view.
pub fn stmt_dup(s: &Statement) -> (r: Statement)
    ensures
        r.view() == s.view(),
    decreases s,
{
    match s {
        Statement::Declaration(name, e) => Statement::Declaration(name.clone(), expr_dup(e)),
        Statement::Assignment(name, e) => Statement::Assignment(name.clone(), expr_dup(e)),
        Statement::If { condition, then_block, else_block } => Statement::If {
            condition: expr_dup(condition),
            then_block: stmts_dup(then_block),
            else_block: stmts_dup(else_block),
        },
        Statement::While { condition, body } => Statement::While {
            condition: expr_dup(condition),
            body: stmts_dup(body),
        },
        Statement::Print(e) => Statement::Print(expr_dup(e)),
        Statement::Input(name, dtype) => Statement::Input(name.clone(), dtype.clone()),
        Statement::FunctionDef(name, params, body, ret) => Statement::FunctionDef(
            name.clone(),
            exprs_dup(params),
            stmts_dup(body),
            expr_dup(ret),
        ),
        Statement::FunctionCall(name, args, dest) => Statement::FunctionCall(
            name.clone(),
            exprs_dup(args),
            dest.clone(),
        ),
    }
}

/// An exact copy of a list of statements, equal under the view.
pub fn stmts_dup(ss: &Vec<Statement>) -> (r: Vec<Statement>)
    ensures
        stmts_view(r@) == stmts_view(ss@),
    decreases ss,
{
    let mut r: Vec<Statement> = Vec::new();
    let mut i: usize = 0;
    while i < ss.len()
        invariant
            0 <= i <= ss@.len(),
            r@.len() == i,
            forall|k: int| 0 <= k < i ==> r@[k].view() == ss@[k].view(),
        decreases ss@.len() - i,
    {
        r.push(stmt_dup(&ss[i]));
        i = i + 1;
    }
    proof {
        lemma_stmts_view_index(r@);
        lemma_stmts_view_index(ss@);
        assert(stmts_view(r@) =~= stmts_view(ss@));
    }
    r
}

/// An ordered sequence of top-level statements; the unit of execution.
#[derive(Debug)]
pub struct Program {
    pub statements: Vec<Statement>,
}

impl View for Program {
    type V = Seq<StmtV>;

    open spec fn view(&self) -> Seq<StmtV> {
        stmts_view(self.statements@)
    }
}

/// The element-by-element reading of `stmts_view`, for reasoning about
/// pushed statements one at a time.
pub broadcast proof fn lemma_stmts_view_index(ss: Seq<Statement>)
    ensures
        (#[trigger] stmts_view(ss)).len() == ss.len(),
        forall|i: int| 0 <= i < ss.len() ==> stmts_view(ss)[i] == ss[i].view(),
    decreases ss,
{
    if ss.len() > 0 {
        lemma_stmts_view_index(ss.drop_last());
    }
}

/// The element-by-element reading of `exprs_view`.
pub broadcast proof fn lemma_exprs_view_index(es: Seq<Expression>)
    ensures
        (#[trigger] exprs_view(es)).len() == es.len(),
        forall|i: int| 0 <= i < es.len() ==> exprs_view(es)[i] == es[i].view(),
    decreases es,
{
    if es.len() > 0 {
        lemma_exprs_view_index(es.drop_last());
    }
}

} // verus!
