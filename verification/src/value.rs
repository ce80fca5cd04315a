//! Runtime values, the events the evaluator emits, and the error taxonomy.
use vstd::prelude::*;

verus! {

/// A runtime value: a tagged union of integer, float (as IEEE-754 bits),
/// text, boolean, or the absent value. Produced only by evaluation, never
/// by parsing.
#[derive(Debug)]
pub enum Value {
    Integer(i64),
    Float(u64),
    Text(String),
    Boolean(bool),
    Absent,
}

/// The mathematical shape of a `Value`.
pub enum ValueV {
    Integer(i64),
    Float(u64),
    Text(Seq<char>),
    Boolean(bool),
    Absent,
}

impl View for Value {
    type V = ValueV;

    open spec fn view(&self) -> ValueV {
        match self {
            Value::Integer(i) => ValueV::Integer(*i),
            Value::Float(b) => ValueV::Float(*b),
            Value::Text(s) => ValueV::Text(s@),
            Value::Boolean(b) => ValueV::Boolean(*b),
            Value::Absent => ValueV::Absent,
        }
    }
}

impl Value {
    /// An exact copy of the value, equal under the view.
    pub fn dup(&self) -> (r: Value)
        ensures
            r@ == self@,
    {
        match self {
            Value::Integer(i) => Value::Integer(*i),
            Value::Float(b) => Value::Float(*b),
            Value::Text(s) => Value::Text(s.clone()),
            Value::Boolean(b) => Value::Boolean(*b),
            Value::Absent => Value::Absent,
        }
    }
}

/// An IEEE-754 double is zero exactly when every bit but the sign is zero.
pub open spec fn float_is_zero(bits: u64) -> bool {
    bits & 0x7fff_ffff_ffff_ffff == 0
}

/// The truthiness rule: booleans are themselves, numbers are truthy iff
/// nonzero, text iff nonempty, and the absent value is always falsy.
pub open spec fn truthy(v: ValueV) -> bool {
    match v {
        ValueV::Boolean(b) => b,
        ValueV::Integer(i) => i != 0,
        ValueV::Float(bits) => !float_is_zero(bits),
        ValueV::Text(s) => s.len() != 0,
        ValueV::Absent => false,
    }
}

/// One observable event on the console: either a full printed line or an
/// input prompt (emitted without a line break, before one line is read).
#[derive(Debug)]
pub enum OutEvent {
    Line(String),
    Prompt(String),
}

/// The mathematical shape of an `OutEvent`.
pub enum OutEventV {
    Line(Seq<char>),
    Prompt(Seq<char>),
}

impl View for OutEvent {
    type V = OutEventV;

    open spec fn view(&self) -> OutEventV {
        match self {
            OutEvent::Line(s) => OutEventV::Line(s@),
            OutEvent::Prompt(s) => OutEventV::Prompt(s@),
        }
    }
}

/// View of a sequence of output events.
pub open spec fn out_view(es: Seq<OutEvent>) -> Seq<OutEventV>
    decreases es,
{
    if es.len() == 0 {
        Seq::empty()
    } else {
        out_view(es.drop_last()).push(es.last().view())
    }
}

/// The element-by-element reading of `out_view`.
pub broadcast proof fn lemma_out_view_index(es: Seq<OutEvent>)
    ensures
        (#[trigger] out_view(es)).len() == es.len(),
        forall|i: int| 0 <= i < es.len() ==> out_view(es)[i] == es[i].view(),
    decreases es,
{
    if es.len() > 0 {
        lemma_out_view_index(es.drop_last());
    }
}

/// Why a run stopped before the end of the program. Every variant is fatal
/// to the interpreted program; the driver decides the process exit
/// behaviour for each.
#[derive(Debug)]
pub enum RtError {
    /// Assignment to a name with no binding. Reading such a name is fine
    /// and yields the absent value; assigning to it stops the run.
    AssignUndefined(String),
    /// An operand/operator combination outside the evaluation table.
    InvalidOperation,
    /// A call to a function name with no registered definition.
    UnknownFunction(String),
    /// A function definition whose parameter list holds a non-identifier.
    InvalidParameter,
    /// A console input line that does not parse as the requested type;
    /// carries the offending line.
    InputParse(String),
    /// An input statement naming an unrecognized type; carries the name.
    UnknownInputType(String),
    /// The step bound handed to `run` was exhausted.
    OutOfFuel,
}

/// The mathematical shape of an `RtError`.
pub enum RtErrorV {
    AssignUndefined(Seq<char>),
    InvalidOperation,
    UnknownFunction(Seq<char>),
    InvalidParameter,
    InputParse(Seq<char>),
    UnknownInputType(Seq<char>),
    OutOfFuel,
}

impl View for RtError {
    type V = RtErrorV;

    open spec fn view(&self) -> RtErrorV {
        match self {
            RtError::AssignUndefined(s) => RtErrorV::AssignUndefined(s@),
            RtError::InvalidOperation => RtErrorV::InvalidOperation,
            RtError::UnknownFunction(s) => RtErrorV::UnknownFunction(s@),
            RtError::InvalidParameter => RtErrorV::InvalidParameter,
            RtError::InputParse(s) => RtErrorV::InputParse(s@),
            RtError::UnknownInputType(s) => RtErrorV::UnknownInputType(s@),
            RtError::OutOfFuel => RtErrorV::OutOfFuel,
        }
    }
}

/// A structurally required token that was missing or of the wrong kind.
/// Parsing aborts on the first such fault; there is no recovery.
#[derive(Debug, Clone, Copy, PartialEq, Eq, Structural)]
pub enum ParseError {
    /// An identifier was required at this position.
    ExpectedIdentifier,
    /// A literal or identifier was required at this position.
    ExpectedPrimary,
    /// Two primaries were followed by something other than an operator.
    ExpectedOperator,
    /// Any other violation of the grammar shape.
    InvalidSyntax,
}

} // verus!
