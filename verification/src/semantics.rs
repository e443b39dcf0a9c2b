//! What running a program means.
//!
//! A program runs statement by statement against two flat stores, one of numbers and
//! one of texts; a name is expected in one of them only, and no entry is ever removed.
//! Numbers are computed by a numeric unit that the caller hands in as two functions:
//! one reads the text of a number literal, the other applies an arithmetic operator to
//! two numbers. Nothing is known of either but what it promises of its result, so the
//! meaning of an expression on numbers is a relation: it says which results the unit
//! allows.
use vstd::prelude::*;
use crate::ast_stream::{ASTStream, ParseError, Tree};
use crate::number::{holds, truth, zero, ArithOp, Comparison};
use crate::util::{BaseType, NodeType};

verus! {

/// The ways in which a statement can fail to run.
#[derive(Debug, Clone, Copy, PartialEq, Eq, Structural)]
pub enum RunFault {
    /// An expression carries an operator that has no rule, or a node that is neither a
    /// value nor an expression stands where a value is asked for.
    InvalidOperator,
    /// A variable has no value in the store of the type asked for.
    MissingVariable,
    /// The type of what is to be evaluated was never set.
    VoidType,
    /// A node lacks the child that its kind needs.
    MissingOperand,
}

/// The operators on numbers.
#[derive(Debug, Clone, Copy, PartialEq, Eq, Structural)]
pub enum Operator {
    /// An arithmetic operator, which the numeric unit applies.
    Arith(ArithOp),
    /// A comparison, which yields one where it holds and zero where it does not.
    Compare(Comparison),
    /// `&&`, which yields one where both operands are nonzero.
    And,
    /// `||`, which yields one where an operand is nonzero.
    Or,
    /// `!`, which yields one where its operand is zero.
    Not,
}

/// The operator on numbers that `text` spells, if any.
pub open spec fn operator_of(text: Seq<char>) -> Option<Operator> {
    if text == "+"@ {
        Some(Operator::Arith(ArithOp::Add))
    } else if text == "-"@ {
        Some(Operator::Arith(ArithOp::Sub))
    } else if text == "*"@ {
        Some(Operator::Arith(ArithOp::Mul))
    } else if text == "/"@ {
        Some(Operator::Arith(ArithOp::Div))
    } else if text == "%"@ {
        Some(Operator::Arith(ArithOp::Rem))
    } else if text == "^"@ {
        Some(Operator::Arith(ArithOp::Pow))
    } else if text == ">"@ {
        Some(Operator::Compare(Comparison::Greater))
    } else if text == "<"@ {
        Some(Operator::Compare(Comparison::Less))
    } else if text == "<="@ {
        Some(Operator::Compare(Comparison::AtMost))
    } else if text == ">="@ {
        Some(Operator::Compare(Comparison::AtLeast))
    } else if text == "=="@ {
        Some(Operator::Compare(Comparison::Equal))
    } else if text == "!="@ {
        Some(Operator::Compare(Comparison::Unequal))
    } else if text == "&&"@ {
        Some(Operator::And)
    } else if text == "||"@ {
        Some(Operator::Or)
    } else if text == "!"@ {
        Some(Operator::Not)
    } else {
        None
    }
}

/// The text that an expression on texts has: a literal has its own, a variable the one
/// stored under its name, and `|` joins the texts of its two operands.
pub open spec fn text_value(t: Tree, texts: Map<Seq<char>, Seq<char>>) -> Result<Seq<char>, RunFault>
    decreases t,
{
    if t.kind == NodeType::VAL {
        if t.name.len() == 0 {
            Ok(t.text)
        } else if texts.contains_key(t.name) {
            Ok(texts[t.name])
        } else {
            Err(RunFault::MissingVariable)
        }
    } else if t.kind == NodeType::EXPRESSION {
        if t.text != "|"@ {
            Err(RunFault::InvalidOperator)
        } else if t.left.len() == 0 {
            Err(RunFault::MissingOperand)
        } else {
            match text_value(t.left[0], texts) {
                Err(fault) => Err(fault),
                Ok(head) => if t.right.len() == 0 {
                    Err(RunFault::MissingOperand)
                } else {
                    match text_value(t.right[0], texts) {
                        Err(fault) => Err(fault),
                        Ok(tail) => Ok(head + tail),
                    }
                },
            }
        }
    } else {
        Err(RunFault::InvalidOperator)
    }
}

/// What evaluating an expression on numbers yields.
pub type Value = Result<u64, RunFault>;

/// The numeric unit answers every request.
pub open spec fn unit_ready<L: Fn(&str) -> u64, A: Fn(ArithOp, u64, u64) -> u64>(literal: L, apply: A) -> bool {
    &&& forall|text: &str| call_requires(literal, (text,))
    &&& forall|op: ArithOp, a: u64, b: u64| call_requires(apply, (op, a, b))
}

/// What a numeric unit allows: `reads` holds of a literal's text and each number that
/// the unit may read from it, `applies` of an arithmetic operator, two operands and each
/// number that the unit may return for them.
pub struct Unit {
    pub reads: spec_fn(Seq<char>, u64) -> bool,
    pub applies: spec_fn(ArithOp, u64, u64, u64) -> bool,
}

/// `v` is a number that `literal` may return for the text `text`.
pub open spec fn reads<L: Fn(&str) -> u64>(literal: L, text: Seq<char>, v: u64) -> bool {
    exists|s: &str| #![trigger call_ensures(literal, (s,), v)] s@ == text && call_ensures(literal, (s,), v)
}

/// What the numeric unit made of the functions `literal` and `apply` allows: whatever
/// the two may return.
pub open spec fn unit_of<L: Fn(&str) -> u64, A: Fn(ArithOp, u64, u64) -> u64>(literal: L, apply: A) -> Unit {
    Unit {
        reads: |text: Seq<char>, v: u64| reads(literal, text, v),
        applies: |op: ArithOp, a: u64, b: u64, v: u64| call_ensures(apply, (op, a, b), v),
    }
}

/// Marks the values that the operands of an expression are taken to have. It holds of
/// every two values: it serves to name them.
pub open spec fn operands(x: Value, y: Value) -> bool {
    true
}

/// Whether the left operand `a` decides what `op` yields, so that the right operand is
/// not evaluated.
pub open spec fn decides(op: Operator, a: u64) -> bool {
    (op == Operator::And && zero(a)) || (op == Operator::Or && !zero(a))
}

/// `out` is what `op` may yield for the operands `x` and `y`: the fault of the first
/// that failed; else what the left operand decided; else what the numeric unit may
/// return for an arithmetic operator, one or zero for a comparison that holds or does
/// not, and one or zero for a right operand of `&&` or `||` that is nonzero or zero.
pub open spec fn combined(op: Operator, x: Value, y: Value, unit: Unit, out: Value) -> bool {
    match x {
        Err(fault) => out == Err::<u64, RunFault>(fault),
        Ok(a) => if decides(op, a) {
            out == Ok::<u64, RunFault>(truth(op == Operator::Or))
        } else {
            match y {
                Err(fault) => out == Err::<u64, RunFault>(fault),
                Ok(b) => match op {
                    Operator::Arith(how) => out is Ok && (unit.applies)(how, a, b, out->Ok_0),
                    Operator::Compare(how) => out == Ok::<u64, RunFault>(truth(holds(how, a, b))),
                    _ => out == Ok::<u64, RunFault>(truth(!zero(b))),
                },
            }
        },
    }
}

/// What `!` yields for the operand `x`: one for zero, zero for any other number.
pub open spec fn negated(x: Value) -> Value {
    match x {
        Ok(a) => Ok(truth(zero(a))),
        Err(fault) => Err(fault),
    }
}

/// `out` is what the expression `t` on numbers may yield over the stored numbers `nums`,
/// with the numeric unit `unit`.
///
/// A literal yields what the unit reads from its text, a variable the number stored
/// under its name. An expression with two operands evaluates the left one first; the
/// right one is evaluated only if the left one did not fail and did not decide the
/// result. `!` has the right operand only.
pub open spec fn num_value(t: Tree, nums: Map<Seq<char>, u64>, unit: Unit, out: Value) -> bool
    decreases t,
{
    if t.kind == NodeType::VAL {
        if t.name.len() == 0 {
            out is Ok && (unit.reads)(t.number, out->Ok_0)
        } else if nums.contains_key(t.name) {
            out == Ok::<u64, RunFault>(nums[t.name])
        } else {
            out == Err::<u64, RunFault>(RunFault::MissingVariable)
        }
    } else if t.kind == NodeType::EXPRESSION {
        match operator_of(t.text) {
            None => out == Err::<u64, RunFault>(RunFault::InvalidOperator),
            Some(Operator::Not) => if t.right.len() == 0 {
                out == Err::<u64, RunFault>(RunFault::MissingOperand)
            } else {
                exists|x: Value|
                    #![trigger operands(x, x)]
                    operands(x, x) && num_value(t.right[0], nums, unit, x) && out == negated(x)
            },
            Some(op) => if t.left.len() == 0 {
                out == Err::<u64, RunFault>(RunFault::MissingOperand)
            } else {
                exists|x: Value, y: Value|
                    #![trigger operands(x, y)]
                    {
                        &&& operands(x, y)
                        &&& num_value(t.left[0], nums, unit, x)
                        &&& if x is Err || decides(op, x->Ok_0) {
                            y == x
                        } else if t.right.len() == 0 {
                            y == Err::<u64, RunFault>(RunFault::MissingOperand)
                        } else {
                            num_value(t.right[0], nums, unit, y)
                        }
                        &&& combined(op, x, y, unit, out)
                    }
            },
        }
    } else {
        out == Err::<u64, RunFault>(RunFault::InvalidOperator)
    }
}

/// An output as contracts see it.
pub enum Shown {
    Number(u64),
    Text(Seq<char>),
}

/// What running one statement yields: an output or none, or the fault.
pub type Effect = Result<Option<Shown>, RunFault>;

/// What the evaluator holds between two statements: both stores, and the statements of
/// entered bodies that are still to run, the next one first.
pub struct State {
    pub nums: Map<Seq<char>, u64>,
    pub texts: Map<Seq<char>, Seq<char>>,
    pub agenda: Seq<Tree>,
}

/// The statement failed with `fault` and left the state as it was.
pub open spec fn failed(pre: State, post: State, out: Effect, fault: RunFault) -> bool {
    out == Err::<Option<Shown>, RunFault>(fault) && post == pre
}

/// The statement ran without output and left `next` as the state.
pub open spec fn passed(next: State, post: State, out: Effect) -> bool {
    out == Ok::<Option<Shown>, RunFault>(None) && post == next
}

/// Running the statement `n` in the state `pre` may leave the state `post` and yield
/// `out`.
///
/// A declaration evaluates its expression under its declared type and stores the value
/// under its name. A reassignment and an output evaluate theirs under the type that the
/// expression was given; a reassignment then overwrites the value stored under its name,
/// and fails where none is stored. A conditional evaluates its condition and puts the
/// statements of one body before the agenda: those behind `ELSE` if the condition is
/// zero, those of the first body if it is not. A loop evaluates its condition; if it is
/// not zero, the statements of the body, and behind them the loop itself, are put before
/// the agenda. Any other node does nothing. A statement that fails leaves the state as
/// it was.
pub open spec fn runs(n: Tree, pre: State, unit: Unit, post: State, out: Effect) -> bool {
    if n.kind == NodeType::DECLARE {
        if n.ty == BaseType::VOID {
            failed(pre, post, out, RunFault::VoidType)
        } else if n.left.len() == 0 {
            failed(pre, post, out, RunFault::MissingOperand)
        } else if n.ty == BaseType::NUMBER {
            exists|x: Value|
                #![trigger operands(x, x)]
                operands(x, x) && num_value(n.left[0], pre.nums, unit, x) && match x {
                    Ok(v) => passed(State { nums: pre.nums.insert(n.name, v), ..pre }, post, out),
                    Err(fault) => failed(pre, post, out, fault),
                }
        } else {
            match text_value(n.left[0], pre.texts) {
                Ok(text) => passed(State { texts: pre.texts.insert(n.name, text), ..pre }, post, out),
                Err(fault) => failed(pre, post, out, fault),
            }
        }
    } else if n.kind == NodeType::PUT {
        if n.left.len() == 0 {
            failed(pre, post, out, RunFault::MissingOperand)
        } else if n.left[0].ty == BaseType::VOID {
            failed(pre, post, out, RunFault::VoidType)
        } else if n.left[0].ty == BaseType::NUMBER {
            exists|x: Value|
                #![trigger operands(x, x)]
                operands(x, x) && num_value(n.left[0], pre.nums, unit, x) && match x {
                    Ok(v) => out == Ok::<Option<Shown>, RunFault>(Some(Shown::Number(v))) && post == pre,
                    Err(fault) => failed(pre, post, out, fault),
                }
        } else {
            match text_value(n.left[0], pre.texts) {
                Ok(text) => out == Ok::<Option<Shown>, RunFault>(Some(Shown::Text(text))) && post == pre,
                Err(fault) => failed(pre, post, out, fault),
            }
        }
    } else if n.kind == NodeType::CHANGE {
        if n.left.len() == 0 {
            failed(pre, post, out, RunFault::MissingOperand)
        } else if n.left[0].ty == BaseType::VOID {
            failed(pre, post, out, RunFault::VoidType)
        } else if n.left[0].ty == BaseType::NUMBER {
            exists|x: Value|
                #![trigger operands(x, x)]
                operands(x, x) && num_value(n.left[0], pre.nums, unit, x) && match x {
                    Ok(v) => if pre.nums.contains_key(n.name) {
                        passed(State { nums: pre.nums.insert(n.name, v), ..pre }, post, out)
                    } else {
                        failed(pre, post, out, RunFault::MissingVariable)
                    },
                    Err(fault) => failed(pre, post, out, fault),
                }
        } else {
            match text_value(n.left[0], pre.texts) {
                Ok(text) => if pre.texts.contains_key(n.name) {
                    passed(State { texts: pre.texts.insert(n.name, text), ..pre }, post, out)
                } else {
                    failed(pre, post, out, RunFault::MissingVariable)
                },
                Err(fault) => failed(pre, post, out, fault),
            }
        }
    } else if n.kind == NodeType::IF {
        if n.extra.len() == 0 {
            failed(pre, post, out, RunFault::MissingOperand)
        } else {
            exists|x: Value|
                #![trigger operands(x, x)]
                operands(x, x) && num_value(n.extra[0], pre.nums, unit, x) && match x {
                    Ok(v) => passed(
                        State {
                            agenda: if zero(v) {
                                n.right
                            } else {
                                n.left
                            } + pre.agenda,
                            ..pre
                        },
                        post,
                        out,
                    ),
                    Err(fault) => failed(pre, post, out, fault),
                }
        }
    } else if n.kind == NodeType::WHILE {
        if n.extra.len() == 0 {
            failed(pre, post, out, RunFault::MissingOperand)
        } else {
            exists|x: Value|
                #![trigger operands(x, x)]
                operands(x, x) && num_value(n.extra[0], pre.nums, unit, x) && match x {
                    Ok(v) => if zero(v) {
                        passed(pre, post, out)
                    } else {
                        passed(State { agenda: n.left + seq![n] + pre.agenda, ..pre }, post, out)
                    },
                    Err(fault) => failed(pre, post, out, fault),
                }
        }
    } else {
        passed(pre, post, out)
    }
}

/// One statement is taken from the agenda of `pre` and runs without failing: it leaves
/// `post` and prints `out`, if anything. The agenda of `pre` is longer than `floor`, so
/// that its last `floor` statements are not the one that is taken.
pub open spec fn moves(pre: State, unit: Unit, post: State, out: Option<Shown>, floor: nat) -> bool {
    &&& pre.agenda.len() > floor
    &&& runs(pre.agenda[0], State { agenda: pre.agenda.skip(1), ..pre }, unit, post, Ok(out))
}

/// The agenda is run step by step: `states` are the states passed from the first to the
/// last, `outs` is what each step printed, if anything, and none of the steps takes one
/// of the last `floor` statements of the agenda.
pub open spec fn proceeds(states: Seq<State>, outs: Seq<Option<Shown>>, unit: Unit, floor: nat) -> bool {
    &&& states.len() == outs.len() + 1
    &&& forall|j: int| 0 <= j < outs.len() ==> moves(states[j], unit, states[j + 1], #[trigger] outs[j], floor)
}

/// The state `s` with the loop `n` before its agenda: the loop is about to evaluate its
/// condition.
pub open spec fn at_loop(n: Tree, s: State) -> State {
    State { agenda: seq![n] + s.agenda, ..s }
}

/// The state `s` with the body of the loop `n`, and behind it the loop itself, before
/// its agenda: a pass is about to begin.
pub open spec fn in_body(n: Tree, s: State) -> State {
    State { agenda: n.left + seq![n] + s.agenda, ..s }
}

/// Marks the states of one pass through a body and the state behind it. It holds of all
/// of them: it serves to name them.
pub open spec fn pass(states: Seq<State>, mid: State) -> bool {
    true
}

/// The loop `n` makes `k` passes from the state `pre` and leaves the state `post`; the
/// agenda of both is what follows the loop. `outs` is what each step printed, if
/// anything.
///
/// The condition is evaluated before each pass and is not zero; then the statements of
/// the body run in order, with all that they put before the agenda, until the loop
/// itself is the next statement again. After the last pass the condition is evaluated
/// once more and is zero: that step prints nothing and changes nothing.
pub open spec fn passes(n: Tree, pre: State, unit: Unit, post: State, outs: Seq<Option<Shown>>, k: nat) -> bool
    decreases k,
{
    if k == 0 {
        &&& exists|v: u64| #![trigger zero(v)] num_value(n.extra[0], pre.nums, unit, Ok(v)) && zero(v)
        &&& post == pre
        &&& outs == seq![None::<Shown>]
    } else {
        &&& exists|v: u64| #![trigger zero(v)] num_value(n.extra[0], pre.nums, unit, Ok(v)) && !zero(v)
        &&& exists|states: Seq<State>, mid: State|
            #![trigger pass(states, mid)]
            {
                &&& pass(states, mid)
                &&& 1 <= states.len() <= outs.len()
                &&& outs[0] is None
                &&& states[0] == in_body(n, pre)
                &&& states.last() == at_loop(n, mid)
                &&& mid.agenda == pre.agenda
                &&& proceeds(states, outs.subrange(1, states.len() as int), unit, pre.agenda.len() + 1)
                &&& passes(n, mid, unit, post, outs.skip(states.len() as int), (k - 1) as nat)
            }
    }
}

/// One step of a run as contracts see it.
pub enum Event {
    Put(Shown),
    Went,
    Done,
}

/// Why a run ends before its program does.
#[derive(Debug, Clone, Copy)]
pub enum RunError {
    /// The next statement of the program does not parse.
    Parse(ParseError),
    /// A statement failed to run.
    Run(RunFault),
}

/// What a step yields.
pub type Outcome = Result<Event, RunError>;

/// The outcome of a step in which a statement ran with the effect `effect`.
pub open spec fn outcome_from(effect: Effect) -> Outcome {
    match effect {
        Ok(Some(shown)) => Ok(Event::Put(shown)),
        Ok(None) => Ok(Event::Went),
        Err(fault) => Err(RunError::Run(fault)),
    }
}

/// One step of the run may lead from the parser `source` and the state `pre` to the
/// parser `target` and the state `post`, and yield `out`.
///
/// The first statement of the agenda runs, if there is one. Else the run is done when
/// the parser has reached the end of its input. Else the next statement is pulled from
/// the parser, which parses the one after it: where that fails, the step fails and the
/// pulled statement does not run; an end-of-statement node is passed over; any other
/// statement runs.
pub open spec fn steps(
    source: ASTStream,
    pre: State,
    unit: Unit,
    target: ASTStream,
    post: State,
    out: Outcome,
) -> bool {
    if pre.agenda.len() > 0 {
        &&& target == source
        &&& exists|effect: Effect|
            #![trigger outcome_from(effect)]
            runs(pre.agenda[0], State { agenda: pre.agenda.skip(1), ..pre }, unit, post, effect)
                && out == outcome_from(effect)
    } else if source.spec_peek().kind == NodeType::EOF {
        target == source && post == pre && out == Ok::<Event, RunError>(Event::Done)
    } else {
        match out {
            Err(RunError::Parse(e)) => target.pulled(source, Err(e)) && post == pre,
            _ => {
                &&& target.pulled(source, Ok(source.spec_peek()))
                &&& if source.spec_peek().kind == NodeType::EOL {
                    post == pre && out == Ok::<Event, RunError>(Event::Went)
                } else {
                    exists|effect: Effect|
                        #![trigger outcome_from(effect)]
                        runs(source.spec_peek(), pre, unit, post, effect) && out == outcome_from(
                            effect,
                        )
                }
            },
        }
    }
}

} // verus!
