//! What holds of the parser and of the evaluator on every input.
use vstd::prelude::*;
use crate::ast_stream::{ASTStream, Tree};
use crate::grammar::{
    alternative, binary, block, bodied, conditional, expr, Found, number_literal, Registry,
    remaining, repetition, statement, text_literal, tok, variable,
};
use crate::number::{zero, ArithOp};
use crate::semantics::{
    at_loop, combined, decides, in_body, moves, negated, num_value, operands, operator_of, pass, passes,
    outcome_from, proceeds, runs, steps, text_value, Effect, Operator, Outcome, RunFault, Shown, State, Unit,
    Value,
};
use crate::token_stream::{text_in, Lexeme};
use crate::util::{BaseType, NodeType, TokenType};

verus! {

/// The text of ASCII bytes is the characters of their values: a token made of ASCII
/// characters has the text that stands in the source.
pub proof fn law_text_of_ascii(src: Seq<u8>, lo: int, hi: int)
    requires
        0 <= lo <= hi <= src.len(),
        forall|k: int| lo <= k < hi ==> #[trigger] src[k] < 128,
    ensures
        text_in(src, lo, hi) == Seq::new((hi - lo) as nat, |k: int| src[lo + k] as char),
{
    let bytes = src.subrange(lo, hi);
    let chars = Seq::new((hi - lo) as nat, |k: int| src[lo + k] as char);
    assert(vstd::utf8::is_ascii_chars(chars));
    vstd::utf8::is_ascii_chars_encode_utf8(chars);
    assert(vstd::utf8::encode_utf8(chars) =~= bytes);
    vstd::utf8::encode_utf8_decode_utf8(chars);
}

/// Whether the token at index `i` is an operand by itself: a number literal, a string
/// literal or a variable that `reg` knows.
pub open spec fn is_operand(toks: Seq<Lexeme>, i: int, reg: Registry) -> bool {
    let t = tok(toks, i);
    t.kind == TokenType::NUMBER || t.kind == TokenType::STRING || (t.kind == TokenType::VAR
        && reg.contains_key(t.text))
}

/// The tree of the operand at index `i`.
pub open spec fn operand(toks: Seq<Lexeme>, i: int, reg: Registry) -> Tree {
    let t = tok(toks, i);
    if t.kind == TokenType::NUMBER {
        number_literal(t.text)
    } else if t.kind == TokenType::STRING {
        text_literal(t.text)
    } else {
        variable(t.text, reg[t.text])
    }
}

/// The type that an expression has whose left operand stands at index `i`: that of the
/// literal, or the declared type of the variable.
pub open spec fn operand_type(toks: Seq<Lexeme>, i: int, reg: Registry) -> BaseType {
    let t = tok(toks, i);
    if t.kind == TokenType::NUMBER {
        BaseType::NUMBER
    } else if t.kind == TokenType::STRING {
        BaseType::STRING
    } else {
        reg[t.text]
    }
}

/// Whether an operator follows the operand at index `i`: behind a number literal an
/// operator on numbers, behind a string literal `|`, behind a variable either.
pub open spec fn is_joined(toks: Seq<Lexeme>, i: int, reg: Registry) -> bool {
    let t = tok(toks, i);
    let op = tok(toks, i + 1).kind;
    if t.kind == TokenType::NUMBER {
        op.num_op()
    } else if t.kind == TokenType::STRING {
        op.cat()
    } else {
        op.num_op() || op.cat()
    }
}

/// Whether `n` operators join `n + 1` operands from index `i` on, and no operator
/// follows the last operand.
pub open spec fn is_chain(toks: Seq<Lexeme>, i: int, n: nat, reg: Registry) -> bool {
    &&& forall|j: int| 0 <= j <= n ==> #[trigger] is_operand(toks, i + 2 * j, reg)
    &&& forall|j: int| 0 <= j < n ==> #[trigger] is_joined(toks, i + 2 * j, reg)
    &&& !is_joined(toks, i + 2 * n, reg)
}

/// The tree in which each of the `n` operators from index `i` on has the operand before
/// it as its left operand and all that follows it as its right operand.
pub open spec fn chain(toks: Seq<Lexeme>, i: int, n: nat, reg: Registry) -> Tree
    decreases n,
{
    if n == 0 {
        operand(toks, i, reg)
    } else {
        binary(
            operand_type(toks, i, reg),
            tok(toks, i + 1).text,
            operand(toks, i, reg),
            chain(toks, i + 2, (n - 1) as nat, reg),
        )
    }
}

/// The number of operators on the way from the root of `t` down its right operands.
pub open spec fn links(t: Tree) -> nat
    decreases t,
{
    if t.kind == NodeType::EXPRESSION && t.right.len() > 0 {
        1 + links(t.right[0])
    } else {
        0
    }
}

/// Operators group from the right, whatever they are: a chain of operands and operators
/// parses into the tree in which every operator takes all that follows it as its right
/// operand, and the parser stops at the last operand.
pub proof fn law_operators_group_from_the_right(toks: Seq<Lexeme>, i: int, n: nat, reg: Registry)
    requires
        is_chain(toks, i, n, reg),
    ensures
        expr(toks, i, reg) == (Found { result: Ok(chain(toks, i, n, reg)), used: 2 * n }),
    decreases n,
{
    assert(is_operand(toks, i + 2 * 0, reg));
    if n > 0 {
        assert(is_joined(toks, i + 2 * 0, reg));
        let m = (n - 1) as nat;
        assert(is_chain(toks, i + 2, m, reg)) by {
            assert forall|j: int| 0 <= j <= m implies #[trigger] is_operand(toks, i + 2 + 2 * j, reg) by {
                assert(is_operand(toks, i + 2 * (j + 1), reg));
            }
            assert forall|j: int| 0 <= j < m implies #[trigger] is_joined(toks, i + 2 + 2 * j, reg) by {
                assert(is_joined(toks, i + 2 * (j + 1), reg));
            }
        }
        law_operators_group_from_the_right(toks, i + 2, m, reg);
    }
}

/// The tree of a chain of `n` operators carries the first operator at its root, has one
/// operand as the left operand of each operator, and has `n` operators in all.
pub proof fn law_chain_shape(toks: Seq<Lexeme>, i: int, n: nat, reg: Registry)
    requires
        is_chain(toks, i, n, reg),
    ensures
        links(chain(toks, i, n, reg)) == n,
        n > 0 ==> {
            let root = chain(toks, i, n, reg);
            &&& root.kind == NodeType::EXPRESSION
            &&& root.text == tok(toks, i + 1).text
            &&& root.left == seq![operand(toks, i, reg)]
            &&& root.right == seq![chain(toks, i + 2, (n - 1) as nat, reg)]
        },
    decreases n,
{
    if n > 0 {
        let m = (n - 1) as nat;
        assert(is_chain(toks, i + 2, m, reg)) by {
            assert forall|j: int| 0 <= j <= m implies #[trigger] is_operand(toks, i + 2 + 2 * j, reg) by {
                assert(is_operand(toks, i + 2 * (j + 1), reg));
            }
            assert forall|j: int| 0 <= j < m implies #[trigger] is_joined(toks, i + 2 + 2 * j, reg) by {
                assert(is_joined(toks, i + 2 * (j + 1), reg));
            }
        }
        law_chain_shape(toks, i + 2, m, reg);
    }
}

/// The value of an arithmetic expression is what the numeric unit returns for the value
/// of its left operand and the value of all that follows the operator.
pub proof fn law_value_of_arithmetic(
    ty: BaseType,
    op: Seq<char>,
    lhs: Tree,
    rhs: Tree,
    how: ArithOp,
    nums: Map<Seq<char>, u64>,
    unit: Unit,
    v: u64,
)
    requires
        operator_of(op) == Some(Operator::Arith(how)),
    ensures
        num_value(binary(ty, op, lhs, rhs), nums, unit, Ok(v)) <==> exists|a: u64, b: u64|
            #![trigger (unit.applies)(how, a, b, v)]
            num_value(lhs, nums, unit, Ok(a)) && num_value(rhs, nums, unit, Ok(b))
                && (unit.applies)(how, a, b, v),
{
    if exists|a: u64, b: u64|
        #![trigger (unit.applies)(how, a, b, v)]
        num_value(lhs, nums, unit, Ok(a)) && num_value(rhs, nums, unit, Ok(b))
            && (unit.applies)(how, a, b, v) {
        let (a, b) = choose|a: u64, b: u64|
            #![trigger (unit.applies)(how, a, b, v)]
            num_value(lhs, nums, unit, Ok(a)) && num_value(rhs, nums, unit, Ok(b))
                && (unit.applies)(how, a, b, v);
        assert(operands(Ok(a), Ok(b)));
    }
}

/// Evaluation applies the operators of a chain from right to left: where `a op b op c`
/// on number literals has a value, the second operator was applied to `b` and `c`, and the first to `a` and
/// to what the second returned.
pub proof fn law_right_to_left_application(
    toks: Seq<Lexeme>,
    i: int,
    reg: Registry,
    first: ArithOp,
    second: ArithOp,
    nums: Map<Seq<char>, u64>,
    unit: Unit,
    v: u64,
)
    requires
        is_chain(toks, i, 2, reg),
        tok(toks, i).kind == TokenType::NUMBER,
        tok(toks, i + 2).kind == TokenType::NUMBER,
        tok(toks, i + 4).kind == TokenType::NUMBER,
        operator_of(tok(toks, i + 1).text) == Some(Operator::Arith(first)),
        operator_of(tok(toks, i + 3).text) == Some(Operator::Arith(second)),
        expr(toks, i, reg).result is Ok,
        num_value(expr(toks, i, reg).result->Ok_0, nums, unit, Ok(v)),
    ensures
        exists|a: u64, b: u64, c: u64, inner: u64|
            #![trigger (unit.applies)(second, b, c, inner), (unit.applies)(first, a, inner, v)]
            {
                &&& (unit.reads)(tok(toks, i).text, a)
                &&& (unit.reads)(tok(toks, i + 2).text, b)
                &&& (unit.reads)(tok(toks, i + 4).text, c)
                &&& (unit.applies)(second, b, c, inner)
                &&& (unit.applies)(first, a, inner, v)
            },
{
    law_operators_group_from_the_right(toks, i, 2, reg);
    reveal_with_fuel(chain, 3);
    let lhs = number_literal(tok(toks, i).text);
    let mid = number_literal(tok(toks, i + 2).text);
    let end = number_literal(tok(toks, i + 4).text);
    let rest = binary(BaseType::NUMBER, tok(toks, i + 3).text, mid, end);
    law_value_of_arithmetic(BaseType::NUMBER, tok(toks, i + 1).text, lhs, rest, first, nums, unit, v);
    let (a, inner) = choose|a: u64, inner: u64|
        #![trigger (unit.applies)(first, a, inner, v)]
        num_value(lhs, nums, unit, Ok(a)) && num_value(rest, nums, unit, Ok(inner))
            && (unit.applies)(first, a, inner, v);
    law_value_of_arithmetic(BaseType::NUMBER, tok(toks, i + 3).text, mid, end, second, nums, unit, inner);
}

/// Whether the numeric unit is a function: it reads one number from a text and returns
/// one number for an operator and two operands.
pub open spec fn single_valued(unit: Unit) -> bool {
    &&& forall|text: Seq<char>, v: u64, w: u64|
        #![trigger (unit.reads)(text, v), (unit.reads)(text, w)]
        (unit.reads)(text, v) && (unit.reads)(text, w) ==> v == w
    &&& forall|op: ArithOp, a: u64, b: u64, v: u64, w: u64|
        #![trigger (unit.applies)(op, a, b, v), (unit.applies)(op, a, b, w)]
        (unit.applies)(op, a, b, v) && (unit.applies)(op, a, b, w) ==> v == w
}

/// With a numeric unit that is a function, an expression has one value at most: to
/// evaluate it twice over the same stored numbers yields the same number or the same
/// fault, a division by zero like anything else.
pub proof fn law_one_value(t: Tree, nums: Map<Seq<char>, u64>, unit: Unit, first: Value, second: Value)
    requires
        single_valued(unit),
        num_value(t, nums, unit, first),
        num_value(t, nums, unit, second),
    ensures
        first == second,
    decreases t,
{
    if t.kind == NodeType::EXPRESSION && operator_of(t.text) is Some {
        let op = operator_of(t.text)->Some_0;
        if op == Operator::Not {
            if t.right.len() > 0 {
                let x = choose|x: Value|
                    #![trigger operands(x, x)]
                    operands(x, x) && num_value(t.right[0], nums, unit, x) && first == negated(x);
                let y = choose|y: Value|
                    #![trigger operands(y, y)]
                    operands(y, y) && num_value(t.right[0], nums, unit, y) && second == negated(y);
                law_one_value(t.right[0], nums, unit, x, y);
            }
        } else if t.left.len() > 0 {
            let (x1, y1) = choose|x: Value, y: Value|
                #![trigger operands(x, y)]
                {
                    &&& operands(x, y)
                    &&& num_value(t.left[0], nums, unit, x)
                    &&& if x is Err || decides(op, x->Ok_0) {
                        y == x
                    } else if t.right.len() == 0 {
                        y == Err::<u64, RunFault>(RunFault::MissingOperand)
                    } else {
                        num_value(t.right[0], nums, unit, y)
                    }
                    &&& combined(op, x, y, unit, first)
                };
            let (x2, y2) = choose|x: Value, y: Value|
                #![trigger operands(x, y)]
                {
                    &&& operands(x, y)
                    &&& num_value(t.left[0], nums, unit, x)
                    &&& if x is Err || decides(op, x->Ok_0) {
                        y == x
                    } else if t.right.len() == 0 {
                        y == Err::<u64, RunFault>(RunFault::MissingOperand)
                    } else {
                        num_value(t.right[0], nums, unit, y)
                    }
                    &&& combined(op, x, y, unit, second)
                };
            law_one_value(t.left[0], nums, unit, x1, x2);
            if x1 is Ok && !decides(op, x1->Ok_0) && t.right.len() > 0 {
                law_one_value(t.right[0], nums, unit, y1, y2);
            }
        }
    }
}

/// With a numeric unit that is a function, a statement has one effect at most: to run
/// it in the same state leaves the same state and yields the same output or fault.
pub proof fn law_one_effect(
    n: Tree,
    pre: State,
    unit: Unit,
    first: State,
    shown: Effect,
    second: State,
    again: Effect,
)
    requires
        single_valued(unit),
        runs(n, pre, unit, first, shown),
        runs(n, pre, unit, second, again),
    ensures
        first == second,
        shown == again,
{
    let expression = if n.kind == NodeType::IF || n.kind == NodeType::WHILE {
        n.extra
    } else {
        n.left
    };
    if expression.len() > 0 {
        assert forall|x: Value, y: Value|
            num_value(expression[0], pre.nums, unit, x) && num_value(expression[0], pre.nums, unit, y) implies x
            == y by {
            law_one_value(expression[0], pre.nums, unit, x, y);
        }
    }
}

/// A conditional enters exactly one of its bodies, and never both: where its condition is
/// zero, the statements behind `ELSE` are put before the agenda, else those of the first
/// body. The stores stay as they were and nothing is printed. Where the condition has no
/// value, no body is entered.
pub proof fn law_branch_selection(
    n: Tree,
    pre: State,
    unit: Unit,
    post: State,
    out: Effect,
)
    requires
        n.kind == NodeType::IF,
        n.extra.len() > 0,
        runs(n, pre, unit, post, out),
    ensures
        post.nums == pre.nums,
        post.texts == pre.texts,
        out != Ok::<Option<Shown>, RunFault>(None) ==> out is Err && post.agenda == pre.agenda,
        out is Ok ==> exists|v: u64|
            #![trigger zero(v)]
            num_value(n.extra[0], pre.nums, unit, Ok(v)) && post.agenda == if zero(v) {
                n.right
            } else {
                n.left
            } + pre.agenda,
{
}

/// A step of the run takes the first statement of the agenda, where there is one: the
/// parser stays as it is, and where the step does not fail it is one move of the agenda.
pub proof fn law_run_takes_the_agenda_first(
    source: ASTStream,
    pre: State,
    unit: Unit,
    target: ASTStream,
    post: State,
    out: Outcome,
)
    requires
        pre.agenda.len() > 0,
        steps(source, pre, unit, target, post, out),
    ensures
        target == source,
        out is Ok ==> exists|shown: Option<Shown>|
            #![trigger moves(pre, unit, post, shown, 0)]
            moves(pre, unit, post, shown, 0) && out == outcome_from(Ok(shown)),
{
    let effect = choose|effect: Effect|
        #![trigger outcome_from(effect)]
        runs(pre.agenda[0], State { agenda: pre.agenda.skip(1), ..pre }, unit, post, effect) && out
            == outcome_from(effect);
    if out is Ok {
        assert(moves(pre, unit, post, effect->Ok_0, 0));
    }
}

/// What a statement does is the same whatever stands in the agenda: it puts the same
/// statements before it, changes the stores alike and yields the same.
pub proof fn law_agenda_is_a_frame(n: Tree, pre: State, unit: Unit, post: State, out: Effect, other: Seq<Tree>)
    requires
        runs(n, pre, unit, post, out),
    ensures
        exists|put: Seq<Tree>|
            #![trigger put + other]
            post.agenda == put + pre.agenda && runs(
                n,
                State { agenda: other, ..pre },
                unit,
                State { agenda: put + other, ..post },
                out,
            ),
{
    let nothing = Seq::<Tree>::empty();
    let framed = State { agenda: other, ..pre };
    if (n.kind == NodeType::IF || n.kind == NodeType::WHILE) && n.extra.len() > 0 {
        let x = choose|x: Value|
            #![trigger operands(x, x)]
            operands(x, x) && num_value(n.extra[0], pre.nums, unit, x) && (x is Err ==> post == pre) && (x is Ok
                ==> post == State {
                agenda: if n.kind == NodeType::IF {
                    if zero(x->Ok_0) {
                        n.right
                    } else {
                        n.left
                    }
                } else if zero(x->Ok_0) {
                    nothing
                } else {
                    n.left + seq![n]
                } + pre.agenda,
                ..pre
            }) && (x is Ok ==> out == Ok::<Option<Shown>, RunFault>(None)) && (x is Err ==> out == Err::<
                Option<Shown>,
                RunFault,
            >(x->Err_0));
        let put = if x is Err {
            nothing
        } else if n.kind == NodeType::IF {
            if zero(x->Ok_0) {
                n.right
            } else {
                n.left
            }
        } else if zero(x->Ok_0) {
            nothing
        } else {
            n.left + seq![n]
        };
        assert(runs(n, framed, unit, State { agenda: put + other, ..post }, out));
    } else {
        assert(runs(n, framed, unit, State { agenda: nothing + other, ..post }, out));
    }
}

/// Whether the statements `stmts` run one after the other through the states `stores`,
/// print `outs`, and none of them puts a statement before the agenda.
pub open spec fn run_in_turn(stmts: Seq<Tree>, stores: Seq<State>, outs: Seq<Option<Shown>>, unit: Unit) -> bool {
    &&& stores.len() == stmts.len() + 1
    &&& outs.len() == stmts.len()
    &&& forall|j: int|
        0 <= j < stmts.len() ==> runs(stmts[j], stores[j], unit, stores[j + 1], Ok(#[trigger] outs[j]))
            && stores[j + 1].agenda == stores[j].agenda
}

/// The state in which the statements of `stmts` from index `j` on stand before the
/// agenda of the state `s`.
pub open spec fn ahead_of(stmts: Seq<Tree>, j: int, s: State) -> State {
    State { agenda: stmts.skip(j) + s.agenda, ..s }
}

/// Statements that stand before the agenda run in the order in which they stand: where
/// each of them runs in the state that the one before it left, the agenda is run step by
/// step through the same stores, and what follows the statements is not touched.
pub proof fn law_statements_run_in_order(
    stmts: Seq<Tree>,
    stores: Seq<State>,
    outs: Seq<Option<Shown>>,
    unit: Unit,
)
    requires
        run_in_turn(stmts, stores, outs, unit),
    ensures
        proceeds(
            Seq::new(stores.len(), |j: int| ahead_of(stmts, j, stores[j])),
            outs,
            unit,
            stores[0].agenda.len(),
        ),
{
    let rest = stores[0].agenda;
    let states = Seq::new(stores.len(), |j: int| ahead_of(stmts, j, stores[j]));
    assert forall|j: int| 0 <= j <= stmts.len() implies (#[trigger] stores[j]).agenda == rest by {
        lemma_same_agenda(stmts, stores, outs, unit, j);
    }
    assert forall|j: int| 0 <= j < outs.len() implies moves(
        states[j],
        unit,
        states[j + 1],
        #[trigger] outs[j],
        rest.len(),
    ) by {
        let other = stmts.skip(j + 1) + rest;
        law_agenda_is_a_frame(stmts[j], stores[j], unit, stores[j + 1], Ok(outs[j]), other);
        let put = choose|put: Seq<Tree>|
            #![trigger put + other]
            stores[j + 1].agenda == put + stores[j].agenda && runs(
                stmts[j],
                State { agenda: other, ..stores[j] },
                unit,
                State { agenda: put + other, ..stores[j + 1] },
                Ok(outs[j]),
            );
        assert(put.len() == 0);
        assert(states[j].agenda.skip(1) =~= other);
    }
}

/// Statements that put nothing before the agenda leave the agenda as it was.
proof fn lemma_same_agenda(stmts: Seq<Tree>, stores: Seq<State>, outs: Seq<Option<Shown>>, unit: Unit, j: int)
    requires
        run_in_turn(stmts, stores, outs, unit),
        0 <= j <= stmts.len(),
    ensures
        stores[j].agenda == stores[0].agenda,
    decreases j,
{
    if j > 0 {
        lemma_same_agenda(stmts, stores, outs, unit, j - 1);
        assert(runs(stmts[j - 1], stores[j - 1], unit, stores[j], Ok(outs[j - 1])) && stores[j].agenda
            == stores[j - 1].agenda);
    }
}

/// A loop whose condition is zero is left in one step, which prints nothing and changes
/// nothing.
pub proof fn law_loop_is_left(n: Tree, pre: State, unit: Unit, v: u64)
    requires
        n.kind == NodeType::WHILE,
        n.extra.len() > 0,
        num_value(n.extra[0], pre.nums, unit, Ok(v)),
        zero(v),
    ensures
        moves(at_loop(n, pre), unit, pre, None, pre.agenda.len()),
{
    let from = at_loop(n, pre);
    assert(from.agenda.skip(1) =~= pre.agenda);
    assert(operands(Ok(v), Ok(v)));
}

/// A loop whose condition is not zero begins a pass in one step, which prints nothing
/// and leaves the stores as they were: the body, and behind it the loop itself, stand
/// before what follows the loop.
pub proof fn law_loop_is_entered(n: Tree, pre: State, unit: Unit, v: u64)
    requires
        n.kind == NodeType::WHILE,
        n.extra.len() > 0,
        num_value(n.extra[0], pre.nums, unit, Ok(v)),
        !zero(v),
    ensures
        moves(at_loop(n, pre), unit, in_body(n, pre), None, pre.agenda.len()),
{
    let from = at_loop(n, pre);
    assert(from.agenda.skip(1) =~= pre.agenda);
    assert(operands(Ok(v), Ok(v)));
}

/// A loop that makes `k` passes: from the state in which the loop is the next statement,
/// the agenda is run step by step to the state behind the loop, and no step takes a
/// statement of what follows the loop. Each pass is one evaluation of the condition and
/// one run of the body in order; one more evaluation leaves the loop, so that the
/// condition is zero in the state behind it. Without a pass, one step is made and the
/// state behind the loop is the state before it.
pub proof fn law_loop_passes(n: Tree, pre: State, unit: Unit, post: State, outs: Seq<Option<Shown>>, k: nat)
    requires
        n.kind == NodeType::WHILE,
        n.extra.len() > 0,
        passes(n, pre, unit, post, outs, k),
    ensures
        exists|states: Seq<State>|
            #![trigger proceeds(states, outs, unit, pre.agenda.len())]
            {
                &&& proceeds(states, outs, unit, pre.agenda.len())
                &&& states[0] == at_loop(n, pre)
                &&& states.last() == post
            },
        post.agenda == pre.agenda,
        exists|v: u64| #![trigger zero(v)] num_value(n.extra[0], post.nums, unit, Ok(v)) && zero(v),
        outs.len() >= k + 1,
        k == 0 ==> post == pre && outs == seq![None::<Shown>],
    decreases k,
{
    let floor = pre.agenda.len();
    if k == 0 {
        let v = choose|v: u64| #![trigger zero(v)] num_value(n.extra[0], pre.nums, unit, Ok(v)) && zero(v);
        law_loop_is_left(n, pre, unit, v);
        let states = seq![at_loop(n, pre), pre];
        assert(proceeds(states, outs, unit, floor));
    } else {
        let v = choose|v: u64| #![trigger zero(v)] num_value(n.extra[0], pre.nums, unit, Ok(v)) && !zero(v);
        law_loop_is_entered(n, pre, unit, v);
        let (body, mid) = choose|states: Seq<State>, mid: State|
            #![trigger pass(states, mid)]
            {
                &&& pass(states, mid)
                &&& 1 <= states.len() <= outs.len()
                &&& outs[0] is None
                &&& states[0] == in_body(n, pre)
                &&& states.last() == at_loop(n, mid)
                &&& mid.agenda == pre.agenda
                &&& proceeds(states, outs.subrange(1, states.len() as int), unit, pre.agenda.len() + 1)
                &&& passes(n, mid, unit, post, outs.skip(states.len() as int), (k - 1) as nat)
            };
        let b = body.len() as int;
        let later = outs.skip(b);
        law_loop_passes(n, mid, unit, post, later, (k - 1) as nat);
        let rest = choose|states: Seq<State>|
            #![trigger proceeds(states, later, unit, mid.agenda.len())]
            {
                &&& proceeds(states, later, unit, mid.agenda.len())
                &&& states[0] == at_loop(n, mid)
                &&& states.last() == post
            };
        let whole = seq![at_loop(n, pre)] + body + rest.skip(1);
        assert forall|j: int| 0 <= j < outs.len() implies moves(
            whole[j],
            unit,
            whole[j + 1],
            #[trigger] outs[j],
            floor,
        ) by {
            if 0 < j < b {
                let inner = outs.subrange(1, b);
                assert(moves(body[j - 1], unit, body[j], inner[j - 1], floor + 1));
            } else if j >= b {
                assert(moves(rest[j - b], unit, rest[j - b + 1], later[j - b], floor));
            }
        }
        assert(proceeds(whole, outs, unit, floor));
    }
}

/// No statement removes an entry from a store: whatever holds a value before a statement
/// runs holds one afterwards.
pub proof fn law_stores_only_grow(
    n: Tree,
    pre: State,
    unit: Unit,
    post: State,
    out: Effect,
)
    requires
        runs(n, pre, unit, post, out),
    ensures
        pre.nums.dom().subset_of(post.nums.dom()),
        pre.texts.dom().subset_of(post.texts.dom()),
{
}

/// An identifier that no declaration has named does not parse: the expression that
/// begins with it fails, whatever follows.
pub proof fn law_unknown_identifier_does_not_parse(toks: Seq<Lexeme>, i: int, reg: Registry)
    requires
        tok(toks, i).kind == TokenType::VAR,
        !reg.contains_key(tok(toks, i).text),
    ensures
        expr(toks, i, reg).result == Err::<Tree, crate::grammar::ParseFault>(
            crate::grammar::ParseFault::UnknownVariable,
        ),
{
}

/// Whether every variable that `t` refers to is declared in `reg`, with the type that
/// the reference carries.
pub open spec fn declared(t: Tree, reg: Registry) -> bool
    decreases t,
{
    &&& t.kind == NodeType::VAL && t.name.len() > 0 ==> reg.contains_key(t.name) && reg[t.name] == t.ty
    &&& forall|k: int| 0 <= k < t.left.len() ==> declared(#[trigger] t.left[k], reg)
    &&& forall|k: int| 0 <= k < t.right.len() ==> declared(#[trigger] t.right[k], reg)
    &&& forall|k: int| 0 <= k < t.extra.len() ==> declared(#[trigger] t.extra[k], reg)
}

/// An operator between two operands that refer to declared variables only does so too.
proof fn lemma_declared_binary(ty: BaseType, op: Seq<char>, lhs: Tree, rhs: Tree, reg: Registry)
    requires
        declared(lhs, reg),
        declared(rhs, reg),
    ensures
        declared(binary(ty, op, lhs, rhs), reg),
{
}

/// Whatever expression parses refers to declared variables only, each with the type
/// that it was declared with.
pub proof fn law_parsed_variables_are_declared(toks: Seq<Lexeme>, i: int, reg: Registry)
    ensures
        expr(toks, i, reg).result is Ok ==> declared(expr(toks, i, reg).result->Ok_0, reg),
    decreases remaining(toks, i),
{
    let cur = tok(toks, i);
    let nxt = tok(toks, i + 1);
    if expr(toks, i, reg).result is Ok {
        if cur.kind == TokenType::STRING {
            let lhs = text_literal(cur.text);
            if nxt.kind.cat() {
                law_parsed_variables_are_declared(toks, i + 2, reg);
                lemma_declared_binary(BaseType::STRING, nxt.text, lhs, expr(toks, i + 2, reg).result->Ok_0, reg);
            }
        } else if cur.kind == TokenType::NUMBER {
            let lhs = number_literal(cur.text);
            if nxt.kind.num_op() {
                law_parsed_variables_are_declared(toks, i + 2, reg);
                lemma_declared_binary(BaseType::NUMBER, nxt.text, lhs, expr(toks, i + 2, reg).result->Ok_0, reg);
            }
        } else if cur.kind == TokenType::VAR {
            let lhs = variable(cur.text, reg[cur.text]);
            if nxt.kind.num_op() || nxt.kind.cat() {
                law_parsed_variables_are_declared(toks, i + 2, reg);
                lemma_declared_binary(reg[cur.text], nxt.text, lhs, expr(toks, i + 2, reg).result->Ok_0, reg);
            }
        } else if cur.kind == TokenType::NOT {
            law_parsed_variables_are_declared(toks, i + 1, reg);
        } else if cur.kind == TokenType::LBRAC {
            law_parsed_variables_are_declared(toks, i + 1, reg);
            let inner = expr(toks, i + 1, reg);
            let op = tok(toks, i + inner.used + 3);
            if op.kind.num_op() || op.kind.cat() {
                law_parsed_variables_are_declared(toks, i + inner.used + 4, reg);
                lemma_declared_binary(
                    crate::grammar::yield_of(op.kind),
                    op.text,
                    inner.result->Ok_0,
                    expr(toks, i + inner.used + 4, reg).result->Ok_0,
                    reg,
                );
            }
        }
    }
}

/// A variable that holds no number has no value: to evaluate it fails.
pub proof fn law_unstored_number_fails(
    t: Tree,
    nums: Map<Seq<char>, u64>,
    unit: Unit,
    out: Value,
)
    requires
        t.kind == NodeType::VAL,
        t.name.len() > 0,
        !nums.contains_key(t.name),
        num_value(t, nums, unit, out),
    ensures
        out == Err::<u64, RunFault>(RunFault::MissingVariable),
{
}

/// A variable that holds no text has no value: to evaluate it fails.
pub proof fn law_unstored_text_fails(t: Tree, texts: Map<Seq<char>, Seq<char>>)
    requires
        t.kind == NodeType::VAL,
        t.name.len() > 0,
        !texts.contains_key(t.name),
    ensures
        text_value(t, texts) == Err::<Seq<char>, RunFault>(RunFault::MissingVariable),
{
}

/// Whether every variable that `t` refers to has a name that `reg` knows.
pub open spec fn named(t: Tree, reg: Registry) -> bool
    decreases t,
{
    &&& t.kind == NodeType::VAL && t.name.len() > 0 ==> reg.contains_key(t.name)
    &&& forall|k: int| 0 <= k < t.left.len() ==> named(#[trigger] t.left[k], reg)
    &&& forall|k: int| 0 <= k < t.right.len() ==> named(#[trigger] t.right[k], reg)
    &&& forall|k: int| 0 <= k < t.extra.len() ==> named(#[trigger] t.extra[k], reg)
}

/// Whether every tree of `ts` refers to names that `reg` knows.
pub open spec fn all_named(ts: Seq<Tree>, reg: Registry) -> bool {
    forall|k: int| 0 <= k < ts.len() ==> named(#[trigger] ts[k], reg)
}

/// What refers to declared variables refers to names that the registry knows.
proof fn lemma_declared_is_named(t: Tree, reg: Registry)
    requires
        declared(t, reg),
    ensures
        named(t, reg),
    decreases t,
{
    assert forall|k: int| 0 <= k < t.left.len() implies named(#[trigger] t.left[k], reg) by {
        lemma_declared_is_named(t.left[k], reg);
    }
    assert forall|k: int| 0 <= k < t.right.len() implies named(#[trigger] t.right[k], reg) by {
        lemma_declared_is_named(t.right[k], reg);
    }
    assert forall|k: int| 0 <= k < t.extra.len() implies named(#[trigger] t.extra[k], reg) by {
        lemma_declared_is_named(t.extra[k], reg);
    }
}

/// Names stay known when the registry grows.
proof fn lemma_named_grows(t: Tree, small: Registry, large: Registry)
    requires
        named(t, small),
        small.dom().subset_of(large.dom()),
    ensures
        named(t, large),
    decreases t,
{
    assert forall|k: int| 0 <= k < t.left.len() implies named(#[trigger] t.left[k], large) by {
        lemma_named_grows(t.left[k], small, large);
    }
    assert forall|k: int| 0 <= k < t.right.len() implies named(#[trigger] t.right[k], large) by {
        lemma_named_grows(t.right[k], small, large);
    }
    assert forall|k: int| 0 <= k < t.extra.len() implies named(#[trigger] t.extra[k], large) by {
        lemma_named_grows(t.extra[k], small, large);
    }
}

/// Names stay known when the registry grows, in every tree of a list.
proof fn lemma_all_named_grows(ts: Seq<Tree>, small: Registry, large: Registry)
    requires
        all_named(ts, small),
        small.dom().subset_of(large.dom()),
    ensures
        all_named(ts, large),
{
    assert forall|k: int| 0 <= k < ts.len() implies named(#[trigger] ts[k], large) by {
        lemma_named_grows(ts[k], small, large);
    }
}

/// The expression that parses refers to names that the registry knows.
proof fn lemma_expr_named(toks: Seq<Lexeme>, i: int, reg: Registry)
    ensures
        expr(toks, i, reg).result is Ok ==> named(expr(toks, i, reg).result->Ok_0, reg),
{
    law_parsed_variables_are_declared(toks, i, reg);
    if expr(toks, i, reg).result is Ok {
        lemma_declared_is_named(expr(toks, i, reg).result->Ok_0, reg);
    }
}

/// The statements of a body refer to names that are known behind the body.
proof fn lemma_block_named(toks: Seq<Lexeme>, i: int, reg: Registry)
    ensures
        reg.dom().subset_of(block(toks, i, reg).reg.dom()),
        block(toks, i, reg).result is Ok ==> all_named(block(toks, i, reg).result->Ok_0, block(toks, i, reg).reg),
    decreases remaining(toks, i), 0nat,
{
    let first = tok(toks, i + 1);
    if first.kind != TokenType::END && first.kind != TokenType::EOF {
        let head = statement(toks, i + 1, reg);
        let rest = block(toks, i + 1 + head.used, head.reg);
        law_statements_refer_to_declared_variables(toks, i + 1, reg);
        lemma_block_named(toks, i + 1 + head.used, head.reg);
        if head.result is Ok && rest.result is Ok {
            lemma_named_grows(head.result->Ok_0, head.reg, rest.reg);
        }
    }
}

/// A condition and a body refer to names that are known behind the body.
proof fn lemma_bodied_named(toks: Seq<Lexeme>, i: int, kind: NodeType, reg: Registry)
    ensures
        reg.dom().subset_of(bodied(toks, i, kind, reg).reg.dom()),
        bodied(toks, i, kind, reg).result is Ok ==> named(
            bodied(toks, i, kind, reg).result->Ok_0,
            bodied(toks, i, kind, reg).reg,
        ),
    decreases remaining(toks, i), 1nat,
{
    let test = expr(toks, i + 1, reg);
    let open = i + test.used + 2;
    if test.result is Ok && tok(toks, open).kind == TokenType::BEGIN {
        lemma_expr_named(toks, i + 1, reg);
        lemma_block_named(toks, open, reg);
        let body = block(toks, open, reg);
        if body.result is Ok {
            lemma_named_grows(test.result->Ok_0, reg, body.reg);
        }
    }
}

/// What closes a conditional refers to names that are known behind it.
proof fn lemma_alternative_named(toks: Seq<Lexeme>, i: int, base: Tree, reg: Registry)
    requires
        named(base, reg),
    ensures
        reg.dom().subset_of(alternative(toks, i, base, reg).reg.dom()),
        alternative(toks, i, base, reg).result is Ok ==> named(
            alternative(toks, i, base, reg).result->Ok_0,
            alternative(toks, i, base, reg).reg,
        ),
    decreases remaining(toks, i), 1nat,
{
    if tok(toks, i).kind == TokenType::ELSE && tok(toks, i + 1).kind == TokenType::BEGIN {
        let other = block(toks, i + 1, reg);
        lemma_block_named(toks, i + 1, reg);
        if other.result is Ok {
            lemma_named_grows(base, reg, other.reg);
        }
    }
}

/// A conditional refers to names that are known behind it.
proof fn lemma_conditional_named(toks: Seq<Lexeme>, i: int, reg: Registry)
    ensures
        reg.dom().subset_of(conditional(toks, i, reg).reg.dom()),
        conditional(toks, i, reg).result is Ok ==> named(
            conditional(toks, i, reg).result->Ok_0,
            conditional(toks, i, reg).reg,
        ),
    decreases remaining(toks, i), 2nat,
{
    let head = bodied(toks, i, NodeType::IF, reg);
    lemma_bodied_named(toks, i, NodeType::IF, reg);
    if tok(toks, i).kind == TokenType::IF && head.result is Ok {
        lemma_alternative_named(toks, i + head.used, head.result->Ok_0, head.reg);
    }
}

/// A loop refers to names that are known behind it.
proof fn lemma_repetition_named(toks: Seq<Lexeme>, i: int, reg: Registry)
    ensures
        reg.dom().subset_of(repetition(toks, i, reg).reg.dom()),
        repetition(toks, i, reg).result is Ok ==> named(
            repetition(toks, i, reg).result->Ok_0,
            repetition(toks, i, reg).reg,
        ),
    decreases remaining(toks, i), 2nat,
{
    lemma_bodied_named(toks, i, NodeType::WHILE, reg);
}

/// Whatever statement parses refers, in all its expressions and in those of its bodies, to
/// variables that a declaration has named by the end of the statement; and parsing a
/// statement forgets no declared name.
pub proof fn law_statements_refer_to_declared_variables(toks: Seq<Lexeme>, i: int, reg: Registry)
    ensures
        reg.dom().subset_of(statement(toks, i, reg).reg.dom()),
        statement(toks, i, reg).result is Ok ==> named(
            statement(toks, i, reg).result->Ok_0,
            statement(toks, i, reg).reg,
        ),
    decreases remaining(toks, i), 3nat,
{
    let kind = tok(toks, i).kind;
    if kind == TokenType::WHILE {
        lemma_repetition_named(toks, i, reg);
    } else if kind == TokenType::IF {
        lemma_conditional_named(toks, i, reg);
    } else if kind == TokenType::VAR {
        if tok(toks, i + 1).kind == TokenType::COLON {
            let name = tok(toks, i).text;
            let ty = if tok(toks, i + 2).kind == TokenType::TYPESTRING {
                BaseType::STRING
            } else {
                BaseType::NUMBER
            };
            lemma_expr_named(toks, i + 4, reg.insert(name, ty));
        } else if tok(toks, i + 1).kind == TokenType::ASSIGN {
            lemma_expr_named(toks, i + 2, reg);
        }
    } else if kind == TokenType::PUT {
        lemma_expr_named(toks, i + 1, reg);
    }
}

} // verus!
