//! The grammar: what the tokens of a program are as a syntax tree.
//!
//! Every statement ends with `;`. A declaration, a reassignment and an output leave
//! their `;` to be read as a statement of its own, the end-of-statement node; so does a
//! conditional with `ELSE`. A conditional without `ELSE` and a loop take their `;` with
//! them.
use vstd::prelude::*;
use crate::ast_stream::Tree;
use crate::token_stream::{end_marker, Lexeme};
use crate::util::{BaseType, NodeType, TokenType};

verus! {

/// A tree of the given kind and name without children, type or text, and with the
/// number zero.
pub open spec fn leaf(kind: NodeType, name: Seq<char>) -> Tree {
    Tree {
        kind,
        name,
        ty: BaseType::VOID,
        text: Seq::empty(),
        number: "0"@,
        left: Seq::empty(),
        right: Seq::empty(),
        extra: Seq::empty(),
    }
}

/// The ways in which the tokens can fail to be a program.
#[derive(Debug, Clone, Copy, PartialEq, Eq, Structural)]
pub enum ParseFault {
    /// An expression begins with a token that no expression begins with.
    IllegalExpression,
    /// An identifier is used that no declaration has named.
    UnknownVariable,
    /// A parenthesis is not closed where its expression ends.
    MissingClose,
    /// A declaration names neither `NUMBER` nor `STRING` as its type.
    TypeExpected,
    /// A declaration has no `=` behind its type.
    MissingAssign,
    /// An identifier at the start of a statement is followed by neither `:` nor `=`.
    BadAfterVariable,
    /// A statement begins with a token that no statement begins with.
    BadStatementStart,
    /// The body of a conditional or of a loop does not begin with `{`.
    MissingOpen,
    /// The tokens end, or one that is no token of the language stands, inside a body.
    UnclosedBlock,
    /// A statement is not closed by `;`, or the first body of a conditional is followed
    /// by neither `ELSE` nor `;`.
    MissingTerminator,
}

/// The declared types by name.
pub type Registry = Map<Seq<char>, BaseType>;

/// The token at index `i`; outside of the tokens stands the end marker.
pub open spec fn tok(toks: Seq<Lexeme>, i: int) -> Lexeme {
    if 0 <= i < toks.len() {
        toks[i]
    } else {
        end_marker()
    }
}

/// The number of tokens from index `i` on.
pub open spec fn remaining(toks: Seq<Lexeme>, i: int) -> nat {
    if i < toks.len() {
        (toks.len() - i) as nat
    } else {
        0
    }
}

/// A string literal.
pub open spec fn text_literal(text: Seq<char>) -> Tree {
    Tree { ty: BaseType::STRING, text, ..leaf(NodeType::VAL, Seq::empty()) }
}

/// A number literal.
pub open spec fn number_literal(text: Seq<char>) -> Tree {
    Tree { ty: BaseType::NUMBER, number: text, ..leaf(NodeType::VAL, Seq::empty()) }
}

/// A reference to the variable `name` of type `ty`.
pub open spec fn variable(name: Seq<char>, ty: BaseType) -> Tree {
    Tree { ty, ..leaf(NodeType::VAL, name) }
}

/// The operator `op` between two operands.
pub open spec fn binary(ty: BaseType, op: Seq<char>, lhs: Tree, rhs: Tree) -> Tree {
    Tree { ty, text: op, left: seq![lhs], right: seq![rhs], ..leaf(NodeType::EXPRESSION, Seq::empty()) }
}

/// The operator `op` before its one operand.
pub open spec fn unary(op: Seq<char>, rhs: Tree) -> Tree {
    Tree { ty: BaseType::NUMBER, text: op, right: seq![rhs], ..leaf(NodeType::EXPRESSION, Seq::empty()) }
}

/// What parsing an expression yields: the tree or the fault, and the number of tokens that
/// were passed on the way.
pub struct Found {
    pub result: Result<Tree, ParseFault>,
    pub used: nat,
}

/// An operand and an operator, which took `skip` tokens, before the parsed `rest`.
pub open spec fn join(ty: BaseType, op: Seq<char>, lhs: Tree, skip: nat, rest: Found) -> Found {
    match rest.result {
        Ok(rhs) => Found { result: Ok(binary(ty, op, lhs, rhs)), used: skip + rest.used },
        Err(fault) => Found { result: Err(fault), used: skip + rest.used },
    }
}

/// The type of what the operator `op` yields behind a parenthesis.
pub open spec fn yield_of(op: TokenType) -> BaseType {
    if op.num_op() {
        BaseType::NUMBER
    } else {
        BaseType::STRING
    }
}

/// The expression that begins with the token at index `i`.
///
/// One operand is read: a literal, a declared variable or an expression in parentheses.
/// If an operator follows it, all that comes behind the operator is the right operand,
/// so that operators group from the right whatever they are. Behind a string literal
/// only `|` is an operator, behind a number literal only the operators on numbers. `!`
/// takes all that follows it as its one operand.
pub open spec fn expr(toks: Seq<Lexeme>, i: int, reg: Registry) -> Found
    decreases remaining(toks, i),
{
    let cur = tok(toks, i);
    let nxt = tok(toks, i + 1);
    match cur.kind {
        TokenType::STRING => if nxt.kind.cat() {
            join(BaseType::STRING, nxt.text, text_literal(cur.text), 2, expr(toks, i + 2, reg))
        } else {
            Found { result: Ok(text_literal(cur.text)), used: 0 }
        },
        TokenType::NUMBER => if nxt.kind.num_op() {
            join(BaseType::NUMBER, nxt.text, number_literal(cur.text), 2, expr(toks, i + 2, reg))
        } else {
            Found { result: Ok(number_literal(cur.text)), used: 0 }
        },
        TokenType::VAR => if !reg.contains_key(cur.text) {
            Found { result: Err(ParseFault::UnknownVariable), used: 0 }
        } else if nxt.kind.num_op() || nxt.kind.cat() {
            join(reg[cur.text], nxt.text, variable(cur.text, reg[cur.text]), 2, expr(toks, i + 2, reg))
        } else {
            Found { result: Ok(variable(cur.text, reg[cur.text])), used: 0 }
        },
        TokenType::NOT => {
            let rest = expr(toks, i + 1, reg);
            match rest.result {
                Ok(rhs) => Found { result: Ok(unary(cur.text, rhs)), used: 1 + rest.used },
                Err(fault) => Found { result: Err(fault), used: 1 + rest.used },
            }
        },
        TokenType::LBRAC => {
            let inner = expr(toks, i + 1, reg);
            let close = i + inner.used + 2;
            let op = tok(toks, close + 1);
            match inner.result {
                Err(fault) => Found { result: Err(fault), used: 1 + inner.used },
                Ok(tree) => if tok(toks, close).kind != TokenType::RBRAC {
                    Found { result: Err(ParseFault::MissingClose), used: inner.used + 2 }
                } else if op.kind.num_op() || op.kind.cat() {
                    join(yield_of(op.kind), op.text, tree, inner.used + 4, expr(toks, close + 2, reg))
                } else {
                    Found { result: Ok(tree), used: inner.used + 2 }
                },
            }
        },
        _ => Found { result: Err(ParseFault::IllegalExpression), used: 0 },
    }
}

/// What parsing a statement yields: the tree or the fault, the number of tokens that were
/// passed on the way, and the declared types afterwards.
pub struct Parsed {
    pub result: Result<Tree, ParseFault>,
    pub used: nat,
    pub reg: Registry,
}

/// What parsing a body yields: its statements or the fault, the number of tokens that
/// were passed on the way, and the declared types afterwards.
pub struct Body {
    pub result: Result<Seq<Tree>, ParseFault>,
    pub used: nat,
    pub reg: Registry,
}

/// The statement `tree` that ended `used` tokens behind index `i`, if `;` follows it.
pub open spec fn terminated(toks: Seq<Lexeme>, i: int, tree: Tree, used: nat, reg: Registry) -> Parsed {
    if tok(toks, i + used + 1).kind == TokenType::SEMICOLON {
        Parsed { result: Ok(tree), used, reg }
    } else {
        Parsed { result: Err(ParseFault::MissingTerminator), used, reg }
    }
}

/// The declaration `identifier : type = expression` whose identifier stands at index `i`.
/// The type is registered before the expression is parsed.
pub open spec fn declaration(toks: Seq<Lexeme>, i: int, reg: Registry) -> Parsed {
    let name = tok(toks, i).text;
    let ty = if tok(toks, i + 2).kind == TokenType::TYPESTRING {
        BaseType::STRING
    } else {
        BaseType::NUMBER
    };
    let known = reg.insert(name, ty);
    let value = expr(toks, i + 4, known);
    if tok(toks, i + 2).kind != TokenType::TYPESTRING && tok(toks, i + 2).kind != TokenType::TYPENUMBER {
        Parsed { result: Err(ParseFault::TypeExpected), used: 2, reg }
    } else if tok(toks, i + 3).kind != TokenType::ASSIGN {
        Parsed { result: Err(ParseFault::MissingAssign), used: 3, reg: known }
    } else {
        match value.result {
            Err(fault) => Parsed { result: Err(fault), used: 4 + value.used, reg: known },
            Ok(tree) => terminated(
                toks,
                i,
                Tree { ty, left: seq![tree], ..leaf(NodeType::DECLARE, name) },
                4 + value.used,
                known,
            ),
        }
    }
}

/// The reassignment `identifier = expression` whose identifier stands at index `i`.
pub open spec fn assignment(toks: Seq<Lexeme>, i: int, reg: Registry) -> Parsed {
    let value = expr(toks, i + 2, reg);
    match value.result {
        Err(fault) => Parsed { result: Err(fault), used: 2 + value.used, reg },
        Ok(tree) => terminated(
            toks,
            i,
            Tree { left: seq![tree], ..leaf(NodeType::CHANGE, tok(toks, i).text) },
            2 + value.used,
            reg,
        ),
    }
}

/// The output `PUT expression` whose keyword stands at index `i`.
pub open spec fn output(toks: Seq<Lexeme>, i: int, reg: Registry) -> Parsed {
    let value = expr(toks, i + 1, reg);
    match value.result {
        Err(fault) => Parsed { result: Err(fault), used: 1 + value.used, reg },
        Ok(tree) => terminated(
            toks,
            i,
            Tree { left: seq![tree], ..leaf(NodeType::PUT, Seq::empty()) },
            1 + value.used,
            reg,
        ),
    }
}

/// The statements of a body, from behind the token at index `i` up to the `}` that closes
/// it, which is left upcoming. Every `;` among them is a statement of its own.
pub open spec fn block(toks: Seq<Lexeme>, i: int, reg: Registry) -> Body
    decreases remaining(toks, i), 0nat,
{
    let first = tok(toks, i + 1);
    if first.kind == TokenType::END {
        Body { result: Ok(Seq::empty()), used: 0, reg }
    } else if first.kind == TokenType::EOF {
        Body { result: Err(ParseFault::UnclosedBlock), used: 0, reg }
    } else {
        let head = statement(toks, i + 1, reg);
        let rest = block(toks, i + 1 + head.used, head.reg);
        match head.result {
            Err(fault) => Body { result: Err(fault), used: 1 + head.used, reg: head.reg },
            Ok(tree) => match rest.result {
                Err(fault) => Body { result: Err(fault), used: 1 + head.used + rest.used, reg: rest.reg },
                Ok(more) => Body {
                    result: Ok(seq![tree] + more),
                    used: 1 + head.used + rest.used,
                    reg: rest.reg,
                },
            },
        }
    }
}

/// The condition and the body of the conditional or loop whose keyword stands at index
/// `i`: an expression, `{`, statements and `}`. The tree is of kind `kind` and keeps the
/// condition and the statements; the token behind the `}` is reached.
pub open spec fn bodied(toks: Seq<Lexeme>, i: int, kind: NodeType, reg: Registry) -> Parsed
    decreases remaining(toks, i), 1nat,
{
    let test = expr(toks, i + 1, reg);
    let open = i + test.used + 2;
    match test.result {
        Err(fault) => Parsed { result: Err(fault), used: 1 + test.used, reg },
        Ok(cond) => if tok(toks, open).kind != TokenType::BEGIN {
            Parsed { result: Err(ParseFault::MissingOpen), used: test.used + 2, reg }
        } else {
            let body = block(toks, open, reg);
            match body.result {
                Err(fault) => Parsed { result: Err(fault), used: test.used + 2 + body.used, reg: body.reg },
                Ok(stmts) => Parsed {
                    result: Ok(Tree { extra: seq![cond], left: stmts, ..leaf(kind, Seq::empty()) }),
                    used: test.used + body.used + 4,
                    reg: body.reg,
                },
            }
        },
    }
}

/// What closes the conditional `base`, whose first body has been parsed, from the token
/// at index `i` on, which stands behind the `}` of that body: a `;`, or `ELSE`, a second
/// body, which becomes the second list of children, and a `;` that is left upcoming.
pub open spec fn alternative(toks: Seq<Lexeme>, i: int, base: Tree, reg: Registry) -> Parsed
    decreases remaining(toks, i), 1nat,
{
    if tok(toks, i).kind == TokenType::SEMICOLON {
        Parsed { result: Ok(base), used: 0, reg }
    } else if tok(toks, i).kind != TokenType::ELSE {
        Parsed { result: Err(ParseFault::MissingTerminator), used: 0, reg }
    } else if tok(toks, i + 1).kind != TokenType::BEGIN {
        Parsed { result: Err(ParseFault::MissingOpen), used: 1, reg }
    } else {
        let other = block(toks, i + 1, reg);
        match other.result {
            Err(fault) => Parsed { result: Err(fault), used: 1 + other.used, reg: other.reg },
            Ok(second) => terminated(toks, i, Tree { right: second, ..base }, other.used + 2, other.reg),
        }
    }
}

/// The conditional whose `IF` stands at index `i`: `IF expression { statements } ;` or
/// `IF expression { statements } ELSE { statements }`, the latter followed by `;`.
pub open spec fn conditional(toks: Seq<Lexeme>, i: int, reg: Registry) -> Parsed
    decreases remaining(toks, i), 2nat,
{
    let head = bodied(toks, i, NodeType::IF, reg);
    if tok(toks, i).kind != TokenType::IF {
        Parsed { result: Err(ParseFault::BadStatementStart), used: 0, reg }
    } else {
        match head.result {
            Err(fault) => head,
            Ok(base) => {
                let rest = alternative(toks, i + head.used, base, head.reg);
                Parsed { result: rest.result, used: head.used + rest.used, reg: rest.reg }
            },
        }
    }
}

/// The loop whose `WHILE` stands at index `i`: `WHILE expression { statements } ;`.
pub open spec fn repetition(toks: Seq<Lexeme>, i: int, reg: Registry) -> Parsed
    decreases remaining(toks, i), 2nat,
{
    let head = bodied(toks, i, NodeType::WHILE, reg);
    if tok(toks, i).kind != TokenType::WHILE {
        Parsed { result: Err(ParseFault::BadStatementStart), used: 0, reg }
    } else if head.result is Ok && tok(toks, i + head.used).kind != TokenType::SEMICOLON {
        Parsed { result: Err(ParseFault::MissingTerminator), used: head.used, reg: head.reg }
    } else {
        head
    }
}

/// The statement that begins with the token at index `i`. The end marker yields the
/// end-of-input node and a `;` the end-of-statement node.
pub open spec fn statement(toks: Seq<Lexeme>, i: int, reg: Registry) -> Parsed
    decreases remaining(toks, i), 3nat,
{
    match tok(toks, i).kind {
        TokenType::EOF => Parsed { result: Ok(leaf(NodeType::EOF, Seq::empty())), used: 0, reg },
        TokenType::SEMICOLON => Parsed { result: Ok(leaf(NodeType::EOL, Seq::empty())), used: 0, reg },
        TokenType::WHILE => repetition(toks, i, reg),
        TokenType::IF => conditional(toks, i, reg),
        TokenType::VAR => if tok(toks, i + 1).kind == TokenType::COLON {
            declaration(toks, i, reg)
        } else if tok(toks, i + 1).kind == TokenType::ASSIGN {
            assignment(toks, i, reg)
        } else {
            Parsed { result: Err(ParseFault::BadAfterVariable), used: 0, reg }
        },
        TokenType::PUT => output(toks, i, reg),
        _ => Parsed { result: Err(ParseFault::BadStatementStart), used: 0, reg },
    }
}

/// The literal that the token at index `i` is: a string literal, or else a number
/// literal.
pub open spec fn literal(toks: Seq<Lexeme>, i: int) -> Tree {
    let cur = tok(toks, i);
    if cur.kind == TokenType::STRING {
        text_literal(cur.text)
    } else {
        number_literal(cur.text)
    }
}

/// The statements `done`, which took `used` tokens, before the parsed `rest` of a body.
pub open spec fn extend(done: Seq<Tree>, used: nat, rest: Body) -> Body {
    match rest.result {
        Ok(more) => Body { result: Ok(done + more), used: used + rest.used, reg: rest.reg },
        Err(fault) => Body { result: Err(fault), used: used + rest.used, reg: rest.reg },
    }
}

} // verus!
