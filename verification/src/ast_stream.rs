//! The parser: statements of the syntax tree from the tokens, with one statement of
//! lookahead.
use vstd::prelude::*;
use vstd::string::*;
use crate::grammar::{
    alternative, assignment, binary, block, bodied, conditional, declaration, expr, extend, Found,
    join, leaf, literal, output, Parsed, ParseFault, Registry, remaining, repetition, statement,
    tok,
};
use crate::table::Table;
use crate::text_stream::{col_at, row_at};
use crate::token_stream::{lemma_tokens_of, mark, tokens_of, Lexeme, Token, TokenStream};
use crate::util::{BaseType, Diagnostic, NodeType, Stream, TokenType};

verus! {

/// A node of the syntax tree. What its three lists of children hold depends on its kind:
/// a conditional or a loop keeps its condition in `extra`, its body in `l_children` and
/// what follows `ELSE` in `r_children`; an expression keeps its left operand in
/// `l_children` and its right operand in `r_children`, and its operator in `str_val`;
/// a declaration, a reassignment or an output keeps its expression in `l_children`.
/// A value with an empty `identity` is a literal, whose text stands in `str_val` or, for
/// a number, in `num_val`; any other value refers to the variable of that name.
#[derive(Debug)]
pub struct Node {
    pub node_type: NodeType,
    pub identity: String,
    pub val_type: BaseType,
    pub str_val: String,
    /// The number that the node holds, as the decimal text of its literal.
    pub num_val: String,
    pub l_children: Vec<Node>,
    pub r_children: Vec<Node>,
    pub extra: Vec<Node>,
}

/// A syntax tree as contracts see it.
pub struct Tree {
    pub kind: NodeType,
    pub name: Seq<char>,
    pub ty: BaseType,
    pub text: Seq<char>,
    pub number: Seq<char>,
    pub left: Seq<Tree>,
    pub right: Seq<Tree>,
    pub extra: Seq<Tree>,
}

/// The trees of a list of nodes.
pub open spec fn trees_of(nodes: Seq<Node>) -> Seq<Tree>
    decreases nodes,
{
    Seq::new(
        nodes.len(),
        |i: int|
            if 0 <= i < nodes.len() {
                tree_of(nodes[i])
            } else {
                arbitrary()
            },
    )
}

/// The tree of a node.
pub open spec fn tree_of(node: Node) -> Tree
    decreases node,
{
    Tree {
        kind: node.node_type,
        name: node.identity@,
        ty: node.val_type,
        text: node.str_val@,
        number: node.num_val@,
        left: trees_of(node.l_children@),
        right: trees_of(node.r_children@),
        extra: trees_of(node.extra@),
    }
}

impl View for Node {
    type V = Tree;

    open spec fn view(&self) -> Tree {
        tree_of(*self)
    }
}

/// The trees of `nodes`, one by one.
pub proof fn lemma_trees_of(nodes: Seq<Node>)
    ensures
        trees_of(nodes).len() == nodes.len(),
        forall|i: int| 0 <= i < nodes.len() ==> #[trigger] trees_of(nodes)[i] == nodes[i]@,
{
}

/// Appending a node appends its tree.
pub proof fn lemma_trees_of_push(nodes: Seq<Node>, node: Node)
    ensures
        trees_of(nodes.push(node)) == trees_of(nodes).push(node@),
{
}

/// A copy of every node of `nodes`.
pub fn clone_nodes(nodes: &Vec<Node>) -> (r: Vec<Node>)
    ensures
        trees_of(r@) == trees_of(nodes@),
    decreases nodes,
{
    let mut copy: Vec<Node> = Vec::new();
    let mut i: usize = 0;
    while i < nodes.len()
        invariant
            i <= nodes.len(),
            copy.len() == i,
            forall|j: int| 0 <= j < i ==> copy[j]@ == nodes[j]@,
        decreases nodes.len() - i,
    {
        let child = nodes[i].clone();
        copy.push(child);
        i += 1;
    }
    copy
}

impl Clone for Node {
    /// A copy of the whole tree.
    fn clone(&self) -> (r: Node)
        ensures
            r@ == self@,
        decreases self,
    {
        Node {
            node_type: self.node_type,
            identity: self.identity.clone(),
            val_type: self.val_type,
            str_val: self.str_val.clone(),
            num_val: self.num_val.clone(),
            l_children: clone_nodes(&self.l_children),
            r_children: clone_nodes(&self.r_children),
            extra: clone_nodes(&self.extra),
        }
    }
}

impl Node {
    /// A node of the given kind and name, without children.
    pub fn new(node_type: NodeType, id: String) -> (r: Node)
        ensures
            r@ == leaf(node_type, id@),
    {
        let r = Node {
            node_type,
            identity: id,
            val_type: BaseType::VOID,
            str_val: String::new(),
            num_val: String::from_str("0"),
            l_children: Vec::new(),
            r_children: Vec::new(),
            extra: Vec::new(),
        };
        assert(r@.extra =~= Seq::<Tree>::empty());
        r
    }

    /// The end-of-input marker.
    pub fn new_eof() -> (r: Node)
        ensures
            r@ == leaf(NodeType::EOF, Seq::empty()),
    {
        Node::new(NodeType::EOF, String::new())
    }

    /// Appends `node` to the first list of children.
    pub fn append_l(&mut self, node: Node)
        ensures
            final(self)@ == (Tree { left: old(self)@.left.push(node@), ..old(self)@ }),
    {
        proof {
            lemma_trees_of_push(self.l_children@, node);
        }
        self.l_children.push(node);
    }

    /// Appends `node` to the list that holds a condition.
    pub fn append_e(&mut self, node: Node)
        ensures
            final(self)@ == (Tree { extra: old(self)@.extra.push(node@), ..old(self)@ }),
    {
        proof {
            lemma_trees_of_push(self.extra@, node);
        }
        self.extra.push(node);
    }

    /// Appends `node` to the second list of children.
    pub fn append_r(&mut self, node: Node)
        ensures
            final(self)@ == (Tree { right: old(self)@.right.push(node@), ..old(self)@ }),
    {
        proof {
            lemma_trees_of_push(self.r_children@, node);
        }
        self.r_children.push(node);
    }
}

/// A failure of the parser, with the row and the column that the character cursor had
/// reached when it was found.
#[derive(Debug, Clone, Copy)]
pub struct ParseError {
    pub fault: ParseFault,
    pub row: usize,
    pub col: usize,
}

/// The row and the column that the character cursor has reached when the parser stands
/// at the token of index `i`: the cursor is one token ahead, and behind that token.
pub open spec fn place_of(src: Seq<u8>, i: int) -> (usize, usize) {
    let consumed = mark(src, i + 2);
    (row_at(src, consumed), col_at(src, consumed))
}

/// The tree of the node that `r` holds, or its error.
pub open spec fn tree_or_error(r: Result<Node, ParseError>) -> Result<Tree, ParseError> {
    match r {
        Ok(node) => Ok(node@),
        Err(e) => Err(e),
    }
}

/// What opening the text `src` yields: a parser that stands behind the first statement,
/// which is upcoming, with the end-of-input node as the current one; or the fault of
/// the first statement.
pub open spec fn opened(src: Seq<u8>, r: Result<ASTStream, ParseError>) -> bool {
    let first = statement(tokens_of(src), 0, Map::empty());
    match r {
        Ok(stream) => {
            &&& stream.wf()
            &&& stream.source() == src
            &&& stream.index() == first.used
            &&& stream.registry() == first.reg
            &&& stream.spec_current() == leaf(NodeType::EOF, Seq::empty())
            &&& first.result == Ok::<Tree, ParseFault>(stream.spec_peek())
        },
        Err(e) => {
            &&& first.result == Err::<Tree, ParseFault>(e.fault)
            &&& e.row == place_of(src, first.used as int).0
            &&& e.col == place_of(src, first.used as int).1
        },
    }
}

/// The parser over a source text.
pub struct ASTStream {
    in_stream: TokenStream,
    cur: Node,
    next: Node,
    registered_var: Table<BaseType>,
    idx: Ghost<int>,
}

fn binary_node(ty: BaseType, op: String, lhs: Node, rhs: Node) -> (r: Node)
    ensures
        r@ == binary(ty, op@, lhs@, rhs@),
{
    let mut node = Node::new(NodeType::EXPRESSION, String::new());
    node.val_type = ty;
    node.str_val = op;
    node.append_l(lhs);
    node.append_r(rhs);
    node
}

/// A conditional or a loop with the condition `cond` and the body `body`.
fn bodied_node(kind: NodeType, cond: Node, body: Vec<Node>) -> (r: Node)
    ensures
        r@ == (Tree { extra: seq![cond@], left: trees_of(body@), ..leaf(kind, Seq::empty()) }),
{
    let mut node = Node::new(kind, String::new());
    node.append_e(cond);
    node.l_children = body;
    node
}

/// The conditional `node` with `second` as its second body.
fn with_second(node: Node, second: Vec<Node>) -> (r: Node)
    ensures
        r@ == (Tree { right: trees_of(second@), ..node@ }),
{
    let mut node = node;
    node.r_children = second;
    node
}

impl ASTStream {
    /// The bytes of the text.
    pub closed spec fn source(&self) -> Seq<u8> {
        self.in_stream.source()
    }

    /// The tokens of the text.
    pub open spec fn tokens(&self) -> Seq<Lexeme> {
        tokens_of(self.source())
    }

    /// The index of the token that the parser stands at. It is negative before the first
    /// token has been reached.
    pub closed spec fn index(&self) -> int {
        self.idx@
    }

    /// The types declared so far, by name.
    pub closed spec fn registry(&self) -> Registry {
        self.registered_var@
    }

    /// The statement that `current` returns.
    pub closed spec fn spec_current(&self) -> Tree {
        self.cur@
    }

    /// The statement that `peek` returns.
    pub closed spec fn spec_peek(&self) -> Tree {
        self.next@
    }

    /// The token stream stands at the token of the parser's index.
    #[verifier::opaque]
    pub closed spec fn wf(&self) -> bool {
        &&& self.in_stream.inv()
        &&& self.in_stream.synced(self.idx@)
        &&& self.registered_var.inv()
    }

    /// The row and the column that the character cursor has reached.
    pub open spec fn place(&self) -> (usize, usize) {
        place_of(self.source(), self.index())
    }

    /// The parser went `used` tokens on from where `before` stood, and nothing else of
    /// it changed but, possibly, the declared types.
    pub open spec fn went(&self, before: ASTStream, used: nat) -> bool {
        &&& self.wf()
        &&& self.source() == before.source()
        &&& self.index() == before.index() + used
        &&& self.spec_current() == before.spec_current()
        &&& self.spec_peek() == before.spec_peek()
    }

    /// `r` reports `expected`: the node of that tree, or that fault at the place reached.
    pub open spec fn reports(&self, r: Result<Node, ParseError>, expected: Result<Tree, ParseFault>) -> bool {
        match r {
            Ok(node) => expected == Ok::<Tree, ParseFault>(node@),
            Err(e) => expected == Err::<Tree, ParseFault>(e.fault) && e.row == self.place().0 && e.col
                == self.place().1,
        }
    }

    /// Goes on to the next token and returns it.
    pub fn step(&mut self) -> (t: Token)
        requires
            old(self).wf(),
        ensures
            final(self).went(*old(self), 1),
            final(self).registry() == old(self).registry(),
            t@ == tok(final(self).tokens(), final(self).index()),
    {
        proof {
            reveal(ASTStream::wf);
            lemma_tokens_of(self.source(), self.idx@ + 1);
        }
        let t = self.in_stream.next();
        self.idx = Ghost(self.idx@ + 1);
        t
    }

    /// The token that the parser stands at.
    pub fn here(&self) -> (t: Token)
        requires
            self.wf(),
        ensures
            t@ == tok(self.tokens(), self.index()),
    {
        proof {
            reveal(ASTStream::wf);
            lemma_tokens_of(self.source(), self.idx@);
        }
        self.in_stream.current()
    }

    /// The token behind the one that the parser stands at.
    pub fn ahead(&self) -> (t: Token)
        requires
            self.wf(),
        ensures
            t@ == tok(self.tokens(), self.index() + 1),
    {
        proof {
            reveal(ASTStream::wf);
            lemma_tokens_of(self.source(), self.idx@ + 1);
        }
        self.in_stream.peek()
    }

    /// The failure `fault` at the place reached.
    fn fail(&self, fault: ParseFault) -> (e: ParseError)
        requires
            self.wf(),
        ensures
            e.fault == fault,
            e.row == self.place().0,
            e.col == self.place().1,
    {
        proof {
            reveal(ASTStream::wf);
        }
        let place = self.in_stream.position();
        ParseError { fault, row: place.0, col: place.1 }
    }

    /// Records the type of a declared variable, in place of an earlier one.
    fn register_var(&mut self, var_type: BaseType, var_name: String)
        requires
            old(self).wf(),
        ensures
            final(self).went(*old(self), 0),
            final(self).registry() == old(self).registry().insert(var_name@, var_type),
    {
        proof {
            reveal(ASTStream::wf);
        }
        self.registered_var.insert(var_name, var_type);
    }

    /// The literal that the current token is.
    fn parse_val(&self) -> (r: Node)
        requires
            self.wf(),
        ensures
            r@ == literal(self.tokens(), self.index()),
    {
        let cur = self.here();
        let mut node = Node::new(NodeType::VAL, String::new());
        match cur.token_type {
            TokenType::STRING => {
                node.val_type = BaseType::STRING;
                node.str_val = cur.value;
            },
            _ => {
                node.val_type = BaseType::NUMBER;
                node.num_val = cur.value;
            },
        }
        node
    }

    /// The parser went on as `found` says, and `r` reports what it found.
    pub open spec fn found(&self, before: ASTStream, r: Result<Node, ParseError>, found: Found) -> bool {
        &&& self.went(before, found.used)
        &&& self.registry() == before.registry()
        &&& self.reports(r, found.result)
    }

    /// Parses an operator and all that follows it as the right operand of `lhs`, which ended
    /// at the current token.
    fn parse_rest(&mut self, ty: BaseType, lhs: Node) -> (r: Result<Node, ParseError>)
        requires
            old(self).wf(),
            old(self).index() < old(self).tokens().len(),
        ensures
            final(self).found(
                *old(self),
                r,
                join(
                    ty,
                    tok(old(self).tokens(), old(self).index() + 1).text,
                    lhs@,
                    2,
                    expr(old(self).tokens(), old(self).index() + 2, old(self).registry()),
                ),
            ),
        decreases remaining(old(self).tokens(), old(self).index()), 0nat,
    {
        let op = self.step();
        self.step();
        match self.parse_expression() {
            Ok(rhs) => Ok(binary_node(ty, op.value, lhs, rhs)),
            Err(e) => Err(e),
        }
    }

    /// Parses what follows the `!` at the current token as its operand.
    fn parse_not(&mut self) -> (r: Result<Node, ParseError>)
        requires
            old(self).wf(),
            tok(old(self).tokens(), old(self).index()).kind == TokenType::NOT,
        ensures
            final(self).found(
                *old(self),
                r,
                expr(old(self).tokens(), old(self).index(), old(self).registry()),
            ),
        decreases remaining(old(self).tokens(), old(self).index()), 1nat,
    {
        let cur = self.here();
        self.step();
        match self.parse_expression() {
            Ok(rhs) => {
                let mut node = Node::new(NodeType::EXPRESSION, String::new());
                node.val_type = BaseType::NUMBER;
                node.str_val = cur.value;
                node.append_r(rhs);
                assert(node@.right =~= seq![rhs@]);
                Ok(node)
            },
            Err(e) => Err(e),
        }
    }

    /// Parses the expression in parentheses that opens at the current token, and the
    /// operator and right operand that may follow it.
    fn parse_group(&mut self) -> (r: Result<Node, ParseError>)
        requires
            old(self).wf(),
            tok(old(self).tokens(), old(self).index()).kind == TokenType::LBRAC,
        ensures
            final(self).found(
                *old(self),
                r,
                expr(old(self).tokens(), old(self).index(), old(self).registry()),
            ),
        decreases remaining(old(self).tokens(), old(self).index()), 1nat,
    {
        self.step();
        let inner = match self.parse_expression() {
            Ok(node) => node,
            Err(e) => {
                return Err(e);
            },
        };
        let close = self.step();
        match close.token_type {
            TokenType::RBRAC => {},
            _ => {
                return Err(self.fail(ParseFault::MissingClose));
            },
        }
        let op = self.ahead();
        if op.token_type.is_num_op() {
            self.parse_rest(BaseType::NUMBER, inner)
        } else if op.token_type.is_cat() {
            self.parse_rest(BaseType::STRING, inner)
        } else {
            Ok(inner)
        }
    }

    /// Parses the reference to a variable at the current token, and the operator and
    /// right operand that may follow it.
    fn parse_var(&mut self) -> (r: Result<Node, ParseError>)
        requires
            old(self).wf(),
            tok(old(self).tokens(), old(self).index()).kind == TokenType::VAR,
        ensures
            final(self).found(
                *old(self),
                r,
                expr(old(self).tokens(), old(self).index(), old(self).registry()),
            ),
        decreases remaining(old(self).tokens(), old(self).index()), 1nat,
    {
        let cur = self.here();
        let nxt = self.ahead();
        proof {
            reveal(ASTStream::wf);
        }
        let ty = match self.registered_var.get(&cur.value) {
            Some(ty) => *ty,
            None => {
                return Err(self.fail(ParseFault::UnknownVariable));
            },
        };
        let mut var = Node::new(NodeType::VAL, cur.value);
        var.val_type = ty;
        if nxt.token_type.is_num_op() || nxt.token_type.is_cat() {
            self.parse_rest(ty, var)
        } else {
            Ok(var)
        }
    }

    /// Parses the expression that begins with the current token, and stops at its last
    /// token.
    pub fn parse_expression(&mut self) -> (r: Result<Node, ParseError>)
        requires
            old(self).wf(),
        ensures
            final(self).found(
                *old(self),
                r,
                expr(old(self).tokens(), old(self).index(), old(self).registry()),
            ),
        decreases remaining(old(self).tokens(), old(self).index()), 2nat,
    {
        let cur = self.here();
        let nxt = self.ahead();
        match cur.token_type {
            TokenType::STRING => {
                let lhs = self.parse_val();
                if nxt.token_type.is_cat() {
                    self.parse_rest(BaseType::STRING, lhs)
                } else {
                    Ok(lhs)
                }
            },
            TokenType::NUMBER => {
                let lhs = self.parse_val();
                if nxt.token_type.is_num_op() {
                    self.parse_rest(BaseType::NUMBER, lhs)
                } else {
                    Ok(lhs)
                }
            },
            TokenType::VAR => self.parse_var(),
            TokenType::NOT => self.parse_not(),
            TokenType::LBRAC => self.parse_group(),
            _ => Err(self.fail(ParseFault::IllegalExpression)),
        }
    }

    /// The parser went on as `parsed` says, and `r` reports what it parsed.
    pub open spec fn parsed(&self, before: ASTStream, r: Result<Node, ParseError>, parsed: Parsed) -> bool {
        &&& self.went(before, parsed.used)
        &&& self.registry() == parsed.reg
        &&& self.reports(r, parsed.result)
    }

    /// Closes the statement `node`, which ended at the current token: `;` must follow.
    fn finish(&self, node: Node) -> (r: Result<Node, ParseError>)
        requires
            self.wf(),
        ensures
            self.reports(
                r,
                if tok(self.tokens(), self.index() + 1).kind == TokenType::SEMICOLON {
                    Ok(node@)
                } else {
                    Err(ParseFault::MissingTerminator)
                },
            ),
    {
        match self.ahead().token_type {
            TokenType::SEMICOLON => Ok(node),
            _ => Err(self.fail(ParseFault::MissingTerminator)),
        }
    }

    /// Parses the declaration whose identifier is the current token.
    pub fn parse_declare(&mut self) -> (r: Result<Node, ParseError>)
        requires
            old(self).wf(),
        ensures
            final(self).parsed(
                *old(self),
                r,
                declaration(old(self).tokens(), old(self).index(), old(self).registry()),
            ),
    {
        let name = self.here().value;
        let mut node = Node::new(NodeType::DECLARE, name.clone());
        self.step();
        let type_token = self.step();
        let ty = match type_token.token_type {
            TokenType::TYPESTRING => BaseType::STRING,
            TokenType::TYPENUMBER => BaseType::NUMBER,
            _ => {
                return Err(self.fail(ParseFault::TypeExpected));
            },
        };
        node.val_type = ty;
        self.register_var(ty, name);
        match self.step().token_type {
            TokenType::ASSIGN => {},
            _ => {
                return Err(self.fail(ParseFault::MissingAssign));
            },
        }
        self.step();
        match self.parse_expression() {
            Ok(value) => {
                node.append_l(value);
                self.finish(node)
            },
            Err(e) => Err(e),
        }
    }

    /// Parses the output whose keyword is the current token.
    pub fn parse_put(&mut self) -> (r: Result<Node, ParseError>)
        requires
            old(self).wf(),
        ensures
            final(self).parsed(
                *old(self),
                r,
                output(old(self).tokens(), old(self).index(), old(self).registry()),
            ),
    {
        let mut node = Node::new(NodeType::PUT, String::new());
        self.step();
        match self.parse_expression() {
            Ok(value) => {
                node.append_l(value);
                self.finish(node)
            },
            Err(e) => Err(e),
        }
    }

    /// Parses the reassignment whose identifier is the current token.
    pub fn parse_change(&mut self) -> (r: Result<Node, ParseError>)
        requires
            old(self).wf(),
        ensures
            final(self).parsed(
                *old(self),
                r,
                assignment(old(self).tokens(), old(self).index(), old(self).registry()),
            ),
    {
        let mut node = Node::new(NodeType::CHANGE, self.here().value);
        self.step();
        self.step();
        match self.parse_expression() {
            Ok(value) => {
                node.append_l(value);
                self.finish(node)
            },
            Err(e) => Err(e),
        }
    }

    /// Parses the statements of a body, from behind the current token up to the `}` that
    /// closes it, which is left upcoming.
    fn parse_block(&mut self) -> (r: Result<Vec<Node>, ParseError>)
        requires
            old(self).wf(),
        ensures
            ({
                let body = block(old(self).tokens(), old(self).index(), old(self).registry());
                &&& final(self).went(*old(self), body.used)
                &&& final(self).registry() == body.reg
                &&& match r {
                    Ok(nodes) => body.result == Ok::<Seq<Tree>, ParseFault>(trees_of(nodes@)) && tok(
                        final(self).tokens(),
                        final(self).index() + 1,
                    ).kind == TokenType::END,
                    Err(e) => body.result == Err::<Seq<Tree>, ParseFault>(e.fault)
                        && e.row == final(self).place().0
                        && e.col == final(self).place().1,
                }
            }),
        decreases remaining(old(self).tokens(), old(self).index()), 0nat,
    {
        let ghost toks = self.tokens();
        let ghost start = self.index();
        let ghost goal = block(toks, start, self.registry());
        let mut nodes: Vec<Node> = Vec::new();
        loop
            invariant
                self.went(*old(self), (self.index() - start) as nat),
                self.index() >= start,
                toks == self.tokens(),
                toks == old(self).tokens(),
                start == old(self).index(),
                goal == block(toks, start, old(self).registry()),
                goal == extend(
                    trees_of(nodes@),
                    (self.index() - start) as nat,
                    block(toks, self.index(), self.registry()),
                ),
            decreases remaining(toks, self.index()),
        {
            let ghost done = trees_of(nodes@);
            match self.ahead().token_type {
                TokenType::END => {
                    return Ok(nodes);
                },
                TokenType::EOF => {
                    return Err(self.fail(ParseFault::UnclosedBlock));
                },
                _ => {
                    match self.parse_next() {
                        Ok(node) => {
                            proof {
                                lemma_trees_of_push(nodes@, node);
                                let rest = block(toks, self.index(), self.registry());
                                match rest.result {
                                    Ok(more) => {
                                        assert(done + (seq![node@] + more) =~= done.push(node@) + more);
                                    },
                                    Err(_) => {},
                                }
                            }
                            nodes.push(node);
                        },
                        Err(e) => {
                            return Err(e);
                        },
                    }
                },
            }
        }
    }

    /// Parses the condition and the body of the conditional or loop whose keyword is the
    /// current token, and stops at the token behind the `}` of the body.
    fn parse_bodied(&mut self, kind: NodeType) -> (r: Result<Node, ParseError>)
        requires
            old(self).wf(),
        ensures
            final(self).parsed(
                *old(self),
                r,
                bodied(old(self).tokens(), old(self).index(), kind, old(self).registry()),
            ),
        decreases remaining(old(self).tokens(), old(self).index()), 1nat,
    {
        self.step();
        let cond = match self.parse_expression() {
            Ok(cond) => cond,
            Err(e) => {
                return Err(e);
            },
        };
        match self.step().token_type {
            TokenType::BEGIN => {},
            _ => {
                return Err(self.fail(ParseFault::MissingOpen));
            },
        }
        let body = match self.parse_block() {
            Ok(body) => body,
            Err(e) => {
                return Err(e);
            },
        };
        self.step();
        self.step();
        Ok(bodied_node(kind, cond, body))
    }

    /// Parses the conditional whose keyword is the current token.
    pub fn parse_if(&mut self) -> (r: Result<Node, ParseError>)
        requires
            old(self).wf(),
        ensures
            final(self).parsed(
                *old(self),
                r,
                conditional(old(self).tokens(), old(self).index(), old(self).registry()),
            ),
        decreases remaining(old(self).tokens(), old(self).index()), 2nat,
    {
        match self.here().token_type {
            TokenType::IF => {},
            _ => {
                return Err(self.fail(ParseFault::BadStatementStart));
            },
        }
        match self.parse_bodied(NodeType::IF) {
            Ok(node) => self.parse_else(node),
            Err(e) => Err(e),
        }
    }

    /// Parses what closes the conditional `node`, whose first body has been parsed, from
    /// the current token on, which stands behind the `}` of that body.
    fn parse_else(&mut self, node: Node) -> (r: Result<Node, ParseError>)
        requires
            old(self).wf(),
        ensures
            final(self).parsed(
                *old(self),
                r,
                alternative(old(self).tokens(), old(self).index(), node@, old(self).registry()),
            ),
        decreases remaining(old(self).tokens(), old(self).index()), 1nat,
    {
        match self.here().token_type {
            TokenType::SEMICOLON => {
                return Ok(node);
            },
            TokenType::ELSE => {},
            _ => {
                return Err(self.fail(ParseFault::MissingTerminator));
            },
        }
        match self.step().token_type {
            TokenType::BEGIN => {},
            _ => {
                return Err(self.fail(ParseFault::MissingOpen));
            },
        }
        let second = match self.parse_block() {
            Ok(second) => second,
            Err(e) => {
                return Err(e);
            },
        };
        self.step();
        self.finish(with_second(node, second))
    }

    /// Parses the loop whose keyword is the current token.
    pub fn parse_while(&mut self) -> (r: Result<Node, ParseError>)
        requires
            old(self).wf(),
        ensures
            final(self).parsed(
                *old(self),
                r,
                repetition(old(self).tokens(), old(self).index(), old(self).registry()),
            ),
        decreases remaining(old(self).tokens(), old(self).index()), 2nat,
    {
        match self.here().token_type {
            TokenType::WHILE => {},
            _ => {
                return Err(self.fail(ParseFault::BadStatementStart));
            },
        }
        match self.parse_bodied(NodeType::WHILE) {
            Ok(node) => match self.here().token_type {
                TokenType::SEMICOLON => Ok(node),
                _ => Err(self.fail(ParseFault::MissingTerminator)),
            },
            Err(e) => Err(e),
        }
    }

    /// Goes on to the next token and parses the statement that begins with it.
    pub fn parse_next(&mut self) -> (r: Result<Node, ParseError>)
        requires
            old(self).wf(),
        ensures
            ({
                let stmt = statement(old(self).tokens(), old(self).index() + 1, old(self).registry());
                &&& final(self).went(*old(self), 1 + stmt.used)
                &&& final(self).registry() == stmt.reg
                &&& final(self).reports(r, stmt.result)
            }),
        decreases remaining(old(self).tokens(), old(self).index() + 1), 3nat,
    {
        let cur_token = self.step();
        match cur_token.token_type {
            TokenType::EOF => Ok(Node::new_eof()),
            TokenType::SEMICOLON => Ok(Node::new(NodeType::EOL, String::new())),
            TokenType::WHILE => self.parse_while(),
            TokenType::IF => self.parse_if(),
            TokenType::VAR => {
                match self.ahead().token_type {
                    TokenType::COLON => self.parse_declare(),
                    TokenType::ASSIGN => self.parse_change(),
                    _ => Err(self.fail(ParseFault::BadAfterVariable)),
                }
            },
            TokenType::PUT => self.parse_put(),
            _ => Err(self.fail(ParseFault::BadStatementStart)),
        }
    }

    /// A parser at the start of `source`, with the first statement upcoming.
    pub fn new(source: &str) -> (r: Result<ASTStream, ParseError>)
        ensures
            opened(source.spec_bytes(), r),
    {
        let mut stream = ASTStream {
            in_stream: TokenStream::new(source),
            cur: Node::new_eof(),
            next: Node::new_eof(),
            registered_var: Table::new(),
            idx: Ghost(-1),
        };
        proof {
            reveal(ASTStream::wf);
        }
        match stream.parse_next() {
            Ok(node) => {
                stream.next = node;
                Ok(stream)
            },
            Err(e) => Err(e),
        }
    }

    /// What `next` makes of the parser `before` and returns: the upcoming statement has
    /// become current and is returned, and the statement after it, parsed from the
    /// tokens, has become upcoming. Where that one fails to parse, its fault is returned
    /// and the end-of-input node has become upcoming.
    pub open spec fn pulled(&self, before: ASTStream, r: Result<Tree, ParseError>) -> bool {
        let stmt = statement(before.tokens(), before.index() + 1, before.registry());
        &&& self.wf()
        &&& self.source() == before.source()
        &&& self.index() == before.index() + 1 + stmt.used
        &&& self.registry() == stmt.reg
        &&& self.spec_current() == before.spec_peek()
        &&& match r {
            Ok(tree) => tree == before.spec_peek() && stmt.result == Ok::<Tree, ParseFault>(self.spec_peek()),
            Err(e) => {
                &&& stmt.result == Err::<Tree, ParseFault>(e.fault)
                &&& e.row == self.place().0
                &&& e.col == self.place().1
                &&& self.spec_peek() == leaf(NodeType::EOF, Seq::empty())
            },
        }
    }

    /// Makes the upcoming statement current and returns it, and parses the statement
    /// after it from the tokens. Where that one fails to parse, its fault is returned
    /// and the end-of-input node becomes upcoming.
    pub fn next(&mut self) -> (r: Result<Node, ParseError>)
        requires
            old(self).wf(),
        ensures
            final(self).pulled(*old(self), tree_or_error(r)),
    {
        self.cur = self.next.clone();
        proof {
            reveal(ASTStream::wf);
        }
        match self.parse_next() {
            Ok(node) => {
                self.next = node;
                Ok(self.cur.clone())
            },
            Err(e) => {
                self.next = Node::new_eof();
                Err(e)
            },
        }
    }

    /// The upcoming statement, which stays where it is.
    pub fn peek(&self) -> (r: Node)
        ensures
            r@ == self.spec_peek(),
    {
        self.next.clone()
    }

    /// The statement that the last `next` returned.
    pub fn current(&self) -> (r: Node)
        ensures
            r@ == self.spec_current(),
    {
        self.cur.clone()
    }

    /// Rewinds the tokens to the start. Both statements of the lookahead become the
    /// end-of-input node: the first statement is upcoming again after one call of
    /// `next`. The declared types stay.
    pub fn reset(&mut self)
        requires
            old(self).wf(),
        ensures
            final(self).wf(),
            final(self).source() == old(self).source(),
            final(self).registry() == old(self).registry(),
            final(self).index() == -1,
            final(self).spec_current() == leaf(NodeType::EOF, Seq::empty()),
            final(self).spec_peek() == leaf(NodeType::EOF, Seq::empty()),
    {
        proof {
            reveal(ASTStream::wf);
        }
        self.in_stream.reset();
        self.idx = Ghost(-2);
        self.cur = Node::new_eof();
        match self.parse_next() {
            Ok(node) => {
                self.next = node;
            },
            Err(_) => {
                self.next = Node::new_eof();
            },
        }
    }

    /// Whether the upcoming statement is the end-of-input node.
    pub fn eof(&self) -> (r: bool)
        ensures
            r == (self.spec_peek().kind == NodeType::EOF),
    {
        self.next.node_type.is_eof()
    }

    /// The message together with the row and column reached in the text.
    pub fn err(&self, msg: &str) -> (r: Diagnostic)
        requires
            self.wf(),
        ensures
            r.message@ == msg@,
            r.row == self.place().0,
            r.col == self.place().1,
    {
        proof {
            reveal(ASTStream::wf);
        }
        self.in_stream.err(msg)
    }
}

} // verus!
