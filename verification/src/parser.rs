//! The evaluator: it runs the statements of the parser against two flat stores, one of
//! numbers and one of texts.
use vstd::prelude::*;
use vstd::string::*;
use crate::ast_stream::{clone_nodes, lemma_trees_of, opened, trees_of, ASTStream, Node, ParseError, Tree};
use crate::number::{compare, from_bool, is_zero, ArithOp, Comparison};
use crate::semantics::{
    num_value, operands, operator_of, runs, steps, text_value, unit_ready, Effect, Event, Operator, Outcome,
    outcome_from, unit_of, RunError, RunFault, Shown, State, Value,
};
use crate::table::Table;
use crate::util::{BaseType, NodeType};

verus! {

fn spells(text: &String, word: &str) -> (r: bool)
    ensures
        r == (text@ == word@),
{
    *text == String::from_str(word)
}

fn operator(text: &String) -> (r: Option<Operator>)
    ensures
        r == operator_of(text@),
{
    if spells(text, "+") {
        Some(Operator::Arith(ArithOp::Add))
    } else if spells(text, "-") {
        Some(Operator::Arith(ArithOp::Sub))
    } else if spells(text, "*") {
        Some(Operator::Arith(ArithOp::Mul))
    } else if spells(text, "/") {
        Some(Operator::Arith(ArithOp::Div))
    } else if spells(text, "%") {
        Some(Operator::Arith(ArithOp::Rem))
    } else if spells(text, "^") {
        Some(Operator::Arith(ArithOp::Pow))
    } else if spells(text, ">") {
        Some(Operator::Compare(Comparison::Greater))
    } else if spells(text, "<") {
        Some(Operator::Compare(Comparison::Less))
    } else if spells(text, "<=") {
        Some(Operator::Compare(Comparison::AtMost))
    } else if spells(text, ">=") {
        Some(Operator::Compare(Comparison::AtLeast))
    } else if spells(text, "==") {
        Some(Operator::Compare(Comparison::Equal))
    } else if spells(text, "!=") {
        Some(Operator::Compare(Comparison::Unequal))
    } else if spells(text, "&&") {
        Some(Operator::And)
    } else if spells(text, "||") {
        Some(Operator::Or)
    } else if spells(text, "!") {
        Some(Operator::Not)
    } else {
        None
    }
}

/// What an output statement hands to its caller: a number, which the numeric unit knows
/// how to print, or a text, which is printed as it is.
#[derive(Debug)]
pub enum Output {
    Number(u64),
    Text(String),
}

impl View for Output {
    type V = Shown;

    open spec fn view(&self) -> Shown {
        match self {
            Output::Number(bits) => Shown::Number(*bits),
            Output::Text(text) => Shown::Text(text@),
        }
    }
}

/// The effect that `r` reports.
pub open spec fn effect_of(r: Result<Option<Output>, RunFault>) -> Effect {
    match r {
        Ok(Some(output)) => Ok(Some(output@)),
        Ok(None) => Ok(None),
        Err(fault) => Err(fault),
    }
}

/// What one step of a run yields.
#[derive(Debug)]
pub enum Progress {
    /// An output statement ran: this is to be printed, on a line of its own.
    Put(Output),
    /// A statement ran that prints nothing.
    Went,
    /// No statement is left.
    Done,
}

impl View for Progress {
    type V = Event;

    open spec fn view(&self) -> Event {
        match self {
            Progress::Put(output) => Event::Put(output@),
            Progress::Went => Event::Went,
            Progress::Done => Event::Done,
        }
    }
}

/// The outcome that `r` reports.
pub open spec fn outcome_of(r: Result<Progress, RunError>) -> Outcome {
    match r {
        Ok(progress) => Ok(progress@),
        Err(e) => Err(e),
    }
}

/// The evaluator of a program.
pub struct Parser {
    in_stream: ASTStream,
    num_var: Table<u64>,
    str_var: Table<String>,
    agenda: Vec<Node>,
}

impl Parser {
    /// The stored numbers by name.
    pub closed spec fn nums(&self) -> Map<Seq<char>, u64> {
        self.num_var@
    }

    /// The stored texts by name.
    pub closed spec fn texts(&self) -> Map<Seq<char>, Seq<char>> {
        Map::new(|name: Seq<char>| self.str_var@.contains_key(name), |name: Seq<char>| self.str_var@[name]@)
    }

    /// The statements of entered bodies that are still to run, the next one first.
    pub closed spec fn pending(&self) -> Seq<Tree> {
        Seq::new(self.agenda.len() as nat, |i: int| self.agenda[self.agenda.len() - 1 - i]@)
    }

    /// The parser that the statements of the program are pulled from.
    pub closed spec fn stream(&self) -> ASTStream {
        self.in_stream
    }

    /// What the evaluator holds.
    pub open spec fn state(&self) -> State {
        State { nums: self.nums(), texts: self.texts(), agenda: self.pending() }
    }

    /// The parser and both stores are in order.
    pub closed spec fn wf(&self) -> bool {
        &&& self.in_stream.wf()
        &&& self.num_var.inv()
        &&& self.str_var.inv()
    }

    /// Puts the statements `stmts` before the agenda, the first of them first.
    fn schedule(&mut self, stmts: Vec<Node>)
        requires
            old(self).wf(),
        ensures
            final(self).wf(),
            final(self).stream() == old(self).stream(),
            final(self).nums() == old(self).nums(),
            final(self).texts() == old(self).texts(),
            final(self).pending() == trees_of(stmts@) + old(self).pending(),
    {
        let mut rest = stmts;
        while rest.len() > 0
            invariant
                self.wf(),
                self.stream() == old(self).stream(),
                self.nums() == old(self).nums(),
                self.texts() == old(self).texts(),
                rest.len() <= stmts.len(),
                trees_of(rest@) == trees_of(stmts@).subrange(0, rest.len() as int),
                self.pending() == trees_of(stmts@).subrange(rest.len() as int, stmts.len() as int) + old(
                    self,
                ).pending(),
            decreases rest.len(),
        {
            let ghost before = self.pending();
            let ghost held = rest@;
            let node = rest.pop().unwrap();
            self.agenda.push(node);
            proof {
                let all = trees_of(stmts@);
                let k = rest.len() as int;
                lemma_trees_of(held);
                lemma_trees_of(rest@);
                assert(all.subrange(0, k + 1)[k] == all[k]);
                assert(self.pending() =~= seq![node@] + before);
            }
        }
    }

    /// Stores the number `v` under `name`.
    fn replace_num_var(&mut self, name: &String, v: u64)
        requires
            old(self).wf(),
        ensures
            final(self).wf(),
            final(self).stream() == old(self).stream(),
            final(self).state() == (State { nums: old(self).nums().insert(name@, v), ..old(self).state() }),
    {
        self.num_var.insert(name.clone(), v);
    }

    /// Stores the text `text` under `name`.
    fn replace_str_var(&mut self, name: &String, text: String)
        requires
            old(self).wf(),
        ensures
            final(self).wf(),
            final(self).stream() == old(self).stream(),
            final(self).state() == (State {
                texts: old(self).texts().insert(name@, text@),
                ..old(self).state()
            }),
    {
        self.str_var.insert(name.clone(), text);
        assert(self.texts() =~= old(self).texts().insert(name@, text@));
    }

    /// Evaluates an expression on texts.
    pub fn get_val_str(&self, root: &Node) -> (r: Result<String, RunFault>)
        requires
            self.wf(),
        ensures
            match r {
                Ok(text) => text_value(root@, self.texts()) == Ok::<Seq<char>, RunFault>(text@),
                Err(fault) => text_value(root@, self.texts()) == Err::<Seq<char>, RunFault>(fault),
            },
        decreases root,
    {
        proof {
            lemma_trees_of(root.l_children@);
            lemma_trees_of(root.r_children@);
        }
        match root.node_type {
            NodeType::VAL => {
                if root.identity.as_str().is_empty() {
                    Ok(root.str_val.clone())
                } else {
                    match self.str_var.get(&root.identity) {
                        Some(text) => Ok(text.clone()),
                        None => Err(RunFault::MissingVariable),
                    }
                }
            },
            NodeType::EXPRESSION => {
                if !spells(&root.str_val, "|") {
                    return Err(RunFault::InvalidOperator);
                }
                if root.l_children.len() == 0 {
                    return Err(RunFault::MissingOperand);
                }
                let head = match self.get_val_str(&root.l_children[0]) {
                    Ok(text) => text,
                    Err(fault) => {
                        return Err(fault);
                    },
                };
                if root.r_children.len() == 0 {
                    return Err(RunFault::MissingOperand);
                }
                match self.get_val_str(&root.r_children[0]) {
                    Ok(tail) => Ok(head.concat(tail.as_str())),
                    Err(fault) => Err(fault),
                }
            },
            _ => Err(RunFault::InvalidOperator),
        }
    }

    /// Evaluates an expression on numbers. The numeric unit reads the literals and
    /// computes what the arithmetic operators yield.
    pub fn get_val_num<L: Fn(&str) -> u64, A: Fn(ArithOp, u64, u64) -> u64>(
        &self,
        root: &Node,
        literal: &L,
        apply: &A,
    ) -> (r: Value)
        requires
            self.wf(),
            unit_ready(*literal, *apply),
        ensures
            num_value(root@, self.nums(), unit_of(*literal, *apply), r),
        decreases root,
    {
        proof {
            lemma_trees_of(root.l_children@);
            lemma_trees_of(root.r_children@);
        }
        match root.node_type {
            NodeType::VAL => {
                if root.identity.as_str().is_empty() {
                    let text = root.num_val.as_str();
                    let v = literal(text);
                    Ok(v)
                } else {
                    match self.num_var.get(&root.identity) {
                        Some(v) => Ok(*v),
                        None => Err(RunFault::MissingVariable),
                    }
                }
            },
            NodeType::EXPRESSION => {
                let op = match operator(&root.str_val) {
                    Some(op) => op,
                    None => {
                        return Err(RunFault::InvalidOperator);
                    },
                };
                match op {
                    Operator::Not => {
                        if root.r_children.len() == 0 {
                            return Err(RunFault::MissingOperand);
                        }
                        let x = self.get_val_num(&root.r_children[0], literal, apply);
                        assert(operands(x, x));
                        match x {
                            Ok(a) => Ok(from_bool(is_zero(a))),
                            Err(fault) => Err(fault),
                        }
                    },
                    _ => {
                        if root.l_children.len() == 0 {
                            return Err(RunFault::MissingOperand);
                        }
                        let x = self.get_val_num(&root.l_children[0], literal, apply);
                        let a = match x {
                            Ok(a) => a,
                            Err(fault) => {
                                assert(operands(x, x));
                                return Err(fault);
                            },
                        };
                        match op {
                            Operator::And => if is_zero(a) {
                                assert(operands(x, x));
                                return Ok(from_bool(false));
                            },
                            Operator::Or => if !is_zero(a) {
                                assert(operands(x, x));
                                return Ok(from_bool(true));
                            },
                            _ => {},
                        }
                        if root.r_children.len() == 0 {
                            assert(operands(x, Err(RunFault::MissingOperand)));
                            return Err(RunFault::MissingOperand);
                        }
                        let y = self.get_val_num(&root.r_children[0], literal, apply);
                        assert(operands(x, y));
                        let b = match y {
                            Ok(b) => b,
                            Err(fault) => {
                                return Err(fault);
                            },
                        };
                        match op {
                            Operator::Arith(how) => Ok(apply(how, a, b)),
                            Operator::Compare(how) => Ok(from_bool(compare(how, a, b))),
                            _ => Ok(from_bool(!is_zero(b))),
                        }
                    },
                }
            },
            _ => Err(RunFault::InvalidOperator),
        }
    }

    /// Runs a declaration.
    fn reg_var<L: Fn(&str) -> u64, A: Fn(ArithOp, u64, u64) -> u64>(
        &mut self,
        root: &Node,
        literal: &L,
        apply: &A,
    ) -> (r: Result<Option<Output>, RunFault>)
        requires
            old(self).wf(),
            unit_ready(*literal, *apply),
            root@.kind == NodeType::DECLARE,
        ensures
            final(self).wf(),
            final(self).stream() == old(self).stream(),
            runs(root@, old(self).state(), unit_of(*literal, *apply), final(self).state(), effect_of(r)),
    {
        proof {
            lemma_trees_of(root.l_children@);
        }
        match root.val_type {
            BaseType::VOID => Err(RunFault::VoidType),
            BaseType::NUMBER => {
                if root.l_children.len() == 0 {
                    return Err(RunFault::MissingOperand);
                }
                let x = self.get_val_num(&root.l_children[0], literal, apply);
                assert(operands(x, x));
                match x {
                    Ok(v) => {
                        self.replace_num_var(&root.identity, v);
                        Ok(None)
                    },
                    Err(fault) => Err(fault),
                }
            },
            BaseType::STRING => {
                if root.l_children.len() == 0 {
                    return Err(RunFault::MissingOperand);
                }
                match self.get_val_str(&root.l_children[0]) {
                    Ok(text) => {
                        self.replace_str_var(&root.identity, text);
                        Ok(None)
                    },
                    Err(fault) => Err(fault),
                }
            },
        }
    }

    /// Runs an output.
    fn put<L: Fn(&str) -> u64, A: Fn(ArithOp, u64, u64) -> u64>(
        &self,
        root: &Node,
        literal: &L,
        apply: &A,
    ) -> (r: Result<Option<Output>, RunFault>)
        requires
            self.wf(),
            unit_ready(*literal, *apply),
            root@.kind == NodeType::PUT,
        ensures
            runs(root@, self.state(), unit_of(*literal, *apply), self.state(), effect_of(r)),
    {
        proof {
            lemma_trees_of(root.l_children@);
        }
        if root.l_children.len() == 0 {
            return Err(RunFault::MissingOperand);
        }
        match root.l_children[0].val_type {
            BaseType::VOID => Err(RunFault::VoidType),
            BaseType::NUMBER => {
                let x = self.get_val_num(&root.l_children[0], literal, apply);
                assert(operands(x, x));
                match x {
                    Ok(v) => Ok(Some(Output::Number(v))),
                    Err(fault) => Err(fault),
                }
            },
            BaseType::STRING => {
                match self.get_val_str(&root.l_children[0]) {
                    Ok(text) => Ok(Some(Output::Text(text))),
                    Err(fault) => Err(fault),
                }
            },
        }
    }

    /// Runs a reassignment.
    fn change<L: Fn(&str) -> u64, A: Fn(ArithOp, u64, u64) -> u64>(
        &mut self,
        root: &Node,
        literal: &L,
        apply: &A,
    ) -> (r: Result<Option<Output>, RunFault>)
        requires
            old(self).wf(),
            unit_ready(*literal, *apply),
            root@.kind == NodeType::CHANGE,
        ensures
            final(self).wf(),
            final(self).stream() == old(self).stream(),
            runs(root@, old(self).state(), unit_of(*literal, *apply), final(self).state(), effect_of(r)),
    {
        proof {
            lemma_trees_of(root.l_children@);
        }
        if root.l_children.len() == 0 {
            return Err(RunFault::MissingOperand);
        }
        match root.l_children[0].val_type {
            BaseType::VOID => Err(RunFault::VoidType),
            BaseType::NUMBER => {
                let x = self.get_val_num(&root.l_children[0], literal, apply);
                assert(operands(x, x));
                match x {
                    Ok(v) => {
                        if !self.num_var.contains(&root.identity) {
                            return Err(RunFault::MissingVariable);
                        }
                        self.replace_num_var(&root.identity, v);
                        Ok(None)
                    },
                    Err(fault) => Err(fault),
                }
            },
            BaseType::STRING => {
                match self.get_val_str(&root.l_children[0]) {
                    Ok(text) => {
                        if !self.str_var.contains(&root.identity) {
                            return Err(RunFault::MissingVariable);
                        }
                        self.replace_str_var(&root.identity, text);
                        Ok(None)
                    },
                    Err(fault) => Err(fault),
                }
            },
        }
    }

    /// Runs a conditional: one of its bodies is put before the agenda.
    fn branch<L: Fn(&str) -> u64, A: Fn(ArithOp, u64, u64) -> u64>(
        &mut self,
        root: Node,
        literal: &L,
        apply: &A,
    ) -> (r: Result<Option<Output>, RunFault>)
        requires
            old(self).wf(),
            unit_ready(*literal, *apply),
            root@.kind == NodeType::IF,
        ensures
            final(self).wf(),
            final(self).stream() == old(self).stream(),
            runs(root@, old(self).state(), unit_of(*literal, *apply), final(self).state(), effect_of(r)),
    {
        proof {
            lemma_trees_of(root.extra@);
        }
        if root.extra.len() == 0 {
            return Err(RunFault::MissingOperand);
        }
        let x = self.get_val_num(&root.extra[0], literal, apply);
        assert(operands(x, x));
        match x {
            Ok(v) => {
                if is_zero(v) {
                    self.schedule(root.r_children);
                } else {
                    self.schedule(root.l_children);
                }
                Ok(None)
            },
            Err(fault) => Err(fault),
        }
    }

    /// Runs a loop: if its condition holds, its body and, behind it, the loop itself are
    /// put before the agenda.
    fn repeat<L: Fn(&str) -> u64, A: Fn(ArithOp, u64, u64) -> u64>(
        &mut self,
        root: Node,
        literal: &L,
        apply: &A,
    ) -> (r: Result<Option<Output>, RunFault>)
        requires
            old(self).wf(),
            unit_ready(*literal, *apply),
            root@.kind == NodeType::WHILE,
        ensures
            final(self).wf(),
            final(self).stream() == old(self).stream(),
            runs(root@, old(self).state(), unit_of(*literal, *apply), final(self).state(), effect_of(r)),
    {
        proof {
            lemma_trees_of(root.extra@);
        }
        if root.extra.len() == 0 {
            return Err(RunFault::MissingOperand);
        }
        let x = self.get_val_num(&root.extra[0], literal, apply);
        assert(operands(x, x));
        match x {
            Ok(v) => {
                if !is_zero(v) {
                    let ghost before = self.pending();
                    let body = clone_nodes(&root.l_children);
                    let ghost tree = root@;
                    self.agenda.push(root);
                    self.schedule(body);
                    assert(self.pending() =~= tree.left + seq![tree] + before);
                }
                Ok(None)
            },
            Err(fault) => Err(fault),
        }
    }

    /// Runs the statement `n`.
    pub fn run_node<L: Fn(&str) -> u64, A: Fn(ArithOp, u64, u64) -> u64>(
        &mut self,
        n: Node,
        literal: &L,
        apply: &A,
    ) -> (r: Result<Option<Output>, RunFault>)
        requires
            old(self).wf(),
            unit_ready(*literal, *apply),
        ensures
            final(self).wf(),
            final(self).stream() == old(self).stream(),
            runs(n@, old(self).state(), unit_of(*literal, *apply), final(self).state(), effect_of(r)),
    {
        match n.node_type {
            NodeType::DECLARE => self.reg_var(&n, literal, apply),
            NodeType::PUT => self.put(&n, literal, apply),
            NodeType::CHANGE => self.change(&n, literal, apply),
            NodeType::IF => self.branch(n, literal, apply),
            NodeType::WHILE => self.repeat(n, literal, apply),
            _ => Ok(None),
        }
    }

    /// An evaluator of the program whose text is `source`, with both stores empty.
    pub fn open_file(source: &str) -> (r: Result<Parser, ParseError>)
        ensures
            match r {
                Ok(parser) => {
                    &&& parser.wf()
                    &&& opened(source.spec_bytes(), Ok(parser.stream()))
                    &&& parser.state() == (State { nums: Map::empty(), texts: Map::empty(), agenda: Seq::empty() })
                },
                Err(e) => opened(source.spec_bytes(), Err(e)),
            },
    {
        match ASTStream::new(source) {
            Ok(in_stream) => {
                let parser = Parser {
                    in_stream,
                    num_var: Table::new(),
                    str_var: Table::new(),
                    agenda: Vec::new(),
                };
                assert(parser.texts() =~= Map::<Seq<char>, Seq<char>>::empty());
                assert(parser.pending() =~= Seq::<Tree>::empty());
                Ok(parser)
            },
            Err(e) => Err(e),
        }
    }

    /// Carries the run one statement further.
    pub fn run<L: Fn(&str) -> u64, A: Fn(ArithOp, u64, u64) -> u64>(
        &mut self,
        literal: &L,
        apply: &A,
    ) -> (r: Result<Progress, RunError>)
        requires
            old(self).wf(),
            unit_ready(*literal, *apply),
        ensures
            final(self).wf(),
            steps(
                old(self).stream(),
                old(self).state(),
                unit_of(*literal, *apply),
                final(self).stream(),
                final(self).state(),
                outcome_of(r),
            ),
    {
        let ghost pre = self.state();
        let node = if self.agenda.len() > 0 {
            let node = self.agenda.pop().unwrap();
            assert(self.pending() =~= pre.agenda.skip(1));
            node
        } else if self.in_stream.eof() {
            return Ok(Progress::Done);
        } else {
            match self.in_stream.next() {
                Ok(node) => {
                    if node.node_type.is_eol() {
                        return Ok(Progress::Went);
                    }
                    node
                },
                Err(e) => {
                    return Err(RunError::Parse(e));
                },
            }
        };
        let ran = self.run_node(node, literal, apply);
        let ghost effect = effect_of(ran);
        let r = match ran {
            Ok(Some(output)) => Ok(Progress::Put(output)),
            Ok(None) => Ok(Progress::Went),
            Err(fault) => Err(RunError::Run(fault)),
        };
        assert(outcome_of(r) == outcome_from(effect));
        r
    }
}

} // verus!
