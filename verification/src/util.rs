//! Shared vocabulary: the stream interface and the kinds of tokens, nodes and values.
use vstd::prelude::*;

verus! {

/// Where a stream stood when a failure was reported, with the message given.
pub struct Diagnostic {
    pub message: String,
    pub row: usize,
    pub col: usize,
}

/// A pull-driven sequence with one item of lookahead.
pub trait Stream<T> {
    /// What every operation needs of the stream and keeps.
    spec fn wf(&self) -> bool;

    /// The item that `current` returns.
    spec fn spec_current(&self) -> T;

    /// The item that `peek` returns.
    spec fn spec_peek(&self) -> T;

    /// Makes the upcoming item current and returns it.
    fn next(&mut self) -> (r: T)
        requires
            old(self).wf(),
        ensures
            final(self).wf(),
            final(self).spec_current() == old(self).spec_peek(),
            r == old(self).spec_peek(),
    ;

    /// The upcoming item, which stays where it is.
    fn peek(&self) -> (r: T)
        requires
            self.wf(),
        ensures
            r == self.spec_peek(),
    ;

    /// The item that the last `next` returned.
    fn current(&self) -> (r: T)
        requires
            self.wf(),
        ensures
            r == self.spec_current(),
    ;

    /// Rewinds to the start.
    fn reset(&mut self)
        requires
            old(self).wf(),
        ensures
            final(self).wf(),
    ;

    /// Whether the underlying text is used up.
    fn eof(&self) -> (r: bool)
        requires
            self.wf(),
    ;

    /// The message together with the row and column reached in the text.
    fn err(&self, msg: &str) -> (r: Diagnostic)
        requires
            self.wf(),
        ensures
            r.message@ == msg@,
    ;
}

/// The kinds of syntax tree node.
#[derive(Debug, PartialEq, Eq, Structural)]
pub enum NodeType {
    PUT,
    DECLARE,
    CHANGE,
    IF,
    WHILE,
    EXPRESSION,
    VAL,
    EOF,
    EOL,
}

impl NodeType {
    /// Whether this is the end-of-input marker.
    pub fn is_eof(&self) -> (r: bool)
        ensures
            r == (*self == NodeType::EOF),
    {
        match self {
            NodeType::EOF => true,
            _ => false,
        }
    }
}

impl NodeType {
    /// Whether this is the end-of-statement marker.
    pub fn is_eol(&self) -> (r: bool)
        ensures
            r == (*self == NodeType::EOL),
    {
        match self {
            NodeType::EOL => true,
            _ => false,
        }
    }
}

impl Clone for NodeType {
    fn clone(&self) -> (r: NodeType)
        ensures
            r == *self,
    {
        match self {
            NodeType::EOL => NodeType::EOL,
            NodeType::VAL => NodeType::VAL,
            NodeType::PUT => NodeType::PUT,
            NodeType::EXPRESSION => NodeType::EXPRESSION,
            NodeType::DECLARE => NodeType::DECLARE,
            NodeType::CHANGE => NodeType::CHANGE,
            NodeType::IF => NodeType::IF,
            NodeType::WHILE => NodeType::WHILE,
            NodeType::EOF => NodeType::EOF,
        }
    }
}

impl Copy for NodeType {}

/// The types a value can have; `VOID` stands for a type that was never set.
#[derive(Debug, PartialEq, Eq, Structural)]
pub enum BaseType {
    NUMBER,
    STRING,
    VOID,
}

impl Clone for BaseType {
    fn clone(&self) -> (r: BaseType)
        ensures
            r == *self,
    {
        match self {
            BaseType::NUMBER => BaseType::NUMBER,
            BaseType::STRING => BaseType::STRING,
            BaseType::VOID => BaseType::VOID,
        }
    }
}

impl Copy for BaseType {}

/// The kinds of token.
#[derive(Debug, PartialEq, Eq, Structural)]
pub enum TokenType {
    ASSIGN,
    COMMA,
    VAR,
    NUMBER,
    STRING,
    TYPENUMBER,
    TYPESTRING,
    WHILE,
    EQUAL,
    ADD,
    SUB,
    MUL,
    DIV,
    MOD,
    AND,
    OR,
    NOT,
    GREATER,
    LESS,
    GOE,
    LOE,
    CAT,
    BEGIN,
    END,
    LBRAC,
    RBRAC,
    IF,
    ELSE,
    PUT,
    COLON,
    EOF,
    CALL,
    FUNCTION,
    RET,
    SEMICOLON,
    POW,
    /// A `&` that no second `&` follows. It is a token, and no operator.
    AMPERSAND,
}

impl TokenType {
    /// Whether this is the operator that joins two texts.
    pub open spec fn cat(self) -> bool {
        self == TokenType::CAT
    }

    /// Whether this is an operator on numbers.
    pub open spec fn num_op(self) -> bool {
        ||| self == TokenType::GOE
        ||| self == TokenType::LOE
        ||| self == TokenType::EQUAL
        ||| self == TokenType::ADD
        ||| self == TokenType::SUB
        ||| self == TokenType::MOD
        ||| self == TokenType::MUL
        ||| self == TokenType::DIV
        ||| self == TokenType::GREATER
        ||| self == TokenType::LESS
        ||| self == TokenType::AND
        ||| self == TokenType::OR
        ||| self == TokenType::NOT
        ||| self == TokenType::POW
    }

    /// Whether this is the operator that joins two texts.
    pub fn is_cat(&self) -> (r: bool)
        ensures
            r == self.cat(),
    {
        match self {
            TokenType::CAT => true,
            _ => false,
        }
    }

    /// Whether this is an operator on numbers: a comparison, an arithmetic or a logical
    /// operator.
    pub fn is_num_op(&self) -> (r: bool)
        ensures
            r == self.num_op(),
    {
        match self {
            TokenType::GOE => true,
            TokenType::LOE => true,
            TokenType::EQUAL => true,
            TokenType::ADD => true,
            TokenType::SUB => true,
            TokenType::MOD => true,
            TokenType::MUL => true,
            TokenType::DIV => true,
            TokenType::GREATER => true,
            TokenType::LESS => true,
            TokenType::AND => true,
            TokenType::OR => true,
            TokenType::NOT => true,
            TokenType::POW => true,
            _ => false,
        }
    }
}

impl Clone for TokenType {
    fn clone(&self) -> (r: TokenType)
        ensures
            r == *self,
    {
        match self {
            TokenType::POW => TokenType::POW,
            TokenType::GOE => TokenType::GOE,
            TokenType::LOE => TokenType::LOE,
            TokenType::SEMICOLON => TokenType::SEMICOLON,
            TokenType::CALL => TokenType::CALL,
            TokenType::ASSIGN => TokenType::ASSIGN,
            TokenType::VAR => TokenType::VAR,
            TokenType::NUMBER => TokenType::NUMBER,
            TokenType::STRING => TokenType::STRING,
            TokenType::TYPENUMBER => TokenType::TYPENUMBER,
            TokenType::TYPESTRING => TokenType::TYPESTRING,
            TokenType::WHILE => TokenType::WHILE,
            TokenType::EQUAL => TokenType::EQUAL,
            TokenType::ADD => TokenType::ADD,
            TokenType::SUB => TokenType::SUB,
            TokenType::MUL => TokenType::MUL,
            TokenType::DIV => TokenType::DIV,
            TokenType::MOD => TokenType::MOD,
            TokenType::AND => TokenType::AND,
            TokenType::OR => TokenType::OR,
            TokenType::NOT => TokenType::NOT,
            TokenType::GREATER => TokenType::GREATER,
            TokenType::LESS => TokenType::LESS,
            TokenType::CAT => TokenType::CAT,
            TokenType::BEGIN => TokenType::BEGIN,
            TokenType::END => TokenType::END,
            TokenType::LBRAC => TokenType::LBRAC,
            TokenType::RBRAC => TokenType::RBRAC,
            TokenType::IF => TokenType::IF,
            TokenType::ELSE => TokenType::ELSE,
            TokenType::EOF => TokenType::EOF,
            TokenType::PUT => TokenType::PUT,
            TokenType::COLON => TokenType::COLON,
            TokenType::FUNCTION => TokenType::FUNCTION,
            TokenType::RET => TokenType::RET,
            TokenType::COMMA => TokenType::COMMA,
            TokenType::AMPERSAND => TokenType::AMPERSAND,
        }
    }
}

impl Copy for TokenType {}

} // verus!
