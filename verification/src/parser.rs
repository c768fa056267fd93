//! The parser: from tokens to expression trees, by recursive descent with
//! one token of lookahead.
//!
//! The grammar is
//!
//! ```text
//! program    := expression*
//! expression := '(' call ')' | literal | ')'
//! call       := (keyword | operator) expression*
//! ```
//!
//! where the arguments of a call end at the matching `)` or at the end of
//! the tokens, and a `)` that closes nothing is an expression of its own,
//! a call without a name that does nothing.

use vstd::prelude::*;
use crate::types::{LexerToken, Punctuations, TokenModel, Tokens, Types};

verus! {

/// A node of the expression tree.
#[derive(Debug)]
pub enum Argument {
    Expression(Expression),
    LiteralVariable(LiteralVariable),
}

/// A call: the name of what is called, and the arguments in their order.
#[derive(Debug)]
pub struct Expression {
    pub function: String,
    pub arguments: Vec<Argument>,
}

/// A value: its kind and its text.
#[derive(Debug, Clone)]
pub struct LiteralVariable {
    pub var_type: Types,
    pub value: String,
}

/// A value as contracts speak of it.
pub struct Value {
    pub kind: Types,
    pub text: Seq<char>,
}

/// An expression tree as contracts speak of it.
pub enum Node {
    Call { function: Seq<char>, arguments: Seq<Node> },
    Literal { value: Value },
}

impl View for LiteralVariable {
    type V = Value;

    open spec fn view(&self) -> Value {
        Value { kind: self.var_type, text: self.value@ }
    }
}

impl Argument {
    /// The tree that this node is the root of.
    pub open spec fn model(&self) -> Node
        decreases self,
    {
        match self {
            Argument::Expression(call) => Node::Call {
                function: call.function@,
                arguments: Seq::new(
                    call.arguments@.len(),
                    |i: int|
                        if 0 <= i < call.arguments@.len() {
                            call.arguments@[i].model()
                        } else {
                            Node::noop()
                        },
                ),
            },
            Argument::LiteralVariable(literal) => Node::Literal { value: literal@ },
        }
    }

    /// A copy of the tree.
    pub fn duplicate(&self) -> (copy: Argument)
        ensures
            copy.model() == self.model(),
        decreases self,
    {
        match self {
            Argument::Expression(call) => {
                let arguments = duplicate_all(&call.arguments);
                let copy = Argument::Expression(
                    Expression { function: call.function.clone(), arguments },
                );
                proof {
                    lemma_call_model(copy);
                    lemma_call_model(*self);
                }
                copy
            },
            Argument::LiteralVariable(literal) => Argument::LiteralVariable(
                literal.duplicate(),
            ),
        }
    }
}

impl Clone for Argument {
    fn clone(&self) -> (copy: Self)
        ensures
            copy.model() == self.model(),
    {
        self.duplicate()
    }
}

impl Clone for Expression {
    fn clone(&self) -> (copy: Self)
        ensures
            copy.function@ == self.function@,
            models(copy.arguments@) == models(self.arguments@),
    {
        Expression { function: self.function.clone(), arguments: duplicate_all(&self.arguments) }
    }
}

impl LiteralVariable {
    /// A copy of the value.
    pub fn duplicate(&self) -> (copy: LiteralVariable)
        ensures
            copy@ == self@,
    {
        LiteralVariable { var_type: self.var_type, value: self.value.clone() }
    }
}

/// The trees of a sequence of nodes.
pub open spec fn models(arguments: Seq<Argument>) -> Seq<Node> {
    Seq::new(arguments.len(), |i: int| arguments[i].model())
}

/// The tree of a call is made of the name and of the trees of the
/// arguments.
pub proof fn lemma_call_model(node: Argument)
    ensures
        node matches Argument::Expression(call) ==> node.model() == (Node::Call {
            function: call.function@,
            arguments: models(call.arguments@),
        }),
{
    match node {
        Argument::Expression(call) => {
            assert(node.model()->arguments =~= models(call.arguments@));
        },
        _ => {},
    }
}

/// A copy of each tree, in the same order.
pub fn duplicate_all(arguments: &Vec<Argument>) -> (copies: Vec<Argument>)
    ensures
        models(copies@) == models(arguments@),
    decreases arguments,
{
    let mut copies: Vec<Argument> = Vec::new();
    let mut i: usize = 0;
    while i < arguments.len()
        invariant
            i <= arguments@.len(),
            copies@.len() == i,
            forall|k: int| 0 <= k < i ==> (#[trigger] copies@[k]).model() == arguments@[k].model(),
        decreases arguments@.len() - i,
    {
        copies.push(arguments[i].duplicate());
        i += 1;
    }
    assert(models(copies@) =~= models(arguments@));
    copies
}

impl Node {
    /// The call without a name, which does nothing.
    pub open spec fn noop() -> Node {
        Node::Call { function: Seq::empty(), arguments: Seq::empty() }
    }

    pub open spec fn literal(kind: Types, text: Seq<char>) -> Node {
        Node::Literal { value: Value { kind, text } }
    }
}

/// Why a sequence of tokens is no program. The position is the index of the
/// token that is at fault.
#[derive(Debug, Clone, Copy, PartialEq, Eq, Structural)]
pub enum ParseError {
    /// What follows `(` is neither a keyword nor an operator.
    ExpectedCallable { position: usize },
    /// A keyword or an operator stands where `(` should come before it.
    ExpectedOpenParen { position: usize },
    /// A literal carries no text, or a keyword or an operator carries none
    /// or an empty one, which could name no call.
    MissingText { position: usize },
}

/// What parsing an expression gives.
pub enum Parsed {
    /// The expression, and the position after it.
    Done { node: Node, next: int },
    Failed { error: ParseError },
}

/// What parsing the arguments of a call gives.
pub enum ParsedArguments {
    /// The arguments, and the position after what closed the call.
    Done { arguments: Seq<Node>, next: int },
    Failed { error: ParseError },
}

/// Whether the tokens end at a position: behind the last one, and at an
/// end-of-input token, which nothing passes.
pub open spec fn ended(tokens: Seq<TokenModel>, position: int) -> bool {
    position < 0 || position >= tokens.len() || tokens[position].token is Eof
}

/// Whether a call may start with this token.
pub open spec fn is_callable(token: Tokens) -> bool {
    token is Keyword || token is Operator
}

/// The position after an expression that started at `start`. An expression
/// takes at least one token and none beyond the last, so this is `next`;
/// written so, the definitions below plainly end.
pub open spec fn behind(tokens: Seq<TokenModel>, start: int, next: int) -> int {
    if start < next <= tokens.len() {
        next
    } else {
        start + 1
    }
}

/// The expression that starts at a position where the tokens do not end.
pub open spec fn parse_expression(tokens: Seq<TokenModel>, position: int) -> Parsed
    decreases tokens.len() - position, 0nat,
{
    if ended(tokens, position) {
        Parsed::Failed { error: ParseError::ExpectedCallable { position: position as usize } }
    } else {
        let token = tokens[position];
        match token.token {
            Tokens::Punctuation(Punctuations::LParen) => {
                if ended(tokens, position + 1) || !is_callable(tokens[position + 1].token) {
                    Parsed::Failed {
                        error: ParseError::ExpectedCallable { position: (position + 1) as usize },
                    }
                } else {
                    match tokens[position + 1].value {
                        None => Parsed::Failed {
                            error: ParseError::MissingText { position: (position + 1) as usize },
                        },
                        Some(function) => {
                            if function.len() == 0 {
                                Parsed::Failed {
                                    error: ParseError::MissingText {
                                        position: (position + 1) as usize,
                                    },
                                }
                            } else {
                                match parse_arguments(tokens, position + 2, Seq::empty()) {
                                    ParsedArguments::Done { arguments, next } => Parsed::Done {
                                        node: Node::Call { function, arguments },
                                        next,
                                    },
                                    ParsedArguments::Failed { error } => Parsed::Failed { error },
                                }
                            }
                        },
                    }
                }
            },
            Tokens::Punctuation(Punctuations::RParen) => Parsed::Done {
                node: Node::noop(),
                next: position + 1,
            },
            Tokens::Var(kind) => match token.value {
                None => Parsed::Failed {
                    error: ParseError::MissingText { position: position as usize },
                },
                Some(text) => Parsed::Done { node: Node::literal(kind, text), next: position + 1 },
            },
            _ => Parsed::Failed {
                error: ParseError::ExpectedOpenParen { position: position as usize },
            },
        }
    }
}

/// The arguments of a call from a position on, after the arguments `seen`:
/// expressions up to the `)` that closes the call, which is passed, or up to
/// the end of the tokens.
pub open spec fn parse_arguments(
    tokens: Seq<TokenModel>,
    position: int,
    seen: Seq<Node>,
) -> ParsedArguments
    decreases tokens.len() - position, 1nat,
{
    if ended(tokens, position) {
        ParsedArguments::Done { arguments: seen, next: position }
    } else if tokens[position].token == Tokens::Punctuation(Punctuations::RParen) {
        ParsedArguments::Done { arguments: seen, next: position + 1 }
    } else {
        match parse_expression(tokens, position) {
            Parsed::Done { node, next } => parse_arguments(
                tokens,
                behind(tokens, position, next),
                seen.push(node),
            ),
            Parsed::Failed { error } => ParsedArguments::Failed { error },
        }
    }
}

/// The expressions of a program from a position on, after the expressions
/// `seen`; or the first error.
pub open spec fn parse_program(tokens: Seq<TokenModel>, position: int, seen: Seq<Node>) -> Result<
    Seq<Node>,
    ParseError,
>
    decreases tokens.len() - position,
{
    if ended(tokens, position) {
        Ok(seen)
    } else {
        match parse_expression(tokens, position) {
            Parsed::Done { node, next } => parse_program(
                tokens,
                behind(tokens, position, next),
                seen.push(node),
            ),
            Parsed::Failed { error } => Err(error),
        }
    }
}

/// An expression ends behind its start and within the tokens, and so do the
/// arguments of a call.
pub proof fn lemma_parse_advances(tokens: Seq<TokenModel>, position: int, seen: Seq<Node>)
    requires
        0 <= position,
    ensures
        parse_expression(tokens, position) matches Parsed::Done { next, .. } ==> position < next
            <= tokens.len(),
        parse_arguments(tokens, position, seen) matches ParsedArguments::Done { next, .. }
            ==> position <= next <= tokens.len() || (position > tokens.len() && next == position),
    decreases tokens.len() - position, 2nat,
{
    if !ended(tokens, position) {
        match tokens[position].token {
            Tokens::Punctuation(Punctuations::LParen) => {
                if !ended(tokens, position + 1) && is_callable(tokens[position + 1].token)
                    && tokens[position + 1].value is Some {
                    lemma_parse_advances(tokens, position + 2, Seq::empty());
                }
            },
            _ => {},
        }
        if tokens[position].token != Tokens::Punctuation(Punctuations::RParen) {
            match parse_expression(tokens, position) {
                Parsed::Done { node, next } => {
                    lemma_parse_advances(tokens, next, seen.push(node));
                },
                Parsed::Failed { .. } => {},
            }
        }
    }
}

impl Node {
    /// Whether every call in the tree has a name, but for calls without a
    /// name and without arguments, which do nothing.
    pub open spec fn named(self) -> bool
        decreases self,
    {
        match self {
            Node::Literal { .. } => true,
            Node::Call { function, arguments } => {
                &&& function.len() > 0 || arguments.len() == 0
                &&& forall|i: int| 0 <= i < arguments.len() ==> (#[trigger] arguments[i]).named()
            },
        }
    }
}

/// Whether every call in every tree has a name or does nothing.
pub open spec fn all_named(nodes: Seq<Node>) -> bool {
    forall|i: int| 0 <= i < nodes.len() ==> (#[trigger] nodes[i]).named()
}

/// Every call that the parser finds has a name, but for the call that a
/// stray closing parenthesis makes, which has neither name nor arguments.
pub proof fn law_parsed_calls_are_named(tokens: Seq<TokenModel>, position: int, seen: Seq<Node>)
    requires
        0 <= position,
        all_named(seen),
    ensures
        parse_expression(tokens, position) matches Parsed::Done { node, .. } ==> node.named(),
        parse_arguments(tokens, position, seen) matches ParsedArguments::Done { arguments, .. }
            ==> all_named(arguments),
        parse_program(tokens, position, seen) matches Ok(nodes) ==> all_named(nodes),
    decreases tokens.len() - position, 2nat,
{
    if !ended(tokens, position) {
        lemma_parse_advances(tokens, position, seen);
        match tokens[position].token {
            Tokens::Punctuation(Punctuations::LParen) => {
                if !ended(tokens, position + 1) && is_callable(tokens[position + 1].token)
                    && tokens[position + 1].value is Some {
                    law_parsed_calls_are_named(tokens, position + 2, Seq::empty());
                }
            },
            _ => {},
        }
        match parse_expression(tokens, position) {
            Parsed::Done { node, next } => {
                assert(all_named(seen.push(node)));
                law_parsed_calls_are_named(tokens, next, seen.push(node));
            },
            Parsed::Failed { .. } => {},
        }
    }
}

/// The cursor of a parser over its tokens.
#[derive(Debug, Clone)]
pub struct Parser {
    pub tokens: Vec<LexerToken>,
    pub position: usize,
}

impl Parser {
    /// The tokens as contracts speak of them.
    pub open spec fn stream(&self) -> Seq<TokenModel> {
        crate::types::token_models(self.tokens@)
    }

    /// A parser before the first token.
    pub fn new(tokens: Vec<LexerToken>) -> (parser: Self)
        ensures
            parser.tokens == tokens,
            parser.position == 0,
    {
        Parser { tokens, position: 0 }
    }

    /// What the token under the cursor is; the end-of-input token where the
    /// tokens have ended.
    fn peek_token(&self) -> (token: Tokens)
        ensures
            ended(self.stream(), self.position as int) <==> token is Eof,
            !ended(self.stream(), self.position as int) ==> token
                == self.stream()[self.position as int].token,
    {
        if self.position < self.tokens.len() {
            self.tokens[self.position].token
        } else {
            Tokens::Eof
        }
    }

    /// The text of the token under the cursor, where it has one, and the
    /// cursor moved behind that token.
    fn next_token(&mut self) -> (text: Option<String>)
        requires
            !ended(old(self).stream(), old(self).position as int),
        ensures
            final(self).tokens == old(self).tokens,
            final(self).position == old(self).position + 1,
            match old(self).stream()[old(self).position as int].value {
                Some(payload) => text matches Some(found) && found@ == payload,
                None => text is None,
            },
    {
        assert(self.position < self.tokens.len());
        let text = match &self.tokens[self.position].value {
            Some(payload) => Some(payload.clone()),
            None => None,
        };
        self.position += 1;
        text
    }

    /// The call of `function` whose arguments start under the cursor.
    fn find_args(&mut self, function: String) -> (result: Result<Argument, ParseError>)
        requires
            old(self).position <= old(self).tokens@.len(),
        ensures
            final(self).tokens == old(self).tokens,
            final(self).position <= final(self).tokens@.len(),
            match parse_arguments(old(self).stream(), old(self).position as int, Seq::empty()) {
                ParsedArguments::Done { arguments, next } => result matches Ok(call)
                    && call.model() == (Node::Call { function: function@, arguments })
                    && final(self).position == next,
                ParsedArguments::Failed { error } => result == Err::<Argument, ParseError>(error),
            },
        decreases old(self).tokens@.len() - old(self).position, 1nat,
    {
        let mut arguments: Vec<Argument> = Vec::new();
        assert(models(arguments@) =~= Seq::<Node>::empty());
        loop
            invariant
                self.tokens == old(self).tokens,
                old(self).position <= self.position <= self.tokens@.len(),
                parse_arguments(old(self).stream(), old(self).position as int, Seq::empty())
                    == parse_arguments(self.stream(), self.position as int, models(arguments@)),
            decreases self.tokens@.len() - self.position,
        {
            proof {
                lemma_parse_advances(self.stream(), self.position as int, models(arguments@));
            }
            let ghost seen = models(arguments@);
            match self.peek_token() {
                Tokens::Eof => {
                    let call = Argument::Expression(Expression { function, arguments });
                    proof {
                        lemma_call_model(call);
                    }
                    return Ok(call);
                },
                Tokens::Punctuation(Punctuations::RParen) => {
                    assert(self.position < self.tokens.len());
                    self.position += 1;
                    let call = Argument::Expression(Expression { function, arguments });
                    proof {
                        lemma_call_model(call);
                    }
                    return Ok(call);
                },
                _ => {
                    match self.parse_expression() {
                        Ok(argument) => {
                            arguments.push(argument);
                            assert(models(arguments@) =~= seen.push(argument.model()));
                        },
                        Err(error) => {
                            return Err(error);
                        },
                    }
                },
            }
        }
    }

    /// The expression that starts under the cursor.
    fn parse_expression(&mut self) -> (result: Result<Argument, ParseError>)
        requires
            !ended(old(self).stream(), old(self).position as int),
        ensures
            final(self).tokens == old(self).tokens,
            final(self).position <= final(self).tokens@.len(),
            match parse_expression(old(self).stream(), old(self).position as int) {
                Parsed::Done { node, next } => result matches Ok(found) && found.model() == node
                    && final(self).position == next,
                Parsed::Failed { error } => result == Err::<Argument, ParseError>(error),
            },
        decreases old(self).tokens@.len() - old(self).position, 0nat,
    {
        let start = self.position;
        let token = self.peek_token();
        let text = self.next_token();
        match token {
            Tokens::Punctuation(Punctuations::LParen) => {
                let callee = self.peek_token();
                match callee {
                    Tokens::Keyword(_) | Tokens::Operator(_) => {
                        match self.next_token() {
                            Some(function) => {
                                if function.as_str().is_empty() {
                                    Err(ParseError::MissingText { position: start + 1 })
                                } else {
                                    self.find_args(function)
                                }
                            },
                            None => Err(ParseError::MissingText { position: start + 1 }),
                        }
                    },
                    _ => Err(ParseError::ExpectedCallable { position: start + 1 }),
                }
            },
            Tokens::Punctuation(Punctuations::RParen) => {
                let call = Argument::Expression(
                    Expression { function: String::new(), arguments: Vec::new() },
                );
                proof {
                    lemma_call_model(call);
                    assert(models(Seq::<Argument>::empty()) =~= Seq::<Node>::empty());
                }
                Ok(call)
            },
            Tokens::Var(kind) => {
                match text {
                    Some(value) => Ok(
                        Argument::LiteralVariable(LiteralVariable { var_type: kind, value }),
                    ),
                    None => Err(ParseError::MissingText { position: start }),
                }
            },
            _ => Err(ParseError::ExpectedOpenParen { position: start }),
        }
    }

    /// The expressions of the program from the cursor on, in their order,
    /// or the first error. On success the cursor is at the end of the
    /// tokens, so that parsing again gives no further expression. The
    /// cursor never leaves the tokens.
    pub fn parse(&mut self) -> (result: Result<Vec<Argument>, ParseError>)
        requires
            old(self).position <= old(self).tokens@.len(),
        ensures
            final(self).tokens == old(self).tokens,
            final(self).position <= final(self).tokens@.len(),
            match parse_program(old(self).stream(), old(self).position as int, Seq::empty()) {
                Ok(nodes) => result matches Ok(found) && models(found@) == nodes && ended(
                    final(self).stream(),
                    final(self).position as int,
                ),
                Err(error) => result == Err::<Vec<Argument>, ParseError>(error),
            },
    {
        let mut expressions: Vec<Argument> = Vec::new();
        assert(models(expressions@) =~= Seq::<Node>::empty());
        loop
            invariant
                self.tokens == old(self).tokens,
                self.position <= self.tokens@.len(),
                parse_program(old(self).stream(), old(self).position as int, Seq::empty())
                    == parse_program(self.stream(), self.position as int, models(expressions@)),
            decreases self.tokens@.len() - self.position,
        {
            proof {
                lemma_parse_advances(self.stream(), self.position as int, Seq::empty());
            }
            let ghost seen = models(expressions@);
            match self.peek_token() {
                Tokens::Eof => {
                    return Ok(expressions);
                },
                _ => {
                    match self.parse_expression() {
                        Ok(expression) => {
                            expressions.push(expression);
                            assert(models(expressions@) =~= seen.push(expression.model()));
                        },
                        Err(error) => {
                            return Err(error);
                        },
                    }
                },
            }
        }
    }
}

} // verus!
