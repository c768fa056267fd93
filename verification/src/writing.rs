//! Writing expressions as tokens, and reading them back: every expression
//! tree, and every program, has a sequence of tokens from which the parser
//! gets it again.

use vstd::prelude::*;
use crate::lexer::{literal_token, symbol_token};
use crate::parser::{
    is_callable,
    parse_arguments,
    parse_expression,
    parse_program,
    Node,
    ParseError,
    Parsed,
    ParsedArguments,
};
use crate::types::{Punctuations, TokenModel, Tokens};

verus! {

/// The token of an opening parenthesis.
pub open spec fn open_token() -> TokenModel {
    symbol_token(Tokens::Punctuation(Punctuations::LParen), seq!['('])
}

/// The token of a closing parenthesis.
pub open spec fn close_token() -> TokenModel {
    symbol_token(Tokens::Punctuation(Punctuations::RParen), seq![')'])
}

/// The tokens that an expression is written with: a literal is one token; a
/// call is its name and its arguments between parentheses. `callee` says
/// what kind of token a name is.
pub open spec fn written(node: Node, callee: spec_fn(Seq<char>) -> Tokens) -> Seq<TokenModel>
    decreases node, 0nat,
{
    match node {
        Node::Literal { value } => seq![literal_token(value.kind, value.text)],
        Node::Call { function, arguments } => seq![
            open_token(),
            symbol_token(callee(function), function),
        ] + written_from(arguments, 0, callee) + seq![close_token()],
    }
}

/// The tokens that the expressions from index `from` on are written with,
/// one expression after the other.
pub open spec fn written_from(
    nodes: Seq<Node>,
    from: int,
    callee: spec_fn(Seq<char>) -> Tokens,
) -> Seq<TokenModel>
    decreases nodes, nodes.len() - from,
{
    if from < 0 || from >= nodes.len() {
        Seq::empty()
    } else {
        written(nodes[from], callee) + written_from(nodes, from + 1, callee)
    }
}

/// Whether every call in the tree has a name. The call without a name is
/// not written: it is what a closing parenthesis that closes nothing is
/// read as.
pub open spec fn has_names(node: Node) -> bool
    decreases node,
{
    match node {
        Node::Literal { .. } => true,
        Node::Call { function, arguments } => {
            &&& function.len() > 0
            &&& forall|i: int| 0 <= i < arguments.len() ==> has_names(#[trigger] arguments[i])
        },
    }
}

/// Whether every call in every tree has a name.
pub open spec fn all_have_names(nodes: Seq<Node>) -> bool {
    forall|i: int| 0 <= i < nodes.len() ==> has_names(#[trigger] nodes[i])
}

/// Whether the tokens from `position` on are `piece`.
pub open spec fn stands_at(tokens: Seq<TokenModel>, position: int, piece: Seq<TokenModel>) -> bool {
    &&& 0 <= position
    &&& position + piece.len() <= tokens.len()
    &&& tokens.subrange(position, position + piece.len()) == piece
}

/// What is written is read back: where the tokens of an expression stand
/// among others, the parser finds that expression there and stops behind
/// it.
pub proof fn law_written_expression_parses_back(
    tokens: Seq<TokenModel>,
    position: int,
    node: Node,
    callee: spec_fn(Seq<char>) -> Tokens,
)
    requires
        forall|name: Seq<char>| is_callable(#[trigger] callee(name)),
        has_names(node),
        stands_at(tokens, position, written(node, callee)),
    ensures
        parse_expression(tokens, position) == (Parsed::Done {
            node,
            next: position + written(node, callee).len(),
        }),
    decreases node, 1nat,
{
    let piece = written(node, callee);
    assert forall|k: int| 0 <= k < piece.len() implies tokens[position + k] == piece[k] by {
        assert(tokens.subrange(position, position + piece.len())[k] == piece[k]);
    }
    match node {
        Node::Literal { value } => {
            assert(tokens[position] == piece[0]);
        },
        Node::Call { function, arguments } => {
            let inner = written_from(arguments, 0, callee);
            assert(piece.len() == inner.len() + 3);
            assert(tokens[position] == piece[0]);
            assert(tokens[position + 1] == piece[1]);
            assert(tokens[position + (2 + inner.len())] == piece[2 + inner.len() as int]);
            assert(tokens.subrange(position + 2, position + 2 + inner.len()) =~= inner) by {
                assert forall|k: int| 0 <= k < inner.len() implies tokens[position + 2 + k]
                    == inner[k] by {
                    assert(tokens[position + (2 + k)] == piece[2 + k]);
                }
            }
            lemma_written_arguments_parse_back(
                tokens,
                position + 2,
                arguments,
                0,
                Seq::empty(),
                callee,
            );
            assert(Seq::<Node>::empty() + arguments.skip(0) =~= arguments);
        },
    }
}

/// Where the tokens of some expressions stand before a closing
/// parenthesis, the parser finds those expressions as the further arguments
/// of a call and stops behind the parenthesis.
pub proof fn lemma_written_arguments_parse_back(
    tokens: Seq<TokenModel>,
    position: int,
    nodes: Seq<Node>,
    from: int,
    seen: Seq<Node>,
    callee: spec_fn(Seq<char>) -> Tokens,
)
    requires
        forall|name: Seq<char>| is_callable(#[trigger] callee(name)),
        all_have_names(nodes),
        0 <= from <= nodes.len(),
        stands_at(tokens, position, written_from(nodes, from, callee)),
        position + written_from(nodes, from, callee).len() < tokens.len(),
        tokens[position + written_from(nodes, from, callee).len()].token == Tokens::Punctuation(
            Punctuations::RParen,
        ),
    ensures
        parse_arguments(tokens, position, seen) == (ParsedArguments::Done {
            arguments: seen + nodes.skip(from),
            next: position + written_from(nodes, from, callee).len() + 1,
        }),
    decreases nodes, nodes.len() - from,
{
    let rest = written_from(nodes, from, callee);
    if from >= nodes.len() {
        assert(seen + nodes.skip(from) =~= seen);
    } else {
        let first = written(nodes[from], callee);
        let others = written_from(nodes, from + 1, callee);
        assert(rest == first + others);
        assert(first.len() > 0);
        assert forall|k: int| 0 <= k < rest.len() implies tokens[position + k] == rest[k] by {
            assert(tokens.subrange(position, position + rest.len())[k] == rest[k]);
        }
        assert(tokens[position] == first[0]) by {
            assert(rest[0] == first[0]);
        }
        assert(tokens.subrange(position, position + first.len()) =~= first) by {
            assert forall|k: int| 0 <= k < first.len() implies tokens[position + k]
                == first[k] by {
                assert(rest[k] == first[k]);
            }
        }
        assert(tokens.subrange(position + first.len(), position + first.len() + others.len())
            =~= others) by {
            assert forall|k: int| 0 <= k < others.len() implies tokens[position + first.len() + k]
                == others[k] by {
                assert(rest[first.len() as int + k] == others[k]);
                assert(tokens[position + (first.len() as int + k)] == rest[first.len() as int + k]);
            }
        }
        law_written_expression_parses_back(tokens, position, nodes[from], callee);
        lemma_written_arguments_parse_back(
            tokens,
            position + first.len(),
            nodes,
            from + 1,
            seen.push(nodes[from]),
            callee,
        );
        assert(seen.push(nodes[from]) + nodes.skip(from + 1) =~= seen + nodes.skip(from));
    }
}

/// A whole program is read back too: the tokens that some expressions are
/// written with, one after the other and nothing else, parse to those
/// expressions.
pub proof fn law_written_program_parses_back(
    nodes: Seq<Node>,
    callee: spec_fn(Seq<char>) -> Tokens,
)
    requires
        forall|name: Seq<char>| is_callable(#[trigger] callee(name)),
        all_have_names(nodes),
    ensures
        parse_program(written_from(nodes, 0, callee), 0, Seq::empty()) == Ok::<
            Seq<Node>,
            ParseError,
        >(nodes),
{
    let tokens = written_from(nodes, 0, callee);
    assert(tokens.subrange(0, tokens.len() as int) =~= tokens);
    lemma_written_program_parses_back(tokens, 0, nodes, 0, Seq::empty(), callee);
    assert(Seq::<Node>::empty() + nodes.skip(0) =~= nodes);
}

/// Where the tokens of some expressions stand at the end of the tokens, the
/// parser finds those expressions as the further expressions of the
/// program.
pub proof fn lemma_written_program_parses_back(
    tokens: Seq<TokenModel>,
    position: int,
    nodes: Seq<Node>,
    from: int,
    seen: Seq<Node>,
    callee: spec_fn(Seq<char>) -> Tokens,
)
    requires
        forall|name: Seq<char>| is_callable(#[trigger] callee(name)),
        all_have_names(nodes),
        0 <= from <= nodes.len(),
        stands_at(tokens, position, written_from(nodes, from, callee)),
        position + written_from(nodes, from, callee).len() == tokens.len(),
    ensures
        parse_program(tokens, position, seen) == Ok::<Seq<Node>, ParseError>(
            seen + nodes.skip(from),
        ),
    decreases nodes.len() - from,
{
    let rest = written_from(nodes, from, callee);
    if from >= nodes.len() {
        assert(seen + nodes.skip(from) =~= seen);
    } else {
        let first = written(nodes[from], callee);
        let others = written_from(nodes, from + 1, callee);
        assert(rest == first + others);
        assert(first.len() > 0);
        assert forall|k: int| 0 <= k < rest.len() implies tokens[position + k] == rest[k] by {
            assert(tokens.subrange(position, position + rest.len())[k] == rest[k]);
        }
        assert(tokens[position] == first[0]) by {
            assert(rest[0] == first[0]);
        }
        assert(tokens.subrange(position, position + first.len()) =~= first) by {
            assert forall|k: int| 0 <= k < first.len() implies tokens[position + k]
                == first[k] by {
                assert(rest[k] == first[k]);
            }
        }
        assert(tokens.subrange(position + first.len(), position + first.len() + others.len())
            =~= others) by {
            assert forall|k: int| 0 <= k < others.len() implies tokens[position + first.len() + k]
                == others[k] by {
                assert(rest[first.len() as int + k] == others[k]);
                assert(tokens[position + (first.len() as int + k)] == rest[first.len() as int
                    + k]);
            }
        }
        law_written_expression_parses_back(tokens, position, nodes[from], callee);
        lemma_written_program_parses_back(
            tokens,
            position + first.len(),
            nodes,
            from + 1,
            seen.push(nodes[from]),
            callee,
        );
        assert(seen.push(nodes[from]) + nodes.skip(from + 1) =~= seen + nodes.skip(from));
    }
}

} // verus!
