//! The lexer: from characters to tokens.
//!
//! What the lexer produces is defined by [`lexeme_at`], a function of the
//! input and a position in it; [`Lexer::next_token`] computes it, and
//! [`tokenize`] computes [`tokens_from`], the whole token sequence.

use vstd::prelude::*;
use crate::text::{from_chars, same_text, to_chars, unicode_alphanumeric, unicode_numeric};
use crate::types::{Keywords, LexerToken, Operators, Punctuations, TokenModel, Tokens, Types};

verus! {

/// The character that starts a comment, which runs to the end of its line.
pub const COMMENT_MARKER: char = ';';

/// The character that the cursor shows once it has passed the last one.
pub const END_OF_INPUT: char = '\0';

/// The sets of characters that the lexer scans runs of.
#[derive(Debug, Clone, Copy, PartialEq, Eq, Structural)]
pub enum CharClass {
    /// Space, tab, carriage return and line feed.
    Blank,
    /// Every character but the line feed.
    WithinLine,
    /// What may follow the first letter of a word.
    Alphanumeric,
    /// What may follow the first digit of a number.
    Numeric,
    /// Every character but the double quote.
    WithinString,
}

impl CharClass {
    pub open spec fn contains(self, c: char) -> bool {
        match self {
            CharClass::Blank => c == ' ' || c == '\t' || c == '\n' || c == '\r',
            CharClass::WithinLine => c != '\n',
            CharClass::Alphanumeric => unicode_alphanumeric(c),
            CharClass::Numeric => unicode_numeric(c),
            CharClass::WithinString => c != '"',
        }
    }

    pub fn has(self, c: char) -> (r: bool)
        ensures
            r == self.contains(c),
    {
        match self {
            CharClass::Blank => c == ' ' || c == '\t' || c == '\n' || c == '\r',
            CharClass::WithinLine => c != '\n',
            CharClass::Alphanumeric => c.is_alphanumeric(),
            CharClass::Numeric => c.is_numeric(),
            CharClass::WithinString => c != '"',
        }
    }
}

/// Whether a word may start with this character.
pub open spec fn is_letter(c: char) -> bool {
    ('a' <= c && c <= 'z') || ('A' <= c && c <= 'Z')
}

/// Whether a number may start with this character.
pub open spec fn is_digit(c: char) -> bool {
    '0' <= c && c <= '9'
}

/// The first position at or after `from` whose character is not in `class`,
/// or the end of the input where there is none.
pub open spec fn run_end(s: Seq<char>, from: int, class: CharClass) -> int
    decreases s.len() - from,
{
    if 0 <= from < s.len() && class.contains(s[from]) {
        run_end(s, from + 1, class)
    } else {
        from
    }
}

/// The first position at or after `from` that is neither blank nor inside a
/// comment.
pub open spec fn skip_trivia(s: Seq<char>, from: int) -> int
    decreases s.len() - from,
    via skip_trivia_decreases
{
    let i = run_end(s, from, CharClass::Blank);
    if 0 <= i < s.len() && s[i] == COMMENT_MARKER {
        skip_trivia(s, run_end(s, i + 1, CharClass::WithinLine))
    } else {
        i
    }
}

#[via_fn]
proof fn skip_trivia_decreases(s: Seq<char>, from: int) {
    let i = run_end(s, from, CharClass::Blank);
    lemma_run_end_bounds(s, from, CharClass::Blank);
    lemma_run_end_bounds(s, i + 1, CharClass::WithinLine);
}

/// The line of a position, counted from 1: one more than the number of line
/// feeds before it.
pub open spec fn line_of(s: Seq<char>, position: int) -> int
    decreases position,
{
    if position <= 0 || position > s.len() {
        1
    } else if s[position - 1] == '\n' {
        line_of(s, position - 1) + 1
    } else {
        line_of(s, position - 1)
    }
}

/// The column of a position, counted from 1: one more than the number of
/// characters between it and the start of its line.
pub open spec fn column_of(s: Seq<char>, position: int) -> int
    decreases position,
{
    if position <= 0 || position > s.len() {
        1
    } else if s[position - 1] == '\n' {
        1
    } else {
        column_of(s, position - 1) + 1
    }
}

/// A count as the lexer keeps it: exact as long as it fits.
pub open spec fn counted(n: int) -> usize {
    if n <= 0 {
        0
    } else if n >= usize::MAX {
        usize::MAX
    } else {
        n as usize
    }
}

/// What went wrong in the text, and where the offending token starts.
#[derive(Debug, Clone, Copy, PartialEq, Eq, Structural)]
pub enum LexError {
    /// A string has no closing quote.
    UnterminatedString { row: usize, column: usize },
    /// A character that starts no token.
    UnrecognizedCharacter { row: usize, column: usize },
}

/// What stands at a position of the input.
pub enum Lexeme {
    /// A token, and the position after it.
    Token { token: TokenModel, end: int },
    /// A string that starts at `start` and never ends.
    Unterminated { start: int },
}

/// The word `read`.
pub open spec fn read_word() -> Seq<char> {
    seq!['r', 'e', 'a', 'd']
}

/// What follows `read` in `read-line`.
pub open spec fn line_suffix() -> Seq<char> {
    seq!['-', 'l', 'i', 'n', 'e']
}

/// Whether the word `read` ends at `end` and is followed by `-line` and by
/// nothing that could continue a word: the one reserved word with a hyphen.
pub open spec fn is_read_line(s: Seq<char>, start: int, end: int) -> bool {
    &&& s.subrange(start, end) == read_word()
    &&& end + 5 <= s.len()
    &&& s.subrange(end, end + 5) == line_suffix()
    &&& (end + 5 < s.len() ==> !unicode_alphanumeric(s[end + 5]))
}

/// Where the word that starts at `start` ends.
pub open spec fn word_end(s: Seq<char>, start: int) -> int {
    let end = run_end(s, start + 1, CharClass::Alphanumeric);
    if is_read_line(s, start, end) {
        end + 5
    } else {
        end
    }
}

/// The reserved word that a word is, if it is one.
pub open spec fn keyword_of(word: Seq<char>) -> Option<Keywords> {
    if word == "begin"@ {
        Some(Keywords::Begin)
    } else if word == "end"@ {
        Some(Keywords::End)
    } else if word == "if"@ {
        Some(Keywords::If)
    } else if word == "then"@ {
        Some(Keywords::Then)
    } else if word == "else"@ {
        Some(Keywords::Else)
    } else if word == "true"@ {
        Some(Keywords::True)
    } else if word == "false"@ {
        Some(Keywords::False)
    } else if word == "display"@ {
        Some(Keywords::Display)
    } else if word == "newline"@ {
        Some(Keywords::Newline)
    } else if word == "define"@ {
        Some(Keywords::Define)
    } else if word == "read"@ {
        Some(Keywords::Read)
    } else if word == "read-line"@ {
        Some(Keywords::ReadLine)
    } else if word == "while"@ {
        Some(Keywords::While)
    } else {
        None
    }
}

/// The token of a word: a reserved word, or a literal of unknown kind that
/// carries the word itself.
pub open spec fn word_token(word: Seq<char>) -> TokenModel {
    match keyword_of(word) {
        Some(keyword) => TokenModel {
            var_type: Types::Keyword,
            token: Tokens::Keyword(keyword),
            value: Some(word),
        },
        None => TokenModel {
            var_type: Types::Unknown,
            token: Tokens::Var(Types::Unknown),
            value: Some(word),
        },
    }
}

/// The token of a literal of a known kind.
pub open spec fn literal_token(kind: Types, text: Seq<char>) -> TokenModel {
    TokenModel { var_type: kind, token: Tokens::Var(kind), value: Some(text) }
}

/// The token of punctuation or of an operator.
pub open spec fn symbol_token(token: Tokens, text: Seq<char>) -> TokenModel {
    TokenModel { var_type: Types::Unknown, token, value: Some(text) }
}

/// The number that starts at `start`: digits, then at most one point with
/// the digits that follow it. It is a float where it has the point.
pub open spec fn number_at(s: Seq<char>, start: int) -> Lexeme {
    let whole = run_end(s, start + 1, CharClass::Numeric);
    if 0 <= whole < s.len() && s[whole] == '.' {
        let end = run_end(s, whole + 1, CharClass::Numeric);
        Lexeme::Token { token: literal_token(Types::Float, s.subrange(start, end)), end }
    } else {
        Lexeme::Token { token: literal_token(Types::Int, s.subrange(start, whole)), end: whole }
    }
}

/// The string whose opening quote stands at `start`: what stands between
/// the quotes, taken as it is.
pub open spec fn string_at(s: Seq<char>, start: int) -> Lexeme {
    let close = run_end(s, start + 1, CharClass::WithinString);
    if close < s.len() {
        Lexeme::Token {
            token: literal_token(Types::String, s.subrange(start + 1, close)),
            end: close + 1,
        }
    } else {
        Lexeme::Unterminated { start }
    }
}

/// The operator that a single character is.
pub open spec fn single_operator(c: char) -> Option<Operators> {
    if c == '+' {
        Some(Operators::Plus)
    } else if c == '-' {
        Some(Operators::Minus)
    } else if c == '*' {
        Some(Operators::Asterisk)
    } else if c == '/' {
        Some(Operators::Slash)
    } else if c == '%' {
        Some(Operators::Percent)
    } else if c == '<' {
        Some(Operators::Lt)
    } else if c == '>' {
        Some(Operators::Gt)
    } else if c == '=' {
        Some(Operators::Eq)
    } else {
        None
    }
}

/// The operator that a character followed by `=` is.
pub open spec fn double_operator(c: char) -> Option<Operators> {
    if c == '<' {
        Some(Operators::Le)
    } else if c == '>' {
        Some(Operators::Ge)
    } else if c == '!' {
        Some(Operators::Ne)
    } else if c == '=' {
        Some(Operators::Eq)
    } else {
        None
    }
}

/// The token that starts at `start`, where neither a word, a number nor a
/// string starts: punctuation, an operator of two characters, an operator of
/// one, or else the end of the recognizable input, which takes nothing.
pub open spec fn symbol_at(s: Seq<char>, start: int) -> Lexeme {
    let c = s[start];
    if c == '(' {
        Lexeme::Token {
            token: symbol_token(Tokens::Punctuation(Punctuations::LParen), s.subrange(start, start + 1)),
            end: start + 1,
        }
    } else if c == ')' {
        Lexeme::Token {
            token: symbol_token(Tokens::Punctuation(Punctuations::RParen), s.subrange(start, start + 1)),
            end: start + 1,
        }
    } else if start + 1 < s.len() && s[start + 1] == '=' && double_operator(c) is Some {
        Lexeme::Token {
            token: symbol_token(Tokens::Operator(double_operator(c)->0), s.subrange(start, start + 2)),
            end: start + 2,
        }
    } else if single_operator(c) is Some {
        Lexeme::Token {
            token: symbol_token(Tokens::Operator(single_operator(c)->0), s.subrange(start, start + 1)),
            end: start + 1,
        }
    } else {
        Lexeme::Token { token: TokenModel::eof(), end: start }
    }
}

/// The token that the lexer gives at position `from`, and where it leaves
/// the cursor. At the end of the input, and before a character that starts
/// no token, that is the end-of-input token, and the cursor stays.
pub open spec fn lexeme_at(s: Seq<char>, from: int) -> Lexeme {
    let start = skip_trivia(s, from);
    if start < 0 || start >= s.len() {
        Lexeme::Token { token: TokenModel::eof(), end: start }
    } else if is_letter(s[start]) {
        let end = word_end(s, start);
        Lexeme::Token { token: word_token(s.subrange(start, end)), end }
    } else if is_digit(s[start]) {
        number_at(s, start)
    } else if s[start] == '"' {
        string_at(s, start)
    } else {
        symbol_at(s, start)
    }
}

/// The error for a string that starts at `start` and never ends.
pub open spec fn unterminated_at(s: Seq<char>, start: int) -> LexError {
    LexError::UnterminatedString {
        row: counted(line_of(s, start)),
        column: counted(column_of(s, start)),
    }
}

/// The error for a character at `start` that starts no token.
pub open spec fn unrecognized_at(s: Seq<char>, start: int) -> LexError {
    LexError::UnrecognizedCharacter {
        row: counted(line_of(s, start)),
        column: counted(column_of(s, start)),
    }
}

/// All tokens of the input from position `from` on, without the final
/// end-of-input token; or the first error. An end-of-input token before the
/// end of the input stands before a character that starts no token.
pub open spec fn tokens_from(s: Seq<char>, from: int) -> Result<Seq<TokenModel>, LexError>
    decreases s.len() - from,
    via tokens_from_decreases
{
    match lexeme_at(s, from) {
        Lexeme::Unterminated { start } => Err(unterminated_at(s, start)),
        Lexeme::Token { token, end } => {
            if token.token is Eof {
                if end >= s.len() {
                    Ok(Seq::empty())
                } else {
                    Err(unrecognized_at(s, end))
                }
            } else {
                match tokens_from(s, end) {
                    Ok(rest) => Ok(seq![token] + rest),
                    Err(error) => Err(error),
                }
            }
        },
    }
}

#[via_fn]
proof fn tokens_from_decreases(s: Seq<char>, from: int) {
    lemma_lexeme_advances(s, from);
}

/// A run ends at or behind its start and within the input, at a character
/// that is not of the class, and holds characters of the class only.
pub proof fn lemma_run_end_bounds(s: Seq<char>, from: int, class: CharClass)
    ensures
        from <= run_end(s, from, class),
        from <= s.len() ==> run_end(s, from, class) <= s.len(),
        0 <= run_end(s, from, class) < s.len() ==> !class.contains(s[run_end(s, from, class)]),
        forall|k: int| 0 <= from <= k < run_end(s, from, class) ==> class.contains(#[trigger] s[k]),
    decreases s.len() - from,
{
    if 0 <= from < s.len() && class.contains(s[from]) {
        lemma_run_end_bounds(s, from + 1, class);
    }
}

/// Blanks and comments end at or behind their start and within the input.
pub proof fn lemma_skip_trivia_bounds(s: Seq<char>, from: int)
    ensures
        from <= skip_trivia(s, from),
        from <= s.len() ==> skip_trivia(s, from) <= s.len(),
    decreases s.len() - from,
{
    let i = run_end(s, from, CharClass::Blank);
    lemma_run_end_bounds(s, from, CharClass::Blank);
    if 0 <= i < s.len() && s[i] == COMMENT_MARKER {
        lemma_run_end_bounds(s, i + 1, CharClass::WithinLine);
        lemma_skip_trivia_bounds(s, run_end(s, i + 1, CharClass::WithinLine));
    }
}

/// Every token but the end-of-input token takes at least one character, and
/// no token ends beyond the input.
pub proof fn lemma_lexeme_advances(s: Seq<char>, from: int)
    ensures
        match lexeme_at(s, from) {
            Lexeme::Token { token, end } => {
                &&& from <= end
                &&& (0 <= from <= s.len() ==> end <= s.len())
                &&& (!(token.token is Eof) ==> from < end)
                &&& (token.token is Eof ==> end == skip_trivia(s, from))
            },
            Lexeme::Unterminated { start } => from <= start && (0 <= from ==> start < s.len()),
        },
{
    let start = skip_trivia(s, from);
    lemma_skip_trivia_bounds(s, from);
    lemma_run_end_bounds(s, start + 1, CharClass::Alphanumeric);
    lemma_run_end_bounds(s, start + 1, CharClass::Numeric);
    lemma_run_end_bounds(s, start + 1, CharClass::WithinString);
    let whole = run_end(s, start + 1, CharClass::Numeric);
    lemma_run_end_bounds(s, whole + 1, CharClass::Numeric);
}

/// Lines and columns are counted from 1 and are at most one more than the
/// position.
pub proof fn lemma_position_bounds(s: Seq<char>, position: int)
    ensures
        1 <= line_of(s, position) <= position + 1 || position < 0,
        1 <= column_of(s, position) <= position + 1 || position < 0,
        position < 0 ==> line_of(s, position) == 1 && column_of(s, position) == 1,
    decreases position,
{
    if position > 0 && position <= s.len() {
        lemma_position_bounds(s, position - 1);
    }
}

/// The word that `read` and `-line` make together is the reserved word
/// `read-line`.
pub proof fn law_read_line_is_reserved(s: Seq<char>, start: int, end: int)
    requires
        0 <= start <= end,
        is_read_line(s, start, end),
    ensures
        keyword_of(s.subrange(start, end + 5)) == Some(Keywords::ReadLine),
{
    let word = s.subrange(start, end + 5);
    assert(end == start + 4) by {
        assert(s.subrange(start, end).len() == read_word().len());
    }
    assert(word =~= read_word() + line_suffix()) by {
        assert forall|k: int| 0 <= k < 9 implies word[k] == (read_word() + line_suffix())[k] by {
            if k < 4 {
                assert(s.subrange(start, end)[k] == read_word()[k]);
            } else {
                assert(s.subrange(end, end + 5)[k - 4] == line_suffix()[k - 4]);
            }
        }
    }
    reveal_strlit("begin");
    reveal_strlit("end");
    reveal_strlit("if");
    reveal_strlit("then");
    reveal_strlit("else");
    reveal_strlit("true");
    reveal_strlit("false");
    reveal_strlit("display");
    reveal_strlit("newline");
    reveal_strlit("define");
    reveal_strlit("read");
    reveal_strlit("read-line");
    assert(word =~= "read-line"@);
    assert(word[0] == 'r' && word[4] == '-');
}

/// The cursor of a lexer over its input.
#[derive(Debug, Clone)]
pub struct Lexer {
    /// The characters of the source.
    pub input: Vec<char>,
    /// The index of the current character.
    pub position: usize,
    /// The line of the current character, counted from 1.
    pub row: usize,
    /// The column of the current character, counted from 1.
    pub column: usize,
    /// The current character, or `END_OF_INPUT` after the last one.
    pub ch: char,
}

impl Lexer {
    /// The character at a position, or `END_OF_INPUT` beyond the last one.
    pub open spec fn char_at(s: Seq<char>, position: int) -> char {
        if 0 <= position < s.len() {
            s[position]
        } else {
            END_OF_INPUT
        }
    }

    /// The cursor is inside the input or just behind it, and the current
    /// character, the row and the column are those of its position.
    pub open spec fn wf(&self) -> bool {
        &&& self.position <= self.input@.len()
        &&& self.ch == Self::char_at(self.input@, self.position as int)
        &&& self.row == counted(line_of(self.input@, self.position as int))
        &&& self.column == counted(column_of(self.input@, self.position as int))
    }

    /// A lexer at the start of the text.
    pub fn new(input: &String) -> (lexer: Self)
        ensures
            lexer.wf(),
            lexer.input@ == input@,
            lexer.position == 0,
            lexer.row == 1,
            lexer.column == 1,
    {
        let chars = to_chars(input.as_str());
        let ch = if chars.len() > 0 {
            chars[0]
        } else {
            END_OF_INPUT
        };
        Lexer { input: chars, position: 0, row: 1, column: 1, ch }
    }

    /// The character after the current one.
    fn peek_char(&self) -> (c: char)
        requires
            self.wf(),
        ensures
            c == Self::char_at(self.input@, self.position + 1),
    {
        if self.position < self.input.len() && self.position + 1 < self.input.len() {
            self.input[self.position + 1]
        } else {
            END_OF_INPUT
        }
    }

    /// Moves the cursor to the next character.
    fn next_char(&mut self)
        requires
            old(self).wf(),
            old(self).position < old(self).input@.len(),
        ensures
            final(self).wf(),
            final(self).input == old(self).input,
            final(self).position == old(self).position + 1,
    {
        proof {
            lemma_position_bounds(self.input@, self.position as int);
            lemma_position_bounds(self.input@, self.position + 1);
        }
        let length = self.input.len();
        if self.ch == '\n' {
            if self.row < usize::MAX {
                self.row += 1;
            }
            self.column = 1;
        } else {
            if self.column < usize::MAX {
                self.column += 1;
            }
        }
        self.position += 1;
        self.ch = if self.position < length {
            self.input[self.position]
        } else {
            END_OF_INPUT
        };
    }

    /// Moves the cursor `count` characters on.
    fn skip_chars(&mut self, count: usize)
        requires
            old(self).wf(),
            old(self).position + count <= old(self).input@.len(),
        ensures
            final(self).wf(),
            final(self).input == old(self).input,
            final(self).position == old(self).position + count,
    {
        let mut done: usize = 0;
        while done < count
            invariant
                self.wf(),
                self.input == old(self).input,
                done <= count,
                self.position == old(self).position + done,
                old(self).position + count <= old(self).input@.len(),
            decreases count - done,
        {
            self.next_char();
            done += 1;
        }
    }

    /// Moves the cursor over the run of characters of `class` that starts at
    /// the current one.
    fn skip_run(&mut self, class: CharClass)
        requires
            old(self).wf(),
        ensures
            final(self).wf(),
            final(self).input == old(self).input,
            final(self).position == run_end(
                old(self).input@,
                old(self).position as int,
                class,
            ),
    {
        while self.position < self.input.len() && class.has(self.input[self.position])
            invariant
                self.wf(),
                self.input == old(self).input,
                run_end(self.input@, self.position as int, class) == run_end(
                    old(self).input@,
                    old(self).position as int,
                    class,
                ),
            decreases self.input@.len() - self.position,
        {
            self.next_char();
        }
    }

    /// Moves the cursor over blanks.
    fn skip_whitespace(&mut self)
        requires
            old(self).wf(),
        ensures
            final(self).wf(),
            final(self).input == old(self).input,
            final(self).position == run_end(
                old(self).input@,
                old(self).position as int,
                CharClass::Blank,
            ),
    {
        self.skip_run(CharClass::Blank);
    }

    /// Moves the cursor from a comment marker to the end of its line.
    fn skip_comment(&mut self)
        requires
            old(self).wf(),
            old(self).position < old(self).input@.len(),
        ensures
            final(self).wf(),
            final(self).input == old(self).input,
            final(self).position == run_end(
                old(self).input@,
                old(self).position + 1,
                CharClass::WithinLine,
            ),
    {
        self.next_char();
        self.skip_run(CharClass::WithinLine);
    }

    /// Moves the cursor over blanks and comments.
    fn skip_blank_and_comments(&mut self)
        requires
            old(self).wf(),
        ensures
            final(self).wf(),
            final(self).input == old(self).input,
            final(self).position == skip_trivia(old(self).input@, old(self).position as int),
    {
        loop
            invariant
                self.wf(),
                self.input == old(self).input,
                skip_trivia(self.input@, self.position as int) == skip_trivia(
                    old(self).input@,
                    old(self).position as int,
                ),
            ensures
                self.wf(),
                self.input == old(self).input,
                self.position == skip_trivia(old(self).input@, old(self).position as int),
            decreases self.input@.len() - self.position,
        {
            proof {
                lemma_run_end_bounds(self.input@, self.position as int, CharClass::Blank);
            }
            self.skip_whitespace();
            if self.position < self.input.len() && self.ch == COMMENT_MARKER {
                proof {
                    lemma_run_end_bounds(self.input@, self.position + 1, CharClass::WithinLine);
                }
                self.skip_comment();
            } else {
                proof {
                    lemma_run_end_bounds(self.input@, self.position as int, CharClass::Blank);
                }
                break ;
            }
        }
    }

    /// Whether the word `input[start..end]` is `read` and goes on as
    /// `read-line`.
    fn continues_as_read_line(&self, start: usize, end: usize) -> (r: bool)
        requires
            self.wf(),
            start <= end <= self.input@.len(),
        ensures
            r == is_read_line(self.input@, start as int, end as int),
    {
        let n = self.input.len();
        if end - start != 4 || n - end < 5 {
            proof {
                if is_read_line(self.input@, start as int, end as int) {
                    assert(self.input@.subrange(start as int, end as int).len() == 4);
                }
            }
            return false;
        }
        let word_matches = self.input[start] == 'r' && self.input[start + 1] == 'e' && self.input[start
            + 2] == 'a' && self.input[start + 3] == 'd';
        let suffix_matches = self.input[end] == '-' && self.input[end + 1] == 'l' && self.input[end
            + 2] == 'i' && self.input[end + 3] == 'n' && self.input[end + 4] == 'e';
        let ends_there = n - end == 5 || !self.input[end + 5].is_alphanumeric();
        proof {
            let s = self.input@;
            let word = s.subrange(start as int, end as int);
            let suffix = s.subrange(end as int, end + 5);
            assert(word[0] == s[start as int] && word[1] == s[start + 1] && word[2] == s[start + 2]
                && word[3] == s[start + 3]);
            assert(suffix[0] == s[end as int] && suffix[1] == s[end + 1] && suffix[2] == s[end + 2]
                && suffix[3] == s[end + 3] && suffix[4] == s[end + 4]);
            if word_matches {
                assert(word =~= read_word());
            }
            if suffix_matches {
                assert(suffix =~= line_suffix());
            }
        }
        word_matches && suffix_matches && ends_there
    }

    /// Reads the word that starts at the current character.
    fn read_identifier(&mut self) -> (identifier: String)
        requires
            old(self).wf(),
            old(self).position < old(self).input@.len(),
        ensures
            final(self).wf(),
            final(self).input == old(self).input,
            final(self).position == word_end(old(self).input@, old(self).position as int),
            identifier@ == old(self).input@.subrange(
                old(self).position as int,
                final(self).position as int,
            ),
    {
        let start = self.position;
        self.next_char();
        self.skip_run(CharClass::Alphanumeric);
        proof {
            lemma_run_end_bounds(self.input@, start + 1, CharClass::Alphanumeric);
        }
        if self.continues_as_read_line(start, self.position) {
            self.skip_chars(5);
        }
        from_chars(&self.input, start, self.position)
    }

    /// The token of a word.
    fn lookup_identifier(identifier: &str) -> (token: Tokens)
        ensures
            token == word_token(identifier@).token,
    {
        if same_text(identifier, "begin") {
            Tokens::Keyword(Keywords::Begin)
        } else if same_text(identifier, "end") {
            Tokens::Keyword(Keywords::End)
        } else if same_text(identifier, "if") {
            Tokens::Keyword(Keywords::If)
        } else if same_text(identifier, "then") {
            Tokens::Keyword(Keywords::Then)
        } else if same_text(identifier, "else") {
            Tokens::Keyword(Keywords::Else)
        } else if same_text(identifier, "true") {
            Tokens::Keyword(Keywords::True)
        } else if same_text(identifier, "false") {
            Tokens::Keyword(Keywords::False)
        } else if same_text(identifier, "display") {
            Tokens::Keyword(Keywords::Display)
        } else if same_text(identifier, "newline") {
            Tokens::Keyword(Keywords::Newline)
        } else if same_text(identifier, "define") {
            Tokens::Keyword(Keywords::Define)
        } else if same_text(identifier, "read") {
            Tokens::Keyword(Keywords::Read)
        } else if same_text(identifier, "read-line") {
            Tokens::Keyword(Keywords::ReadLine)
        } else if same_text(identifier, "while") {
            Tokens::Keyword(Keywords::While)
        } else {
            Tokens::Var(Types::Unknown)
        }
    }

    /// The kind of a number: a float where it has the point.
    fn get_numbervar_type(has_point: bool) -> (kind: Types)
        ensures
            kind == if has_point {
                Types::Float
            } else {
                Types::Int
            },
    {
        if has_point {
            Types::Float
        } else {
            Types::Int
        }
    }

    /// The token of a number.
    fn read_numbervar_type(has_point: bool) -> (token: Tokens)
        ensures
            token == Tokens::Var(
                if has_point {
                    Types::Float
                } else {
                    Types::Int
                },
            ),
    {
        Tokens::Var(Self::get_numbervar_type(has_point))
    }

    /// Reads the number that starts at the current character, and says
    /// whether it has a point.
    fn read_number(&mut self) -> (number: (String, bool))
        requires
            old(self).wf(),
            old(self).position < old(self).input@.len(),
        ensures
            final(self).wf(),
            final(self).input == old(self).input,
            number_at(old(self).input@, old(self).position as int) == (Lexeme::Token {
                token: literal_token(
                    if number.1 {
                        Types::Float
                    } else {
                        Types::Int
                    },
                    number.0@,
                ),
                end: final(self).position as int,
            }),
    {
        let start = self.position;
        self.next_char();
        self.skip_run(CharClass::Numeric);
        proof {
            lemma_run_end_bounds(self.input@, start + 1, CharClass::Numeric);
        }
        let has_point = self.position < self.input.len() && self.ch == '.';
        if has_point {
            proof {
                lemma_run_end_bounds(self.input@, self.position + 1, CharClass::Numeric);
            }
            self.next_char();
            self.skip_run(CharClass::Numeric);
        }
        (from_chars(&self.input, start, self.position), has_point)
    }

    /// Reads the string whose opening quote is the current character. There
    /// is none where the closing quote is missing; the cursor is then at the
    /// end of the input.
    fn read_string(&mut self) -> (string: Option<String>)
        requires
            old(self).wf(),
            old(self).position < old(self).input@.len(),
        ensures
            final(self).wf(),
            final(self).input == old(self).input,
            match string_at(old(self).input@, old(self).position as int) {
                Lexeme::Token { token, end } => string matches Some(text) && token
                    == literal_token(Types::String, text@) && final(self).position == end,
                Lexeme::Unterminated { start } => string is None && final(self).position
                    == final(self).input@.len(),
            },
    {
        let start = self.position;
        self.next_char();
        self.skip_run(CharClass::WithinString);
        proof {
            lemma_run_end_bounds(self.input@, start + 1, CharClass::WithinString);
        }
        if self.position < self.input.len() {
            let text = from_chars(&self.input, start + 1, self.position);
            self.next_char();
            Some(text)
        } else {
            None
        }
    }

    /// The token of a parenthesis.
    fn read_punctuation(ch: char) -> (token: Tokens)
        requires
            ch == '(' || ch == ')',
        ensures
            token == Tokens::Punctuation(
                if ch == '(' {
                    Punctuations::LParen
                } else {
                    Punctuations::RParen
                },
            ),
    {
        if ch == '(' {
            Tokens::Punctuation(Punctuations::LParen)
        } else {
            Tokens::Punctuation(Punctuations::RParen)
        }
    }

    /// The operator that a single character is.
    fn read_single_operator(ch: char) -> (operator: Option<Operators>)
        ensures
            operator == single_operator(ch),
    {
        if ch == '+' {
            Some(Operators::Plus)
        } else if ch == '-' {
            Some(Operators::Minus)
        } else if ch == '*' {
            Some(Operators::Asterisk)
        } else if ch == '/' {
            Some(Operators::Slash)
        } else if ch == '%' {
            Some(Operators::Percent)
        } else if ch == '<' {
            Some(Operators::Lt)
        } else if ch == '>' {
            Some(Operators::Gt)
        } else if ch == '=' {
            Some(Operators::Eq)
        } else {
            None
        }
    }

    /// The operator that a character followed by `=` is.
    fn read_double_operator(ch: char) -> (operator: Option<Operators>)
        ensures
            operator == double_operator(ch),
    {
        if ch == '<' {
            Some(Operators::Le)
        } else if ch == '>' {
            Some(Operators::Ge)
        } else if ch == '!' {
            Some(Operators::Ne)
        } else if ch == '=' {
            Some(Operators::Eq)
        } else {
            None
        }
    }

    /// Reads the token that starts at the current character, which starts
    /// neither a word, a number nor a string.
    fn read_symbol(&mut self) -> (token: LexerToken)
        requires
            old(self).wf(),
            old(self).position < old(self).input@.len(),
        ensures
            final(self).wf(),
            final(self).input == old(self).input,
            symbol_at(old(self).input@, old(self).position as int) == (Lexeme::Token {
                token: token@,
                end: final(self).position as int,
            }),
    {
        let start = self.position;
        let c = self.ch;
        if c == '(' || c == ')' {
            let token = Self::read_punctuation(c);
            self.next_char();
            return LexerToken {
                var_type: Types::Unknown,
                token,
                value: Some(from_chars(&self.input, start, start + 1)),
            };
        }
        if self.peek_char() == '=' && self.input.len() - self.position > 1 {
            match Self::read_double_operator(c) {
                Some(operator) => {
                    self.skip_chars(2);
                    return LexerToken {
                        var_type: Types::Unknown,
                        token: Tokens::Operator(operator),
                        value: Some(from_chars(&self.input, start, start + 2)),
                    };
                },
                None => {},
            }
        }
        match Self::read_single_operator(c) {
            Some(operator) => {
                self.next_char();
                LexerToken {
                    var_type: Types::Unknown,
                    token: Tokens::Operator(operator),
                    value: Some(from_chars(&self.input, start, start + 1)),
                }
            },
            None => LexerToken { var_type: Types::Unknown, token: Tokens::Eof, value: None },
        }
    }

    /// The next token, with the cursor left behind it.
    ///
    /// Blanks and comments before the token are passed over. At the end of
    /// the input, and before a character that starts no token, the token is
    /// the end-of-input token and the cursor stays where it is. A string
    /// without its closing quote is an error.
    pub fn next_token(&mut self) -> (result: Result<LexerToken, LexError>)
        requires
            old(self).wf(),
        ensures
            final(self).wf(),
            final(self).input == old(self).input,
            match lexeme_at(old(self).input@, old(self).position as int) {
                Lexeme::Token { token, end } => result matches Ok(found) && found@ == token
                    && final(self).position == end,
                Lexeme::Unterminated { start } => result == Err::<LexerToken, LexError>(
                    unterminated_at(old(self).input@, start),
                ) && final(self).position == final(self).input@.len(),
            },
    {
        self.skip_blank_and_comments();
        if self.position >= self.input.len() {
            return Ok(LexerToken { var_type: Types::Unknown, token: Tokens::Eof, value: None });
        }
        let c = self.ch;
        if (c >= 'a' && c <= 'z') || (c >= 'A' && c <= 'Z') {
            let value = self.read_identifier();
            let token = Self::lookup_identifier(value.as_str());
            let var_type = match token {
                Tokens::Keyword(_) => Types::Keyword,
                _ => Types::Unknown,
            };
            Ok(LexerToken { var_type, token, value: Some(value) })
        } else if c >= '0' && c <= '9' {
            let (value, has_point) = self.read_number();
            let var_type = Self::get_numbervar_type(has_point);
            let token = Self::read_numbervar_type(has_point);
            Ok(LexerToken { var_type, token, value: Some(value) })
        } else if c == '"' {
            let row = self.row;
            let column = self.column;
            match self.read_string() {
                Some(value) => Ok(
                    LexerToken {
                        var_type: Types::String,
                        token: Tokens::Var(Types::String),
                        value: Some(value),
                    },
                ),
                None => Err(LexError::UnterminatedString { row, column }),
            }
        } else {
            Ok(self.read_symbol())
        }
    }

    /// Whether the cursor has passed the last character.
    pub fn at_end(&self) -> (r: bool)
        requires
            self.wf(),
        ensures
            r == (self.position >= self.input@.len()),
    {
        self.position >= self.input.len()
    }
}

/// The tokens of a text, without the final end-of-input token.
///
/// The text is rejected where a string has no closing quote, and where a
/// character starts no token; the error tells the row and the column.
pub fn tokenize(source: &String) -> (result: Result<Vec<LexerToken>, LexError>)
    ensures
        match tokens_from(source@, 0) {
            Ok(tokens) => result matches Ok(found) && crate::types::token_models(found@) == tokens,
            Err(error) => result == Err::<Vec<LexerToken>, LexError>(error),
        },
{
    let mut lexer = Lexer::new(source);
    let mut tokens: Vec<LexerToken> = Vec::new();
    loop
        invariant
            lexer.wf(),
            lexer.input@ == source@,
            match tokens_from(source@, lexer.position as int) {
                Ok(rest) => tokens_from(source@, 0) == Ok::<Seq<TokenModel>, LexError>(
                    crate::types::token_models(tokens@) + rest,
                ),
                Err(error) => tokens_from(source@, 0) == Err::<Seq<TokenModel>, LexError>(error),
            },
        decreases source@.len() - lexer.position,
    {
        let ghost before = lexer.position as int;
        let ghost collected = crate::types::token_models(tokens@);
        proof {
            lemma_lexeme_advances(source@, before);
        }
        let row = lexer.row;
        let column = lexer.column;
        match lexer.next_token() {
            Err(error) => {
                return Err(error);
            },
            Ok(token) => {
                match token.token {
                    Tokens::Eof => {
                        if lexer.at_end() {
                            assert(collected + Seq::<TokenModel>::empty() =~= collected);
                            return Ok(tokens);
                        } else {
                            return Err(
                                LexError::UnrecognizedCharacter {
                                    row: lexer.row,
                                    column: lexer.column,
                                },
                            );
                        }
                    },
                    _ => {
                        let ghost model = token@;
                        tokens.push(token);
                        proof {
                            let grown = crate::types::token_models(tokens@);
                            assert(grown =~= collected.push(model));
                            match tokens_from(source@, lexer.position as int) {
                                Ok(rest) => {
                                    assert(collected + (seq![model] + rest) =~= grown + rest);
                                },
                                Err(_) => {},
                            }
                        }
                    },
                }
            },
        }
    }
}

} // verus!
