//! The tokenizer: one symbolic token per input character.

use vstd::prelude::*;

verus! {

/// A symbolic token. The four characters that drive the classifier each get a
/// variant of their own; every other character is carried as `Char`.
#[derive(Clone, Copy, Debug, PartialEq, Eq, Structural)]
pub enum Token {
    Char(char),
    Star,
    NewLine,
    FrontSlash,
    DoubleQuote,
}

/// The token that stands for one input character.
pub open spec fn token_of(c: char) -> Token {
    if c == '*' {
        Token::Star
    } else if c == '\n' {
        Token::NewLine
    } else if c == '/' {
        Token::FrontSlash
    } else if c == '"' {
        Token::DoubleQuote
    } else {
        Token::Char(c)
    }
}

/// The token sequence of a text: one token per character, in order, with no
/// character dropped or merged.
pub open spec fn lexed(s: Seq<char>) -> Seq<Token> {
    s.map(|i: int, c: char| token_of(c))
}

/// Turns a text into its token sequence. Total: every character maps to
/// exactly one token.
pub fn lex(input: &str) -> (tokens: Vec<Token>)
    ensures
        tokens@ == lexed(input@),
{
    let n: usize = input.unicode_len();
    let mut tokens: Vec<Token> = Vec::new();
    let mut i: usize = 0;
    proof {
        assert(tokens@ =~= lexed(input@.subrange(0, 0)));
    }
    while i < n
        invariant
            n == input@.len(),
            i <= n,
            tokens@ == lexed(input@.subrange(0, i as int)),
        decreases n - i,
    {
        let c = input.get_char(i);
        let t = match c {
            '*' => Token::Star,
            '\n' => Token::NewLine,
            '/' => Token::FrontSlash,
            '"' => Token::DoubleQuote,
            _ => Token::Char(c),
        };
        tokens.push(t);
        proof {
            assert(input@.subrange(0, i + 1) =~= input@.subrange(0, i as int).push(c));
            assert(lexed(input@.subrange(0, i + 1)) =~= lexed(
                input@.subrange(0, i as int),
            ).push(token_of(c)));
        }
        i = i + 1;
    }
    proof {
        assert(input@.subrange(0, n as int) =~= input@);
    }
    tokens
}

} // verus!
