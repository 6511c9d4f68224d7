//! The classifier: a finite-state machine over the token sequence that
//! gathers each run of text and decides which kind of span it is.

use vstd::prelude::*;
use crate::lexer::Token;

verus! {

/// A classified, contiguous span of source text. The delimiters themselves
/// (`//`, `/*`, `*/`, the newline that ends a line comment, the quotes around
/// a string literal) are consumed and do not appear in the carried text.
#[derive(Debug, PartialEq)]
pub enum El {
    SingleLineComment(String),
    BlockComment(String),
    Code(String),
}

/// The mathematical shape of a classified span: the same three kinds, over
/// character sequences instead of strings.
pub enum ElModel {
    SingleLineComment(Seq<char>),
    BlockComment(Seq<char>),
    Code(Seq<char>),
}

impl View for El {
    type V = ElModel;

    open spec fn view(&self) -> ElModel {
        match self {
            El::SingleLineComment(text) => ElModel::SingleLineComment(text@),
            El::BlockComment(text) => ElModel::BlockComment(text@),
            El::Code(text) => ElModel::Code(text@),
        }
    }
}

/// The views of a sequence of spans.
pub open spec fn views(els: Seq<El>) -> Seq<ElModel> {
    els.map(|i: int, e: El| e@)
}

/// The classifier's mode. `Comment` is the disambiguation mode entered on a
/// `/`, pending the next token to decide between line and block comment;
/// `BlockCommentEnd` is entered on a `*` inside a block comment, pending the
/// next token to decide whether this is the closing `*/`.
#[derive(Clone, Copy, Debug, PartialEq, Eq, Structural)]
pub enum State {
    SingleLineComment,
    BlockComment,
    BlockCommentEnd,
    Comment,
    Code,
    StrLiteral,
}

/// The one failure the classifier knows: in the disambiguation mode, right
/// after a `/`, only `/` or `*` may follow. `token` is the token found there
/// instead.
#[derive(Clone, Copy, Debug, PartialEq, Eq, Structural)]
pub struct ParseError {
    pub token: Token,
}

/// The whole of the classifier's running state: its mode, the text gathered
/// for the span being built, and the spans already emitted.
pub struct Machine {
    pub state: State,
    pub acc: Seq<char>,
    pub out: Seq<ElModel>,
}

/// `out` extended by a `Code` span holding `acc`; an empty accumulator adds
/// nothing.
pub open spec fn flushed_code(out: Seq<ElModel>, acc: Seq<char>) -> Seq<ElModel> {
    if acc.len() > 0 {
        out.push(ElModel::Code(acc))
    } else {
        out
    }
}

/// One transition of the state machine. `None` means the token has no
/// transition: a malformed comment opener (see [`ParseError`]).
pub open spec fn step(m: Machine, t: Token) -> Option<Machine> {
    match m.state {
        State::Code => match t {
            Token::Char(c) => Some(
                Machine { state: State::Code, acc: m.acc.push(c), out: m.out },
            ),
            Token::Star => Some(
                Machine { state: State::Code, acc: m.acc.push('*'), out: m.out },
            ),
            Token::NewLine => Some(
                Machine {
                    state: State::Code,
                    acc: Seq::empty(),
                    out: m.out.push(ElModel::Code(m.acc)),
                },
            ),
            Token::FrontSlash => Some(
                Machine {
                    state: State::Comment,
                    acc: Seq::empty(),
                    out: flushed_code(m.out, m.acc),
                },
            ),
            Token::DoubleQuote => Some(
                Machine {
                    state: State::StrLiteral,
                    acc: Seq::empty(),
                    out: flushed_code(m.out, m.acc),
                },
            ),
        },
        State::Comment => match t {
            Token::FrontSlash => Some(
                Machine { state: State::SingleLineComment, acc: m.acc, out: m.out },
            ),
            Token::Star => Some(
                Machine { state: State::BlockComment, acc: m.acc, out: m.out },
            ),
            _ => None,
        },
        State::SingleLineComment => match t {
            Token::NewLine => Some(
                Machine {
                    state: State::Code,
                    acc: Seq::empty(),
                    out: m.out.push(ElModel::SingleLineComment(m.acc)),
                },
            ),
            Token::Char(c) => Some(
                Machine { state: State::SingleLineComment, acc: m.acc.push(c), out: m.out },
            ),
            Token::Star => Some(
                Machine { state: State::SingleLineComment, acc: m.acc.push('*'), out: m.out },
            ),
            Token::FrontSlash => Some(
                Machine { state: State::SingleLineComment, acc: m.acc.push('/'), out: m.out },
            ),
            Token::DoubleQuote => Some(
                Machine { state: State::SingleLineComment, acc: m.acc.push('"'), out: m.out },
            ),
        },
        State::BlockComment => match t {
            Token::Star => Some(
                Machine { state: State::BlockCommentEnd, acc: m.acc, out: m.out },
            ),
            Token::Char(c) => Some(
                Machine { state: State::BlockComment, acc: m.acc.push(c), out: m.out },
            ),
            Token::FrontSlash => Some(
                Machine { state: State::BlockComment, acc: m.acc.push('/'), out: m.out },
            ),
            // A quote inside a block comment is dropped, not gathered.
            Token::DoubleQuote => Some(
                Machine { state: State::BlockComment, acc: m.acc, out: m.out },
            ),
            Token::NewLine => Some(
                Machine { state: State::BlockComment, acc: m.acc.push('\n'), out: m.out },
            ),
        },
        State::BlockCommentEnd => match t {
            Token::FrontSlash => Some(
                Machine {
                    state: State::Code,
                    acc: Seq::empty(),
                    out: m.out.push(ElModel::BlockComment(m.acc)),
                },
            ),
            // Not a closer: the deferred `*` is replayed into the gathered
            // text before the block comment resumes.
            Token::Star => Some(
                Machine {
                    state: State::BlockComment,
                    acc: m.acc.push('*').push('*'),
                    out: m.out,
                },
            ),
            Token::DoubleQuote => Some(
                Machine {
                    state: State::BlockComment,
                    acc: m.acc.push('*').push('"'),
                    out: m.out,
                },
            ),
            Token::Char(c) => Some(
                Machine {
                    state: State::BlockComment,
                    acc: m.acc.push('*').push(c),
                    out: m.out,
                },
            ),
            Token::NewLine => Some(
                Machine {
                    state: State::BlockComment,
                    acc: m.acc.push('*').push('\n'),
                    out: m.out,
                },
            ),
        },
        State::StrLiteral => match t {
            Token::DoubleQuote => Some(
                Machine {
                    state: State::Code,
                    acc: Seq::empty(),
                    out: m.out.push(ElModel::Code(m.acc)),
                },
            ),
            Token::FrontSlash => Some(
                Machine { state: State::StrLiteral, acc: m.acc.push('/'), out: m.out },
            ),
            Token::Star => Some(
                Machine { state: State::StrLiteral, acc: m.acc.push('*'), out: m.out },
            ),
            Token::NewLine => Some(
                Machine { state: State::StrLiteral, acc: m.acc.push('\n'), out: m.out },
            ),
            Token::Char(c) => Some(
                Machine { state: State::StrLiteral, acc: m.acc.push(c), out: m.out },
            ),
        },
    }
}

/// The machine's starting state: `Code` mode, nothing gathered, nothing
/// emitted.
pub open spec fn init() -> Machine {
    Machine { state: State::Code, acc: Seq::empty(), out: Seq::empty() }
}

/// The machine run over a whole token sequence, left to right. `Err` carries
/// the first token that had no transition.
pub open spec fn run(m: Machine, tokens: Seq<Token>) -> Result<Machine, Token>
    decreases tokens.len(),
{
    if tokens.len() == 0 {
        Ok(m)
    } else {
        match step(m, tokens[0]) {
            Some(m2) => run(m2, tokens.drop_first()),
            None => Err(tokens[0]),
        }
    }
}

/// What the end of input adds: a non-empty accumulator is flushed as a span
/// of the kind the current mode builds (string-literal text flushes as code,
/// as it does at a closing quote). In `BlockCommentEnd` the deferred `*` is
/// first replayed, exactly as it would be on any non-closing token. A `/`
/// pending in the disambiguation mode is dropped.
pub open spec fn finish(m: Machine) -> Seq<ElModel> {
    match m.state {
        State::Code => flushed_code(m.out, m.acc),
        State::StrLiteral => flushed_code(m.out, m.acc),
        State::SingleLineComment => if m.acc.len() > 0 {
            m.out.push(ElModel::SingleLineComment(m.acc))
        } else {
            m.out
        },
        State::BlockComment => if m.acc.len() > 0 {
            m.out.push(ElModel::BlockComment(m.acc))
        } else {
            m.out
        },
        State::BlockCommentEnd => m.out.push(ElModel::BlockComment(m.acc.push('*'))),
        State::Comment => m.out,
    }
}

/// The classification of a token sequence: the spans the machine emits,
/// closed off by [`finish`], or the first token with no transition.
pub open spec fn classified(tokens: Seq<Token>) -> Result<Seq<ElModel>, Token> {
    match run(init(), tokens) {
        Ok(m) => Ok(finish(m)),
        Err(t) => Err(t),
    }
}

/// Running over a concatenation is running over the first part, then, if that
/// did not fail, over the second from where the first left off.
pub proof fn lemma_run_append(m: Machine, a: Seq<Token>, b: Seq<Token>)
    ensures
        run(m, a + b) == (match run(m, a) {
            Ok(m2) => run(m2, b),
            Err(t) => Err::<Machine, Token>(t),
        }),
    decreases a.len(),
{
    if a.len() == 0 {
        assert(a + b =~= b);
    } else {
        assert((a + b)[0] == a[0]);
        match step(m, a[0]) {
            Some(m2) => {
                assert((a + b).drop_first() =~= a.drop_first() + b);
                lemma_run_append(m2, a.drop_first(), b);
            },
            None => {
                assert((a + b).len() > 0);
            },
        }
    }
}

/// Running over one more token is one more [`step`] after the run so far.
pub proof fn lemma_run_snoc(m: Machine, tokens: Seq<Token>, t: Token)
    ensures
        run(m, tokens.push(t)) == (match run(m, tokens) {
            Ok(m2) => (match step(m2, t) {
                Some(m3) => Ok::<Machine, Token>(m3),
                None => Err::<Machine, Token>(t),
            }),
            Err(e) => Err::<Machine, Token>(e),
        }),
{
    lemma_run_append(m, tokens, seq![t]);
    assert(tokens.push(t) =~= tokens + seq![t]);
    match run(m, tokens) {
        Ok(m2) => {
            assert(seq![t].len() == 1);
            assert(seq![t][0] == t);
            match step(m2, t) {
                Some(m3) => {
                    assert(seq![t].drop_first().len() == 0);
                    assert(run(m3, seq![t].drop_first()) == Ok::<Machine, Token>(m3));
                },
                None => {},
            }
        },
        Err(e) => {},
    }
}

/// Appending a span keeps the views of those before it.
proof fn lemma_views_push(els: Seq<El>, e: El)
    ensures
        views(els.push(e)) == views(els).push(e@),
{
    assert(views(els.push(e)) =~= views(els).push(e@));
}

/// Relies on `String::push` of std: it appends the given character to the end
/// of the string.
pub assume_specification[ String::push ](s: &mut String, ch: char)
    ensures
        final(s)@ == old(s)@.push(ch),
;

/// Classifies a token sequence into spans, walking the state machine of
/// [`step`] left to right. Returns every span in appearance order, or the
/// error naming the first token found in the disambiguation mode where only
/// `/` or `*` may stand.
pub fn parse(tokens: Vec<Token>) -> (result: Result<Vec<El>, ParseError>)
    ensures
        (match (result, classified(tokens@)) {
            (Ok(els), Ok(model)) => views(els@) == model,
            (Err(e), Err(t)) => e.token == t,
            _ => false,
        }),
{
    let mut state = State::Code;
    let mut built = String::new();
    let mut parsed: Vec<El> = Vec::new();
    let n: usize = tokens.len();
    let mut i: usize = 0;
    proof {
        assert(views(parsed@) =~= Seq::<ElModel>::empty());
        assert(tokens@.subrange(0, 0).len() == 0);
    }
    while i < n
        invariant
            n == tokens@.len(),
            i <= n,
            run(init(), tokens@.subrange(0, i as int)) == Ok::<Machine, Token>(
                (Machine { state: state, acc: built@, out: views(parsed@) }),
            ),
        decreases n - i,
    {
        let t = tokens[i];
        proof {
            lemma_run_snoc(init(), tokens@.subrange(0, i as int), t);
            assert(tokens@.subrange(0, i as int).push(t) =~= tokens@.subrange(0, i + 1));
        }
        let ghost before = Machine { state: state, acc: built@, out: views(parsed@) };
        state = match state {
            State::Code => match t {
                Token::FrontSlash => {
                    if !built.as_str().is_empty() {
                        proof {
                            lemma_views_push(parsed@, El::Code(built));
                        }
                        parsed.push(El::Code(built));
                        built = String::new();
                    }
                    State::Comment
                },
                Token::Char(c) => {
                    built.push(c);
                    State::Code
                },
                Token::Star => {
                    built.push('*');
                    State::Code
                },
                Token::NewLine => {
                    proof {
                        lemma_views_push(parsed@, El::Code(built));
                    }
                    parsed.push(El::Code(built));
                    built = String::new();
                    State::Code
                },
                Token::DoubleQuote => {
                    if !built.as_str().is_empty() {
                        proof {
                            lemma_views_push(parsed@, El::Code(built));
                        }
                        parsed.push(El::Code(built));
                        built = String::new();
                    }
                    State::StrLiteral
                },
            },
            State::Comment => match t {
                Token::FrontSlash => State::SingleLineComment,
                Token::Star => State::BlockComment,
                _ => {
                    proof {
                        assert(step(before, t) is None);
                        assert(run(init(), tokens@.subrange(0, i + 1)) == Err::<Machine, Token>(
                            t,
                        ));
                        lemma_run_append(
                            init(),
                            tokens@.subrange(0, i + 1),
                            tokens@.subrange(i + 1, n as int),
                        );
                        assert(tokens@.subrange(0, i + 1) + tokens@.subrange(i + 1, n as int)
                            =~= tokens@);
                    }
                    return Err(ParseError { token: t });
                },
            },
            State::SingleLineComment => match t {
                Token::NewLine => {
                    proof {
                        lemma_views_push(parsed@, El::SingleLineComment(built));
                    }
                    parsed.push(El::SingleLineComment(built));
                    built = String::new();
                    State::Code
                },
                Token::Char(c) => {
                    built.push(c);
                    State::SingleLineComment
                },
                Token::Star => {
                    built.push('*');
                    State::SingleLineComment
                },
                Token::FrontSlash => {
                    built.push('/');
                    State::SingleLineComment
                },
                Token::DoubleQuote => {
                    built.push('"');
                    State::SingleLineComment
                },
            },
            State::BlockComment => match t {
                Token::Star => State::BlockCommentEnd,
                Token::Char(c) => {
                    built.push(c);
                    State::BlockComment
                },
                Token::FrontSlash => {
                    built.push('/');
                    State::BlockComment
                },
                Token::DoubleQuote => State::BlockComment,
                Token::NewLine => {
                    built.push('\n');
                    State::BlockComment
                },
            },
            State::BlockCommentEnd => match t {
                Token::FrontSlash => {
                    proof {
                        lemma_views_push(parsed@, El::BlockComment(built));
                    }
                    parsed.push(El::BlockComment(built));
                    built = String::new();
                    State::Code
                },
                Token::Star => {
                    built.push('*');
                    built.push('*');
                    State::BlockComment
                },
                Token::DoubleQuote => {
                    built.push('*');
                    built.push('"');
                    State::BlockComment
                },
                Token::Char(c) => {
                    built.push('*');
                    built.push(c);
                    State::BlockComment
                },
                Token::NewLine => {
                    built.push('*');
                    built.push('\n');
                    State::BlockComment
                },
            },
            State::StrLiteral => match t {
                Token::DoubleQuote => {
                    proof {
                        lemma_views_push(parsed@, El::Code(built));
                    }
                    parsed.push(El::Code(built));
                    built = String::new();
                    State::Code
                },
                Token::FrontSlash => {
                    built.push('/');
                    State::StrLiteral
                },
                Token::Star => {
                    built.push('*');
                    State::StrLiteral
                },
                Token::NewLine => {
                    built.push('\n');
                    State::StrLiteral
                },
                Token::Char(c) => {
                    built.push(c);
                    State::StrLiteral
                },
            },
        };
        proof {
            if built@.len() == 0 {
                assert(built@ =~= Seq::<char>::empty());
            }
            assert(step(before, t) == Some::<Machine>(
                (Machine { state: state, acc: built@, out: views(parsed@) }),
            ));
        }
        i = i + 1;
    }
    proof {
        assert(tokens@.subrange(0, n as int) =~= tokens@);
    }
    match state {
        State::Code => {
            if !built.as_str().is_empty() {
                proof {
                    lemma_views_push(parsed@, El::Code(built));
                }
                parsed.push(El::Code(built));
            }
        },
        State::StrLiteral => {
            if !built.as_str().is_empty() {
                proof {
                    lemma_views_push(parsed@, El::Code(built));
                }
                parsed.push(El::Code(built));
            }
        },
        State::SingleLineComment => {
            if !built.as_str().is_empty() {
                proof {
                    lemma_views_push(parsed@, El::SingleLineComment(built));
                }
                parsed.push(El::SingleLineComment(built));
            }
        },
        State::BlockComment => {
            if !built.as_str().is_empty() {
                proof {
                    lemma_views_push(parsed@, El::BlockComment(built));
                }
                parsed.push(El::BlockComment(built));
            }
        },
        State::BlockCommentEnd => {
            built.push('*');
            proof {
                lemma_views_push(parsed@, El::BlockComment(built));
            }
            parsed.push(El::BlockComment(built));
        },
        State::Comment => {},
    }
    Ok(parsed)
}

} // verus!
