//! The general laws of the pipeline, stated over the spec-level model and
//! proved once for all inputs.

use vstd::prelude::*;
use crate::classifier::ElModel;
use crate::classifier::Machine;
use crate::classifier::State;
use crate::classifier::classified;
use crate::classifier::finish;
use crate::classifier::init;
use crate::classifier::lemma_run_append;
use crate::classifier::lemma_run_snoc;
use crate::classifier::run;
use crate::classifier::step;
use crate::lexer::Token;
use crate::lexer::lexed;
use crate::lexer::token_of;

verus! {

/// Holds when no character of `s` can open a comment or a string literal:
/// the text has no `/` and no `"`.
pub open spec fn no_slash_or_quote(s: Seq<char>) -> bool {
    forall|i: int| 0 <= i < s.len() ==> s[i] != '/' && s[i] != '"'
}

/// The pieces of `s` between its newlines, in order, newlines dropped. There
/// is always one piece more than there are newlines: the (possibly empty)
/// piece after the last newline.
pub open spec fn line_chunks(s: Seq<char>) -> Seq<Seq<char>>
    decreases s.len(),
{
    if s.len() == 0 {
        seq![Seq::<char>::empty()]
    } else if s.last() == '\n' {
        line_chunks(s.drop_last()).push(Seq::<char>::empty())
    } else {
        let chunks = line_chunks(s.drop_last());
        chunks.update(chunks.len() - 1, chunks.last().push(s.last()))
    }
}

/// The lines of `s`: its pieces between newlines, except that the empty piece
/// after a final newline is no line of its own.
pub open spec fn lines_of(s: Seq<char>) -> Seq<Seq<char>> {
    let chunks = line_chunks(s);
    if chunks.last().len() == 0 {
        chunks.drop_last()
    } else {
        chunks
    }
}

/// One `Code` span per chunk of text.
pub open spec fn code_spans(chunks: Seq<Seq<char>>) -> Seq<ElModel> {
    chunks.map(|i: int, l: Seq<char>| ElModel::Code(l))
}

proof fn lemma_line_chunks_nonempty(s: Seq<char>)
    ensures
        line_chunks(s).len() >= 1,
    decreases s.len(),
{
    if s.len() > 0 {
        lemma_line_chunks_nonempty(s.drop_last());
    }
}

proof fn lemma_code_spans_snoc(chunks: Seq<Seq<char>>)
    requires
        chunks.len() >= 1,
    ensures
        code_spans(chunks) == code_spans(chunks.drop_last()).push(ElModel::Code(chunks.last())),
{
    assert(code_spans(chunks) =~= code_spans(chunks.drop_last()).push(
        ElModel::Code(chunks.last()),
    ));
}

/// Over text free of `/` and `"` the machine never leaves `Code` mode: it has
/// emitted one `Code` span per completed line and gathered the piece after
/// the last newline.
proof fn lemma_plain_run(s: Seq<char>)
    requires
        no_slash_or_quote(s),
    ensures
        run(init(), lexed(s)) == Ok::<Machine, Token>(
            (Machine {
                state: State::Code,
                acc: line_chunks(s).last(),
                out: code_spans(line_chunks(s).drop_last()),
            }),
        ),
    decreases s.len(),
{
    lemma_line_chunks_nonempty(s);
    if s.len() == 0 {
        assert(lexed(s).len() == 0);
        assert(line_chunks(s).last() =~= Seq::<char>::empty());
        assert(code_spans(line_chunks(s).drop_last()) =~= Seq::<ElModel>::empty());
    } else {
        let s0 = s.drop_last();
        let c = s.last();
        assert(no_slash_or_quote(s0));
        lemma_plain_run(s0);
        lemma_line_chunks_nonempty(s0);
        assert(lexed(s) =~= lexed(s0).push(token_of(c)));
        lemma_run_snoc(init(), lexed(s0), token_of(c));
        let m0 = Machine {
            state: State::Code,
            acc: line_chunks(s0).last(),
            out: code_spans(line_chunks(s0).drop_last()),
        };
        if c == '\n' {
            assert(step(m0, token_of(c)) == Some::<Machine>(
                (Machine {
                    state: State::Code,
                    acc: Seq::<char>::empty(),
                    out: m0.out.push(ElModel::Code(m0.acc)),
                }),
            ));
            lemma_code_spans_snoc(line_chunks(s0));
            assert(line_chunks(s) == line_chunks(s0).push(Seq::<char>::empty()));
            assert(line_chunks(s).drop_last() =~= line_chunks(s0));
            assert(line_chunks(s).last() =~= Seq::<char>::empty());
        } else {
            assert(step(m0, token_of(c)) == Some::<Machine>(
                (Machine { state: State::Code, acc: m0.acc.push(c), out: m0.out }),
            ));
            let chunks0 = line_chunks(s0);
            assert(line_chunks(s) == chunks0.update(chunks0.len() - 1, chunks0.last().push(c)));
            assert(line_chunks(s).last() == chunks0.last().push(c));
            assert(line_chunks(s).drop_last() =~= chunks0.drop_last());
        }
    }
}

/// Text free of `/` and `"` classifies as exactly one `Code` span per line,
/// each holding its line stripped of the trailing newline.
pub proof fn lemma_plain_text_is_code_lines(s: Seq<char>)
    requires
        no_slash_or_quote(s),
    ensures
        classified(lexed(s)) == Ok::<Seq<ElModel>, Token>(code_spans(lines_of(s))),
{
    lemma_plain_run(s);
    lemma_line_chunks_nonempty(s);
    let chunks = line_chunks(s);
    if chunks.last().len() == 0 {
        assert(finish(
            (Machine {
                state: State::Code,
                acc: chunks.last(),
                out: code_spans(chunks.drop_last()),
            }),
        ) == code_spans(chunks.drop_last()));
    } else {
        lemma_code_spans_snoc(chunks);
    }
}

/// `s` with every `"` removed and all else kept in order.
pub open spec fn without_quotes(s: Seq<char>) -> Seq<char>
    decreases s.len(),
{
    if s.len() == 0 {
        Seq::empty()
    } else if s.last() == '"' {
        without_quotes(s.drop_last())
    } else {
        without_quotes(s.drop_last()).push(s.last())
    }
}

/// In string-literal mode, text free of `"` is gathered whole: `/`, `*` and
/// newlines are ordinary content there.
proof fn lemma_str_literal_gathers_all(m: Machine, s: Seq<char>)
    requires
        m.state == State::StrLiteral,
        forall|i: int| 0 <= i < s.len() ==> s[i] != '"',
    ensures
        run(m, lexed(s)) == Ok::<Machine, Token>(
            (Machine { state: State::StrLiteral, acc: m.acc + s, out: m.out }),
        ),
    decreases s.len(),
{
    if s.len() == 0 {
        assert(lexed(s).len() == 0);
        assert(m.acc + s =~= m.acc);
        assert(m == (Machine { state: State::StrLiteral, acc: m.acc + s, out: m.out }));
    } else {
        let s0 = s.drop_last();
        let c = s.last();
        lemma_str_literal_gathers_all(m, s0);
        assert(lexed(s) =~= lexed(s0).push(token_of(c)));
        lemma_run_snoc(m, lexed(s0), token_of(c));
        let m0 = Machine { state: State::StrLiteral, acc: m.acc + s0, out: m.out };
        assert(step(m0, token_of(c)) == Some::<Machine>(
            (Machine { state: State::StrLiteral, acc: m0.acc.push(c), out: m0.out }),
        ));
        assert((m.acc + s0).push(c) =~= m.acc + s);
    }
}

/// A `//` or `/*` inside a string literal starts no comment: a quoted text
/// free of `"` classifies as exactly one `Code` span holding that text,
/// whatever slashes, stars or newlines it contains.
pub proof fn lemma_string_literal_is_code(s: Seq<char>)
    requires
        forall|i: int| 0 <= i < s.len() ==> s[i] != '"',
    ensures
        classified(lexed(seq!['"'] + s + seq!['"'])) == Ok::<Seq<ElModel>, Token>(
            seq![ElModel::Code(s)],
        ),
{
    reveal_with_fuel(run, 4);
    let open = seq!['"'];
    let close = seq!['"'];
    let full = open + s + close;
    assert(lexed(full) =~= lexed(open) + lexed(s) + lexed(close));
    assert(lexed(open) =~= seq![Token::DoubleQuote]);
    assert(lexed(close) =~= seq![Token::DoubleQuote]);

    lemma_run_append(init(), lexed(open), lexed(s) + lexed(close));
    assert(lexed(open) + (lexed(s) + lexed(close)) =~= lexed(full));
    let m1 = Machine { state: State::StrLiteral, acc: Seq::<char>::empty(), out: Seq::empty() };
    assert(seq![Token::DoubleQuote].drop_first().len() == 0);
    assert(run(init(), lexed(open)) == Ok::<Machine, Token>(m1));

    lemma_run_append(m1, lexed(s), lexed(close));
    lemma_str_literal_gathers_all(m1, s);
    let m2 = Machine { state: State::StrLiteral, acc: Seq::<char>::empty() + s, out: Seq::empty() };
    assert(Seq::<char>::empty() + s =~= s);

    assert(run(m2, lexed(close)) == Ok::<Machine, Token>(
        (Machine {
            state: State::Code,
            acc: Seq::<char>::empty(),
            out: Seq::<ElModel>::empty().push(ElModel::Code(m2.acc)),
        }),
    ));
    assert(Seq::<ElModel>::empty().push(ElModel::Code(s)) =~= seq![ElModel::Code(s)]);
}

/// In block-comment mode, text free of `*` is gathered except its quotes:
/// a `"` there neither ends the comment nor reaches its text.
proof fn lemma_block_comment_gathers(m: Machine, s: Seq<char>)
    requires
        m.state == State::BlockComment,
        forall|i: int| 0 <= i < s.len() ==> s[i] != '*',
    ensures
        run(m, lexed(s)) == Ok::<Machine, Token>(
            (Machine {
                state: State::BlockComment,
                acc: m.acc + without_quotes(s),
                out: m.out,
            }),
        ),
    decreases s.len(),
{
    if s.len() == 0 {
        assert(lexed(s).len() == 0);
        assert(m.acc + without_quotes(s) =~= m.acc);
        assert(m == (Machine {
            state: State::BlockComment,
            acc: m.acc + without_quotes(s),
            out: m.out,
        }));
    } else {
        let s0 = s.drop_last();
        let c = s.last();
        lemma_block_comment_gathers(m, s0);
        assert(lexed(s) =~= lexed(s0).push(token_of(c)));
        lemma_run_snoc(m, lexed(s0), token_of(c));
        let kept0 = without_quotes(s0);
        let m0 = Machine { state: State::BlockComment, acc: m.acc + kept0, out: m.out };
        if c == '"' {
            assert(step(m0, token_of(c)) == Some::<Machine>(m0));
            assert(without_quotes(s) == kept0);
        } else {
            assert(step(m0, token_of(c)) == Some::<Machine>(
                (Machine { state: State::BlockComment, acc: m0.acc.push(c), out: m0.out }),
            ));
            assert(without_quotes(s) == kept0.push(c));
            assert((m.acc + kept0).push(c) =~= m.acc + kept0.push(c));
        }
    }
}

/// A `"` inside a block comment neither ends string-literal handling nor
/// appears in the emitted text: a block comment whose body is free of `*`
/// classifies as one `BlockComment` span holding the body with every `"`
/// silently dropped.
pub proof fn lemma_block_comment_drops_quotes(s: Seq<char>)
    requires
        forall|i: int| 0 <= i < s.len() ==> s[i] != '*',
    ensures
        classified(lexed(seq!['/', '*'] + s + seq!['*', '/'])) == Ok::<Seq<ElModel>, Token>(
            seq![ElModel::BlockComment(without_quotes(s))],
        ),
{
    reveal_with_fuel(run, 4);
    let open = seq!['/', '*'];
    let close = seq!['*', '/'];
    let full = open + s + close;
    assert(lexed(full) =~= lexed(open) + lexed(s) + lexed(close));
    assert(lexed(open) =~= seq![Token::FrontSlash, Token::Star]);
    assert(lexed(close) =~= seq![Token::Star, Token::FrontSlash]);

    lemma_run_append(init(), lexed(open), lexed(s) + lexed(close));
    assert(lexed(open) + (lexed(s) + lexed(close)) =~= lexed(full));
    let m1 = Machine { state: State::BlockComment, acc: Seq::<char>::empty(), out: Seq::empty() };
    assert(seq![Token::FrontSlash, Token::Star].drop_first() =~= seq![Token::Star]);
    assert(seq![Token::Star].drop_first().len() == 0);
    assert(run(init(), lexed(open)) == Ok::<Machine, Token>(m1));

    lemma_run_append(m1, lexed(s), lexed(close));
    lemma_block_comment_gathers(m1, s);
    let kept = without_quotes(s);
    let m2 = Machine { state: State::BlockComment, acc: Seq::<char>::empty() + kept, out: Seq::empty() };
    assert(Seq::<char>::empty() + kept =~= kept);

    assert(seq![Token::Star, Token::FrontSlash].drop_first() =~= seq![Token::FrontSlash]);
    assert(seq![Token::FrontSlash].drop_first().len() == 0);
    assert(run(m2, lexed(close)) == Ok::<Machine, Token>(
        (Machine {
            state: State::Code,
            acc: Seq::<char>::empty(),
            out: Seq::<ElModel>::empty().push(ElModel::BlockComment(m2.acc)),
        }),
    ));
    assert(Seq::<ElModel>::empty().push(ElModel::BlockComment(kept)) =~= seq![
        ElModel::BlockComment(kept),
    ]);
}

proof fn lemma_line_chunks_without_newline(s: Seq<char>)
    requires
        forall|i: int| 0 <= i < s.len() ==> s[i] != '\n',
    ensures
        line_chunks(s) == seq![s],
    decreases s.len(),
{
    if s.len() == 0 {
        assert(Seq::<char>::empty() =~= s);
    } else {
        let s0 = s.drop_last();
        lemma_line_chunks_without_newline(s0);
        assert(seq![s0].update(0, s0.push(s.last())) =~= seq![s0.push(s.last())]);
        assert(s0.push(s.last()) =~= s);
    }
}

/// Round trip: the text recovered from a non-empty `Code` span that holds no
/// comment marker, no quote, and no newline classifies back to exactly that
/// same single span.
pub proof fn lemma_code_roundtrip(s: Seq<char>)
    requires
        s.len() > 0,
        forall|i: int| 0 <= i < s.len() ==> s[i] != '/' && s[i] != '"' && s[i] != '\n',
    ensures
        classified(lexed(s)) == Ok::<Seq<ElModel>, Token>(seq![ElModel::Code(s)]),
{
    lemma_plain_text_is_code_lines(s);
    lemma_line_chunks_without_newline(s);
    assert(lines_of(s) == seq![s]);
    assert(code_spans(seq![s]) =~= seq![ElModel::Code(s)]);
}

} // verus!
