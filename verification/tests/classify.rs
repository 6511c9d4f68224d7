use comment_classifier::El;
use comment_classifier::ParseError;
use comment_classifier::Token;
use comment_classifier::lex;
use comment_classifier::parse;

#[test]
fn single_line_comment() {
    let input = "//single line comment\n";
    let output = lex(input);
    let parsed = parse(output);
    assert_eq!(parsed, Ok(vec![El::SingleLineComment("single line comment".into())]));
}

#[test]
fn block_comment() {
    let input = "/*block comment*/";
    let output = lex(input);
    let parsed = parse(output);
    assert_eq!(parsed, Ok(vec![El::BlockComment("block comment".into())]));
}

#[test]
fn code() {
    let input = "let x = 1;\n";
    let output = lex(input);
    let parsed = parse(output);
    assert_eq!(parsed, Ok(vec![El::Code("let x = 1;".into())]));
}

#[test]
fn multiline_comment() {
    let input = "/*\n*multi line block comment\n*/";
    let output = lex(input);
    let parsed = parse(output);
    assert_eq!(parsed, Ok(vec![El::BlockComment("\n*multi line block comment\n".into())]));
}

#[test]
fn single_line_comment_w_fake_block_comment() {
    let input = "//single line comment /* fake block comment */\n";
    let output = lex(input);
    let parsed = parse(output);
    assert_eq!(
        parsed,
        Ok(vec![El::SingleLineComment("single line comment /* fake block comment */".into())])
    );
}

#[test]
fn block_comment_w_fake_single_line_comment() {
    let input = "/*block comment // fake single line comment */";
    let output = lex(input);
    let parsed = parse(output);
    assert_eq!(
        parsed,
        Ok(vec![El::BlockComment("block comment // fake single line comment ".into())])
    );
}

#[test]
fn string_w_slash() {
    let input = "\"/string w/ slash /\"";
    let output = lex(input);
    let parsed = parse(output);
    assert_eq!(parsed, Ok(vec![El::Code("/string w/ slash /".into())]));
}

#[test]
fn string_w_star() {
    let input = "\"*string w/ star *\"";
    let output = lex(input);
    let parsed = parse(output);
    assert_eq!(parsed, Ok(vec![El::Code("*string w/ star *".into())]));
}

#[test]
fn single_line_comment_from_slashes() {
    let input = "//////\n";
    let output = lex(input);
    let parsed = parse(output);
    assert_eq!(parsed, Ok(vec![El::SingleLineComment("////".into())]));
}

#[test]
fn lex_maps_each_character_to_its_token() {
    let tokens = lex("a*\n/\"");
    assert_eq!(
        tokens,
        vec![Token::Char('a'), Token::Star, Token::NewLine, Token::FrontSlash, Token::DoubleQuote]
    );
}

#[test]
fn lex_of_empty_text_is_empty() {
    assert_eq!(lex(""), vec![]);
}

#[test]
fn plain_text_gives_one_code_segment_per_line() {
    let parsed = parse(lex("a\nbb\nccc"));
    assert_eq!(
        parsed,
        Ok(vec![El::Code("a".into()), El::Code("bb".into()), El::Code("ccc".into())])
    );
}

#[test]
fn empty_line_gives_empty_code_segment() {
    let parsed = parse(lex("a\n\n"));
    assert_eq!(parsed, Ok(vec![El::Code("a".into()), El::Code("".into())]));
}

#[test]
fn empty_input_gives_no_segments() {
    assert_eq!(parse(lex("")), Ok(vec![]));
}

#[test]
fn line_markers_in_string_literal_stay_code() {
    let parsed = parse(lex("\"a//b\""));
    assert_eq!(parsed, Ok(vec![El::Code("a//b".into())]));
}

#[test]
fn block_markers_in_string_literal_stay_code() {
    let parsed = parse(lex("\"a/*b\""));
    assert_eq!(parsed, Ok(vec![El::Code("a/*b".into())]));
}

#[test]
fn empty_string_literal_gives_empty_code_segment() {
    assert_eq!(parse(lex("\"\"")), Ok(vec![El::Code("".into())]));
}

#[test]
fn quote_inside_block_comment_is_dropped() {
    let parsed = parse(lex("/* a\"b */"));
    assert_eq!(parsed, Ok(vec![El::BlockComment(" ab ".into())]));
}

#[test]
fn quote_inside_line_comment_is_kept() {
    let parsed = parse(lex("//a\"b\n"));
    assert_eq!(parsed, Ok(vec![El::SingleLineComment("a\"b".into())]));
}

#[test]
fn interior_star_is_kept_in_block_comment() {
    let parsed = parse(lex("/*a*b*/"));
    assert_eq!(parsed, Ok(vec![El::BlockComment("a*b".into())]));
}

#[test]
fn code_segment_text_classifies_back_to_itself() {
    let first = parse(lex("let x = 1;\n")).unwrap();
    assert_eq!(first, vec![El::Code("let x = 1;".into())]);
    let recovered = match &first[0] {
        El::Code(text) => text.clone(),
        _ => panic!("expected a code segment"),
    };
    assert_eq!(parse(lex(&recovered)), Ok(first));
}

#[test]
fn malformed_opener_aborts() {
    let parsed = parse(lex("/x"));
    assert_eq!(parsed, Err(ParseError { token: Token::Char('x') }));
}

#[test]
fn newline_after_lone_slash_aborts() {
    let parsed = parse(lex("/\n"));
    assert_eq!(parsed, Err(ParseError { token: Token::NewLine }));
}

#[test]
fn trailing_code_without_newline_is_kept() {
    assert_eq!(parse(lex("ab")), Ok(vec![El::Code("ab".into())]));
}

#[test]
fn unterminated_line_comment_is_kept() {
    assert_eq!(parse(lex("//c")), Ok(vec![El::SingleLineComment("c".into())]));
}

#[test]
fn unterminated_block_comment_is_kept() {
    assert_eq!(parse(lex("/*c")), Ok(vec![El::BlockComment("c".into())]));
}

#[test]
fn unterminated_block_comment_keeps_pending_star() {
    assert_eq!(parse(lex("/*c*")), Ok(vec![El::BlockComment("c*".into())]));
}

#[test]
fn unterminated_string_literal_is_kept_as_code() {
    assert_eq!(parse(lex("\"ab")), Ok(vec![El::Code("ab".into())]));
}

#[test]
fn trailing_lone_slash_is_dropped() {
    assert_eq!(parse(lex("a\n/")), Ok(vec![El::Code("a".into())]));
}
