use sgf_parse::lexer::{tokenize, Token};
use sgf_parse::LexerError;

fn prop(id: &str, vals: &[&str]) -> Token {
    Token::Property((id.to_string(), vals.iter().map(|v| v.to_string()).collect()))
}

fn tokens_with_ranges(sgf: &str) -> Vec<(Token, std::ops::Range<usize>)> {
    let (tokens, spans, err) = tokenize(sgf);
    assert_eq!(err, None);
    tokens.into_iter().zip(spans.into_iter().map(|(a, b)| a..b)).collect()
}

#[test]
fn lexer() {
    let sgf = "(;SZ[9]C[Some comment];B[de];W[fe])(;B[de];W[ff])";
    let expected = vec![
        (Token::StartGameTree, 0..1),
        (Token::StartNode, 1..2),
        (prop("SZ", &["9"]), 2..7),
        (prop("C", &["Some comment"]), 7..22),
        (Token::StartNode, 22..23),
        (prop("B", &["de"]), 23..28),
        (Token::StartNode, 28..29),
        (prop("W", &["fe"]), 29..34),
        (Token::EndGameTree, 34..35),
        (Token::StartGameTree, 35..36),
        (Token::StartNode, 36..37),
        (prop("B", &["de"]), 37..42),
        (Token::StartNode, 42..43),
        (prop("W", &["ff"]), 43..48),
        (Token::EndGameTree, 48..49),
    ];
    assert_eq!(tokens_with_ranges(sgf), expected);
}

#[test]
fn handles_old_style_properties() {
    let sgf = "(;CoPyright[text])";
    let expected = vec![
        (Token::StartGameTree, 0..1),
        (Token::StartNode, 1..2),
        (prop("CoPyright", &["text"]), 2..17),
        (Token::EndGameTree, 17..18),
    ];
    assert_eq!(tokens_with_ranges(sgf), expected);
}

#[test]
fn lexer_escapes_and_whitespace() {
    let (tokens, _, err) = tokenize("( ;C[a\\]b\\\\c] [d]\n;)");
    assert_eq!(err, None);
    assert_eq!(
        tokens,
        vec![
            Token::StartGameTree,
            Token::StartNode,
            prop("C", &["a]b\\c", "d"]),
            Token::StartNode,
            Token::EndGameTree,
        ]
    );
}

#[test]
fn lexer_unterminated_value() {
    let (tokens, _, err) = tokenize("(;B[cc];W[dd");
    assert_eq!(err, Some(LexerError::UnexpectedEndOfProperty));
    assert_eq!(tokens.len(), 4);
}

#[test]
fn lexer_missing_value() {
    let (tokens, _, err) = tokenize("(;B[cc];W");
    assert_eq!(err, Some(LexerError::MissingPropertyIdentifier));
    assert_eq!(tokens.len(), 4);
}

#[test]
fn lexer_non_ascii_identifier() {
    let (tokens, _, err) = tokenize("(;Bé[cc])");
    assert_eq!(err, Some(LexerError::UnexpectedPropertyIdentifier));
    assert_eq!(tokens.len(), 2);
}

#[test]
fn lexer_drops_soft_line_breaks() {
    let (tokens, _, err) = tokenize("(;C[a\\\nb\\\r\nc\\\rd\\\n\re\\\n\nf])");
    assert_eq!(err, None);
    assert_eq!(tokens[2], prop("C", &["abcde\nf"]));
}
