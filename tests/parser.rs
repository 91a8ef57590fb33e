use sgf_parse::go;
use sgf_parse::unknown_game;
use sgf_parse::{parse, parse_with_options, GameTree, GameType, ParseOptions, SgfParseError, SimpleText};

fn lenient() -> ParseOptions {
    ParseOptions { lenient: true, ..ParseOptions::default() }
}

#[test]
fn invalid_property() {
    let input = "(;GM[1]W[rp.pmonpoqprpsornqmpm])";
    let sgf_nodes = go::parse(input).unwrap();
    let expected = vec![
        go::Prop::GM(1),
        go::Prop::Invalid("W".to_string(), vec!["rp.pmonpoqprpsornqmpm".to_string()]),
    ];

    assert_eq!(sgf_nodes.len(), 1);
    let sgf_node = &sgf_nodes[0];
    assert_eq!(sgf_node.properties().to_vec(), expected);
}

#[test]
fn unknown_game() {
    let input = "(;GM[37]W[rp.pmonpoqprpsornqmpm])";
    let gametrees = parse(input).unwrap();
    assert_eq!(gametrees.len(), 1);
    assert_eq!(gametrees[0].gametype(), GameType::Unknown);
    let sgf_node = match &gametrees[0] {
        GameTree::Unknown(node) => node,
        _ => panic!("Unexpected game type"),
    };
    let expected = vec![
        unknown_game::Prop::GM(37),
        unknown_game::Prop::W("rp.pmonpoqprpsornqmpm".into()),
    ];

    assert_eq!(sgf_node.properties().to_vec(), expected);
}

#[test]
fn mixed_games() {
    let input = "(;GM[1];W[dd])(;GM[37]W[rp.pmonpoqprpsornqmpm])";
    let gametrees = parse(input).unwrap();
    assert_eq!(gametrees.len(), 2);
    assert_eq!(gametrees[0].gametype(), GameType::Go);
    assert_eq!(gametrees[1].gametype(), GameType::Unknown);
}

#[test]
fn stack_overflow() {
    let input = format!("({})", ";".repeat(646));
    let result = parse(&input);
    assert!(result.is_ok());
}

#[test]
fn converts_up_ff3_property() {
    let input = "(;GM[1]FF[3]CoPyright[test])";
    let expected = vec![
        go::Prop::GM(1),
        go::Prop::FF(3),
        go::Prop::CP(SimpleText { text: "test".to_string() }),
    ];

    let sgf_nodes = go::parse(input).unwrap();

    assert_eq!(sgf_nodes.len(), 1);
    let properties = sgf_nodes[0].properties().to_vec();
    assert_eq!(properties, expected);
}

#[test]
fn doesnt_convert_if_not_allowed() {
    let input = "(;GM[1]FF[3]CoPyright[test])";
    let parse_options = ParseOptions {
        convert_mixed_case_identifiers: false,
        ..ParseOptions::default()
    };
    let result = parse_with_options(input, &parse_options);
    assert_eq!(result, Err(SgfParseError::InvalidFF4Property));
}

#[test]
fn compressed_list_for_unknown_game() {
    let input = "(;GM[]MA[a:b])";
    let gametree = parse(&input).unwrap().pop().unwrap();
    let node = match gametree {
        GameTree::Unknown(node) => node,
        _ => panic!("Expected Unknown Game type"),
    };
    match node.get_property("MA") {
        Some(unknown_game::Prop::MA(values)) => {
            assert_eq!(values.len(), 1);
            assert!(values.contains(&"a:b".to_string()));
        }
        _ => panic!("MA prop not found"),
    }
}

#[test]
fn strips_whitespace() {
    let input = "\n(;GM[1];B[cc])";
    let sgf_nodes = go::parse(&input).unwrap();
    assert_eq!(sgf_nodes.len(), 1);
}

#[test]
fn lenient_parsing_unclosed_parens_ok() {
    let input = "\n(;GM[1];B[cc]";
    let game_trees = parse_with_options(input, &lenient()).unwrap();
    assert_eq!(game_trees.len(), 1);
}

#[test]
fn lenient_parsing_ignores_trailing_garbage() {
    let input = "\n(;GM[1];B[cc]))";
    let game_trees = parse_with_options(input, &lenient()).unwrap();
    assert_eq!(game_trees.len(), 1);
}

#[test]
fn lenient_parsing_handles_unescaped_property_end() {
    let input = "(;B[cc];W[dd];C[username [12k]: foo])";
    let game_trees = parse_with_options(input, &lenient()).unwrap();
    assert_eq!(game_trees.len(), 1);
    let sgf_node = game_trees[0].as_go_node().unwrap();
    assert_eq!(sgf_node.main_variation().len(), 3);
}

#[test]
fn lenient_parsing_handles_unclosed_property_value() {
    let input = "(;B[cc];W[dd];B[ee";
    let game_trees = parse_with_options(input, &lenient()).unwrap();
    assert_eq!(game_trees.len(), 1);
    let sgf_node = game_trees[0].as_go_node().unwrap();
    assert_eq!(sgf_node.main_variation().len(), 3);
    assert_eq!(sgf_node.main_variation().last().unwrap().properties.len(), 0);
}

#[test]
fn lenient_parsing_handles_missing_property_value() {
    let input = "(;B[cc];W[dd];B";
    let game_trees = parse_with_options(input, &lenient()).unwrap();
    assert_eq!(game_trees.len(), 1);
    let sgf_node = game_trees[0].as_go_node().unwrap();
    assert_eq!(sgf_node.main_variation().len(), 3);
    assert_eq!(sgf_node.main_variation().last().unwrap().properties.len(), 0);
}

#[test]
fn lenient_parsing_handles_missing_first_node_start() {
    let input = "(B[cc])";
    let game_trees = parse_with_options(input, &lenient()).unwrap();
    assert_eq!(game_trees.len(), 1);
    let sgf_node = game_trees[0].as_go_node().unwrap();
    assert_eq!(sgf_node.main_variation().len(), 1);
    assert_eq!(sgf_node.main_variation().last().unwrap().properties.len(), 0);
}

#[test]
fn strict_parsing_errors() {
    assert_eq!(parse("(;B[cc]").unwrap_err(), SgfParseError::UnexpectedEndOfData);
    assert_eq!(parse("(;B[cc]))").unwrap_err(), SgfParseError::UnexpectedGameTreeEnd);
    assert_eq!(parse("(B[cc])").unwrap_err(), SgfParseError::UnexpectedProperty);
    assert_eq!(parse("(;B[cc]((;W[dd])))").unwrap_err(), SgfParseError::UnexpectedGameTreeStart);
    assert_eq!(parse("(;GM[1]GM[2])").unwrap_err(), SgfParseError::UnexpectedProperty);
    assert_eq!(
        parse("(;B[cc").unwrap_err(),
        SgfParseError::LexerError(sgf_parse::LexerError::UnexpectedEndOfProperty)
    );
    assert_eq!(go::parse("(;GM[2])").unwrap_err(), SgfParseError::UnexpectedGameType);
}

#[test]
fn variations_nest_under_the_last_node() {
    let node = go::parse("(;SZ[19](;B[de];W[ee])(;B[dd]HO[2]))").unwrap().pop().unwrap();
    assert!(node.is_root);
    assert_eq!(node.children().len(), 2);
    assert_eq!(node.children()[0].children().len(), 1);
    assert!(!node.children()[0].is_root);
    assert_eq!(node.children()[1].properties().len(), 2);
    assert_eq!(node.main_variation().len(), 3);
}

#[test]
fn text_without_trees() {
    assert_eq!(parse("").unwrap_err(), SgfParseError::UnexpectedEndOfData);
    assert_eq!(parse("   ").unwrap_err(), SgfParseError::UnexpectedEndOfData);
    assert_eq!(parse(";B[aa]").unwrap_err(), SgfParseError::UnexpectedEndOfData);
    assert_eq!(parse("(;B[aa]);W[bb]").unwrap_err(), SgfParseError::UnexpectedEndOfData);
    for text in ["", "   ", ";B[aa]"].iter() {
        let trees = parse_with_options(text, &lenient()).unwrap();
        assert_eq!(trees.len(), 1);
        let root = trees[0].as_go_node().unwrap();
        assert!(root.is_root);
        assert_eq!(root.properties().len(), 0);
        assert_eq!(root.children().len(), 0);
    }
    let trees = parse_with_options("(;B[aa]);W[bb]", &lenient()).unwrap();
    assert_eq!(trees.len(), 1);
}

#[test]
fn lenient_two_gm_properties() {
    assert_eq!(parse("(;GM[]GM[]").unwrap_err(), SgfParseError::UnexpectedEndOfData);
    assert_eq!(parse("(;GM[1]GM[1])").unwrap_err(), SgfParseError::UnexpectedProperty);
    let trees = parse_with_options("(;GM[]GM[]", &lenient()).unwrap();
    assert_eq!(trees.len(), 1);
    assert_eq!(trees[0].as_go_node().unwrap().properties().len(), 0);
    let trees = parse_with_options("(;B[aa])(;GM[1]GM[1])", &lenient()).unwrap();
    assert_eq!(trees.len(), 1);
}

#[test]
fn gm_list_selects_unknown_game() {
    let trees = parse("(;GM[1][2];B[aa])").unwrap();
    assert_eq!(trees[0].gametype(), GameType::Unknown);
}
