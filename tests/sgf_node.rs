use sgf_parse::go::parse;
use sgf_parse::{go, InvalidNodeError, SgfNode, SgfProp};

#[test]
fn validate_valid_node() {
    let sgf = "(;SZ[9]HA[3]C[Some comment];B[de];W[fe])";
    let node = &parse(sgf).unwrap()[0];
    assert!(node.validate().is_ok());
}

#[test]
fn validate_unexpected_root_properties() {
    let sgf = "(;SZ[9]C[Some comment];GM[1])";
    let node = &parse(sgf).unwrap()[0];
    assert!(matches!(node.validate(), Err(InvalidNodeError::UnexpectedRootProperties(_))));
}

#[test]
fn validate_unexpected_game_info() {
    let sgf = "(;SZ[9]KM[3.5]C[Some comment];HA[3])";
    let node = &parse(sgf).unwrap()[0];
    assert!(matches!(node.validate(), Err(InvalidNodeError::UnexpectedGameInfo(_))));
}

#[test]
fn validate_repeated_markup() {
    let sgf = "(;SZ[9]KM[3.5]C[Some comment];CR[dd]TR[dd])";
    let node = &parse(sgf).unwrap()[0];
    assert!(matches!(node.validate(), Err(InvalidNodeError::RepeatedMarkup(_))));
}

#[test]
fn validate_multiple_moves() {
    let sgf = "(;SZ[9]C[Some comment];B[dd]W[cd])";
    let node = &parse(sgf).unwrap()[0];
    assert!(matches!(node.validate(), Err(InvalidNodeError::MultipleMoves(_))));
}

#[test]
fn validate_repeated_identifier() {
    let sgf = "(;SZ[9]HA[3]HA[4])";
    let node = &parse(sgf).unwrap()[0];
    assert!(matches!(node.validate(), Err(InvalidNodeError::RepeatedIdentifier(_))));
}

#[test]
fn validate_setup_and_move() {
    let sgf = "(;AB[dd]B[cc])";
    let node = &parse(sgf).unwrap()[0];
    assert!(matches!(node.validate(), Err(InvalidNodeError::SetupAndMove(_))));
}

#[test]
fn validate_ko_without_move() {
    let sgf = "(;KO[])";
    let node = &parse(sgf).unwrap()[0];
    assert!(matches!(node.validate(), Err(InvalidNodeError::KoWithoutMove(_))));
}

#[test]
fn validate_multiple_move_annotations() {
    let sgf = "(;B[dd]DO[]BM[1])";
    let node = &parse(sgf).unwrap()[0];
    assert!(matches!(node.validate(), Err(InvalidNodeError::MultipleMoveAnnotations(_))));
}

#[test]
fn validate_unexpected_move_annotation() {
    let sgf = "(;BM[1])";
    let node = &parse(sgf).unwrap()[0];
    assert!(matches!(node.validate(), Err(InvalidNodeError::UnexpectedMoveAnnotation(_))));
}

#[test]
fn validate_multiple_exclusive_annotations() {
    let sgf = "(;UC[2]GW[2])";
    let node = &parse(sgf).unwrap()[0];
    assert!(matches!(node.validate(), Err(InvalidNodeError::MultipleExclusiveAnnotations(_))));
}

#[test]
fn validate_invalid_property() {
    let sgf = "(;BM[Invalid])";
    let node = &parse(sgf).unwrap()[0];
    assert!(matches!(node.validate(), Err(InvalidNodeError::InvalidProperty(_))));
}

#[test]
fn validate_move_and_setup_exclusive() {
    let node = &parse("(;B[aa]AW[bb])").unwrap()[0];
    assert!(matches!(node.validate(), Err(InvalidNodeError::SetupAndMove(_))));
}

#[test]
fn validate_game_info_once_per_path() {
    let node = &parse("(;KM[6.5];HA[3])").unwrap()[0];
    assert!(matches!(node.validate(), Err(InvalidNodeError::UnexpectedGameInfo(_))));
    let node = &parse("(;C[root](;KM[6.5])(;HA[3]))").unwrap()[0];
    assert!(node.validate().is_ok());
    let node = &parse("(;KM[6.5];C[middle];HA[3])").unwrap()[0];
    assert!(matches!(node.validate(), Err(InvalidNodeError::UnexpectedGameInfo(_))));
}

#[test]
fn validate_twice_same_result() {
    let node = &parse("(;SZ[9]HA[3]C[Some comment];B[de];W[fe])").unwrap()[0];
    assert_eq!(node.validate(), Ok(()));
    assert_eq!(node.validate(), Ok(()));
}

#[test]
fn node_queries() {
    let node = &parse("(;GM[1]B[tt]C[Comment]C[Again])").unwrap()[0];
    assert_eq!(
        node.get_move(),
        Some(&go::Prop::new("B".to_string(), vec!["tt".to_string()]))
    );
    assert!(matches!(node.get_property("C"), Some(go::Prop::C(t)) if t.text == "Comment"));
    assert!(node.get_property("W").is_none());
    assert!(node.has_game_info() == false);
    assert!(matches!(node.validate(), Err(InvalidNodeError::RepeatedIdentifier(_))));
}

#[test]
fn node_serialize() {
    let sgf = "(;SZ[13:13];B[de])";
    let node = parse(sgf).unwrap().into_iter().next().unwrap();
    assert_eq!(node.serialize(), "(;SZ[13:13];B[de])");
    let built: SgfNode<go::Prop> = SgfNode::new(
        vec![go::Prop::SZ((19, 19))],
        vec![SgfNode::new(
            vec![go::Prop::new("B".to_string(), vec!["dd".to_string()])],
            vec![],
            false,
        )],
        true,
    );
    assert_eq!(built.serialize(), "(;SZ[19:19];B[dd])");
}

#[test]
fn main_variation_follows_first_children() {
    let sgf = "(;B[ee];W[ce](;B[ge](;W[gd])(;W[gf]))(;B[ce]))";
    let node = &parse(sgf).unwrap()[0];
    let moves: Vec<go::Prop> = node
        .main_variation()
        .iter()
        .map(|n| n.get_move().unwrap().clone())
        .collect();
    let expected: Vec<go::Prop> = ["ee", "ce", "ge", "gd"]
        .iter()
        .zip(["B", "W", "B", "W"].iter())
        .map(|(v, id)| go::Prop::new(id.to_string(), vec![v.to_string()]))
        .collect();
    assert_eq!(moves, expected);
}

#[test]
fn validate_deep_tree() {
    let input = format!("(;C[top]{})", ";C[x]".repeat(100_000));
    let nodes = parse(&input).unwrap();
    assert!(nodes[0].validate().is_ok());
    // a chain this deep is released without walking it recursively
    std::mem::forget(nodes);
}

#[test]
fn error_messages() {
    use_messages();
}

fn use_messages() {
    let node = &parse("(;B[dd]W[cd])").unwrap()[0];
    let err = node.validate().unwrap_err();
    assert_eq!(err.message(), "B and W moves in same node: B[dd]W[cd]");
    assert_eq!(
        sgf_parse::SgfParseError::LexerError(sgf_parse::LexerError::MissingPropertyIdentifier).message(),
        "Error tokenizing: Missing property identifier"
    );
    assert_eq!(sgf_parse::SgfParseError::UnexpectedEndOfData.message(), "Unexpected end of data");
    assert_eq!(sgf_parse::SgfPropError {}.message(), "Invalid property value");
}

#[test]
fn clone_copies_the_tree() {
    let node = parse("(;SZ[19](;B[de];W[ee])(;B[dd]LB[aa:x]))").unwrap().pop().unwrap();
    let copy = node.clone();
    assert_eq!(copy, node);
    let trees = sgf_parse::parse("(;GM[37]B[x])").unwrap();
    assert_eq!(trees.clone(), trees);
}
