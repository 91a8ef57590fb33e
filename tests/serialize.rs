use sgf_parse::{parse, parse_with_options, serialize, ParseOptions};

#[test]
fn simple_sgf() {
    let sgf = "(;C[Some comment];B[de]FOO[bar][baz];W[fe])(;B[de];W[ff])";
    let game_trees = parse(sgf).unwrap();
    let result = serialize(&game_trees);
    assert_eq!(result, sgf);
}

#[test]
fn round_trip_is_stable() {
    let texts = [
        "(;FF[4]GM[1]SZ[19]KM[6.5]PB[Black]PW[White];B[pd]C[a \\] and a \\\\ and a\\: colon];W[dp](;B[pp]LB[aa:x][bb:y])(;B[dd]AR[aa:bb]TR[cc:dd]))",
        "(;GM[37]MA[a:b]W[rp.pm])(;ZZ[foo][bar];B[])",
        "(;AB[aa:bb]FG[]VW[];KO[]B[cc])",
    ];
    for text in texts.iter() {
        let first = parse(text).unwrap();
        let written = serialize(&first);
        let second = parse(&written).unwrap();
        assert_eq!(first, second);
        assert_eq!(serialize(&second), written);
    }
}

#[test]
fn lenient_recovery() {
    let input = "(;B[cc];W[dd];B[ee";
    let options = ParseOptions { lenient: true, ..ParseOptions::default() };
    let trees = parse_with_options(input, &options).unwrap();
    let root = trees[0].as_go_node().unwrap();
    let line = root.main_variation();
    assert_eq!(line.len(), 3);
    assert_eq!(line[2].properties().len(), 0);
    assert!(parse(input).is_err());
}

#[test]
fn long_sequences_do_not_exhaust_the_stack() {
    let input = format!("({})", ";".repeat(100_000));
    let result = parse(&input);
    assert!(result.is_ok());
    let trees = result.unwrap();
    assert_eq!(trees.len(), 1);
    // a chain this deep is released without walking it recursively
    std::mem::forget(trees);
}

#[test]
fn deep_nesting_parses() {
    let mut input = String::from("(;");
    for _ in 0..50_000 {
        input.push_str("(;");
    }
    for _ in 0..50_001 {
        input.push(')');
    }
    let result = parse(&input);
    assert!(result.is_ok());
    std::mem::forget(result);
}

#[test]
fn serialize_built_trees() {
    use_built_trees();
}

fn use_built_trees() {
    let first_node: sgf_parse::SgfNode<sgf_parse::go::Prop> = sgf_parse::SgfNode::new(
        vec![sgf_parse::go::Prop::SZ((19, 19))],
        vec![sgf_parse::SgfNode::new(
            vec![<sgf_parse::go::Prop as sgf_parse::SgfProp>::new(
                "B".to_string(),
                vec!["dd".to_string()],
            )],
            vec![],
            false,
        )],
        true,
    );
    let second_node = sgf_parse::SgfNode::new(
        vec![sgf_parse::go::Prop::C(sgf_parse::Text { text: "A comment".to_string() })],
        vec![],
        true,
    );
    let gametrees: Vec<sgf_parse::GameTree> = vec![first_node.into(), second_node.into()];
    assert_eq!(serialize(&gametrees), "(;SZ[19:19];B[dd])(;C[A comment])");
}
