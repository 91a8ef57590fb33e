use std::collections::HashSet;

use sgf_parse::go::{Move, Point};
use sgf_parse::props::parse::{
    parse_elist, parse_list, parse_list_composed, parse_list_point, parse_single_value,
    parse_tuple, split_compose, verify_empty,
};
use sgf_parse::values::FromSgf;
use sgf_parse::{go, unknown_game, Color, Double, PropertyType, Real, SgfProp, SimpleText, Text, ToSgf};

fn strings(vals: &[&str]) -> Vec<String> {
    vals.iter().map(|v| v.to_string()).collect()
}

fn expected_points() -> HashSet<Point> {
    vec![
        (15, 16),
        (16, 16),
        (17, 16),
        (18, 16),
        (15, 17),
        (16, 17),
        (17, 17),
        (18, 17),
        (15, 18),
        (16, 18),
        (17, 18),
        (18, 18),
        (18, 14),
        (11, 17),
        (12, 17),
        (13, 17),
        (11, 18),
        (12, 18),
        (13, 18),
    ]
    .into_iter()
    .map(|(x, y)| Point { x, y })
    .collect()
}

#[test]
fn parse_parse_list_point() {
    let values = strings(&["pq:ss", "so", "lr:ns"]);
    let result: HashSet<_> = parse_list::<Point>(&values).unwrap().into_iter().collect();
    assert_eq!(result, expected_points());
}

#[test]
fn utils_parse_list_point() {
    let values = strings(&["pq:ss", "so", "lr:ns"]);
    let result: HashSet<_> = parse_list_point::<Point>(&values).unwrap().into_iter().collect();
    assert_eq!(result, expected_points());
}

#[test]
fn format_text() {
    let text = Text {
        text: "Comment with\trandom whitespace\nescaped \\] and \\\\ and a soft \\\nlinebreak"
            .to_string(),
    };
    let expected = "Comment with random whitespace\nescaped ] and \\ and a soft linebreak";

    assert_eq!(text.rendered(), expected);
}

#[test]
fn format_simple_text() {
    let text = SimpleText {
        text: "Comment with\trandom\r\nwhitespace\n\rescaped \\] and \\\\ and\na soft \\\nlinebreak"
            .to_string(),
    };
    let expected = "Comment with random whitespace escaped ] and \\ and a soft linebreak";

    assert_eq!(text.rendered(), expected);
}

#[test]
fn rectangle_expands_to_every_point() {
    let result = parse_list::<Point>(&strings(&["aa:bb"])).unwrap();
    assert_eq!(
        result,
        vec![Point { x: 0, y: 0 }, Point { x: 0, y: 1 }, Point { x: 1, y: 0 }, Point { x: 1, y: 1 }]
    );
}

#[test]
fn inverted_rectangle_fails() {
    assert!(parse_list::<Point>(&strings(&["bb:aa"])).is_err());
    assert!(parse_list::<Point>(&strings(&["ba:ab"])).is_err());
}

#[test]
fn duplicate_point_across_entries_fails() {
    assert!(parse_list::<Point>(&strings(&["aa", "aa"])).is_err());
    assert!(parse_list::<Point>(&strings(&["aa:bb", "ba"])).is_err());
    assert!(parse_elist::<String>(&strings(&["x", "x"])).is_err());
}

#[test]
fn lists_empty_and_non_empty() {
    assert!(parse_list::<Point>(&strings(&[])).is_err());
    assert_eq!(parse_elist::<Point>(&strings(&[])).unwrap(), vec![]);
    assert!(parse_elist::<Point>(&strings(&["a"])).is_err());
}

#[test]
fn composed_pairs() {
    let pairs = parse_list_composed::<Point>(&strings(&["aa:bb", "bb:cc"])).unwrap();
    assert_eq!(pairs.len(), 2);
    assert_eq!(pairs[0], (Point { x: 0, y: 0 }, Point { x: 1, y: 1 }));
    assert!(parse_list_composed::<Point>(&strings(&["aa:aa"])).is_err());
    assert!(parse_list_composed::<Point>(&strings(&["aa:bb", "aa:bb"])).is_err());
    assert!(parse_list_composed::<Point>(&strings(&["aabb"])).is_err());
}

#[test]
fn split_on_first_colon() {
    assert_eq!(split_compose("a:b:c").unwrap(), ("a".to_string(), "b:c".to_string()));
    assert!(split_compose("abc").is_err());
    let (n, t): (i64, SimpleText) = parse_tuple("12:name").unwrap();
    assert_eq!(n, 12);
    assert_eq!(t.text, "name");
}

#[test]
fn single_values_and_flags() {
    assert_eq!(parse_single_value::<i64>(&strings(&["-17"])).unwrap(), -17);
    assert_eq!(parse_single_value::<i64>(&strings(&["+5"])).unwrap(), 5);
    assert!(parse_single_value::<i64>(&strings(&["5", "6"])).is_err());
    assert!(parse_single_value::<i64>(&strings(&["9223372036854775808"])).is_err());
    assert_eq!(
        parse_single_value::<i64>(&strings(&["-9223372036854775808"])).unwrap(),
        i64::MIN
    );
    assert!(parse_single_value::<i64>(&strings(&["1.5"])).is_err());
    assert!(verify_empty(&strings(&[])).is_ok());
    assert!(verify_empty(&strings(&[""])).is_ok());
    assert!(verify_empty(&strings(&["x"])).is_err());
}

#[test]
fn value_codecs() {
    assert_eq!(Double::from_sgf("2"), Some(Double::Two));
    assert_eq!(Double::from_sgf("3"), None);
    assert_eq!(Color::from_sgf("W"), Some(Color::White));
    assert_eq!(Move::from_sgf(""), Some(Move::Pass));
    assert_eq!(Point::from_sgf("Cd"), Some(Point { x: 2, y: 3 }));
    assert_eq!(Point::from_sgf("c"), None);
    assert!(Real::from_sgf("6.5").is_some());
    assert!(Real::from_sgf("-3").is_some());
    assert!(Real::from_sgf("6.").is_none());
    assert!(Real::from_sgf("abc").is_none());
    assert_eq!(Point { x: 3, y: 4 }.to_sgf(), "de");
    assert_eq!((-120i64).to_sgf(), "-120");
    assert_eq!(0i64.to_sgf(), "0");
    assert_eq!(SimpleText { text: "a]b:c\\".to_string() }.to_sgf(), "a\\]b\\:c\\\\");
}

#[test]
fn unknown_identifier_passthrough() {
    let prop = go::Prop::new("ZZ".to_string(), strings(&["foo"]));
    assert_eq!(prop, go::Prop::Unknown("ZZ".to_string(), strings(&["foo"])));
    assert_eq!(prop.to_sgf_string(), "ZZ[foo]");
    assert_eq!(prop.identifier(), "ZZ");
    assert_eq!(prop.property_type(), None);
}

#[test]
fn known_identifier_bad_value() {
    let prop = go::Prop::new("HA".to_string(), strings(&["1"]));
    assert_eq!(prop, go::Prop::Invalid("HA".to_string(), strings(&["1"])));
    let nodes = go::parse("(;HA[1]B[aa])").unwrap();
    assert_eq!(nodes[0].properties().len(), 2);
}

#[test]
fn range_checked_numbers() {
    assert_eq!(go::Prop::new("FF".to_string(), strings(&["4"])), go::Prop::FF(4));
    assert!(matches!(go::Prop::new("FF".to_string(), strings(&["5"])), go::Prop::Invalid(..)));
    assert!(matches!(go::Prop::new("ST".to_string(), strings(&["4"])), go::Prop::Invalid(..)));
    assert!(matches!(go::Prop::new("PM".to_string(), strings(&["0"])), go::Prop::Invalid(..)));
    assert_eq!(go::Prop::new("HA".to_string(), strings(&["2"])), go::Prop::HA(2));
}

#[test]
fn go_properties_are_unknown_elsewhere() {
    let prop = unknown_game::Prop::new("HA".to_string(), strings(&["3"]));
    assert_eq!(prop, unknown_game::Prop::Unknown("HA".to_string(), strings(&["3"])));
}

#[test]
fn size_figure_labels() {
    assert_eq!(go::Prop::new("SZ".to_string(), strings(&["13:9"])), go::Prop::SZ((13, 9)));
    assert_eq!(go::Prop::new("SZ".to_string(), strings(&["19"])), go::Prop::SZ((19, 19)));
    assert_eq!(go::Prop::new("FG".to_string(), strings(&[""])), go::Prop::FG(None));
    let fg = go::Prop::new("FG".to_string(), strings(&["7:diagram"]));
    assert_eq!(fg.to_sgf_string(), "FG[7:diagram]");
    let lb = go::Prop::new("LB".to_string(), strings(&["aa:one", "bb:two"]));
    assert_eq!(lb.to_sgf_string(), "LB[aa:one][bb:two]");
    assert!(matches!(go::Prop::new("LB".to_string(), strings(&[])), go::Prop::Invalid(..)));
    let ap = go::Prop::new("AP".to_string(), strings(&["Prog:1.0"]));
    assert_eq!(ap.to_sgf_string(), "AP[Prog:1.0]");
}

#[test]
fn property_categories() {
    assert_eq!(go::Prop::new("B".to_string(), strings(&["aa"])).property_type(), Some(PropertyType::Move));
    assert_eq!(go::Prop::new("AB".to_string(), strings(&["aa"])).property_type(), Some(PropertyType::Setup));
    assert_eq!(go::Prop::new("SZ".to_string(), strings(&["9"])).property_type(), Some(PropertyType::Root));
    assert_eq!(go::Prop::new("KM".to_string(), strings(&["6.5"])).property_type(), Some(PropertyType::GameInfo));
    assert_eq!(go::Prop::new("VW".to_string(), strings(&[])).property_type(), Some(PropertyType::Inherit));
    assert_eq!(go::Prop::new("C".to_string(), strings(&["x"])).property_type(), None);
}

#[test]
fn values_read_back_from_their_text() {
    for v in [0i64, 7, -120, i64::MAX, i64::MIN].iter() {
        assert_eq!(i64::from_sgf(&v.to_sgf()), Some(*v));
    }
    for x in 0u8..26 {
        let p = Point { x, y: 25 - x };
        assert_eq!(Point::from_sgf(&p.to_sgf()), Some(p));
        assert_eq!(Move::from_sgf(&Move::Move(p).to_sgf()), Some(Move::Move(p)));
    }
    assert_eq!(Move::from_sgf(&Move::Pass.to_sgf()), Some(Move::Pass));
    assert_eq!(Double::from_sgf(&Double::One.to_sgf()), Some(Double::One));
    assert_eq!(Color::from_sgf(&Color::Black.to_sgf()), Some(Color::Black));
}

#[test]
fn raw_property_reads_back() {
    use_raw_property();
}

fn use_raw_property() {
    let prop = go::Prop::new("ZZ".to_string(), strings(&["a]b", "c\\d:e"]));
    let text = format!("(;{})", prop.to_sgf_string());
    assert_eq!(text, "(;ZZ[a\\]b][c\\\\d\\:e])");
    let (tokens, _, err) = sgf_parse::lexer::tokenize(&text);
    assert_eq!(err, None);
    assert_eq!(
        tokens[2],
        sgf_parse::lexer::Token::Property(("ZZ".to_string(), strings(&["a]b", "c\\d:e"])))
    );
}
