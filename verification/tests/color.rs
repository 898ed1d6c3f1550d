use coolcooler::color::parse_color;

#[test]
fn colors_by_components_hex_and_name() {
    assert_eq!(parse_color("255,128,0"), Ok([255, 128, 0]));
    assert_eq!(parse_color(" 1 , 2 ,3 "), Ok([1, 2, 3]));
    assert_eq!(parse_color("#FF6600"), Ok([255, 102, 0]));
    assert_eq!(parse_color("#ff6600"), Ok([255, 102, 0]));
    assert_eq!(parse_color("  Orange "), Ok([255, 165, 0]));
    assert_eq!(parse_color("PURPLE"), Ok([128, 0, 128]));
}

#[test]
fn color_errors_follow_the_integer_parser() {
    assert_eq!(parse_color("1,2"), Err("expected R,G,B, got 1,2".to_string()));
    assert_eq!(parse_color("1,2,300"), Err("number too large to fit in target type".to_string()));
    assert_eq!(parse_color("1,,3"), Err("cannot parse integer from empty string".to_string()));
    assert_eq!(parse_color("1,x,3"), Err("invalid digit found in string".to_string()));
    assert_eq!(parse_color("#FFF"), Err("expected #RRGGBB, got #FFF".to_string()));
    assert_eq!(parse_color("#GG0000"), Err("invalid digit found in string".to_string()));
    assert_eq!(parse_color("teal"), Err("unknown color: teal".to_string()));
    assert_eq!(parse_color("+1,2,3"), Ok([1, 2, 3]));
}
