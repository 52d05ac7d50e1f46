use querydown::ast::{ConditionSet, Definitions, Query};
use querydown::{parse, parse_conditions, parse_definitions, parse_display, parse_sorting};

#[test]
fn test_parse_sections_reassemble_into_whole_query() {
    // Parsing each section in isolation and reassembling via `Query::from_parts` yields the same
    // AST as parsing the equivalent whole query in one shot.
    let definitions = parse_definitions("@user_id = 1234").unwrap();
    let conditions = parse_conditions("author:@user_id").unwrap();
    let sorting = parse_sorting(r"\\created_at \d").unwrap();
    let display = parse_display("$id $title").unwrap();
    let reassembled = Query::from_parts(
        "issues".to_string(),
        definitions,
        conditions,
        sorting,
        display,
    );

    let whole =
        parse("@user_id = 1234\n#issues author:@user_id \\\\created_at \\d $id $title").unwrap();

    assert_eq!(reassembled, whole);
}

#[test]
fn test_empty_sections_parse_to_empty_results() {
    assert_eq!(parse_definitions("").unwrap(), Definitions::default());
    assert_eq!(parse_conditions("").unwrap(), ConditionSet::default());
    assert_eq!(parse_sorting("").unwrap(), vec![]);
    assert!(parse_display("").unwrap().is_empty());
    // Whitespace and comments alone are also empty.
    assert_eq!(
        parse_definitions("  // nothing here\n").unwrap(),
        Definitions::default()
    );
}

#[test]
fn test_sections_are_isolated() {
    // A constant definition is only valid in the definitions section; it is rejected when fed to
    // the conditions parser. This isolation is the whole point of the section parsers.
    assert!(parse_definitions("@user_id = 1234").is_ok());
    assert!(parse_conditions("@user_id = 1234").is_err());
    // Likewise, a `$`-prefixed display column is rejected by the conditions parser.
    assert!(parse_conditions("$id").is_err());
}

#[test]
fn parse_errors_carry_the_invalid_code_message() {
    assert_eq!(parse("").unwrap_err(), "Invalid querydown code");
    assert_eq!(parse_conditions("$id").unwrap_err(), "Invalid querydown code");
    assert_eq!(parse_display("id").unwrap_err(), "Invalid querydown code");
}
