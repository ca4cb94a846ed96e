use tileworld::parser::parse_command;
use tileworld::parser::parse_i64;
use tileworld::parser::tokenize;

#[test]
fn right_and_up_accumulate() {
    assert_eq!(parse_command("right 3 up 2"), (3, -2));
}

#[test]
fn whitespace_padding_changes_nothing() {
    assert_eq!(parse_command("   right 3 up 2"), (3, -2));
    assert_eq!(parse_command("right 3 up 2   "), (3, -2));
    assert_eq!(parse_command("\t right 3 up 2 \n"), (3, -2));
}

#[test]
fn empty_line_is_zero() {
    assert_eq!(parse_command(""), (0, 0));
    assert_eq!(parse_command("    \t  "), (0, 0));
}

#[test]
fn unrecognized_tokens_are_ignored() {
    assert_eq!(parse_command("jump fly swim"), (0, 0));
    assert_eq!(parse_command("Left RIGHT Up"), (0, 0));
}

#[test]
fn short_verbs() {
    assert_eq!(parse_command("l 2"), (-2, 0));
    assert_eq!(parse_command("r 2"), (2, 0));
    assert_eq!(parse_command("u 2"), (0, -2));
    assert_eq!(parse_command("d 2"), (0, 2));
}

#[test]
fn verb_without_magnitude_steps_one() {
    assert_eq!(parse_command("left"), (-1, 0));
    assert_eq!(parse_command("down"), (0, 1));
}

#[test]
fn bad_magnitude_is_consumed_and_counts_one() {
    assert_eq!(parse_command("right xx"), (1, 0));
    assert_eq!(parse_command("right xx up"), (1, -1));
}

#[test]
fn verb_in_magnitude_position_is_consumed() {
    // `right` consumes `up` as its (invalid) magnitude
    assert_eq!(parse_command("right up"), (1, 0));
}

#[test]
fn negative_magnitude_reverses() {
    assert_eq!(parse_command("left -2"), (2, 0));
}

#[test]
fn overflowing_magnitude_counts_one() {
    assert_eq!(parse_command("right 99999999999999999999"), (1, 0));
}

#[test]
fn opposite_commands_cancel() {
    assert_eq!(parse_command("left 4 right 4 up 1 down 1"), (0, 0));
}

#[test]
fn saturating_accumulation_clamps() {
    assert_eq!(
        parse_command("right 9223372036854775807 right 1"),
        (i64::MAX, 0)
    );
}

#[test]
fn tokenize_splits_on_whitespace() {
    let toks = tokenize("ab  cd\t e");
    let words: Vec<String> = toks.iter().map(|t| t.iter().collect()).collect();
    assert_eq!(words, vec!["ab".to_string(), "cd".to_string(), "e".to_string()]);
}

#[test]
fn parse_i64_accepts_signed_decimals() {
    assert_eq!(parse_i64(&vec!['4', '2']), Some(42));
    assert_eq!(parse_i64(&vec!['-', '7']), Some(-7));
    assert_eq!(parse_i64(&vec!['+', '7']), Some(7));
    assert_eq!(parse_i64(&vec!['0', '0', '9']), Some(9));
    assert_eq!(
        parse_i64(&vec![
            '-', '9', '2', '2', '3', '3', '7', '2', '0', '3', '6', '8', '5', '4', '7', '7', '5',
            '8', '0', '8'
        ]),
        Some(i64::MIN)
    );
}

#[test]
fn parse_i64_rejects_junk_and_overflow() {
    assert_eq!(parse_i64(&vec![]), None);
    assert_eq!(parse_i64(&vec!['-']), None);
    assert_eq!(parse_i64(&vec!['1', 'a']), None);
    assert_eq!(
        parse_i64(&vec![
            '9', '2', '2', '3', '3', '7', '2', '0', '3', '6', '8', '5', '4', '7', '7', '5', '8',
            '0', '8'
        ]),
        None
    );
}
