use cairo_toolkit::enforced_costs::{parse_enforced_costs, EnforcedCostsError};
use cairo_toolkit::gas::EnforcedCost;
use cairo_toolkit::registry::Cost;

fn names() -> Vec<String> {
    vec!["fib".to_string(), "main".to_string(), "fib".to_string()]
}

fn steps(function: usize, step: i64) -> EnforcedCost {
    EnforcedCost { function, cost: Cost { step, range_check: 0, pedersen: 0, bitwise: 0 } }
}

#[test]
fn enforced_costs_are_read_line_by_line() {
    assert_eq!(
        parse_enforced_costs("main 100\nfib -3\nmain +7", &names()),
        Ok(vec![steps(1, 100), steps(0, -3), steps(1, 7)])
    );
    assert_eq!(parse_enforced_costs("fib 2147483647", &names()), Ok(vec![steps(0, 2147483647)]));
}

#[test]
fn a_line_without_a_cost_is_refused() {
    assert_eq!(parse_enforced_costs("", &names()), Err(EnforcedCostsError::MissingCost { line: 0 }));
    assert_eq!(
        parse_enforced_costs("main 1\n", &names()),
        Err(EnforcedCostsError::MissingCost { line: 1 })
    );
    assert_eq!(
        parse_enforced_costs("main 1\nfib", &names()),
        Err(EnforcedCostsError::MissingCost { line: 1 })
    );
}

#[test]
fn a_line_with_more_words_is_refused() {
    assert_eq!(
        parse_enforced_costs("main 1 2", &names()),
        Err(EnforcedCostsError::TrailingWords { line: 0 })
    );
    assert_eq!(
        parse_enforced_costs("main  1", &names()),
        Err(EnforcedCostsError::TrailingWords { line: 0 })
    );
}

#[test]
fn an_unknown_function_is_refused() {
    assert_eq!(
        parse_enforced_costs("main 1\nfoo 2", &names()),
        Err(EnforcedCostsError::UnknownFunction { line: 1 })
    );
}

#[test]
fn a_cost_that_is_no_number_is_refused() {
    assert_eq!(
        parse_enforced_costs("main one", &names()),
        Err(EnforcedCostsError::NotANumber { line: 0 })
    );
    assert_eq!(
        parse_enforced_costs("main 2147483648", &names()),
        Err(EnforcedCostsError::NotANumber { line: 0 })
    );
    assert_eq!(parse_enforced_costs("main ", &names()), Err(EnforcedCostsError::NotANumber { line: 0 }));
}

#[test]
fn numbers_are_read_as_the_standard_library_reads_them() {
    let read = |text: &str| parse_enforced_costs(&format!("main {text}"), &names());
    assert_eq!(read("-0"), Ok(vec![steps(1, 0)]));
    assert_eq!(read("007"), Ok(vec![steps(1, 7)]));
    assert_eq!(read("-2147483648"), Ok(vec![steps(1, -2147483648)]));
    for text in ["+", "-", "-2147483649", "1.5", "0x10", "1_000", "+-5", "\u{0663}"] {
        assert_eq!(read(text), Err(EnforcedCostsError::NotANumber { line: 0 }), "{text}");
    }
    for text in [
        "+2147483647",
        "+0",
        "00000000000000000000000000000012",
        "-00000000000000000002147483648",
        "99999999999999999999999999999999",
        "-99999999999999999999999999999999",
        "2147483647",
        "12a",
        "a12",
        "--1",
        "1-",
    ] {
        let expected = match text.parse::<i32>() {
            Ok(number) => Ok(vec![steps(1, number as i64)]),
            Err(_) => Err(EnforcedCostsError::NotANumber { line: 0 }),
        };
        assert_eq!(read(text), expected, "{text}");
    }
}

#[test]
fn the_last_line_for_a_function_counts() {
    let costs = parse_enforced_costs("main 1\nfib 2\nmain 3", &names()).unwrap();
    assert_eq!(costs, vec![steps(1, 1), steps(0, 2), steps(1, 3)]);
    assert_eq!(cairo_toolkit::gas::find_enforced(&costs, 1).map(|cost| cost.step), Some(3));
    assert_eq!(cairo_toolkit::gas::find_enforced(&costs, 0).map(|cost| cost.step), Some(2));
}
