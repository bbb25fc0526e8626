use vstd::prelude::*;
use vstd::string::*;

use crate::gas::EnforcedCost;
use crate::registry::Cost;
use crate::text::{chars_of, same_text};

verus! {

/// Why a text does not give enforced costs.
#[derive(Clone, Copy, Debug, PartialEq, Eq, Structural)]
pub enum EnforcedCostsError {
    /// The line holds no cost after the name of the function.
    MissingCost { line: usize },
    /// The line holds more than a name and a cost.
    TrailingWords { line: usize },
    /// No function has the name that the line gives.
    UnknownFunction { line: usize },
    /// What stands for the cost in the line is not a number.
    NotANumber { line: usize },
}

/// Whether every character is one of the digits `0` to `9`.
pub open spec fn all_digits(digits: Seq<char>) -> bool {
    forall|i: int| 0 <= i < digits.len() ==> 48 <= (#[trigger] digits[i]) as int <= 57
}

/// The number that digits stand for in decimal notation.
pub open spec fn digits_value(digits: Seq<char>) -> int
    decreases digits.len(),
{
    if digits.len() == 0 {
        0
    } else {
        digits_value(digits.drop_last()) * 10 + (digits.last() as int - 48)
    }
}

/// The number that a text stands for: an optional `+` or `-`, then one
/// digit or more, standing for a number from -2147483648 to 2147483647.
/// Every other text stands for none.
pub open spec fn parsed_i32(text: Seq<char>) -> Option<i32> {
    let negative = text.len() > 0 && text[0] == '-';
    let signed = text.len() > 0 && (text[0] == '-' || text[0] == '+');
    let digits = if signed {
        text.drop_first()
    } else {
        text
    };
    let value = if negative {
        -digits_value(digits)
    } else {
        digits_value(digits)
    };
    if digits.len() == 0 || !all_digits(digits) || !(i32::MIN <= value <= i32::MAX) {
        None
    } else {
        Some(value as i32)
    }
}

/// The digits of a number stand for no less than the number without its
/// last digit.
proof fn digits_value_grows(digits: Seq<char>)
    requires
        all_digits(digits),
    ensures
        0 <= digits_value(digits),
        digits.len() > 0 ==> digits_value(digits.drop_last()) <= digits_value(digits),
    decreases digits.len(),
{
    if digits.len() > 0 {
        assert(48 <= digits[digits.len() - 1] as int <= 57);
        digits_value_grows(digits.drop_last());
    }
}

/// The number that digits stand for, with a sign in front of them or none.
spec fn signed_number(digits: Seq<char>, negative: bool) -> Option<i32> {
    let value = if negative {
        -digits_value(digits)
    } else {
        digits_value(digits)
    };
    if digits.len() == 0 || !all_digits(digits) || !(i32::MIN <= value <= i32::MAX) {
        None
    } else {
        Some(value as i32)
    }
}

/// Reads a number from its decimal notation: an optional sign, then digits.
fn parse_i32(text: &str) -> (number: Option<i32>)
    ensures
        number == parsed_i32(text@),
{
    let chars = chars_of(text);
    let negative = chars.len() > 0 && chars[0] == '-';
    let start: usize = if chars.len() > 0 && (chars[0] == '-' || chars[0] == '+') {
        1
    } else {
        0
    };
    let ghost digits = chars@.skip(start as int);
    proof {
        if start == 1 {
            assert(digits =~= text@.drop_first());
        } else {
            assert(digits =~= text@);
        }
    }
    assert(parsed_i32(text@) == signed_number(digits, negative));
    if chars.len() == start {
        return None;
    }
    let limit: i64 = 2147483648;
    let mut value: i64 = 0;
    let mut beyond = false;
    let mut i: usize = start;
    proof {
        assert(digits.take(0) =~= Seq::<char>::empty());
    }
    while i < chars.len()
        invariant
            start <= i <= chars@.len(),
            digits == chars@.skip(start as int),
            parsed_i32(text@) == signed_number(digits, negative),
            limit == 2147483648,
            all_digits(digits.take(i - start)),
            beyond ==> digits_value(digits.take(i - start)) > limit,
            !beyond ==> value == digits_value(digits.take(i - start)) && 0 <= value <= limit,
        decreases chars.len() - i,
    {
        let c = chars[i];
        let ghost before = digits.take(i - start);
        let ghost here = digits.take(i - start + 1);
        proof {
            assert(digits[i - start] == c);
            assert(here.drop_last() =~= before);
            assert(here.last() == c);
        }
        if !('0' <= c && c <= '9') {
            proof {
                assert(!(48 <= digits[i - start] as int <= 57));
            }
            return None;
        }
        let digit: i64 = (c as u32 - 48) as i64;
        proof {
            assert forall|k: int| 0 <= k < here.len() implies 48 <= (#[trigger] here[k]) as int
                <= 57 by {
                if k < before.len() {
                    assert(before[k] == here[k]);
                }
            }
            digits_value_grows(here);
        }
        if !beyond {
            value = value * 10 + digit;
            if value > limit {
                beyond = true;
            }
        }
        i += 1;
    }
    proof {
        assert(digits.take(i - start) =~= digits);
    }
    if beyond {
        None
    } else if negative {
        Some((-value) as i32)
    } else if value == limit {
        None
    } else {
        Some(value as i32)
    }
}

/// The position of the first `separator` in the text, or the length of the
/// text if it holds none.
pub open spec fn first_separator(text: Seq<char>, separator: char) -> int
    decreases text.len(),
{
    if text.len() == 0 {
        0
    } else if text[0] == separator {
        0
    } else {
        1 + first_separator(text.drop_first(), separator)
    }
}

/// The pieces of the text between its separators: one more than it holds
/// separators, some of them empty where separators stand side by side or
/// at an end.
pub open spec fn pieces(text: Seq<char>, separator: char) -> Seq<Seq<char>>
    decreases text.len(),
{
    let first = first_separator(text, separator);
    if first < 0 || first >= text.len() {
        seq![text]
    } else {
        seq![text.take(first)] + pieces(text.skip(first + 1), separator)
    }
}

/// The first separator stands where no separator stands before it.
proof fn first_separator_at(text: Seq<char>, separator: char, at: int)
    requires
        0 <= at <= text.len(),
        forall|i: int| 0 <= i < at ==> text[i] != separator,
        at < text.len() ==> text[at] == separator,
    ensures
        first_separator(text, separator) == at,
    decreases text.len(),
{
    if text.len() > 0 && at > 0 {
        let rest = text.drop_first();
        assert forall|i: int| 0 <= i < at - 1 implies rest[i] != separator by {
            assert(rest[i] == text[i + 1]);
        }
        first_separator_at(rest, separator, at - 1);
    }
}

/// The pieces of a text between its separators, as ranges of positions.
fn split(text: &Vec<char>, separator: char) -> (ranges: Vec<(usize, usize)>)
    ensures
        ranges@.len() == pieces(text@, separator).len(),
        forall|i: int|
            0 <= i < ranges@.len() ==> {
                &&& (#[trigger] ranges@[i]).0 <= ranges@[i].1 <= text@.len()
                &&& text@.subrange(ranges@[i].0 as int, ranges@[i].1 as int) == pieces(
                    text@,
                    separator,
                )[i]
            },
{
    let mut ranges: Vec<(usize, usize)> = Vec::new();
    let mut start: usize = 0;
    let mut i: usize = 0;
    proof {
        assert(text@.skip(0) =~= text@);
    }
    while i < text.len()
        invariant
            start <= i <= text.len(),
            forall|k: int| start <= k < i ==> text@[k] != separator,
            pieces(text@, separator) == Seq::new(
                ranges@.len(),
                |k: int| text@.subrange(ranges@[k].0 as int, ranges@[k].1 as int),
            ) + pieces(text@.skip(start as int), separator),
            forall|k: int|
                0 <= k < ranges@.len() ==> (#[trigger] ranges@[k]).0 <= ranges@[k].1
                    <= text@.len(),
        decreases text.len() - i,
    {
        if text[i] == separator {
            proof {
                let rest = text@.skip(start as int);
                assert forall|k: int| 0 <= k < i - start implies rest[k] != separator by {
                    assert(rest[k] == text@[start + k]);
                }
                first_separator_at(rest, separator, i - start);
                assert(rest.take(i - start) =~= text@.subrange(start as int, i as int));
                assert(rest.skip(i - start + 1) =~= text@.skip(i + 1));
            }
            let ghost before = ranges@;
            ranges.push((start, i));
            proof {
                assert(Seq::new(
                    ranges@.len(),
                    |k: int| text@.subrange(ranges@[k].0 as int, ranges@[k].1 as int),
                ) =~= Seq::new(
                    before.len(),
                    |k: int| text@.subrange(before[k].0 as int, before[k].1 as int),
                ) + seq![text@.subrange(start as int, i as int)]);
                assert((Seq::new(
                    before.len(),
                    |k: int| text@.subrange(before[k].0 as int, before[k].1 as int),
                ) + seq![text@.subrange(start as int, i as int)]) + pieces(
                    text@.skip(i + 1),
                    separator,
                ) =~= Seq::new(
                    before.len(),
                    |k: int| text@.subrange(before[k].0 as int, before[k].1 as int),
                ) + (seq![text@.subrange(start as int, i as int)] + pieces(
                    text@.skip(i + 1),
                    separator,
                )));
            }
            start = i + 1;
        }
        i += 1;
    }
    proof {
        let rest = text@.skip(start as int);
        assert forall|k: int| 0 <= k < rest.len() implies rest[k] != separator by {
            assert(rest[k] == text@[start + k]);
        }
        first_separator_at(rest, separator, rest.len() as int);
        assert(rest =~= text@.subrange(start as int, text@.len() as int));
    }
    let ghost before = ranges@;
    ranges.push((start, text.len()));
    proof {
        assert(Seq::new(
            ranges@.len(),
            |k: int| text@.subrange(ranges@[k].0 as int, ranges@[k].1 as int),
        ) =~= Seq::new(
            before.len(),
            |k: int| text@.subrange(before[k].0 as int, before[k].1 as int),
        ) + seq![text@.subrange(start as int, text@.len() as int)]);
        assert(pieces(text@, separator) =~= Seq::new(
            ranges@.len(),
            |k: int| text@.subrange(ranges@[k].0 as int, ranges@[k].1 as int),
        ));
    }
    ranges
}

/// The position of the first function with the name, or the number of
/// functions if none has it.
pub open spec fn named(function_names: Seq<String>, name: Seq<char>) -> int
    decreases function_names.len(),
{
    if function_names.len() == 0 {
        0
    } else if function_names[0]@ == name {
        0
    } else {
        1 + named(function_names.drop_first(), name)
    }
}

/// What a line of the form `<function name> <cost>` gives: the function with
/// that name is to cost so many steps.
pub open spec fn line_meaning(function_names: Seq<String>, line: Seq<char>, number: usize) -> Result<
    EnforcedCost,
    EnforcedCostsError,
> {
    let words = pieces(line, ' ');
    if words.len() < 2 {
        Err(EnforcedCostsError::MissingCost { line: number })
    } else if words.len() > 2 {
        Err(EnforcedCostsError::TrailingWords { line: number })
    } else if named(function_names, words[0]) >= function_names.len() {
        Err(EnforcedCostsError::UnknownFunction { line: number })
    } else {
        match parsed_i32(words[1]) {
            None => Err(EnforcedCostsError::NotANumber { line: number }),
            Some(cost) => Ok(
                EnforcedCost {
                    function: named(function_names, words[0]) as usize,
                    cost: Cost { step: cost as i64, range_check: 0, pedersen: 0, bitwise: 0 },
                },
            ),
        }
    }
}

/// The position of the first function with the name, or the number of
/// functions if none has it.
fn find_function(function_names: &Vec<String>, name: &str) -> (position: usize)
    ensures
        position == named(function_names@, name@),
        position <= function_names@.len(),
{
    let mut i: usize = 0;
    proof {
        assert(function_names@.skip(0) =~= function_names@);
    }
    while i < function_names.len()
        invariant
            i <= function_names.len(),
            named(function_names@, name@) == i + named(function_names@.skip(i as int), name@),
        decreases function_names.len() - i,
    {
        proof {
            assert(function_names@.skip(i as int).drop_first() =~= function_names@.skip(i + 1));
        }
        if same_text(function_names[i].as_str(), name) {
            return i;
        }
        i += 1;
    }
    i
}

/// Reads one line of enforced costs.
fn parse_line(function_names: &Vec<String>, line: &str, number: usize) -> (res: Result<
    EnforcedCost,
    EnforcedCostsError,
>)
    ensures
        res == line_meaning(function_names@, line@, number),
{
    let chars = chars_of(line);
    let words = split(&chars, ' ');
    if words.len() < 2 {
        return Err(EnforcedCostsError::MissingCost { line: number });
    }
    if words.len() > 2 {
        return Err(EnforcedCostsError::TrailingWords { line: number });
    }
    let name = line.substring_char(words[0].0, words[0].1);
    let cost = line.substring_char(words[1].0, words[1].1);
    let function = find_function(function_names, name);
    if function >= function_names.len() {
        return Err(EnforcedCostsError::UnknownFunction { line: number });
    }
    match parse_i32(cost) {
        None => Err(EnforcedCostsError::NotANumber { line: number }),
        Some(cost) => Ok(
            EnforcedCost {
                function,
                cost: Cost { step: cost as i64, range_check: 0, pedersen: 0, bitwise: 0 },
            },
        ),
    }
}

/// Whether `costs` holds what the first `upto` lines give, none of which is
/// in error.
pub open spec fn lines_give(
    function_names: Seq<String>,
    lines: Seq<Seq<char>>,
    upto: int,
    costs: Seq<EnforcedCost>,
) -> bool {
    &&& costs.len() == upto
    &&& forall|i: int|
        0 <= i < upto ==> line_meaning(function_names, lines[i], i as usize) == Ok::<
            EnforcedCost,
            EnforcedCostsError,
        >(#[trigger] costs[i])
}

/// Whether `line` is the first line that is in error, with this error.
pub open spec fn first_bad_line(
    function_names: Seq<String>,
    lines: Seq<Seq<char>>,
    line: int,
    error: EnforcedCostsError,
) -> bool {
    &&& 0 <= line < lines.len()
    &&& line_meaning(function_names, lines[line], line as usize) == Err::<
        EnforcedCost,
        EnforcedCostsError,
    >(error)
    &&& forall|earlier: int|
        0 <= earlier < line ==> (#[trigger] line_meaning(
            function_names,
            lines[earlier],
            earlier as usize,
        )) is Ok
}

/// Reads enforced costs from a text with one line of the form
/// `<function name> <cost>` for each: the function with that name is to be
/// reported with a cost of so many steps.
///
/// The words of a line are what stands between single spaces. Costs come out
/// in the order of the lines; the first line that is not of the form, names
/// no function or holds no number is reported.
pub fn parse_enforced_costs(text: &str, function_names: &Vec<String>) -> (res: Result<
    Vec<EnforcedCost>,
    EnforcedCostsError,
>)
    ensures
        match res {
            Ok(costs) => lines_give(
                function_names@,
                pieces(text@, '\n'),
                pieces(text@, '\n').len() as int,
                costs@,
            ),
            Err(error) => exists|line: int| #[trigger]
                first_bad_line(function_names@, pieces(text@, '\n'), line, error),
        },
{
    let chars = chars_of(text);
    let lines = split(&chars, '\n');
    let mut costs: Vec<EnforcedCost> = Vec::new();
    let mut number: usize = 0;
    while number < lines.len()
        invariant
            number <= lines@.len(),
            chars@ == text@,
            lines@.len() == pieces(text@, '\n').len(),
            forall|i: int|
                0 <= i < lines@.len() ==> {
                    &&& (#[trigger] lines@[i]).0 <= lines@[i].1 <= text@.len()
                    &&& text@.subrange(lines@[i].0 as int, lines@[i].1 as int) == pieces(
                        text@,
                        '\n',
                    )[i]
                },
            lines_give(function_names@, pieces(text@, '\n'), number as int, costs@),
        decreases lines.len() - number,
    {
        let line = text.substring_char(lines[number].0, lines[number].1);
        match parse_line(function_names, line, number) {
            Ok(cost) => {
                costs.push(cost);
            },
            Err(error) => {
                proof {
                    let at = number as int;
                    assert(line_meaning(function_names@, pieces(text@, '\n')[at], at as usize)
                        == Err::<EnforcedCost, EnforcedCostsError>(error));
                    assert forall|i: int| 0 <= i < at implies (#[trigger] line_meaning(
                        function_names@,
                        pieces(text@, '\n')[i],
                        i as usize,
                    )) is Ok by {
                        assert(line_meaning(function_names@, pieces(text@, '\n')[i], i as usize)
                            == Ok::<EnforcedCost, EnforcedCostsError>(costs@[i]));
                    }
                    assert(first_bad_line(function_names@, pieces(text@, '\n'), at, error));
                }
                return Err(error);
            },
        }
        number += 1;
    }
    Ok(costs)
}

} // verus!
