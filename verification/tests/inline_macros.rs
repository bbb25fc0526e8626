use cairo_toolkit::inline_macros::{
    unsupported_bracket_diagnostic, ArgClause, AssertMacro, CodeMapping, CodeOrigin, ExprText,
    FormatMacro, InlinePluginResult, PluginDiagnostic, PluginGeneratedFile, WrappedArgList,
};

fn unnamed(text: &str) -> ArgClause {
    ArgClause::Unnamed(ExprText { text: text.to_string(), trimmed: text.trim().to_string() })
}

/// The generated file with the code, in which the arguments stand at the
/// places given: for each its position in the call, and where its text
/// begins and ends in the code.
fn code(name: &str, content: &str, arguments: &[(usize, usize, usize)]) -> InlinePluginResult {
    let mut code_mappings: Vec<CodeMapping> = arguments
        .iter()
        .map(|(argument, start, end)| CodeMapping {
            start: *start,
            end: *end,
            origin: CodeOrigin::Argument(*argument),
        })
        .collect();
    code_mappings.push(CodeMapping {
        start: 0,
        end: content.chars().count(),
        origin: CodeOrigin::Call,
    });
    InlinePluginResult {
        code: Some(PluginGeneratedFile {
            name: name.to_string(),
            content: content.to_string(),
            code_mappings,
        }),
        diagnostics: vec![],
    }
}

fn refused(message: &str) -> InlinePluginResult {
    InlinePluginResult {
        code: None,
        diagnostics: vec![PluginDiagnostic { message: message.to_string() }],
    }
}

#[test]
fn assert_with_a_condition_only() {
    let arguments = WrappedArgList::ParenthesizedArgList(vec![unnamed("x == 1")]);
    assert_eq!(
        AssertMacro.generate_code(&arguments),
        code(
            "print_macro",
            "{\n                            if !(x == 1) {\n                                let ba: \
             ByteArray = \"Assertion failed\";\n                                panic!(ba);\n      \
             \x20                     }\n                        }",
            &[(0, 35, 41)]
        )
    );
}

#[test]
fn assert_with_a_message() {
    let arguments = WrappedArgList::ParenthesizedArgList(vec![
        unnamed("a < b"),
        unnamed(" \"{} is not below {}\""),
        unnamed(" a"),
        unnamed(" b "),
    ]);
    assert_eq!(
        AssertMacro.generate_code(&arguments),
        code(
            "print_macro",
            "{\n                            if !(a < b) {\n                                let ba: \
             ByteArray = \"Assertion failed: \" + format!(\"{} is not below {}\", a, b);\n         \
             \x20                      panic!(ba);\n                            }\n                \
             \x20       }",
            &[(0, 35, 40), (1, 127, 147), (2, 149, 150), (3, 152, 153)]
        )
    );
}

#[test]
fn assert_needs_an_unnamed_condition() {
    let message = "`assert` macro must have at least one unnamed argument (condition).";
    assert_eq!(
        AssertMacro.generate_code(&WrappedArgList::ParenthesizedArgList(vec![])),
        refused(message)
    );
    assert_eq!(
        AssertMacro
            .generate_code(&WrappedArgList::ParenthesizedArgList(vec![ArgClause::Named, unnamed("x")])),
        refused(message)
    );
}

#[test]
fn assert_takes_unnamed_arguments_only() {
    let arguments = WrappedArgList::ParenthesizedArgList(vec![
        unnamed("x"),
        unnamed("\"{}\""),
        ArgClause::FieldInitShorthand,
    ]);
    assert_eq!(
        AssertMacro.generate_code(&arguments),
        refused("All arguments of the `assert` macro must be unnamed.")
    );
}

#[test]
fn macros_take_parentheses_only() {
    assert_eq!(AssertMacro::NAME, "assert");
    assert_eq!(FormatMacro::NAME, "format");
    assert_eq!(
        AssertMacro.generate_code(&WrappedArgList::BracketedArgList(vec![unnamed("x")])),
        refused("Macro `assert` does not support this bracket type.")
    );
    assert_eq!(
        FormatMacro.generate_code(&WrappedArgList::BracedArgList(vec![unnamed("x")])),
        refused("Macro `format` does not support this bracket type.")
    );
    assert_eq!(
        FormatMacro.generate_code(&WrappedArgList::Missing),
        unsupported_bracket_diagnostic("format")
    );
}

#[test]
fn format_of_one_argument() {
    assert_eq!(
        FormatMacro.generate_code(&WrappedArgList::ParenthesizedArgList(vec![unnamed(" value ")])),
        code("format_macro", "{ core::fmt::display_format(@value) }", &[(0, 29, 34)])
    );
}

#[test]
fn format_with_the_plain_format_string() {
    assert_eq!(
        FormatMacro.generate_code(&WrappedArgList::ParenthesizedArgList(vec![
            unnamed("\"{}\""),
            unnamed(" x + 1")
        ])),
        code("format_macro", "{ core::fmt::display_format(@x + 1) }", &[(1, 29, 34)])
    );
}

#[test]
fn format_with_another_format_string() {
    let message = "Currently `format` macro only supports `\"{}\"` as the first argument (format \
                   string).";
    assert_eq!(
        FormatMacro.generate_code(&WrappedArgList::ParenthesizedArgList(vec![
            unnamed("\"{:?}\""),
            unnamed("x")
        ])),
        refused(message)
    );
    // The text of the format string counts as it is written, white space included.
    assert_eq!(
        FormatMacro.generate_code(&WrappedArgList::ParenthesizedArgList(vec![
            unnamed(" \"{}\""),
            unnamed("x")
        ])),
        refused(message)
    );
}

#[test]
fn format_takes_up_to_two_unnamed_arguments() {
    let message = "`format` macro can have up to 2 unnamed arguments.";
    assert_eq!(
        FormatMacro.generate_code(&WrappedArgList::ParenthesizedArgList(vec![])),
        refused(message)
    );
    assert_eq!(
        FormatMacro.generate_code(&WrappedArgList::ParenthesizedArgList(vec![ArgClause::Named])),
        refused(message)
    );
    assert_eq!(
        FormatMacro.generate_code(&WrappedArgList::ParenthesizedArgList(vec![
            unnamed("\"{}\""),
            ArgClause::Named
        ])),
        refused(message)
    );
    assert_eq!(
        FormatMacro.generate_code(&WrappedArgList::ParenthesizedArgList(vec![
            unnamed("\"{}\""),
            unnamed("x"),
            unnamed("y")
        ])),
        refused(message)
    );
}
