use vstd::prelude::*;
use vstd::string::*;

use crate::text::{concat3, same_text};

verus! {

/// The source text of an expression that is handed to a macro.
#[derive(Debug, PartialEq, Eq)]
pub struct ExprText {
    /// The text as written, with the white space and comments around it.
    pub text: String,
    /// The text without what surrounds the expression.
    pub trimmed: String,
}

/// One argument of a macro call.
#[derive(Debug, PartialEq, Eq)]
pub enum ArgClause {
    /// An expression by itself.
    Unnamed(ExprText),
    /// An argument with a name, `name: value`.
    Named,
    /// A field-init shorthand, `:name`.
    FieldInitShorthand,
}

/// The arguments of a macro call, by the brackets they stand in.
#[derive(Debug, PartialEq, Eq)]
pub enum WrappedArgList {
    /// `name!(..)`
    ParenthesizedArgList(Vec<ArgClause>),
    /// `name![..]`
    BracketedArgList(Vec<ArgClause>),
    /// `name!{..}`
    BracedArgList(Vec<ArgClause>),
    /// The argument list is missing.
    Missing,
}

/// Where a piece of generated code stems from.
#[derive(Clone, Copy, Debug, PartialEq, Eq, Structural)]
pub enum CodeOrigin {
    /// The piece is the text of the argument at this position of the call.
    Argument(usize),
    /// The piece stems from the call as a whole.
    Call,
}

/// A piece of generated code, the characters from `start` up to `end`, with
/// where it stems from.
#[derive(Clone, Copy, Debug, PartialEq, Eq, Structural)]
pub struct CodeMapping {
    pub start: usize,
    pub end: usize,
    pub origin: CodeOrigin,
}

/// A file of code that a macro generated.
#[derive(Debug, PartialEq, Eq)]
pub struct PluginGeneratedFile {
    /// The name of the file.
    pub name: String,
    /// The code.
    pub content: String,
    /// Where the code stems from: one mapping for the text of each argument
    /// that the code holds, in the order of the arguments, then one for the
    /// code as a whole.
    pub code_mappings: Vec<CodeMapping>,
}

/// A complaint of a macro about the call it was given.
#[derive(Debug, PartialEq, Eq)]
pub struct PluginDiagnostic {
    pub message: String,
}

/// What a macro made of a call: the code that replaces it, or diagnostics.
#[derive(Debug, PartialEq, Eq)]
pub struct InlinePluginResult {
    pub code: Option<PluginGeneratedFile>,
    pub diagnostics: Vec<PluginDiagnostic>,
}

/// The text of an expansion: the name and content of the generated file
/// with its code mappings, or the one message that refuses the call.
pub enum Expansion {
    Code { name: Seq<char>, content: Seq<char>, mappings: Seq<CodeMapping> },
    Refused { message: Seq<char> },
}

/// The mapping for the text of an argument that follows `before` in the code.
pub open spec fn argument_mapping(
    before: Seq<char>,
    arguments: Seq<ArgClause>,
    argument: int,
) -> CodeMapping {
    CodeMapping {
        start: before.len() as usize,
        end: (before.len() + argument_text(arguments, argument).len()) as usize,
        origin: CodeOrigin::Argument(argument as usize),
    }
}

/// The mapping for the code as a whole.
pub open spec fn call_mapping(content: Seq<char>) -> CodeMapping {
    CodeMapping { start: 0, end: content.len() as usize, origin: CodeOrigin::Call }
}

impl InlinePluginResult {
    /// Whether the result says what `expansion` says, and nothing else.
    pub open spec fn says(&self, expansion: Expansion) -> bool {
        match expansion {
            Expansion::Code { name, content, mappings } => {
                &&& self.code matches Some(file)
                &&& file.name@ == name
                &&& file.content@ == content
                &&& file.code_mappings@ == mappings
                &&& self.diagnostics@.len() == 0
            },
            Expansion::Refused { message } => {
                &&& self.code is None
                &&& self.diagnostics@.len() == 1
                &&& self.diagnostics@[0].message@ == message
            },
        }
    }
}

/// The generated file with the code, whose last mapping is the one for the
/// code as a whole.
fn generated(name: &str, content: String, argument_mappings: Vec<CodeMapping>) -> (res:
    InlinePluginResult)
    ensures
        res.says(
            Expansion::Code {
                name: name@,
                content: content@,
                mappings: argument_mappings@.push(call_mapping(content@)),
            },
        ),
{
    let mut code_mappings = argument_mappings;
    code_mappings.push(
        CodeMapping { start: 0, end: content.as_str().unicode_len(), origin: CodeOrigin::Call },
    );
    InlinePluginResult {
        code: Some(PluginGeneratedFile { name: String::from_str(name), content, code_mappings }),
        diagnostics: Vec::new(),
    }
}

/// Appends the text of an argument to the code, and notes where it stands.
fn append_argument(
    content: &mut String,
    mappings: &mut Vec<CodeMapping>,
    text: &str,
    argument: usize,
)
    ensures
        final(content)@ == old(content)@ + text@,
        final(mappings)@ == old(mappings)@.push(
            CodeMapping {
                start: old(content)@.len() as usize,
                end: (old(content)@.len() + text@.len()) as usize,
                origin: CodeOrigin::Argument(argument),
            },
        ),
{
    let start = content.as_str().unicode_len();
    content.append(text);
    let end = content.as_str().unicode_len();
    mappings.push(CodeMapping { start, end, origin: CodeOrigin::Argument(argument) });
}

fn refused(message: String) -> (res: InlinePluginResult)
    ensures
        res.says(Expansion::Refused { message: message@ }),
{
    let mut diagnostics: Vec<PluginDiagnostic> = Vec::new();
    diagnostics.push(PluginDiagnostic { message });
    InlinePluginResult { code: None, diagnostics }
}

/// The message for a macro that is called with brackets it does not take.
pub open spec fn unsupported_bracket_message(macro_name: Seq<char>) -> Seq<char> {
    "Macro `"@ + macro_name + "` does not support this bracket type."@
}

/// Refuses a call that uses brackets which the macro does not take.
pub fn unsupported_bracket_diagnostic(macro_name: &str) -> (res: InlinePluginResult)
    ensures
        res.says(Expansion::Refused { message: unsupported_bracket_message(macro_name@) }),
{
    refused(concat3("Macro `", macro_name, "` does not support this bracket type."))
}

/// Whether every one of the arguments from `from` on is unnamed.
pub open spec fn all_unnamed(arguments: Seq<ArgClause>, from: int) -> bool {
    forall|i: int| from <= i < arguments.len() ==> (#[trigger] arguments[i]) is Unnamed
}

/// The trimmed texts of the arguments from `from` up to `upto`, with `", "`
/// between each two.
pub open spec fn interspersed(arguments: Seq<ArgClause>, from: int, upto: int) -> Seq<char>
    decreases upto - from,
{
    if upto <= from {
        Seq::empty()
    } else if upto == from + 1 {
        arguments[from]->Unnamed_0.trimmed@
    } else {
        interspersed(arguments, from, upto - 1) + ", "@ + arguments[upto - 1]->Unnamed_0.trimmed@
    }
}

/// What opens the code that an assertion becomes, up to the condition.
pub const ASSERT_HEAD: &'static str = "{\n                            if !(";

/// What follows the condition of an assertion without a message.
pub const ASSERT_PLAIN_TAIL: &'static str = ") {\n                                let ba: ByteArray = \"Assertion failed\";\n                                panic!(ba);\n                            }\n                        }";

/// What stands between the condition and the message of an assertion.
pub const ASSERT_FORMAT_MIDDLE: &'static str = ") {\n                                let ba: ByteArray = \"Assertion failed: \" + format!(";

/// What follows the message of an assertion.
pub const ASSERT_FORMAT_TAIL: &'static str = ");\n                                panic!(ba);\n                            }\n                        }";

/// What opens the code that a `format!` call becomes, up to the argument.
pub const FORMAT_HEAD: &'static str = "{ core::fmt::display_format(@";

/// What follows the argument of a `format!` call.
pub const FORMAT_TAIL: &'static str = ") }";

/// The only format string that `format!` takes yet.
pub const PLAIN_FORMAT_STRING: &'static str = "\"{}\"";

/// What stands before the text of an argument in the code of an assertion.
pub open spec fn assert_prefix(arguments: Seq<ArgClause>, argument: int) -> Seq<char> {
    if argument <= 0 {
        ASSERT_HEAD@
    } else if argument == 1 {
        ASSERT_HEAD@ + argument_text(arguments, 0) + ASSERT_FORMAT_MIDDLE@
    } else {
        ASSERT_HEAD@ + argument_text(arguments, 0) + ASSERT_FORMAT_MIDDLE@ + interspersed(
            arguments,
            1,
            argument,
        ) + ", "@
    }
}

/// The code that an assertion becomes.
pub open spec fn assert_content(arguments: Seq<ArgClause>) -> Seq<char> {
    if arguments.len() == 1 {
        ASSERT_HEAD@ + argument_text(arguments, 0) + ASSERT_PLAIN_TAIL@
    } else {
        ASSERT_HEAD@ + argument_text(arguments, 0) + ASSERT_FORMAT_MIDDLE@ + interspersed(
            arguments,
            1,
            arguments.len() as int,
        ) + ASSERT_FORMAT_TAIL@
    }
}

/// Where the code of an assertion stems from: each argument stands in it
/// once, and the rest stems from the call.
pub open spec fn assert_mappings(arguments: Seq<ArgClause>) -> Seq<CodeMapping> {
    Seq::new(
        arguments.len(),
        |argument: int| argument_mapping(assert_prefix(arguments, argument), arguments, argument),
    ).push(call_mapping(assert_content(arguments)))
}

/// The code of a `format!` call whose argument stands at `argument`.
pub open spec fn format_code(arguments: Seq<ArgClause>, argument: int) -> Expansion {
    let content = FORMAT_HEAD@ + argument_text(arguments, argument) + FORMAT_TAIL@;
    Expansion::Code {
        name: "format_macro"@,
        content,
        mappings: seq![
            argument_mapping(FORMAT_HEAD@, arguments, argument),
            call_mapping(content),
        ],
    }
}

/// What `assert!` makes of its arguments.
pub open spec fn assert_expansion(arguments: WrappedArgList) -> Expansion {
    match arguments {
        WrappedArgList::ParenthesizedArgList(arguments) => {
            let arguments = arguments@;
            if arguments.len() == 0 || !(arguments[0] is Unnamed) {
                Expansion::Refused {
                    message: "`"@ + AssertMacro::NAME@
                        + "` macro must have at least one unnamed argument (condition)."@,
                }
            } else if !all_unnamed(arguments, 1) {
                Expansion::Refused {
                    message: "All arguments of the `"@ + AssertMacro::NAME@
                        + "` macro must be unnamed."@,
                }
            } else {
                Expansion::Code {
                    name: "print_macro"@,
                    content: assert_content(arguments),
                    mappings: assert_mappings(arguments),
                }
            }
        },
        _ => Expansion::Refused { message: unsupported_bracket_message(AssertMacro::NAME@) },
    }
}

/// What `format!` makes of its arguments.
pub open spec fn format_expansion(arguments: WrappedArgList) -> Expansion {
    match arguments {
        WrappedArgList::ParenthesizedArgList(arguments) => {
            let arguments = arguments@;
            if arguments.len() == 1 && arguments[0] is Unnamed {
                format_code(arguments, 0)
            } else if arguments.len() == 2 && arguments[0] is Unnamed && arguments[1] is Unnamed {
                if arguments[0]->Unnamed_0.text@ != PLAIN_FORMAT_STRING@ {
                    Expansion::Refused {
                        message: "Currently `"@ + FormatMacro::NAME@
                            + "` macro only supports `\"{}\"` as the first argument (format string)."@,
                    }
                } else {
                    format_code(arguments, 1)
                }
            } else {
                Expansion::Refused {
                    message: "`"@ + FormatMacro::NAME@
                        + "` macro can have up to 2 unnamed arguments."@,
                }
            }
        },
        _ => Expansion::Refused { message: unsupported_bracket_message(FormatMacro::NAME@) },
    }
}

/// Macro for asserting conditions.
#[derive(Debug, Default)]
pub struct AssertMacro;

impl AssertMacro {
    pub const NAME: &'static str = "assert";

    /// The code that a call of the macro becomes: a block that panics with
    /// "Assertion failed" when the condition, the first argument, does not
    /// hold; further arguments are formatted into the panic message.
    pub fn generate_code(&self, arguments: &WrappedArgList) -> (res: InlinePluginResult)
        ensures
            res.says(assert_expansion(*arguments)),
    {
        let list = match arguments {
            WrappedArgList::ParenthesizedArgList(list) => list,
            _ => {
                return unsupported_bracket_diagnostic(AssertMacro::NAME);
            },
        };
        if list.len() == 0 {
            return refused(
                concat3(
                    "`",
                    AssertMacro::NAME,
                    "` macro must have at least one unnamed argument (condition).",
                ),
            );
        }
        let condition = match &list[0] {
            ArgClause::Unnamed(condition) => condition,
            _ => {
                return refused(
                    concat3(
                        "`",
                        AssertMacro::NAME,
                        "` macro must have at least one unnamed argument (condition).",
                    ),
                );
            },
        };
        let mut content = String::from_str(ASSERT_HEAD);
        let mut mappings: Vec<CodeMapping> = Vec::new();
        append_argument(&mut content, &mut mappings, condition.trimmed.as_str(), 0);
        if list.len() == 1 {
            content.append(ASSERT_PLAIN_TAIL);
            proof {
                assert(all_unnamed(list@, 1));
                assert(content@ =~= assert_content(list@));
                assert(mappings@.push(call_mapping(content@)) =~= assert_mappings(list@));
            }
            return generated("print_macro", content, mappings);
        }
        content.append(ASSERT_FORMAT_MIDDLE);
        let mut i: usize = 1;
        while i < list.len()
            invariant
                1 <= i <= list.len(),
                *arguments == WrappedArgList::ParenthesizedArgList(*list),
                list@[0] is Unnamed,
                all_unnamed(list@.take(i as int), 1),
                content@ == ASSERT_HEAD@ + argument_text(list@, 0) + ASSERT_FORMAT_MIDDLE@
                    + interspersed(list@, 1, i as int),
                mappings@.len() == i,
                forall|k: int|
                    0 <= k < i ==> #[trigger] mappings@[k] == argument_mapping(
                        assert_prefix(list@, k),
                        list@,
                        k,
                    ),
            decreases list.len() - i,
        {
            match &list[i] {
                ArgClause::Unnamed(argument) => {
                    if i > 1 {
                        content.append(", ");
                    }
                    proof {
                        assert(content@ =~= assert_prefix(list@, i as int));
                    }
                    append_argument(&mut content, &mut mappings, argument.trimmed.as_str(), i);
                    proof {
                        assert(content@ =~= ASSERT_HEAD@ + argument_text(list@, 0)
                            + ASSERT_FORMAT_MIDDLE@ + interspersed(list@, 1, i + 1));
                    }
                },
                _ => {
                    proof {
                        assert(!(list@[i as int] is Unnamed));
                    }
                    return refused(
                        concat3(
                            "All arguments of the `",
                            AssertMacro::NAME,
                            "` macro must be unnamed.",
                        ),
                    );
                },
            }
            proof {
                assert forall|k: int| 1 <= k < list@.take(i + 1).len() implies (
                #[trigger] list@.take(i + 1)[k]) is Unnamed by {
                    if k < i {
                        assert(list@.take(i as int)[k] is Unnamed);
                    }
                }
            }
            i += 1;
        }
        content.append(ASSERT_FORMAT_TAIL);
        proof {
            assert(list@.take(list@.len() as int) =~= list@);
            assert(content@ =~= assert_content(list@));
            assert(mappings@.push(call_mapping(content@)) =~= assert_mappings(list@));
        }
        generated("print_macro", content, mappings)
    }
}

/// The trimmed text of the argument at `index`.
pub open spec fn argument_text(arguments: Seq<ArgClause>, index: int) -> Seq<char> {
    arguments[index]->Unnamed_0.trimmed@
}

/// The code that displays the argument at `argument`.
fn display_code(arguments: &Vec<ArgClause>, argument: usize) -> (res: InlinePluginResult)
    requires
        argument < arguments@.len(),
        arguments@[argument as int] is Unnamed,
    ensures
        res.says(format_code(arguments@, argument as int)),
{
    let mut content = String::from_str(FORMAT_HEAD);
    let mut mappings: Vec<CodeMapping> = Vec::new();
    match &arguments[argument] {
        ArgClause::Unnamed(text) => {
            append_argument(&mut content, &mut mappings, text.trimmed.as_str(), argument);
        },
        _ => {},
    }
    content.append(FORMAT_TAIL);
    proof {
        assert(content@ =~= FORMAT_HEAD@ + argument_text(arguments@, argument as int)
            + FORMAT_TAIL@);
        assert(mappings@.push(call_mapping(content@)) =~= seq![
            argument_mapping(FORMAT_HEAD@, arguments@, argument as int),
            call_mapping(content@),
        ]);
    }
    generated("format_macro", content, mappings)
}

/// Macro for formatting.
#[derive(Debug, Default)]
pub struct FormatMacro;

impl FormatMacro {
    pub const NAME: &'static str = "format";

    /// The code that a call of the macro becomes: the display form of its
    /// argument. A format string in front of the argument has to be `"{}"`.
    pub fn generate_code(&self, arguments: &WrappedArgList) -> (res: InlinePluginResult)
        ensures
            res.says(format_expansion(*arguments)),
    {
        let arguments = match arguments {
            WrappedArgList::ParenthesizedArgList(arguments) => arguments,
            _ => {
                return unsupported_bracket_diagnostic(FormatMacro::NAME);
            },
        };
        if arguments.len() == 1 {
            if let ArgClause::Unnamed(argument) = &arguments[0] {
                return display_code(arguments, 0);
            }
        } else if arguments.len() == 2 {
            if let ArgClause::Unnamed(format_string) = &arguments[0] {
                if let ArgClause::Unnamed(argument) = &arguments[1] {
                    if !same_text(format_string.text.as_str(), PLAIN_FORMAT_STRING) {
                        return refused(
                            concat3(
                                "Currently `",
                                FormatMacro::NAME,
                                "` macro only supports `\"{}\"` as the first argument (format string).",
                            ),
                        );
                    }
                    return display_code(arguments, 1);
                }
            }
        }
        refused(concat3("`", FormatMacro::NAME, "` macro can have up to 2 unnamed arguments."))
    }
}

} // verus!
