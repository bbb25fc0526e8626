use vstd::prelude::*;

use crate::casm::{TargetProgram, CellRef, InstructionBody, Operand, Register, TargetInstruction};
use crate::gas::FunctionCost;
use crate::program::IrProgram;
use crate::text::{decimal, decimal_text};

verus! {

/// Where a function of the program begins in the code, and what is known of it.
#[derive(Clone, Copy, Debug, PartialEq, Eq, Structural)]
pub struct EntryPoint {
    /// The identifier of the function.
    pub function_id: u64,
    /// The offset, in words, at which the code of the function begins.
    pub offset: usize,
    /// How many variables the function takes.
    pub params: usize,
    /// What the function costs, where gas is accounted for.
    pub cost: Option<FunctionCost>,
}

/// A program as it is handed on: the code in machine words, the hints that
/// go with it, and where its functions begin.
#[derive(Debug, PartialEq, Eq)]
pub struct CasmCairoProgram {
    /// The code.
    pub bytecode: Vec<i64>,
    /// The hint table: the hints, each with the offset of the instruction
    /// that it goes with, in the order of the code.
    pub hints: Vec<(usize, u64)>,
    /// The same hints as text for a reader, where that is asked for.
    pub readable_hints: Option<Vec<(usize, String)>>,
    /// The entry points, in the order of the functions of the program.
    pub entry_points: Vec<EntryPoint>,
}

/// Why target code cannot be packaged: it does not fit the program that it
/// is said to be the code of. Code that the generator made always fits.
#[derive(Clone, Copy, Debug, PartialEq, Eq, Structural)]
pub enum SerializationError {
    /// The offsets of the statements do not end at the size of the code.
    InconsistentSize,
    /// The costs are not those of the functions of the program.
    MissingCosts,
    /// The function begins at a statement that the code has no offset for.
    MissingOffset { function: usize },
}

/// A cell as a number: twice its offset from -32768, plus one for a cell
/// that is addressed from the frame pointer.
pub open spec fn packed(cell: CellRef) -> int {
    (cell.offset + 32768) * 2 + if cell.register == Register::FP {
        1int
    } else {
        0int
    }
}

/// The first word of an instruction: what it does, and the cells it names.
pub open spec fn first_word(body: InstructionBody) -> int {
    match body {
        InstructionBody::AssertEq { dst, value: Operand::Deref(src) } => 8 * (packed(dst) + 131072
            * packed(src)),
        InstructionBody::AssertEq { dst, value: Operand::Immediate(_) } => 1 + 8 * packed(dst),
        InstructionBody::AssertEq { dst, value: Operand::BinOp { cell, .. } } => 2 + 8 * (packed(
            dst,
        ) + 131072 * packed(cell)),
        InstructionBody::Jump { .. } => 3,
        InstructionBody::JumpNonZero { condition, .. } => 4 + 8 * packed(condition),
        InstructionBody::Call { .. } => 5,
        InstructionBody::Ret => 6,
    }
}

/// The second word of an instruction, if it has one: the constant it holds.
pub open spec fn second_word(body: InstructionBody) -> Option<i64> {
    match body {
        InstructionBody::AssertEq { value: Operand::Immediate(value), .. } => Some(value),
        InstructionBody::AssertEq { value: Operand::BinOp { immediate, .. }, .. } => Some(immediate),
        InstructionBody::Jump { offset } => Some(offset),
        InstructionBody::JumpNonZero { offset, .. } => Some(offset),
        InstructionBody::Call { offset } => Some(offset),
        _ => None,
    }
}

/// The words of an instruction.
pub open spec fn encoded(body: InstructionBody) -> Seq<i64> {
    match second_word(body) {
        Some(word) => seq![first_word(body) as i64, word],
        None => seq![first_word(body) as i64],
    }
}

/// The words of the first `upto` instructions.
pub open spec fn bytecode_of(instructions: Seq<TargetInstruction>, upto: int) -> Seq<i64>
    decreases upto,
{
    if upto <= 0 {
        Seq::empty()
    } else {
        bytecode_of(instructions, upto - 1) + encoded(instructions[upto - 1].body)
    }
}

/// The hints of the first `upto` instructions, each with the offset of its instruction.
pub open spec fn hints_of(instructions: Seq<TargetInstruction>, upto: int) -> Seq<(usize, u64)>
    decreases upto,
{
    if upto <= 0 {
        Seq::empty()
    } else {
        match instructions[upto - 1].hint {
            Some(hint) => hints_of(instructions, upto - 1).push(
                (bytecode_of(instructions, upto - 1).len() as usize, hint),
            ),
            None => hints_of(instructions, upto - 1),
        }
    }
}

/// A hint as text for a reader.
pub open spec fn hint_text(hint: u64) -> Seq<char> {
    "hint "@ + decimal_text(hint as nat)
}

/// Hints as text for a reader, each with its offset.
pub open spec fn readable(hints: Seq<(usize, u64)>) -> Seq<(usize, Seq<char>)> {
    hints.map_values(|hint: (usize, u64)| (hint.0, hint_text(hint.1)))
}

/// What a table of hints as text holds.
pub open spec fn table_view(table: Seq<(usize, String)>) -> Seq<(usize, Seq<char>)> {
    table.map_values(|entry: (usize, String)| (entry.0, entry.1@))
}

/// What the hints as text hold, where there are any.
pub open spec fn readable_view(table: Option<Vec<(usize, String)>>) -> Option<
    Seq<(usize, Seq<char>)>,
> {
    match table {
        Some(table) => Some(table_view(table@)),
        None => None,
    }
}

/// What keeps the code from being packaged for the program, if anything does.
pub open spec fn serialization_defect(
    program: &IrProgram,
    code: &TargetProgram,
    function_costs: Option<&Vec<FunctionCost>>,
) -> Option<SerializationError> {
    if code.statement_offsets@.len() == 0 || code.statement_offsets@.last() != bytecode_of(
        code.instructions@,
        code.instructions@.len() as int,
    ).len() {
        Some(SerializationError::InconsistentSize)
    } else if function_costs matches Some(costs) && costs@.len() != program.funcs@.len() {
        Some(SerializationError::MissingCosts)
    } else {
        first_missing(program, code, 0)
    }
}

/// The first function from `from` on that begins at a statement without an offset.
pub open spec fn first_missing(program: &IrProgram, code: &TargetProgram, from: int) -> Option<
    SerializationError,
>
    decreases program.funcs@.len() - from,
{
    if from >= program.funcs@.len() {
        None
    } else if program.funcs@[from].entry_point >= code.statement_offsets@.len() {
        Some(SerializationError::MissingOffset { function: from as usize })
    } else {
        first_missing(program, code, from + 1)
    }
}

/// The entry point of the function.
pub open spec fn entry_point_of(
    program: &IrProgram,
    code: &TargetProgram,
    function_costs: Option<&Vec<FunctionCost>>,
    function: int,
) -> EntryPoint {
    EntryPoint {
        function_id: program.funcs@[function].id,
        offset: code.statement_offsets@[program.funcs@[function].entry_point as int],
        params: program.funcs@[function].params@.len() as usize,
        cost: match function_costs {
            Some(costs) => Some(costs@[function]),
            None => None,
        },
    }
}

/// A cell as a number.
fn pack(cell: CellRef) -> (number: i64)
    ensures
        number == packed(cell),
        0 <= number < 131072,
{
    let register: i64 = match cell.register {
        Register::FP => 1,
        Register::AP => 0,
    };
    (cell.offset as i64 + 32768) * 2 + register
}

/// Appends the words of the instruction.
fn encode(body: InstructionBody, bytecode: &mut Vec<i64>)
    ensures
        final(bytecode)@ == old(bytecode)@ + encoded(body),
{
    let ghost before = bytecode@;
    match body {
        InstructionBody::AssertEq { dst, value } => match value {
            Operand::Deref(src) => {
                bytecode.push(8 * (pack(dst) + 131072 * pack(src)));
            },
            Operand::Immediate(value) => {
                bytecode.push(1 + 8 * pack(dst));
                bytecode.push(value);
            },
            Operand::BinOp { cell, immediate } => {
                bytecode.push(2 + 8 * (pack(dst) + 131072 * pack(cell)));
                bytecode.push(immediate);
            },
        },
        InstructionBody::Jump { offset } => {
            bytecode.push(3);
            bytecode.push(offset);
        },
        InstructionBody::JumpNonZero { condition, offset } => {
            bytecode.push(4 + 8 * pack(condition));
            bytecode.push(offset);
        },
        InstructionBody::Call { offset } => {
            bytecode.push(5);
            bytecode.push(offset);
        },
        InstructionBody::Ret => {
            bytecode.push(6);
        },
    }
    proof {
        assert(bytecode@ =~= before + encoded(body));
    }
}

impl CasmCairoProgram {
    /// Packages the target code of a program: the code in machine words, the
    /// hint table, the hints as text for a reader if they are asked for, and an
    /// entry point for each function, with its cost where costs are given.
    pub fn new(
        program: &IrProgram,
        code: &TargetProgram,
        function_costs: Option<&Vec<FunctionCost>>,
        add_hints: bool,
    ) -> (res: Result<CasmCairoProgram, SerializationError>)
        ensures
            match serialization_defect(program, code, function_costs) {
                Some(error) => res == Err::<CasmCairoProgram, SerializationError>(error),
                None => {
                    &&& res matches Ok(packaged)
                    &&& packaged.bytecode@ == bytecode_of(
                        code.instructions@,
                        code.instructions@.len() as int,
                    )
                    &&& packaged.hints@ == hints_of(
                        code.instructions@,
                        code.instructions@.len() as int,
                    )
                    &&& readable_view(packaged.readable_hints) == if add_hints {
                        Some(readable(packaged.hints@))
                    } else {
                        None
                    }
                    &&& packaged.entry_points@.len() == program.funcs@.len()
                    &&& forall|function: int|
                        0 <= function < program.funcs@.len()
                            ==> #[trigger] packaged.entry_points@[function] == entry_point_of(
                            program,
                            code,
                            function_costs,
                            function,
                        )
                },
            },
    {
        let mut bytecode: Vec<i64> = Vec::new();
        let mut hints: Vec<(usize, u64)> = Vec::new();
        let mut texts: Vec<(usize, String)> = Vec::new();
        let mut position: usize = 0;
        while position < code.instructions.len()
            invariant
                position <= code.instructions@.len(),
                bytecode@ == bytecode_of(code.instructions@, position as int),
                hints@ == hints_of(code.instructions@, position as int),
                add_hints ==> table_view(texts@) == readable(hints@),
            decreases code.instructions.len() - position,
        {
            let instruction = code.instructions[position];
            if let Some(hint) = instruction.hint {
                let ghost hints_before = hints@;
                let ghost texts_before = texts@;
                hints.push((bytecode.len(), hint));
                if add_hints {
                    let mut text = String::from_str("hint ");
                    text.append(decimal(hint).as_str());
                    texts.push((bytecode.len(), text));
                    proof {
                        assert(table_view(texts@) =~= table_view(texts_before).push(
                            (bytecode@.len() as usize, hint_text(hint)),
                        ));
                        assert(readable(hints@) =~= readable(hints_before).push(
                            (bytecode@.len() as usize, hint_text(hint)),
                        ));
                    }
                }
            }
            encode(instruction.body, &mut bytecode);
            position += 1;
        }
        if code.statement_offsets.len() == 0 || code.statement_offsets[code.statement_offsets.len()
            - 1] != bytecode.len() {
            return Err(SerializationError::InconsistentSize);
        }
        if let Some(costs) = function_costs {
            if costs.len() != program.funcs.len() {
                return Err(SerializationError::MissingCosts);
            }
        }
        let mut entry_points: Vec<EntryPoint> = Vec::new();
        let mut function: usize = 0;
        while function < program.funcs.len()
            invariant
                function <= program.funcs@.len(),
                function_costs matches Some(costs) ==> costs@.len() == program.funcs@.len(),
                code.statement_offsets@.len() > 0,
                code.statement_offsets@.last() == bytecode_of(
                    code.instructions@,
                    code.instructions@.len() as int,
                ).len(),
                entry_points@.len() == function,
                first_missing(program, code, 0) == first_missing(program, code, function as int),
                forall|f: int|
                    0 <= f < function ==> #[trigger] entry_points@[f] == entry_point_of(
                        program,
                        code,
                        function_costs,
                        f,
                    ),
            decreases program.funcs.len() - function,
        {
            let func = &program.funcs[function];
            if func.entry_point >= code.statement_offsets.len() {
                return Err(SerializationError::MissingOffset { function });
            }
            let cost = match function_costs {
                Some(costs) => Some(costs[function]),
                None => None,
            };
            entry_points.push(
                EntryPoint {
                    function_id: func.id,
                    offset: code.statement_offsets[func.entry_point],
                    params: func.params.len(),
                    cost,
                },
            );
            function += 1;
        }
        let readable_hints = if add_hints {
            Some(texts)
        } else {
            None
        };
        Ok(CasmCairoProgram { bytecode, hints, readable_hints, entry_points })
    }
}

} // verus!
