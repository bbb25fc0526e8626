use vstd::prelude::*;

use crate::program::{BranchTarget, IrProgram, Statement};
use crate::registry::{ApChangeRule, InstructionTemplate, Registry};

verus! {

/// A register that memory is addressed from.
#[derive(Clone, Copy, Debug, PartialEq, Eq, Structural)]
pub enum Register {
    /// The allocation pointer.
    AP,
    /// The frame pointer.
    FP,
}

/// A memory cell: so many cells above a register.
#[derive(Clone, Copy, Debug, PartialEq, Eq, Structural)]
pub struct CellRef {
    pub register: Register,
    pub offset: i16,
}

/// What an instruction works on.
#[derive(Clone, Copy, Debug, PartialEq, Eq, Structural)]
pub enum Operand {
    /// A constant.
    Immediate(i64),
    /// What a memory cell holds.
    Deref(CellRef),
    /// The sum of what a memory cell holds and a constant.
    BinOp { cell: CellRef, immediate: i64 },
}

/// What an instruction does.
#[derive(Clone, Copy, Debug, PartialEq, Eq, Structural)]
pub enum InstructionBody {
    /// Makes the cell hold the value.
    AssertEq { dst: CellRef, value: Operand },
    /// Jumps by so many words.
    Jump { offset: i64 },
    /// Jumps by so many words if the cell does not hold zero.
    JumpNonZero { condition: CellRef, offset: i64 },
    /// Calls the code that lies so many words away.
    Call { offset: i64 },
    /// Returns from the function.
    Ret,
}

/// One instruction of the target code.
#[derive(Clone, Copy, Debug, PartialEq, Eq, Structural)]
pub struct TargetInstruction {
    pub body: InstructionBody,
    /// The execution hint that comes with the instruction, if there is one.
    pub hint: Option<u64>,
}

/// How the code of a program is to be generated.
#[derive(Clone, Copy, Debug, PartialEq, Eq, Structural)]
pub struct SierraToCasmConfig {
    /// Whether the gas usage of the program is to be checked.
    pub gas_usage_check: bool,
    /// The most words that the code may take.
    pub max_bytecode_size: usize,
}

/// The target code of a program.
#[derive(Debug, PartialEq, Eq)]
pub struct TargetProgram {
    /// The instructions, in the order of the statements that they come from.
    pub instructions: Vec<TargetInstruction>,
    /// For each statement the offset, in words, at which its code begins;
    /// after the last statement, the size of the code.
    pub statement_offsets: Vec<usize>,
}

/// Why no code can be generated for a program.
#[derive(Clone, Copy, Debug, PartialEq, Eq, Structural)]
pub enum CompilationError {
    /// The code takes `size` words, more than are allowed.
    BytecodeTooLarge { size: usize },
    /// An instruction of the statement addresses a cell too far from the
    /// frame pointer.
    OperandOutOfRange { statement: usize },
}

/// How many words the instruction that a template becomes takes.
pub open spec fn template_size(template: InstructionTemplate) -> int {
    match template {
        InstructionTemplate::Copy { .. } => 1,
        _ => 2,
    }
}

/// How many words the first `upto` instructions of the code take.
pub open spec fn code_size(code: Seq<InstructionTemplate>, upto: int) -> int
    decreases upto,
{
    if upto <= 0 {
        0
    } else {
        code_size(code, upto - 1) + template_size(code[upto - 1])
    }
}

/// How many words the code of the statement takes: none for a statement
/// that no path reaches.
pub open spec fn statement_size(
    program: &IrProgram,
    registry: &Registry,
    offsets: Seq<Option<usize>>,
    statement: int,
) -> int {
    match offsets[statement] {
        None => 0,
        Some(_) => match program.statements@[statement] {
            Statement::Return(_) => 1,
            Statement::Invocation(_) => code_size(
                program.signature(registry, statement).code@,
                program.signature(registry, statement).code@.len() as int,
            ),
        },
    }
}

/// The offset, in words, at which the code of the statement begins.
pub open spec fn start_offset(
    program: &IrProgram,
    registry: &Registry,
    offsets: Seq<Option<usize>>,
    statement: int,
) -> int
    decreases statement,
{
    if statement <= 0 {
        0
    } else {
        start_offset(program, registry, offsets, statement - 1) + statement_size(
            program,
            registry,
            offsets,
            statement - 1,
        )
    }
}

/// The most words that code may take, whatever the configuration allows:
/// offsets within it have to be held.
pub open spec fn size_limit(max_bytecode_size: usize) -> int {
    if max_bytecode_size <= i64::MAX {
        max_bytecode_size as int
    } else {
        i64::MAX as int
    }
}

/// Whether the cell at `relative` cells above the allocation pointer, where
/// the allocation pointer stands `ap` cells above the frame pointer, can be
/// addressed from the frame pointer.
pub open spec fn addressable(ap: usize, relative: i16) -> bool {
    i16::MIN <= ap + relative <= i16::MAX
}

/// That cell, addressed from the frame pointer.
pub open spec fn frame_cell(ap: usize, relative: i16) -> CellRef {
    CellRef { register: Register::FP, offset: (ap + relative) as i16 }
}

/// Whether every cell that the template names can be addressed.
pub open spec fn template_addressable(template: InstructionTemplate, ap: usize) -> bool {
    match template {
        InstructionTemplate::StoreImmediate { dst, .. } => addressable(ap, dst),
        InstructionTemplate::Copy { dst, src } => addressable(ap, dst) && addressable(ap, src),
        InstructionTemplate::AddImmediate { dst, src, .. } => addressable(ap, dst)
            && addressable(ap, src),
        InstructionTemplate::JumpNonZero { condition, .. } => addressable(ap, condition),
        _ => true,
    }
}

/// The statement at which the code that the outcome calls begins: the entry
/// of the function that the outcome names, or the target of the outcome.
pub open spec fn call_target(program: &IrProgram, registry: &Registry, statement: int, branch: int) -> int {
    match program.branch_signature(registry, statement, branch).ap_change {
        ApChangeRule::FunctionCall(callee) => program.funcs@[callee as int].entry_point as int,
        _ => program.target(statement, branch),
    }
}

/// The statement that the template jumps to or calls, if it does either.
pub open spec fn template_target(
    program: &IrProgram,
    registry: &Registry,
    statement: int,
    template: InstructionTemplate,
) -> Option<int> {
    match template {
        InstructionTemplate::Jump { branch } => Some(program.target(statement, branch as int)),
        InstructionTemplate::JumpNonZero { branch, .. } => Some(
            program.target(statement, branch as int),
        ),
        InstructionTemplate::Call { branch } => Some(
            call_target(program, registry, statement, branch as int),
        ),
        _ => None,
    }
}

/// The instruction that a template becomes, where the allocation pointer
/// stands `ap` cells above the frame pointer and the target of a jump or call
/// lies `distance` words away.
pub open spec fn built(template: InstructionTemplate, ap: usize, distance: i64) -> InstructionBody {
    match template {
        InstructionTemplate::StoreImmediate { dst, value } => InstructionBody::AssertEq {
            dst: frame_cell(ap, dst),
            value: Operand::Immediate(value),
        },
        InstructionTemplate::Copy { dst, src } => InstructionBody::AssertEq {
            dst: frame_cell(ap, dst),
            value: Operand::Deref(frame_cell(ap, src)),
        },
        InstructionTemplate::AddImmediate { dst, src, value } => InstructionBody::AssertEq {
            dst: frame_cell(ap, dst),
            value: Operand::BinOp { cell: frame_cell(ap, src), immediate: value },
        },
        InstructionTemplate::Jump { .. } => InstructionBody::Jump { offset: distance },
        InstructionTemplate::JumpNonZero { condition, .. } => InstructionBody::JumpNonZero {
            condition: frame_cell(ap, condition),
            offset: distance,
        },
        InstructionTemplate::Call { .. } => InstructionBody::Call { offset: distance },
    }
}

/// How many words lie between the instruction at `position` in the code of
/// the statement and the code that it jumps to or calls: zero for an
/// instruction that does neither.
pub open spec fn jump_distance(
    program: &IrProgram,
    registry: &Registry,
    offsets: Seq<Option<usize>>,
    statement: int,
    position: int,
) -> int {
    let code = program.signature(registry, statement).code@;
    match template_target(program, registry, statement, code[position]) {
        Some(target) => start_offset(program, registry, offsets, target) - (start_offset(
            program,
            registry,
            offsets,
            statement,
        ) + code_size(code, position)),
        None => 0,
    }
}

/// The instruction that the template at `position` in the code of the
/// statement becomes.
pub open spec fn instantiated(
    program: &IrProgram,
    registry: &Registry,
    offsets: Seq<Option<usize>>,
    statement: int,
    position: int,
) -> TargetInstruction {
    let signature = program.signature(registry, statement);
    TargetInstruction {
        body: built(
            signature.code@[position],
            offsets[statement]->0,
            jump_distance(program, registry, offsets, statement, position) as i64,
        ),
        hint: if position == 0 {
            signature.hint
        } else {
            None
        },
    }
}

/// The code of the statement.
pub open spec fn statement_code(
    program: &IrProgram,
    registry: &Registry,
    offsets: Seq<Option<usize>>,
    statement: int,
) -> Seq<TargetInstruction> {
    match offsets[statement] {
        None => Seq::empty(),
        Some(_) => match program.statements@[statement] {
            Statement::Return(_) => seq![TargetInstruction { body: InstructionBody::Ret, hint: None }],
            Statement::Invocation(_) => Seq::new(
                program.signature(registry, statement).code@.len(),
                |position: int| instantiated(program, registry, offsets, statement, position),
            ),
        },
    }
}

/// The code of the first `upto` statements.
pub open spec fn program_code(
    program: &IrProgram,
    registry: &Registry,
    offsets: Seq<Option<usize>>,
    upto: int,
) -> Seq<TargetInstruction>
    decreases upto,
{
    if upto <= 0 {
        Seq::empty()
    } else {
        program_code(program, registry, offsets, upto - 1) + statement_code(
            program,
            registry,
            offsets,
            upto - 1,
        )
    }
}

/// Whether every cell that the code of the statement names can be addressed.
pub open spec fn statement_addressable(
    program: &IrProgram,
    registry: &Registry,
    offsets: Seq<Option<usize>>,
    statement: int,
) -> bool {
    match (offsets[statement], program.statements@[statement]) {
        (Some(ap), Statement::Invocation(_)) => forall|position: int|
            0 <= position < program.signature(registry, statement).code@.len()
                ==> template_addressable(
                #[trigger] program.signature(registry, statement).code@[position],
                ap,
            ),
        _ => true,
    }
}

/// **The code of a function of one statement.** Where the body of a
/// function is one invocation that leads on to a return, and both are
/// reached, the code of the invocation holds one instruction for each
/// instruction of the code of its library function, and the code of the
/// return is the one instruction that returns: a library function without
/// code leaves a single instruction.
pub proof fn single_statement_code(
    program: &IrProgram,
    registry: &Registry,
    offsets: Seq<Option<usize>>,
    function: int,
)
    requires
        program.single_statement_body(function),
        offsets[program.funcs@[function].entry_point as int] is Some,
        offsets[program.funcs@[function].entry_point + 1] is Some,
    ensures
        statement_code(
            program,
            registry,
            offsets,
            program.funcs@[function].entry_point as int,
        ).len() == program.signature(
            registry,
            program.funcs@[function].entry_point as int,
        ).code@.len(),
        statement_code(program, registry, offsets, program.funcs@[function].entry_point + 1)
            == seq![TargetInstruction { body: InstructionBody::Ret, hint: None }],
{
}

/// **One statement, one instruction.** Where the body of a function is one
/// invocation that leads on to a return, both are reached, and the code of
/// the library function of the invocation holds one instruction, the
/// invocation becomes exactly one instruction: that one, with its operands
/// filled in. What a library function costs does not say how long its code
/// is, so the length is asked for here.
pub proof fn single_instruction_code(
    program: &IrProgram,
    registry: &Registry,
    offsets: Seq<Option<usize>>,
    function: int,
)
    requires
        program.single_statement_body(function),
        offsets[program.funcs@[function].entry_point as int] is Some,
        program.signature(registry, program.funcs@[function].entry_point as int).code@.len() == 1,
    ensures
        statement_code(program, registry, offsets, program.funcs@[function].entry_point as int)
            == seq![
            instantiated(
                program,
                registry,
                offsets,
                program.funcs@[function].entry_point as int,
                0,
            ),
        ],
        statement_code(
            program,
            registry,
            offsets,
            program.funcs@[function].entry_point as int,
        ).len() == 1,
{
    let entry = program.funcs@[function].entry_point as int;
    assert(statement_code(program, registry, offsets, entry) =~= seq![
        instantiated(program, registry, offsets, entry, 0),
    ]);
}

/// The sizes of code add up, and are never negative.
pub proof fn code_size_bounds(code: Seq<InstructionTemplate>, upto: int)
    requires
        0 <= upto,
    ensures
        0 <= code_size(code, upto) <= 2 * upto,
    decreases upto,
{
    if upto > 0 {
        code_size_bounds(code, upto - 1);
    }
}

/// The code of later statements begins later.
pub proof fn start_offset_monotonic(
    program: &IrProgram,
    registry: &Registry,
    offsets: Seq<Option<usize>>,
    first: int,
    second: int,
)
    requires
        0 <= first <= second,
    ensures
        0 <= start_offset(program, registry, offsets, first) <= start_offset(
            program,
            registry,
            offsets,
            second,
        ),
    decreases second,
{
    if second > 0 {
        if first < second {
            start_offset_monotonic(program, registry, offsets, first, second - 1);
        } else {
            start_offset_monotonic(program, registry, offsets, first - 1, second - 1);
        }
        if offsets[second - 1] is Some && program.statements@[second - 1] is Invocation {
            code_size_bounds(
                program.signature(registry, second - 1).code@,
                program.signature(registry, second - 1).code@.len() as int,
            );
        }
    }
}

/// The number, or the largest number that can be held if it is larger.
pub open spec fn saturated(size: int) -> usize {
    if size <= usize::MAX {
        size as usize
    } else {
        usize::MAX
    }
}

/// Lays the code out: for each statement the offset at which its code
/// begins, and after the last statement the size of the code.
fn layout(
    program: &IrProgram,
    registry: &Registry,
    offsets: &Vec<Option<usize>>,
    max_bytecode_size: usize,
) -> (res: Result<Vec<usize>, CompilationError>)
    requires
        program.well_formed(registry),
        offsets@.len() == program.statements@.len(),
    ensures
        match res {
            Ok(starts) => {
                &&& starts@.len() == program.statements@.len() + 1
                &&& forall|statement: int|
                    0 <= statement <= program.statements@.len() ==> #[trigger] starts@[statement]
                        == start_offset(program, registry, offsets@, statement)
                &&& start_offset(
                    program,
                    registry,
                    offsets@,
                    program.statements@.len() as int,
                ) <= size_limit(max_bytecode_size)
            },
            Err(CompilationError::BytecodeTooLarge { size }) => {
                &&& start_offset(
                    program,
                    registry,
                    offsets@,
                    program.statements@.len() as int,
                ) > size_limit(max_bytecode_size)
                &&& size == saturated(
                    start_offset(program, registry, offsets@, program.statements@.len() as int),
                )
            },
            Err(_) => false,
        },
{
    let mut starts: Vec<usize> = Vec::new();
    let mut size: usize = 0;
    let mut overflowed = false;
    let mut function: usize = 0;
    starts.push(0);
    while function < program.funcs.len()
        invariant
            program.well_formed(registry),
            offsets@.len() == program.statements@.len(),
            function <= program.funcs@.len(),
            starts@.len() == program.body_start(function as int) + 1,
            program.body_start(function as int) <= program.statements@.len(),
            size == saturated(
                start_offset(program, registry, offsets@, program.body_start(function as int)),
            ),
            overflowed == (start_offset(
                program,
                registry,
                offsets@,
                program.body_start(function as int),
            ) > usize::MAX),
            forall|t: int|
                0 <= t < starts@.len() ==> #[trigger] starts@[t] == saturated(
                    start_offset(program, registry, offsets@, t),
                ),
        decreases program.funcs.len() - function,
    {
        proof {
            program.well_formed_function(registry, function as int);
        }
        let func = &program.funcs[function];
        let mut statement: usize = func.entry_point;
        while statement < func.end
            invariant
                program.well_formed(registry),
                offsets@.len() == program.statements@.len(),
                function < program.funcs@.len(),
                *func == program.funcs@[function as int],
                func.entry_point <= statement <= func.end <= program.statements@.len(),
                starts@.len() == statement + 1,
                size == saturated(start_offset(program, registry, offsets@, statement as int)),
                overflowed == (start_offset(program, registry, offsets@, statement as int)
                    > usize::MAX),
                forall|t: int|
                    0 <= t < starts@.len() ==> #[trigger] starts@[t] == saturated(
                        start_offset(program, registry, offsets@, t),
                    ),
            decreases func.end - statement,
        {
            proof {
                start_offset_monotonic(program, registry, offsets@, 0, statement as int);
            }
            let mut words: usize = 0;
            let mut too_many = false;
            if offsets[statement].is_some() {
                match &program.statements[statement] {
                    Statement::Return(_) => {
                        words = 1;
                    },
                    Statement::Invocation(invocation) => {
                        proof {
                            program.well_formed_statement(
                                registry,
                                function as int,
                                statement as int,
                            );
                        }
                        let signature = program.signature_at(registry, function, statement);
                        let mut position: usize = 0;
                        while position < signature.code.len()
                            invariant
                                *signature == program.signature(registry, statement as int),
                                position <= signature.code@.len(),
                                words == saturated(code_size(signature.code@, position as int)),
                                too_many == (code_size(signature.code@, position as int)
                                    > usize::MAX),
                            decreases signature.code.len() - position,
                        {
                            proof {
                                code_size_bounds(signature.code@, position as int);
                            }
                            let more: usize = match signature.code[position] {
                                InstructionTemplate::Copy { .. } => 1,
                                _ => 2,
                            };
                            match words.checked_add(more) {
                                Some(sum) => {
                                    if !too_many {
                                        words = sum;
                                    }
                                },
                                None => {
                                    words = usize::MAX;
                                    too_many = true;
                                },
                            }
                            position += 1;
                        }
                    },
                }
            }
            assert(words == saturated(statement_size(program, registry, offsets@, statement as int)));
            assert(too_many == (statement_size(program, registry, offsets@, statement as int)
                > usize::MAX));
            proof {
                if offsets@[statement as int] is Some && program.statements@[statement as int] is Invocation {
                    code_size_bounds(
                        program.signature(registry, statement as int).code@,
                        program.signature(registry, statement as int).code@.len() as int,
                    );
                }
            }
            match size.checked_add(words) {
                Some(sum) => {
                    if too_many || overflowed {
                        size = usize::MAX;
                        overflowed = true;
                    } else {
                        size = sum;
                    }
                },
                None => {
                    size = usize::MAX;
                    overflowed = true;
                },
            }
            starts.push(size);
            statement += 1;
        }
        function += 1;
    }
    proof {
        if program.funcs@.len() > 0 {
            program.well_formed_function(registry, 0);
        }
    }
    proof {
        program.well_formed_covers(registry);
    }
    if overflowed || size > max_bytecode_size || (size as u64) > 0x7fff_ffff_ffff_ffffu64 {
        proof {
            let total = start_offset(
                program,
                registry,
                offsets@,
                program.statements@.len() as int,
            );
            start_offset_monotonic(
                program,
                registry,
                offsets@,
                0,
                program.statements@.len() as int,
            );
            assert(size == saturated(total));
            assert(size_limit(max_bytecode_size) <= max_bytecode_size);
            assert(size_limit(max_bytecode_size) <= i64::MAX);
            assert(total > size_limit(max_bytecode_size));
        }
        return Err(CompilationError::BytecodeTooLarge { size });
    }
    proof {
        assert forall|statement: int|
            0 <= statement <= program.statements@.len() implies #[trigger] starts@[statement]
            == start_offset(program, registry, offsets@, statement) by {
            start_offset_monotonic(
                program,
                registry,
                offsets@,
                statement,
                program.statements@.len() as int,
            );
        }
    }
    Ok(starts)
}

/// The cell at `relative` cells above the allocation pointer, addressed
/// from the frame pointer; `None` if it cannot be addressed.
fn cell_at(ap: usize, relative: i16) -> (cell: Option<CellRef>)
    ensures
        cell is Some <==> addressable(ap, relative),
        cell matches Some(found) ==> found == frame_cell(ap, relative),
{
    if ap > 65535 {
        return None;
    }
    let sum: i64 = ap as i64 + relative as i64;
    if sum < -32768 || sum > 32767 {
        return None;
    }
    Some(CellRef { register: Register::FP, offset: sum as i16 })
}

/// The instruction that a template becomes; `None` if it names a cell that
/// cannot be addressed.
fn build(template: InstructionTemplate, ap: usize, distance: i64) -> (body: Option<
    InstructionBody,
>)
    ensures
        body is Some <==> template_addressable(template, ap),
        body matches Some(made) ==> made == built(template, ap, distance),
{
    match template {
        InstructionTemplate::StoreImmediate { dst, value } => match cell_at(ap, dst) {
            Some(dst) => Some(InstructionBody::AssertEq { dst, value: Operand::Immediate(value) }),
            None => None,
        },
        InstructionTemplate::Copy { dst, src } => match (cell_at(ap, dst), cell_at(ap, src)) {
            (Some(dst), Some(src)) => Some(
                InstructionBody::AssertEq { dst, value: Operand::Deref(src) },
            ),
            _ => None,
        },
        InstructionTemplate::AddImmediate { dst, src, value } => match (
            cell_at(ap, dst),
            cell_at(ap, src),
        ) {
            (Some(dst), Some(src)) => Some(
                InstructionBody::AssertEq {
                    dst,
                    value: Operand::BinOp { cell: src, immediate: value },
                },
            ),
            _ => None,
        },
        InstructionTemplate::Jump { .. } => Some(InstructionBody::Jump { offset: distance }),
        InstructionTemplate::JumpNonZero { condition, .. } => match cell_at(ap, condition) {
            Some(condition) => Some(InstructionBody::JumpNonZero { condition, offset: distance }),
            None => None,
        },
        InstructionTemplate::Call { .. } => Some(InstructionBody::Call { offset: distance }),
    }
}

/// Generates the instructions, given where the code of each statement begins.
fn emit(
    program: &IrProgram,
    registry: &Registry,
    offsets: &Vec<Option<usize>>,
    starts: &Vec<usize>,
) -> (res: Result<Vec<TargetInstruction>, CompilationError>)
    requires
        program.well_formed(registry),
        offsets@.len() == program.statements@.len(),
        starts@.len() == program.statements@.len() + 1,
        forall|statement: int|
            0 <= statement <= program.statements@.len() ==> #[trigger] starts@[statement]
                == start_offset(program, registry, offsets@, statement),
        start_offset(program, registry, offsets@, program.statements@.len() as int) <= i64::MAX,
    ensures
        match res {
            Ok(instructions) => {
                &&& instructions@ == program_code(
                    program,
                    registry,
                    offsets@,
                    program.statements@.len() as int,
                )
                &&& forall|statement: int|
                    0 <= statement < program.statements@.len() ==> #[trigger] statement_addressable(
                        program,
                        registry,
                        offsets@,
                        statement,
                    )
            },
            Err(CompilationError::OperandOutOfRange { statement }) => {
                &&& statement < program.statements@.len()
                &&& !statement_addressable(program, registry, offsets@, statement as int)
                &&& forall|earlier: int|
                    0 <= earlier < statement ==> #[trigger] statement_addressable(
                        program,
                        registry,
                        offsets@,
                        earlier,
                    )
            },
            Err(_) => false,
        },
{
    let mut instructions: Vec<TargetInstruction> = Vec::new();
    let mut function: usize = 0;
    while function < program.funcs.len()
        invariant
            program.well_formed(registry),
            offsets@.len() == program.statements@.len(),
            starts@.len() == program.statements@.len() + 1,
            forall|statement: int|
                0 <= statement <= program.statements@.len() ==> #[trigger] starts@[statement]
                    == start_offset(program, registry, offsets@, statement),
            start_offset(program, registry, offsets@, program.statements@.len() as int)
                <= i64::MAX,
            function <= program.funcs@.len(),
            program.body_start(function as int) <= program.statements@.len(),
            instructions@ == program_code(
                program,
                registry,
                offsets@,
                program.body_start(function as int),
            ),
            forall|earlier: int|
                0 <= earlier < program.body_start(function as int)
                    ==> #[trigger] statement_addressable(program, registry, offsets@, earlier),
        decreases program.funcs.len() - function,
    {
        proof {
            program.well_formed_function(registry, function as int);
        }
        let func = &program.funcs[function];
        let mut statement: usize = func.entry_point;
        while statement < func.end
            invariant
                program.well_formed(registry),
                offsets@.len() == program.statements@.len(),
                starts@.len() == program.statements@.len() + 1,
                forall|t: int|
                    0 <= t <= program.statements@.len() ==> #[trigger] starts@[t] == start_offset(
                        program,
                        registry,
                        offsets@,
                        t,
                    ),
                start_offset(program, registry, offsets@, program.statements@.len() as int)
                    <= i64::MAX,
                function < program.funcs@.len(),
                *func == program.funcs@[function as int],
                func.entry_point <= statement <= func.end <= program.statements@.len(),
                instructions@ == program_code(program, registry, offsets@, statement as int),
                forall|earlier: int|
                    0 <= earlier < statement ==> #[trigger] statement_addressable(
                        program,
                        registry,
                        offsets@,
                        earlier,
                    ),
            decreases func.end - statement,
        {
            let ghost before = instructions@;
            if let Some(ap) = offsets[statement] {
                match &program.statements[statement] {
                    Statement::Return(_) => {
                        instructions.push(
                            TargetInstruction { body: InstructionBody::Ret, hint: None },
                        );
                        proof {
                            assert(instructions@ =~= before + statement_code(
                                program,
                                registry,
                                offsets@,
                                statement as int,
                            ));
                        }
                    },
                    Statement::Invocation(invocation) => {
                        proof {
                            program.well_formed_statement(
                                registry,
                                function as int,
                                statement as int,
                            );
                            start_offset_monotonic(
                                program,
                                registry,
                                offsets@,
                                statement as int + 1,
                                program.statements@.len() as int,
                            );
                        }
                        let signature = program.signature_at(registry, function, statement);
                        let mut at: usize = starts[statement];
                        let mut position: usize = 0;
                        assert(starts@[statement as int + 1] == start_offset(
                            program,
                            registry,
                            offsets@,
                            statement as int + 1,
                        ));
                        while position < signature.code.len()
                            invariant
                                program.well_formed(registry),
                                program.in_body(function as int, statement as int),
                                statement < program.statements@.len(),
                                offsets@.len() == program.statements@.len(),
                                offsets@[statement as int] == Some(ap),
                                starts@.len() == program.statements@.len() + 1,
                                forall|t: int|
                                    0 <= t <= program.statements@.len() ==> #[trigger] starts@[t]
                                        == start_offset(program, registry, offsets@, t),
                                start_offset(
                                    program,
                                    registry,
                                    offsets@,
                                    program.statements@.len() as int,
                                ) <= i64::MAX,
                                start_offset(program, registry, offsets@, statement as int + 1)
                                    <= i64::MAX,
                                start_offset(program, registry, offsets@, statement as int + 1)
                                    <= usize::MAX,
                                program.statements@[statement as int] == Statement::Invocation(
                                    *invocation,
                                ),
                                *signature == program.signature(registry, statement as int),
                                signature.branches@.len() == invocation.branches@.len(),
                                position <= signature.code@.len(),
                                at == start_offset(program, registry, offsets@, statement as int)
                                    + code_size(signature.code@, position as int),
                                instructions@ == before + Seq::new(
                                    position as nat,
                                    |p: int|
                                        instantiated(
                                            program,
                                            registry,
                                            offsets@,
                                            statement as int,
                                            p,
                                        ),
                                ),
                                forall|p: int|
                                    0 <= p < position ==> template_addressable(
                                        #[trigger] signature.code@[p],
                                        ap,
                                    ),
                                forall|earlier: int|
                                    0 <= earlier < statement ==> #[trigger] statement_addressable(
                                        program,
                                        registry,
                                        offsets@,
                                        earlier,
                                    ),
                            decreases signature.code.len() - position,
                        {
                            proof {
                                program.well_formed_template(
                                    registry,
                                    function as int,
                                    statement as int,
                                    position as int,
                                );
                                code_size_bounds(signature.code@, position as int);
                                code_size_bounds(signature.code@, signature.code@.len() as int);
                                code_size_step(
                                    signature.code@,
                                    position as int + 1,
                                    signature.code@.len() as int,
                                );
                                start_offset_monotonic(
                                    program,
                                    registry,
                                    offsets@,
                                    0,
                                    statement as int,
                                );
                            }
                            let template = signature.code[position];
                            let target: Option<usize> = match template {
                                InstructionTemplate::Jump { branch } => Some(
                                    target_of(program, registry, function, statement, branch),
                                ),
                                InstructionTemplate::JumpNonZero { branch, .. } => Some(
                                    target_of(program, registry, function, statement, branch),
                                ),
                                InstructionTemplate::Call { branch } => {
                                    proof {
                                        program.well_formed_branch(
                                            registry,
                                            function as int,
                                            statement as int,
                                            branch as int,
                                        );
                                    }
                                    match signature.branches[branch].ap_change {
                                        ApChangeRule::FunctionCall(callee) => {
                                            proof {
                                                program.well_formed_function(
                                                    registry,
                                                    callee as int,
                                                );
                                            }
                                            Some(program.funcs[callee].entry_point)
                                        },
                                        _ => Some(
                                            target_of(program, registry, function, statement, branch),
                                        ),
                                    }
                                },
                                _ => None,
                            };
                            assert(match target {
                                Some(index) => template_target(
                                    program,
                                    registry,
                                    statement as int,
                                    template,
                                ) == Some(index as int),
                                None => template_target(
                                    program,
                                    registry,
                                    statement as int,
                                    template,
                                ) is None,
                            });
                            assert(start_offset(program, registry, offsets@, statement as int + 1)
                                == start_offset(program, registry, offsets@, statement as int)
                                + code_size(signature.code@, signature.code@.len() as int));
                            let words: i64 = match target {
                                Some(index) => distance(program, registry, offsets, starts, at, index),
                                None => 0,
                            };
                            let body = match build(template, ap, words) {
                                Some(body) => body,
                                None => {
                                    proof {
                                        assert(!template_addressable(
                                            program.signature(
                                                registry,
                                                statement as int,
                                            ).code@[position as int],
                                            ap,
                                        ));
                                        assert(!statement_addressable(
                                            program,
                                            registry,
                                            offsets@,
                                            statement as int,
                                        ));
                                    }
                                    return Err(CompilationError::OperandOutOfRange { statement });
                                },
                            };
                            let hint = if position == 0 {
                                signature.hint
                            } else {
                                None
                            };
                            let ghost so_far = instructions@;
                            instructions.push(TargetInstruction { body, hint });
                            proof {
                                assert(instructions@ =~= before + Seq::new(
                                    (position + 1) as nat,
                                    |p: int|
                                        instantiated(
                                            program,
                                            registry,
                                            offsets@,
                                            statement as int,
                                            p,
                                        ),
                                ));
                            }
                            at = at + match template {
                                InstructionTemplate::Copy { .. } => 1,
                                _ => 2,
                            };
                            position += 1;
                        }
                        proof {
                            assert(instructions@ =~= before + statement_code(
                                program,
                                registry,
                                offsets@,
                                statement as int,
                            ));
                        }
                    },
                }
            } else {
                proof {
                    assert(instructions@ =~= before + statement_code(
                        program,
                        registry,
                        offsets@,
                        statement as int,
                    ));
                }
            }
            statement += 1;
        }
        function += 1;
    }
    proof {
        program.well_formed_covers(registry);
    }
    Ok(instructions)
}

/// The sizes of code only grow with more instructions.
pub proof fn code_size_step(code: Seq<InstructionTemplate>, first: int, second: int)
    requires
        0 <= first <= second,
    ensures
        code_size(code, first) <= code_size(code, second),
    decreases second - first,
{
    if first < second {
        code_size_step(code, first, second - 1);
    }
}

/// The statement that the outcome `branch` of the invocation leads to.
fn target_of(
    program: &IrProgram,
    registry: &Registry,
    function: usize,
    statement: usize,
    branch: usize,
) -> (target: usize)
    requires
        program.well_formed(registry),
        program.in_body(function as int, statement as int),
        program.statements@[statement as int] is Invocation,
        branch < program.branch_count(statement as int),
    ensures
        target == program.target(statement as int, branch as int),
        target < program.statements@.len(),
{
    proof {
        program.well_formed_branch(registry, function as int, statement as int, branch as int);
        program.well_formed_function(registry, function as int);
    }
    match &program.statements[statement] {
        Statement::Invocation(invocation) => match invocation.branches[branch] {
            BranchTarget::Fallthrough => statement + 1,
            BranchTarget::Statement(index) => index,
        },
        Statement::Return(_) => statement,
    }
}

/// How many words the code of the statement `target` begins after `at`.
fn distance(
    program: &IrProgram,
    registry: &Registry,
    offsets: &Vec<Option<usize>>,
    starts: &Vec<usize>,
    at: usize,
    target: usize,
) -> (words: i64)
    requires
        starts@.len() == program.statements@.len() + 1,
        forall|t: int|
            0 <= t <= program.statements@.len() ==> #[trigger] starts@[t] == start_offset(
                program,
                registry,
                offsets@,
                t,
            ),
        start_offset(program, registry, offsets@, program.statements@.len() as int) <= i64::MAX,
        target < program.statements@.len(),
        at <= i64::MAX,
    ensures
        words == start_offset(program, registry, offsets@, target as int) - at,
{
    proof {
        start_offset_monotonic(
            program,
            registry,
            offsets@,
            target as int,
            program.statements@.len() as int,
        );
    }
    starts[target] as i64 - at as i64
}

/// Generates the target code of a program, given the offset of the
/// allocation pointer at each statement.
///
/// The instructions come in the order of the statements; a statement that no
/// path reaches gets none. Jumps and calls hold the distance to where the code
/// of their target begins. Code of more words than the configuration allows,
/// or than offsets can be held for, is refused, not cut short.
pub fn compile(
    program: &IrProgram,
    registry: &Registry,
    offsets: &Vec<Option<usize>>,
    config: SierraToCasmConfig,
) -> (res: Result<TargetProgram, CompilationError>)
    requires
        program.well_formed(registry),
        offsets@.len() == program.statements@.len(),
    ensures
        res matches Err(CompilationError::BytecodeTooLarge { .. }) <==> start_offset(
            program,
            registry,
            offsets@,
            program.statements@.len() as int,
        ) > size_limit(config.max_bytecode_size),
        match res {
            Ok(code) => {
                &&& code.instructions@ == program_code(
                    program,
                    registry,
                    offsets@,
                    program.statements@.len() as int,
                )
                &&& code.statement_offsets@.len() == program.statements@.len() + 1
                &&& forall|statement: int|
                    0 <= statement <= program.statements@.len()
                        ==> #[trigger] code.statement_offsets@[statement] == start_offset(
                        program,
                        registry,
                        offsets@,
                        statement,
                    )
                &&& forall|statement: int|
                    0 <= statement < program.statements@.len() ==> #[trigger] statement_addressable(
                        program,
                        registry,
                        offsets@,
                        statement,
                    )
            },
            Err(CompilationError::BytecodeTooLarge { size }) => size == saturated(
                start_offset(program, registry, offsets@, program.statements@.len() as int),
            ),
            Err(CompilationError::OperandOutOfRange { statement }) => {
                &&& statement < program.statements@.len()
                &&& !statement_addressable(program, registry, offsets@, statement as int)
                &&& forall|earlier: int|
                    0 <= earlier < statement ==> #[trigger] statement_addressable(
                        program,
                        registry,
                        offsets@,
                        earlier,
                    )
            },
        },
{
    let statement_offsets = match layout(program, registry, offsets, config.max_bytecode_size) {
        Ok(starts) => starts,
        Err(error) => {
            return Err(error);
        },
    };
    let instructions = match emit(program, registry, offsets, &statement_offsets) {
        Ok(instructions) => instructions,
        Err(error) => {
            return Err(error);
        },
    };
    Ok(TargetProgram { instructions, statement_offsets })
}

} // verus!
