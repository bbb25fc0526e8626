use vstd::prelude::*;

use crate::ap_change::{calc_ap_changes, ApChangeError, ApChangeInfo};
use crate::casm::{
    code_size, compile, program_code, saturated, size_limit, start_offset, statement_addressable,
    statement_code, CompilationError, SierraToCasmConfig,
};
use crate::gas::{
    calc_gas_info, cost_failure, gas_solved, CostError, EnforcedCost, FunctionCost, GasInfo,
};
use crate::program::{IrProgram, ProgramError, Statement};
use crate::registry::Registry;
use crate::serializer::{
    bytecode_of, encoded, hints_of, readable, readable_view, CasmCairoProgram, EntryPoint,
    SerializationError,
};

verus! {

/// What the analyses find out of a program before code is generated for it.
#[derive(Debug, PartialEq, Eq)]
pub struct ProgramMetadata {
    /// The allocation-pointer changes.
    pub ap_change_info: ApChangeInfo,
    /// The costs, where gas usage is checked.
    pub gas_info: Option<GasInfo>,
}

/// How a program is to be compiled.
#[derive(Clone, Copy, Debug, PartialEq, Eq, Structural)]
pub struct CompilerConfig {
    /// Whether gas usage is to be checked: whether the costs are worked out
    /// and go into the entry points.
    pub gas_usage_check: bool,
    /// The most words that the code may take.
    pub max_bytecode_size: usize,
    /// Whether the hints go into what is handed on as text for a reader too,
    /// beside the hint table.
    pub add_hints: bool,
    /// After how many rounds costs that have not settled are given up.
    pub max_cost_iterations: usize,
}

/// A compiled program, with what was found out of it on the way.
#[derive(Debug, PartialEq, Eq)]
pub struct Compiled {
    pub metadata: ProgramMetadata,
    pub program: CasmCairoProgram,
}

/// Why a program cannot be compiled.
#[derive(Clone, Copy, Debug, PartialEq, Eq, Structural)]
pub enum CompileError {
    /// The program is malformed, or invokes what the registry does not have.
    Malformed(ProgramError),
    /// The allocation-pointer changes cannot be worked out.
    ApChange(ApChangeError),
    /// The costs cannot be worked out.
    Cost(CostError),
    /// No code can be generated.
    Compilation(CompilationError),
    /// The code cannot be packaged: a defect of the compiler.
    Serialization(SerializationError),
}

/// The words of two runs of instructions in a row are the words of the
/// first followed by the words of the second.
proof fn bytecode_of_concat(
    first: Seq<crate::casm::TargetInstruction>,
    second: Seq<crate::casm::TargetInstruction>,
    upto: int,
)
    requires
        0 <= upto <= second.len(),
    ensures
        bytecode_of(first + second, first.len() + upto) == bytecode_of(first, first.len() as int)
            + bytecode_of(second, upto),
    decreases upto,
{
    let both = first + second;
    if upto == 0 {
        bytecode_prefix(first, both, first.len() as int);
        assert(bytecode_of(second, 0) =~= Seq::<i64>::empty());
        assert(bytecode_of(first, first.len() as int) + Seq::<i64>::empty() =~= bytecode_of(
            first,
            first.len() as int,
        ));
    } else {
        bytecode_of_concat(first, second, upto - 1);
        assert(both[first.len() + upto - 1] == second[upto - 1]);
        assert(bytecode_of(first, first.len() as int) + (bytecode_of(second, upto - 1) + encoded(
            second[upto - 1].body,
        )) =~= (bytecode_of(first, first.len() as int) + bytecode_of(second, upto - 1))
            + encoded(second[upto - 1].body));
    }
}

/// The words of the first instructions of a run do not depend on what follows.
proof fn bytecode_prefix(
    first: Seq<crate::casm::TargetInstruction>,
    longer: Seq<crate::casm::TargetInstruction>,
    upto: int,
)
    requires
        0 <= upto <= first.len() <= longer.len(),
        forall|i: int| 0 <= i < first.len() ==> first[i] == longer[i],
    ensures
        bytecode_of(longer, upto) == bytecode_of(first, upto),
    decreases upto,
{
    if upto > 0 {
        bytecode_prefix(first, longer, upto - 1);
    }
}

/// The code of a statement takes as many words as were laid out for it.
proof fn statement_code_length(
    program: &IrProgram,
    registry: &Registry,
    offsets: Seq<Option<usize>>,
    statement: int,
    upto: int,
)
    requires
        offsets[statement] is Some,
        program.statements@[statement] is Invocation,
        0 <= upto <= program.signature(registry, statement).code@.len(),
    ensures
        bytecode_of(statement_code(program, registry, offsets, statement), upto).len()
            == code_size(program.signature(registry, statement).code@, upto),
    decreases upto,
{
    if upto > 0 {
        statement_code_length(program, registry, offsets, statement, upto - 1);
    }
}

/// **The code is as long as it was laid out.** The words of the code of a
/// program end where the offsets of its statements end.
pub proof fn code_length(
    program: &IrProgram,
    registry: &Registry,
    offsets: Seq<Option<usize>>,
    upto: int,
)
    requires
        0 <= upto,
    ensures
        bytecode_of(
            program_code(program, registry, offsets, upto),
            program_code(program, registry, offsets, upto).len() as int,
        ).len() == start_offset(program, registry, offsets, upto),
    decreases upto,
{
    if upto > 0 {
        code_length(program, registry, offsets, upto - 1);
        let before = program_code(program, registry, offsets, upto - 1);
        let here = statement_code(program, registry, offsets, upto - 1);
        bytecode_of_concat(before, here, here.len() as int);
        if offsets[upto - 1] is Some {
            match program.statements@[upto - 1] {
                Statement::Return(_) => {
                    assert(bytecode_of(here, 0) =~= Seq::<i64>::empty());
                    assert(bytecode_of(here, 1).len() == 1);
                },
                Statement::Invocation(_) => {
                    statement_code_length(
                        program,
                        registry,
                        offsets,
                        upto - 1,
                        here.len() as int,
                    );
                },
            }
        }
    }
}

/// Compiles a program: checks it against the registry, works out the
/// allocation-pointer changes and, where gas usage is checked, the costs,
/// generates the code and packages it.
///
/// Nothing is read but the arguments, and nothing that is walked has an order
/// that could change from one run to the next: the same program gives the
/// same words.
pub fn compile_program(
    program: &IrProgram,
    registry: &Registry,
    enforced_costs: &Vec<EnforcedCost>,
    config: CompilerConfig,
) -> (res: Result<Compiled, CompileError>)
    ensures
        match program.defect(registry) {
            Some(error) => res == Err::<Compiled, CompileError>(CompileError::Malformed(error)),
            None => !(res matches Err(CompileError::Malformed(_))),
        },
        !(res matches Err(CompileError::Serialization(_))),
        res matches Ok(compiled) ==> compiled_from(
            program,
            registry,
            enforced_costs@,
            config,
            compiled,
        ),
        res matches Err(CompileError::ApChange(_)) ==> program.well_formed(registry) && forall|
            info: ApChangeInfo,
        |
            !#[trigger] info.valid(program, registry),
        res matches Err(CompileError::Cost(error)) ==> config.gas_usage_check
            && program.well_formed(registry) && cost_failure(
            program,
            registry,
            enforced_costs@,
            config.max_cost_iterations,
            error,
        ),
        res matches Err(CompileError::Compilation(error)) ==> exists|info: ApChangeInfo|
            #[trigger] generation_fails_with(program, registry, info, config, error),
{
    match program.validate(registry) {
        Ok(()) => {},
        Err(error) => {
            return Err(CompileError::Malformed(error));
        },
    }
    let ap_change_info = match calc_ap_changes(program, registry) {
        Ok(info) => info,
        Err(error) => {
            return Err(CompileError::ApChange(error));
        },
    };
    let gas_info = if config.gas_usage_check {
        match calc_gas_info(program, registry, enforced_costs, config.max_cost_iterations) {
            Ok(info) => Some(info),
            Err(error) => {
                return Err(CompileError::Cost(error));
            },
        }
    } else {
        None
    };
    let code = match compile(
        program,
        registry,
        &ap_change_info.offsets,
        SierraToCasmConfig {
            gas_usage_check: config.gas_usage_check,
            max_bytecode_size: config.max_bytecode_size,
        },
    ) {
        Ok(code) => code,
        Err(error) => {
            proof {
                assert(generation_fails_with(program, registry, ap_change_info, config, error));
            }
            return Err(CompileError::Compilation(error));
        },
    };
    proof {
        code_length(
            program,
            registry,
            ap_change_info.offsets@,
            program.statements@.len() as int,
        );
        assert forall|function: int| 0 <= function < program.funcs@.len() implies (
        #[trigger] program.funcs@[function]).entry_point < code.statement_offsets@.len() by {
            program.well_formed_function(registry, function);
        }
        no_missing_offset(program, &code, 0);
    }
    let packaged = {
        let function_costs = match &gas_info {
            Some(info) => Some(&info.function_costs),
            None => None,
        };
        match CasmCairoProgram::new(program, &code, function_costs, config.add_hints) {
            Ok(packaged) => packaged,
            Err(error) => {
                return Err(CompileError::Serialization(error));
            },
        }
    };
    Ok(Compiled { metadata: ProgramMetadata { ap_change_info, gas_info }, program: packaged })
}

/// Whether `compiled` is what compiling the program gives: the metadata is
/// right for the program, and the packaged program holds the words and hints
/// of the code of the program, and an entry point for each function.
pub open spec fn compiled_from(
    program: &IrProgram,
    registry: &Registry,
    enforced: Seq<EnforcedCost>,
    config: CompilerConfig,
    compiled: Compiled,
) -> bool {
    let offsets = compiled.metadata.ap_change_info.offsets@;
    let code = program_code(program, registry, offsets, program.statements@.len() as int);
    &&& program.well_formed(registry)
    &&& compiled.metadata.ap_change_info.valid(program, registry)
    &&& compiled.metadata.gas_info is Some == config.gas_usage_check
    &&& compiled.metadata.gas_info matches Some(gas) ==> gas_solved(
        program,
        registry,
        enforced,
        config.max_cost_iterations,
        gas,
    )
    &&& compiled.program.bytecode@ == bytecode_of(code, code.len() as int)
    &&& compiled.program.bytecode@.len() == start_offset(
        program,
        registry,
        offsets,
        program.statements@.len() as int,
    )
    &&& compiled.program.bytecode@.len() <= size_limit(config.max_bytecode_size)
    &&& compiled.program.hints@ == hints_of(code, code.len() as int)
    &&& readable_view(compiled.program.readable_hints) == if config.add_hints {
        Some(readable(compiled.program.hints@))
    } else {
        None
    }
    &&& compiled.program.entry_points@.len() == program.funcs@.len()
    &&& forall|function: int|
        0 <= function < program.funcs@.len() ==> #[trigger] compiled.program.entry_points@[function]
            == (EntryPoint {
            function_id: program.funcs@[function].id,
            offset: start_offset(
                program,
                registry,
                offsets,
                program.funcs@[function].entry_point as int,
            ) as usize,
            params: program.funcs@[function].params@.len() as usize,
            cost: match compiled.metadata.gas_info {
                Some(gas) => Some(gas.function_costs@[function]),
                None => None,
            },
        })
}

/// **Compiling is deterministic.** Whatever two results compiling one
/// program with one registry, the same enforced costs and the same
/// configuration may give, they hold the same words, the same hints and the
/// same entry points.
pub proof fn compilation_is_deterministic(
    program: &IrProgram,
    registry: &Registry,
    enforced: Seq<EnforcedCost>,
    config: CompilerConfig,
    first: Compiled,
    second: Compiled,
)
    requires
        compiled_from(program, registry, enforced, config, first),
        compiled_from(program, registry, enforced, config, second),
    ensures
        first.program.bytecode@ == second.program.bytecode@,
        first.program.hints@ == second.program.hints@,
        readable_view(first.program.readable_hints) == readable_view(
            second.program.readable_hints,
        ),
        first.program.entry_points@ == second.program.entry_points@,
        first.metadata.ap_change_info.offsets@ == second.metadata.ap_change_info.offsets@,
        first.metadata.ap_change_info.function_ap_change@
            == second.metadata.ap_change_info.function_ap_change@,
{
    crate::ap_change::ap_changes_are_unique(
        &first.metadata.ap_change_info,
        &second.metadata.ap_change_info,
        program,
        registry,
    );
    if config.gas_usage_check {
        crate::gas::gas_solution_is_determined(
            program,
            registry,
            enforced,
            config.max_cost_iterations,
            first.metadata.gas_info->0,
            second.metadata.gas_info->0,
        );
    }
    assert(first.program.entry_points@ =~= second.program.entry_points@);
}

/// Whether generating the code of the program, with these
/// allocation-pointer changes, which are those of the program, fails with
/// this error: the code takes the `size` words of the error, more than are
/// allowed, or the statement of the error is the first whose code names a
/// cell that cannot be addressed.
pub open spec fn generation_fails_with(
    program: &IrProgram,
    registry: &Registry,
    info: ApChangeInfo,
    config: CompilerConfig,
    error: CompilationError,
) -> bool {
    let size = start_offset(program, registry, info.offsets@, program.statements@.len() as int);
    &&& program.well_formed(registry)
    &&& info.valid(program, registry)
    &&& match error {
        CompilationError::BytecodeTooLarge { size: reported } => size > size_limit(
            config.max_bytecode_size,
        ) && reported == saturated(size),
        CompilationError::OperandOutOfRange { statement } => {
            &&& size <= size_limit(config.max_bytecode_size)
            &&& statement < program.statements@.len()
            &&& !statement_addressable(program, registry, info.offsets@, statement as int)
            &&& forall|earlier: int|
                0 <= earlier < statement ==> #[trigger] statement_addressable(
                    program,
                    registry,
                    info.offsets@,
                    earlier,
                )
        },
    }
}

/// Where every function begins at a statement with an offset, none is missing.
proof fn no_missing_offset(program: &IrProgram, code: &crate::casm::TargetProgram, from: int)
    requires
        0 <= from,
        forall|function: int|
            0 <= function < program.funcs@.len() ==> (
            #[trigger] program.funcs@[function]).entry_point < code.statement_offsets@.len(),
    ensures
        crate::serializer::first_missing(program, code, from) is None,
    decreases program.funcs@.len() - from,
{
    if from < program.funcs@.len() {
        assert(program.funcs@[from].entry_point < code.statement_offsets@.len());
        no_missing_offset(program, code, from + 1);
    }
}

} // verus!
