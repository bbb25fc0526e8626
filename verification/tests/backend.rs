use cairo_toolkit::ap_change::{calc_ap_changes, ApChangeError};
use cairo_toolkit::casm::{
    compile, CellRef, CompilationError, InstructionBody, Operand, Register, SierraToCasmConfig,
    TargetInstruction,
};
use cairo_toolkit::gas::{
    calc_gas_info, calc_gas_precost_info, compute_postcost_info, find_enforced, CostError,
    EnforcedCost, FunctionCost, GasInfo,
};
use cairo_toolkit::pipeline::{compile_program, CompileError, CompilerConfig};
use cairo_toolkit::program::{BranchTarget, Function, Invocation, IrProgram, ProgramError, Statement};
use cairo_toolkit::registry::{
    ApChangeRule, BranchSignature, Cost, CostTokenType, InstructionTemplate, LibfuncSignature,
    Registry, RegistryError,
};
use cairo_toolkit::serializer::{CasmCairoProgram, EntryPoint, SerializationError};

fn steps(step: i64) -> Cost {
    Cost { step, range_check: 0, pedersen: 0, bitwise: 0 }
}

fn outcome(ap_change: ApChangeRule, cost: Cost) -> BranchSignature {
    BranchSignature { outputs: 0, ap_change, cost }
}

fn libfunc(
    id: u64,
    static_cost: Cost,
    branches: Vec<BranchSignature>,
    code: Vec<InstructionTemplate>,
) -> LibfuncSignature {
    LibfuncSignature { id, generic_arity: 0, inputs: 0, static_cost, branches, code, hint: None }
}

fn invoke(libfunc_id: u64, branches: Vec<BranchTarget>) -> Statement {
    Statement::Invocation(Invocation { libfunc_id, type_args: vec![], args: vec![], branches })
}

fn function(id: u64, entry_point: usize, end: usize) -> Function {
    Function { id, params: vec![], entry_point, end }
}

fn config(max_bytecode_size: usize) -> SierraToCasmConfig {
    SierraToCasmConfig { gas_usage_check: false, max_bytecode_size }
}

fn options(max_bytecode_size: usize) -> CompilerConfig {
    CompilerConfig {
        gas_usage_check: true,
        max_bytecode_size,
        add_hints: true,
        max_cost_iterations: 16,
    }
}

/// A registry with: 1, a no-op that costs one step; 2, a two-way branch whose
/// outcomes cost two and five steps; 3, a store of a constant that moves the
/// allocation pointer by one; 4 and 5, calls of the functions 0 and 1 that
/// cost one step; 6, a jump; 7, a two-way branch whose outcomes move the
/// allocation pointer by one and by two.
fn registry() -> Registry {
    Registry {
        libfuncs: vec![
            libfunc(1, steps(1), vec![outcome(ApChangeRule::Known(0), steps(0))], vec![]),
            libfunc(
                2,
                steps(0),
                vec![
                    outcome(ApChangeRule::Known(0), steps(2)),
                    outcome(ApChangeRule::Known(0), steps(5)),
                ],
                vec![InstructionTemplate::JumpNonZero { condition: -1, branch: 1 }],
            ),
            libfunc(
                3,
                steps(1),
                vec![outcome(ApChangeRule::Known(1), steps(0))],
                vec![InstructionTemplate::StoreImmediate { dst: 0, value: 7 }],
            ),
            libfunc(
                4,
                steps(0),
                vec![outcome(ApChangeRule::FunctionCall(0), steps(1))],
                vec![InstructionTemplate::Call { branch: 0 }],
            ),
            libfunc(
                5,
                steps(0),
                vec![outcome(ApChangeRule::FunctionCall(1), steps(1))],
                vec![InstructionTemplate::Call { branch: 0 }],
            ),
            libfunc(
                6,
                steps(0),
                vec![outcome(ApChangeRule::Known(0), steps(0))],
                vec![InstructionTemplate::Jump { branch: 0 }],
            ),
            libfunc(
                7,
                steps(0),
                vec![
                    outcome(ApChangeRule::Known(1), steps(0)),
                    outcome(ApChangeRule::Known(2), steps(0)),
                ],
                vec![InstructionTemplate::JumpNonZero { condition: -1, branch: 1 }],
            ),
        ],
    }
}

fn single_statement_program() -> IrProgram {
    IrProgram {
        statements: vec![invoke(1, vec![BranchTarget::Fallthrough]), Statement::Return(vec![])],
        funcs: vec![function(0, 0, 2)],
    }
}

fn branching_program() -> IrProgram {
    IrProgram {
        statements: vec![
            invoke(2, vec![BranchTarget::Fallthrough, BranchTarget::Statement(2)]),
            Statement::Return(vec![]),
            Statement::Return(vec![]),
        ],
        funcs: vec![function(0, 0, 3)],
    }
}

fn mutually_recursive_program() -> IrProgram {
    IrProgram {
        statements: vec![
            invoke(5, vec![BranchTarget::Fallthrough]),
            Statement::Return(vec![]),
            invoke(4, vec![BranchTarget::Fallthrough]),
            Statement::Return(vec![]),
        ],
        funcs: vec![function(0, 0, 2), function(1, 2, 4)],
    }
}

/// Function 0 stores a constant and returns; function 1 calls it twice.
fn calling_program() -> IrProgram {
    IrProgram {
        statements: vec![
            invoke(3, vec![BranchTarget::Fallthrough]),
            Statement::Return(vec![]),
            invoke(4, vec![BranchTarget::Fallthrough]),
            invoke(4, vec![BranchTarget::Fallthrough]),
            Statement::Return(vec![]),
        ],
        funcs: vec![function(0, 0, 2), function(1, 2, 5)],
    }
}

#[test]
fn registry_lookup_finds_the_first_entry_with_the_identifier() {
    let registry = registry();
    assert_eq!(registry.lookup(3, 0).map(|signature| signature.id), Ok(3));
    assert_eq!(registry.lookup(9, 0).err(), Some(RegistryError::UnknownLibfunc { id: 9 }));
    assert_eq!(
        registry.lookup(3, 2).err(),
        Some(RegistryError::ArityMismatch { id: 3, expected: 0, found: 2 })
    );
}

#[test]
fn validate_accepts_a_well_formed_program() {
    assert_eq!(single_statement_program().validate(&registry()), Ok(()));
    assert_eq!(calling_program().validate(&registry()), Ok(()));
}

#[test]
fn validate_reports_the_first_defect() {
    let registry = registry();
    let unknown = IrProgram {
        statements: vec![invoke(42, vec![BranchTarget::Fallthrough]), Statement::Return(vec![])],
        funcs: vec![function(0, 0, 2)],
    };
    assert_eq!(
        unknown.validate(&registry),
        Err(ProgramError::Registry {
            statement: 0,
            error: RegistryError::UnknownLibfunc { id: 42 }
        })
    );
    let arity = IrProgram {
        statements: vec![
            Statement::Invocation(Invocation {
                libfunc_id: 1,
                type_args: vec![8],
                args: vec![],
                branches: vec![BranchTarget::Fallthrough],
            }),
            Statement::Return(vec![]),
        ],
        funcs: vec![function(0, 0, 2)],
    };
    assert_eq!(
        arity.validate(&registry),
        Err(ProgramError::Registry {
            statement: 0,
            error: RegistryError::ArityMismatch { id: 1, expected: 0, found: 1 }
        })
    );
    let backward = IrProgram {
        statements: vec![
            invoke(1, vec![BranchTarget::Fallthrough]),
            invoke(6, vec![BranchTarget::Statement(0)]),
            Statement::Return(vec![]),
        ],
        funcs: vec![function(0, 0, 3)],
    };
    assert_eq!(
        backward.validate(&registry),
        Err(ProgramError::BadBranchTarget { statement: 1, branch: 0 })
    );
    let falls_off = IrProgram {
        statements: vec![invoke(1, vec![BranchTarget::Fallthrough])],
        funcs: vec![function(0, 0, 1)],
    };
    assert_eq!(
        falls_off.validate(&registry),
        Err(ProgramError::BadBranchTarget { statement: 0, branch: 0 })
    );
    let branches = IrProgram {
        statements: vec![invoke(2, vec![BranchTarget::Fallthrough]), Statement::Return(vec![])],
        funcs: vec![function(0, 0, 2)],
    };
    assert_eq!(branches.validate(&registry), Err(ProgramError::BranchCountMismatch { statement: 0 }));
    let range = IrProgram { statements: vec![Statement::Return(vec![])], funcs: vec![function(0, 0, 2)] };
    assert_eq!(range.validate(&registry), Err(ProgramError::BadFunctionRange { function: 0 }));
    let gap = IrProgram {
        statements: vec![Statement::Return(vec![]), Statement::Return(vec![])],
        funcs: vec![function(0, 0, 1)],
    };
    assert_eq!(gap.validate(&registry), Err(ProgramError::UncoveredStatements));
    let callee = Registry {
        libfuncs: vec![libfunc(
            1,
            steps(0),
            vec![outcome(ApChangeRule::FunctionCall(3), steps(0))],
            vec![],
        )],
    };
    assert_eq!(
        single_statement_program().validate(&callee),
        Err(ProgramError::UnknownCallee { statement: 0, branch: 0 })
    );
    let template = Registry {
        libfuncs: vec![libfunc(
            1,
            steps(0),
            vec![outcome(ApChangeRule::Known(0), steps(0))],
            vec![InstructionTemplate::Jump { branch: 1 }],
        )],
    };
    assert_eq!(
        single_statement_program().validate(&template),
        Err(ProgramError::BadCodeTemplate { statement: 0 })
    );
}

#[test]
fn diagnose_reports_every_defective_function() {
    let registry = registry();
    let program = IrProgram {
        statements: vec![
            invoke(42, vec![BranchTarget::Fallthrough]),
            Statement::Return(vec![]),
            invoke(1, vec![BranchTarget::Fallthrough]),
            Statement::Return(vec![]),
            invoke(6, vec![BranchTarget::Statement(4)]),
        ],
        funcs: vec![function(0, 0, 2), function(1, 2, 4), function(2, 4, 5)],
    };
    assert_eq!(
        program.diagnose(&registry),
        vec![
            Some(ProgramError::Registry {
                statement: 0,
                error: RegistryError::UnknownLibfunc { id: 42 }
            }),
            None,
            Some(ProgramError::BadBranchTarget { statement: 4, branch: 0 }),
        ]
    );
    assert_eq!(calling_program().diagnose(&registry), vec![None, None]);
}

#[test]
fn single_statement_function_scenario() {
    let registry = registry();
    let program = single_statement_program();
    assert_eq!(program.validate(&registry), Ok(()));
    let ap = calc_ap_changes(&program, &registry).unwrap();
    assert_eq!(ap.offsets, vec![Some(0), Some(0)]);
    assert_eq!(ap.function_ap_change, vec![0]);
    let gas = calc_gas_info(&program, &registry, &vec![], 16).unwrap();
    assert_eq!(gas.variable_values, vec![vec![steps(1)], vec![]]);
    assert_eq!(gas.function_costs, vec![FunctionCost::Closed(steps(1))]);
    let code = compile(&program, &registry, &ap.offsets, config(usize::MAX)).unwrap();
    assert_eq!(code.instructions, vec![TargetInstruction { body: InstructionBody::Ret, hint: None }]);
    assert_eq!(code.statement_offsets, vec![0, 0, 1]);
}

#[test]
fn branching_function_scenario() {
    let registry = registry();
    let program = branching_program();
    assert_eq!(program.validate(&registry), Ok(()));
    let post = compute_postcost_info(&program, &registry, &vec![], 16).unwrap();
    assert_eq!(post.function_costs, vec![FunctionCost::Open]);
    assert_eq!(post.variable_values[0], vec![steps(2), steps(5)]);
    let gas = calc_gas_info(&program, &registry, &vec![], 16).unwrap();
    assert_eq!(gas.function_costs, vec![FunctionCost::Open]);
    assert_eq!(gas.variable_values[0], vec![steps(2), steps(5)]);
}

#[test]
fn mutually_recursive_functions_scenario() {
    let registry = registry();
    let program = mutually_recursive_program();
    assert_eq!(program.validate(&registry), Ok(()));
    assert_eq!(
        calc_ap_changes(&program, &registry),
        Err(ApChangeError::UnboundedApChange { function: 0 })
    );
    assert_eq!(
        compute_postcost_info(&program, &registry, &vec![], 16),
        Err(CostError::UnresolvableCostCycle)
    );
    assert_eq!(
        compile_program(&program, &registry, &vec![], options(usize::MAX)).err(),
        Some(CompileError::ApChange(ApChangeError::UnboundedApChange { function: 0 }))
    );
}

#[test]
fn enforced_cost_is_the_reported_cost() {
    let registry = registry();
    let program = mutually_recursive_program();
    let enforced = vec![EnforcedCost { function: 0, cost: steps(10) }];
    assert_eq!(find_enforced(&enforced, 0), Some(steps(10)));
    assert_eq!(find_enforced(&enforced, 1), None);
    // Where a function is named twice, the last entry counts.
    let twice = vec![
        EnforcedCost { function: 0, cost: steps(1) },
        EnforcedCost { function: 1, cost: steps(2) },
        EnforcedCost { function: 0, cost: steps(3) },
    ];
    assert_eq!(find_enforced(&twice, 0), Some(steps(3)));
    assert_eq!(find_enforced(&twice, 1), Some(steps(2)));
    assert_eq!(
        compute_postcost_info(&program, &registry, &twice, 16).unwrap().function_costs,
        vec![FunctionCost::Closed(steps(3)), FunctionCost::Closed(steps(2))]
    );
    let post = compute_postcost_info(&program, &registry, &enforced, 16).unwrap();
    assert_eq!(
        post.function_costs,
        vec![FunctionCost::Closed(steps(10)), FunctionCost::Closed(steps(11))]
    );
    let single = single_statement_program();
    let forced = vec![EnforcedCost { function: 0, cost: steps(40) }];
    let gas = calc_gas_info(&single, &registry, &forced, 16).unwrap();
    assert_eq!(gas.function_costs, vec![FunctionCost::Closed(steps(40))]);
    assert_eq!(gas.variable_values[0], vec![steps(1)]);
}

#[test]
fn costs_add_up_along_every_path() {
    let registry = registry();
    let program = calling_program();
    assert_eq!(program.validate(&registry), Ok(()));
    let gas = calc_gas_info(&program, &registry, &vec![], 16).unwrap();
    // Function 0: one step. Function 1: two calls of one step each, each
    // with the step of the callee.
    assert_eq!(
        gas.function_costs,
        vec![FunctionCost::Closed(steps(1)), FunctionCost::Closed(steps(4))]
    );
    let pre = calc_gas_precost_info(&program, &registry).unwrap();
    assert_eq!(pre.variable_values[0], vec![steps(1)]);
    assert_eq!(pre.function_costs, vec![FunctionCost::Closed(steps(0)); 2]);
}

#[test]
fn cost_iteration_gives_up_after_the_rounds_allowed() {
    let registry = registry();
    let program = calling_program();
    assert_eq!(
        compute_postcost_info(&program, &registry, &vec![], 0),
        Err(CostError::UnresolvableCostCycle)
    );
    assert!(compute_postcost_info(&program, &registry, &vec![], 3).is_ok());
}

#[test]
fn negative_costs_are_detected() {
    let negative = Registry {
        libfuncs: vec![libfunc(
            1,
            steps(-1),
            vec![outcome(ApChangeRule::Known(0), steps(0))],
            vec![],
        )],
    };
    let program = single_statement_program();
    assert_eq!(program.validate(&negative), Ok(()));
    assert_eq!(
        calc_gas_precost_info(&program, &negative),
        Err(CostError::NegativeCostDetected { statement: Some(0), token: CostTokenType::Step })
    );
    let branch = Registry {
        libfuncs: vec![libfunc(
            1,
            steps(0),
            vec![outcome(
                ApChangeRule::Known(0),
                Cost { step: 0, range_check: 0, pedersen: -3, bitwise: 0 },
            )],
            vec![],
        )],
    };
    assert_eq!(
        compute_postcost_info(&program, &branch, &vec![], 16),
        Err(CostError::NegativeCostDetected { statement: Some(0), token: CostTokenType::Pedersen })
    );
    let enforced = vec![EnforcedCost { function: 0, cost: steps(-5) }];
    assert_eq!(
        compute_postcost_info(&program, &registry(), &enforced, 16),
        Err(CostError::NegativeCostDetected { statement: None, token: CostTokenType::Step })
    );
}

#[test]
fn combine_adds_what_the_phases_cover() {
    let pre = GasInfo {
        variable_values: vec![vec![Cost { step: 0, range_check: 2, pedersen: 0, bitwise: 0 }]],
        function_costs: vec![FunctionCost::Closed(steps(0)), FunctionCost::Open],
    };
    let post = GasInfo {
        variable_values: vec![vec![steps(3)]],
        function_costs: vec![FunctionCost::Closed(steps(9)), FunctionCost::Closed(steps(1))],
    };
    let combined = pre.combine(&post).unwrap();
    assert_eq!(
        combined.variable_values,
        vec![vec![Cost { step: 3, range_check: 2, pedersen: 0, bitwise: 0 }]]
    );
    assert_eq!(combined.function_costs, vec![FunctionCost::Closed(steps(9)), FunctionCost::Open]);
}

#[test]
fn combine_refuses_a_resource_that_both_phases_cover() {
    let pre = GasInfo {
        variable_values: vec![vec![], vec![steps(0), steps(1)]],
        function_costs: vec![],
    };
    let post = GasInfo {
        variable_values: vec![vec![], vec![steps(4), steps(2)]],
        function_costs: vec![],
    };
    assert_eq!(
        pre.combine(&post),
        Err(CostError::DoubleCounted { statement: Some(1), token: CostTokenType::Step })
    );
    let shorter = GasInfo { variable_values: vec![vec![]], function_costs: vec![] };
    assert_eq!(pre.combine(&shorter), Err(CostError::ShapeMismatch));
    let left = GasInfo { variable_values: vec![], function_costs: vec![FunctionCost::Closed(steps(1))] };
    let right = GasInfo { variable_values: vec![], function_costs: vec![FunctionCost::Closed(steps(2))] };
    assert_eq!(
        left.combine(&right),
        Err(CostError::DoubleCounted { statement: None, token: CostTokenType::Step })
    );
    // The static cost and the cost of an outcome of one library function
    // may not cover the same resource either.
    let doubled = Registry {
        libfuncs: vec![libfunc(
            1,
            steps(1),
            vec![outcome(ApChangeRule::Known(0), steps(1))],
            vec![],
        )],
    };
    assert_eq!(
        calc_gas_info(&single_statement_program(), &doubled, &vec![], 16),
        Err(CostError::DoubleCounted { statement: Some(0), token: CostTokenType::Step })
    );
}

#[test]
fn costs_that_cannot_be_held_are_refused() {
    let huge = Registry {
        libfuncs: vec![libfunc(
            1,
            steps(0),
            vec![outcome(ApChangeRule::Known(0), steps(i64::MAX))],
            vec![],
        )],
    };
    let program = IrProgram {
        statements: vec![
            invoke(1, vec![BranchTarget::Fallthrough]),
            invoke(1, vec![BranchTarget::Fallthrough]),
            Statement::Return(vec![]),
        ],
        funcs: vec![function(0, 0, 3)],
    };
    assert_eq!(program.validate(&huge), Ok(()));
    assert_eq!(compute_postcost_info(&program, &huge, &vec![], 16), Err(CostError::CostOverflow));
    // A sum whose parts cancel out can be held.
    let cancelling = Registry {
        libfuncs: vec![libfunc(
            1,
            steps(-1),
            vec![outcome(ApChangeRule::Known(0), steps(i64::MAX))],
            vec![],
        )],
    };
    let single = single_statement_program();
    assert_eq!(
        compute_postcost_info(&single, &cancelling, &vec![], 16).unwrap().function_costs,
        vec![FunctionCost::Closed(steps(i64::MAX - 1))]
    );
}

#[test]
fn cost_helpers() {
    let cost = Cost { step: 1, range_check: 2, pedersen: 3, bitwise: 4 };
    assert_eq!(cost.get(CostTokenType::Step), 1);
    assert_eq!(cost.get(CostTokenType::RangeCheck), 2);
    assert_eq!(cost.get(CostTokenType::Pedersen), 3);
    assert_eq!(cost.get(CostTokenType::Bitwise), 4);
    assert_eq!(Cost::zero(), steps(0));
    assert_eq!(cost.checked_add(&steps(5)), Some(Cost { step: 6, ..cost }));
    assert_eq!(steps(i64::MAX).checked_add(&steps(1)), None);
    assert_eq!(cost.first_negative(), None);
    assert_eq!(Cost { bitwise: -1, ..cost }.first_negative(), Some(CostTokenType::Bitwise));
    assert_eq!(cost.first_shared(&steps(1)), Some(CostTokenType::Step));
    assert_eq!(steps(1).first_shared(&Cost { step: 0, ..cost }), None);
}

#[test]
fn ap_offsets_follow_every_path() {
    let registry = registry();
    let program = calling_program();
    let ap = calc_ap_changes(&program, &registry).unwrap();
    // Function 0 moves the allocation pointer by one; function 1 calls it twice.
    assert_eq!(ap.function_ap_change, vec![1, 2]);
    assert_eq!(ap.offsets, vec![Some(0), Some(1), Some(0), Some(1), Some(2)]);
}

#[test]
fn ap_tracking_conflict_where_paths_disagree() {
    let registry = registry();
    // The two outcomes of the branch reach the return with the allocation
    // pointer at one and at two.
    let program = IrProgram {
        statements: vec![
            invoke(7, vec![BranchTarget::Fallthrough, BranchTarget::Statement(1)]),
            Statement::Return(vec![]),
        ],
        funcs: vec![function(0, 0, 2)],
    };
    assert_eq!(program.validate(&registry), Ok(()));
    assert_eq!(
        calc_ap_changes(&program, &registry),
        Err(ApChangeError::ApTrackingConflict { statement: 1 })
    );
    // Two returns that the allocation pointer reaches at different offsets.
    let returns = IrProgram {
        statements: vec![
            invoke(7, vec![BranchTarget::Fallthrough, BranchTarget::Statement(2)]),
            Statement::Return(vec![]),
            Statement::Return(vec![]),
        ],
        funcs: vec![function(0, 0, 3)],
    };
    assert_eq!(
        calc_ap_changes(&returns, &registry),
        Err(ApChangeError::ApTrackingConflict { statement: 2 })
    );
}

#[test]
fn unreachable_statements_get_no_offset_and_no_code() {
    let registry = registry();
    let program = IrProgram {
        statements: vec![
            invoke(6, vec![BranchTarget::Statement(2)]),
            invoke(3, vec![BranchTarget::Fallthrough]),
            Statement::Return(vec![]),
        ],
        funcs: vec![function(0, 0, 3)],
    };
    assert_eq!(program.validate(&registry), Ok(()));
    let ap = calc_ap_changes(&program, &registry).unwrap();
    assert_eq!(ap.offsets, vec![Some(0), None, Some(0)]);
    let code = compile(&program, &registry, &ap.offsets, config(10)).unwrap();
    assert_eq!(code.statement_offsets, vec![0, 2, 2, 3]);
    assert_eq!(
        code.instructions,
        vec![
            TargetInstruction { body: InstructionBody::Jump { offset: 2 }, hint: None },
            TargetInstruction { body: InstructionBody::Ret, hint: None },
        ]
    );
}

#[test]
fn code_generation_resolves_jumps_and_calls() {
    let registry = registry();
    let program = calling_program();
    let ap = calc_ap_changes(&program, &registry).unwrap();
    let code = compile(&program, &registry, &ap.offsets, config(100)).unwrap();
    assert_eq!(code.statement_offsets, vec![0, 2, 3, 5, 7, 8]);
    let fp = |offset: i16| CellRef { register: Register::FP, offset };
    assert_eq!(
        code.instructions,
        vec![
            TargetInstruction {
                body: InstructionBody::AssertEq { dst: fp(0), value: Operand::Immediate(7) },
                hint: None
            },
            TargetInstruction { body: InstructionBody::Ret, hint: None },
            TargetInstruction { body: InstructionBody::Call { offset: -3 }, hint: None },
            TargetInstruction { body: InstructionBody::Call { offset: -5 }, hint: None },
            TargetInstruction { body: InstructionBody::Ret, hint: None },
        ]
    );
    let branching = branching_program();
    let ap = calc_ap_changes(&branching, &registry).unwrap();
    let code = compile(&branching, &registry, &ap.offsets, config(100)).unwrap();
    assert_eq!(
        code.instructions[0],
        TargetInstruction {
            body: InstructionBody::JumpNonZero { condition: fp(-1), offset: 3 },
            hint: None
        }
    );
}

#[test]
fn bytecode_over_the_limit_is_refused() {
    let registry = registry();
    let program = calling_program();
    let ap = calc_ap_changes(&program, &registry).unwrap();
    assert_eq!(
        compile(&program, &registry, &ap.offsets, config(7)),
        Err(CompilationError::BytecodeTooLarge { size: 8 })
    );
    assert!(compile(&program, &registry, &ap.offsets, config(8)).is_ok());
    assert_eq!(
        compile_program(&program, &registry, &vec![], options(7)).err(),
        Some(CompileError::Compilation(CompilationError::BytecodeTooLarge { size: 8 }))
    );
}

#[test]
fn operands_out_of_range_are_refused() {
    let far = Registry {
        libfuncs: vec![
            libfunc(
                1,
                steps(0),
                vec![outcome(ApChangeRule::Known(40000), steps(0))],
                vec![],
            ),
            libfunc(
                3,
                steps(0),
                vec![outcome(ApChangeRule::Known(1), steps(0))],
                vec![InstructionTemplate::StoreImmediate { dst: 0, value: 7 }],
            ),
        ],
    };
    let program = IrProgram {
        statements: vec![
            invoke(1, vec![BranchTarget::Fallthrough]),
            invoke(3, vec![BranchTarget::Fallthrough]),
            Statement::Return(vec![]),
        ],
        funcs: vec![function(0, 0, 3)],
    };
    assert_eq!(program.validate(&far), Ok(()));
    let ap = calc_ap_changes(&program, &far).unwrap();
    assert_eq!(
        compile(&program, &far, &ap.offsets, config(100)),
        Err(CompilationError::OperandOutOfRange { statement: 1 })
    );
}

#[test]
fn compile_program_packages_code_hints_and_entry_points() {
    let mut registry = registry();
    registry.libfuncs[2].hint = Some(77);
    let program = calling_program();
    let compiled = compile_program(&program, &registry, &vec![], options(100)).unwrap();
    assert_eq!(compiled.program.bytecode, vec![1 + 8 * 65537, 7, 6, 5, -3, 5, -5, 6]);
    assert_eq!(compiled.program.hints, vec![(0, 77)]);
    assert_eq!(compiled.program.readable_hints, Some(vec![(0, "hint 77".to_string())]));
    assert_eq!(
        compiled.program.entry_points,
        vec![
            EntryPoint {
                function_id: 0,
                offset: 0,
                params: 0,
                cost: Some(FunctionCost::Closed(steps(1)))
            },
            EntryPoint {
                function_id: 1,
                offset: 3,
                params: 0,
                cost: Some(FunctionCost::Closed(steps(4)))
            },
        ]
    );
    assert_eq!(compiled.metadata.ap_change_info.function_ap_change, vec![1, 2]);
    let plain = CompilerConfig { gas_usage_check: false, add_hints: false, ..options(100) };
    let compiled = compile_program(&program, &registry, &vec![], plain).unwrap();
    assert!(compiled.metadata.gas_info.is_none());
    assert_eq!(compiled.program.hints, vec![(0, 77)]);
    assert_eq!(compiled.program.readable_hints, None);
    assert_eq!(compiled.program.entry_points[1].cost, None);
}

#[test]
fn compile_program_reports_malformed_programs() {
    let program = IrProgram {
        statements: vec![invoke(42, vec![BranchTarget::Fallthrough]), Statement::Return(vec![])],
        funcs: vec![function(0, 0, 2)],
    };
    assert_eq!(
        compile_program(&program, &registry(), &vec![], options(100)).err(),
        Some(CompileError::Malformed(ProgramError::Registry {
            statement: 0,
            error: RegistryError::UnknownLibfunc { id: 42 }
        }))
    );
}

#[test]
fn compiling_twice_gives_the_same_words() {
    let registry = registry();
    for program in [single_statement_program(), branching_program(), calling_program()] {
        let first = compile_program(&program, &registry, &vec![], options(100));
        let second = compile_program(&program, &registry, &vec![], options(100));
        assert_eq!(first, second);
        assert!(first.is_ok());
    }
}

#[test]
fn serializer_refuses_code_that_does_not_fit_the_program() {
    let registry = registry();
    let program = calling_program();
    let ap = calc_ap_changes(&program, &registry).unwrap();
    let code = compile(&program, &registry, &ap.offsets, config(100)).unwrap();
    let costs = vec![FunctionCost::Open];
    assert_eq!(
        CasmCairoProgram::new(&program, &code, Some(&costs), true),
        Err(SerializationError::MissingCosts)
    );
    let mut wrong_size = compile(&program, &registry, &ap.offsets, config(100)).unwrap();
    wrong_size.statement_offsets[5] = 9;
    assert_eq!(
        CasmCairoProgram::new(&program, &wrong_size, None, true),
        Err(SerializationError::InconsistentSize)
    );
    let mut short = compile(&program, &registry, &ap.offsets, config(100)).unwrap();
    short.statement_offsets = vec![8];
    assert_eq!(
        CasmCairoProgram::new(&program, &short, None, true),
        Err(SerializationError::MissingOffset { function: 1 })
    );
    let packaged = CasmCairoProgram::new(&program, &code, None, false).unwrap();
    assert_eq!(packaged.bytecode.len(), 8);
}
