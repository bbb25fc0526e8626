use vstd::prelude::*;

use crate::registry::{
    ApChangeRule, InstructionTemplate, LibfuncSignature, Registry, RegistryError,
};

verus! {

/// Where control goes after an outcome of an invocation.
#[derive(Clone, Copy, Debug, PartialEq, Eq, Structural)]
pub enum BranchTarget {
    /// To the next statement.
    Fallthrough,
    /// To the statement with this index.
    Statement(usize),
}

/// An invocation of a library function.
#[derive(Debug, PartialEq, Eq)]
pub struct Invocation {
    /// The identifier of the library function.
    pub libfunc_id: u64,
    /// The type arguments that the library function is instantiated with.
    pub type_args: Vec<u64>,
    /// The variables that are handed to the library function.
    pub args: Vec<u64>,
    /// Where control goes for each outcome of the library function.
    pub branches: Vec<BranchTarget>,
}

/// One statement of a program.
#[derive(Debug, PartialEq, Eq)]
pub enum Statement {
    /// An invocation of a library function.
    Invocation(Invocation),
    /// The return from the function, with the variables that are returned.
    Return(Vec<u64>),
}

/// A function of a program. Its body is the range of statements from
/// `entry_point` up to `end`, and it is entered at the first of them.
#[derive(Debug, PartialEq, Eq)]
pub struct Function {
    /// The identifier of the function.
    pub id: u64,
    /// The variables that the function takes.
    pub params: Vec<u64>,
    /// The index of the first statement of the body.
    pub entry_point: usize,
    /// The index after the last statement of the body.
    pub end: usize,
}

/// A program: statements, and the functions that they form. Control only
/// moves forward within a function body: what repeats is written as a
/// function that calls itself.
#[derive(Debug, PartialEq, Eq)]
pub struct IrProgram {
    pub statements: Vec<Statement>,
    pub funcs: Vec<Function>,
}

/// What is wrong with a program.
#[derive(Clone, Copy, Debug, PartialEq, Eq, Structural)]
pub enum ProgramError {
    /// The body of the function is empty, reaches past the last statement or
    /// does not begin where the body of the function before it ends: at the
    /// first statement, for the first function.
    BadFunctionRange { function: usize },
    /// Statements follow the body of the last function.
    UncoveredStatements,
    /// The registry does not answer for the invocation.
    Registry { statement: usize, error: RegistryError },
    /// The invocation lists another number of targets than its library
    /// function has outcomes.
    BranchCountMismatch { statement: usize },
    /// The target of this outcome is not a later statement of the same
    /// body: it lies outside the body, or is the statement itself or an
    /// earlier one.
    BadBranchTarget { statement: usize, branch: usize },
    /// This outcome is a call of a function that the program does not have.
    UnknownCallee { statement: usize, branch: usize },
    /// The code of the library function jumps to an outcome that it does not have.
    BadCodeTemplate { statement: usize },
}

/// The statement that a target stands for, seen from the statement `from`.
pub open spec fn target_index(from: int, target: BranchTarget) -> int {
    match target {
        BranchTarget::Fallthrough => from + 1,
        BranchTarget::Statement(index) => index as int,
    }
}

/// The first defect that `defect` finds among the indices from `from` up to `to`.
pub open spec fn first_defect(
    from: int,
    to: int,
    defect: spec_fn(int) -> Option<ProgramError>,
) -> Option<ProgramError>
    decreases to - from,
{
    if from >= to {
        None
    } else if defect(from) is Some {
        defect(from)
    } else {
        first_defect(from + 1, to, defect)
    }
}

/// Where no first defect is found, no index has a defect.
pub proof fn no_first_defect(from: int, to: int, defect: spec_fn(int) -> Option<ProgramError>)
    requires
        first_defect(from, to, defect) is None,
    ensures
        forall|i: int| from <= i < to ==> (#[trigger] defect(i)) is None,
    decreases to - from,
{
    if from < to {
        no_first_defect(from + 1, to, defect);
    }
}

/// Whether the instruction jumps to an outcome that does not exist.
pub open spec fn template_out_of_range(template: InstructionTemplate, branches: int) -> bool {
    match template {
        InstructionTemplate::Jump { branch } => branch >= branches,
        InstructionTemplate::JumpNonZero { branch, .. } => branch >= branches,
        InstructionTemplate::Call { branch } => branch >= branches,
        _ => false,
    }
}

impl IrProgram {
    /// The signature of the invocation, where the registry answers for it.
    pub open spec fn signature(&self, registry: &Registry, statement: int) -> LibfuncSignature {
        let invocation = self.statements@[statement]->Invocation_0;
        registry.libfuncs@[registry.resolve(
            invocation.libfunc_id,
            invocation.type_args.len(),
        )->Ok_0]
    }

    /// What is wrong with one outcome of the invocation at `statement`, in a
    /// body that ends at `end`.
    pub open spec fn branch_defect(
        &self,
        registry: &Registry,
        end: int,
        statement: int,
        branch: int,
    ) -> Option<ProgramError> {
        let invocation = self.statements@[statement]->Invocation_0;
        let target = target_index(statement, invocation.branches@[branch]);
        if !(statement < target < end) {
            Some(
                ProgramError::BadBranchTarget {
                    statement: statement as usize,
                    branch: branch as usize,
                },
            )
        } else {
            match self.signature(registry, statement).branches@[branch].ap_change {
                ApChangeRule::FunctionCall(callee) => if callee >= self.funcs@.len() {
                    Some(
                        ProgramError::UnknownCallee {
                            statement: statement as usize,
                            branch: branch as usize,
                        },
                    )
                } else {
                    None
                },
                _ => None,
            }
        }
    }

    /// What is wrong with one instruction of the code of the invocation.
    pub open spec fn template_defect(
        &self,
        registry: &Registry,
        statement: int,
        position: int,
    ) -> Option<ProgramError> {
        let signature = self.signature(registry, statement);
        if template_out_of_range(signature.code@[position], signature.branches@.len() as int) {
            Some(ProgramError::BadCodeTemplate { statement: statement as usize })
        } else {
            None
        }
    }

    /// What is wrong with the statement, in a body that ends at `end`.
    pub open spec fn statement_defect(&self, registry: &Registry, end: int, statement: int) -> Option<
        ProgramError,
    > {
        match self.statements@[statement] {
            Statement::Return(_) => None,
            Statement::Invocation(invocation) => match registry.resolve(
                invocation.libfunc_id,
                invocation.type_args.len(),
            ) {
                Err(error) => Some(ProgramError::Registry { statement: statement as usize, error }),
                Ok(position) => {
                    let signature = registry.libfuncs@[position];
                    if invocation.branches@.len() != signature.branches@.len() {
                        Some(ProgramError::BranchCountMismatch { statement: statement as usize })
                    } else {
                        let of_branches = first_defect(
                            0,
                            invocation.branches@.len() as int,
                            |branch: int| self.branch_defect(registry, end, statement, branch),
                        );
                        if of_branches is Some {
                            of_branches
                        } else {
                            first_defect(
                                0,
                                signature.code@.len() as int,
                                |position: int| self.template_defect(registry, statement, position),
                            )
                        }
                    }
                },
            },
        }
    }

    /// What is wrong with the function.
    pub open spec fn function_defect(&self, registry: &Registry, function: int) -> Option<
        ProgramError,
    > {
        let func = self.funcs@[function];
        if !(func.entry_point < func.end <= self.statements@.len()) || func.entry_point
            != self.body_start(function) {
            Some(ProgramError::BadFunctionRange { function: function as usize })
        } else {
            first_defect(
                func.entry_point as int,
                func.end as int,
                |statement: int| self.statement_defect(registry, func.end as int, statement),
            )
        }
    }

    /// Where the body of the function has to begin: where the body of the
    /// function before it ends, or at the first statement.
    pub open spec fn body_start(&self, function: int) -> int {
        if function <= 0 {
            0
        } else {
            self.funcs@[function - 1].end as int
        }
    }

    /// What is wrong with the program: the first defect of its first
    /// defective function, or that the bodies do not cover every statement.
    pub open spec fn defect(&self, registry: &Registry) -> Option<ProgramError> {
        let of_functions = first_defect(
            0,
            self.funcs@.len() as int,
            |function: int| self.function_defect(registry, function),
        );
        if of_functions is Some {
            of_functions
        } else if self.body_start(self.funcs@.len() as int) != self.statements@.len() {
            Some(ProgramError::UncoveredStatements)
        } else {
            None
        }
    }

    /// Whether nothing is wrong with the program.
    pub open spec fn well_formed(&self, registry: &Registry) -> bool {
        self.defect(registry) is None
    }

    /// Whether `statement` lies in the body of `function`.
    pub open spec fn in_body(&self, function: int, statement: int) -> bool {
        &&& 0 <= function < self.funcs@.len()
        &&& self.funcs@[function].entry_point <= statement < self.funcs@[function].end
    }

    /// The number of targets that the statement lists: none for a return.
    pub open spec fn branch_count(&self, statement: int) -> int {
        match self.statements@[statement] {
            Statement::Invocation(invocation) => invocation.branches@.len() as int,
            Statement::Return(_) => 0,
        }
    }

    /// The statement that the outcome `branch` of the invocation at `statement` leads to.
    pub open spec fn target(&self, statement: int, branch: int) -> int {
        target_index(statement, self.statements@[statement]->Invocation_0.branches@[branch])
    }

    /// What outcome `branch` of the invocation at `statement` does.
    pub open spec fn branch_signature(
        &self,
        registry: &Registry,
        statement: int,
        branch: int,
    ) -> crate::registry::BranchSignature {
        self.signature(registry, statement).branches@[branch]
    }

    /// In a well-formed program each body lies within the statements, and
    /// after the body of the function before it.
    pub proof fn well_formed_function(&self, registry: &Registry, function: int)
        requires
            self.well_formed(registry),
            0 <= function < self.funcs@.len(),
        ensures
            self.funcs@[function].entry_point < self.funcs@[function].end <= self.statements@.len(),
            function > 0 ==> self.funcs@[function - 1].end == self.funcs@[function].entry_point,
            function == 0 ==> self.funcs@[function].entry_point == 0,
            self.funcs@[self.funcs@.len() - 1].end == self.statements@.len(),
            self.function_defect(registry, function) is None,
    {
        no_first_defect(
            0,
            self.funcs@.len() as int,
            |function: int| self.function_defect(registry, function),
        );
        assert((|function: int| self.function_defect(registry, function))(function) is None);
    }

    /// In a well-formed program the registry answers for every invocation in
    /// a body, and the invocation lists one target per outcome.
    pub proof fn well_formed_statement(&self, registry: &Registry, function: int, statement: int)
        requires
            self.well_formed(registry),
            self.in_body(function, statement),
        ensures
            0 <= statement < self.statements@.len(),
            self.statement_defect(registry, self.funcs@[function].end as int, statement) is None,
            self.statements@[statement] matches Statement::Invocation(invocation) ==> {
                &&& registry.resolve(invocation.libfunc_id, invocation.type_args.len()) is Ok
                &&& 0 <= registry.resolve(invocation.libfunc_id, invocation.type_args.len())->Ok_0
                    < registry.libfuncs@.len()
                &&& invocation.branches@.len() == self.signature(
                    registry,
                    statement,
                ).branches@.len()
            },
    {
        self.well_formed_function(registry, function);
        let func = self.funcs@[function];
        let of_statement = |statement: int|
            self.statement_defect(registry, func.end as int, statement);
        no_first_defect(func.entry_point as int, func.end as int, of_statement);
        assert(of_statement(statement) is None);
        if let Statement::Invocation(invocation) = self.statements@[statement] {
            crate::registry::position_of_is_first(registry.libfuncs@, invocation.libfunc_id);
        }
    }

    /// The signature of the invocation at `statement`, in a well-formed program.
    pub fn signature_at<'a>(
        &self,
        registry: &'a Registry,
        function: usize,
        statement: usize,
    ) -> (signature: &'a LibfuncSignature)
        requires
            self.well_formed(registry),
            self.in_body(function as int, statement as int),
            self.statements@[statement as int] is Invocation,
        ensures
            *signature == self.signature(registry, statement as int),
            signature.branches@.len() == self.branch_count(statement as int),
    {
        proof {
            self.well_formed_function(registry, function as int);
            self.well_formed_statement(registry, function as int, statement as int);
        }
        match &self.statements[statement] {
            Statement::Invocation(invocation) => match registry.lookup(
                invocation.libfunc_id,
                invocation.type_args.len(),
            ) {
                Ok(signature) => signature,
                Err(_) => unreached(),
            },
            Statement::Return(_) => unreached(),
        }
    }

    /// Whether the body of the function is one invocation with a single
    /// outcome, which leads on to a return.
    pub open spec fn single_statement_body(&self, function: int) -> bool {
        let entry = self.funcs@[function].entry_point as int;
        &&& 0 <= function < self.funcs@.len()
        &&& self.funcs@[function].end == entry + 2
        &&& self.statements@[entry] is Invocation
        &&& self.branch_count(entry) == 1
        &&& self.target(entry, 0) == entry + 1
        &&& self.statements@[entry + 1] is Return
    }

    /// Whether the body of the function begins with an invocation with two
    /// outcomes, each of which leads to a return.
    pub open spec fn two_way_body(&self, function: int) -> bool {
        let entry = self.funcs@[function].entry_point as int;
        &&& 0 <= function < self.funcs@.len()
        &&& self.statements@[entry] is Invocation
        &&& self.branch_count(entry) == 2
        &&& self.statements@[self.target(entry, 0)] is Return
        &&& self.statements@[self.target(entry, 1)] is Return
    }

    /// In a well-formed program the bodies of the functions cover every statement.
    pub proof fn well_formed_covers(&self, registry: &Registry)
        requires
            self.well_formed(registry),
        ensures
            self.body_start(self.funcs@.len() as int) == self.statements@.len(),
    {
    }

    /// In a well-formed program the code of a library function only names
    /// outcomes that the library function has.
    pub proof fn well_formed_template(
        &self,
        registry: &Registry,
        function: int,
        statement: int,
        position: int,
    )
        requires
            self.well_formed(registry),
            self.in_body(function, statement),
            self.statements@[statement] is Invocation,
            0 <= position < self.signature(registry, statement).code@.len(),
        ensures
            !template_out_of_range(
                self.signature(registry, statement).code@[position],
                self.branch_count(statement),
            ),
    {
        self.well_formed_statement(registry, function, statement);
        let end = self.funcs@[function].end as int;
        let invocation = self.statements@[statement]->Invocation_0;
        let signature = self.signature(registry, statement);
        let of_branch = |branch: int| self.branch_defect(registry, end, statement, branch);
        let of_template = |position: int| self.template_defect(registry, statement, position);
        assert(first_defect(0, invocation.branches@.len() as int, of_branch) is None);
        assert(first_defect(0, signature.code@.len() as int, of_template) is None);
        no_first_defect(0, signature.code@.len() as int, of_template);
        assert(of_template(position) is None);
    }

    /// In a well-formed program each target of an invocation is a later
    /// statement of the same body, and each function that is called exists.
    pub proof fn well_formed_branch(
        &self,
        registry: &Registry,
        function: int,
        statement: int,
        branch: int,
    )
        requires
            self.well_formed(registry),
            self.in_body(function, statement),
            self.statements@[statement] is Invocation,
            0 <= branch < self.branch_count(statement),
        ensures
            statement < self.target(statement, branch) < self.funcs@[function].end,
            self.in_body(function, self.target(statement, branch)),
            0 <= branch < self.signature(registry, statement).branches@.len(),
            self.branch_signature(registry, statement, branch).ap_change matches ApChangeRule::FunctionCall(
                callee,
            ) ==> callee < self.funcs@.len(),
    {
        self.well_formed_statement(registry, function, statement);
        let end = self.funcs@[function].end as int;
        let invocation = self.statements@[statement]->Invocation_0;
        let of_branch = |branch: int| self.branch_defect(registry, end, statement, branch);
        assert(first_defect(0, invocation.branches@.len() as int, of_branch) is None);
        no_first_defect(0, invocation.branches@.len() as int, of_branch);
        assert(of_branch(branch) is None);
    }

    fn check_statement(&self, registry: &Registry, end: usize, statement: usize) -> (res: Result<
        (),
        ProgramError,
    >)
        requires
            statement < end <= self.statements@.len(),
        ensures
            match self.statement_defect(registry, end as int, statement as int) {
                Some(error) => res == Err::<(), ProgramError>(error),
                None => res is Ok,
            },
    {
        let invocation = match &self.statements[statement] {
            Statement::Return(_) => {
                return Ok(());
            },
            Statement::Invocation(invocation) => invocation,
        };
        let signature = match registry.lookup(invocation.libfunc_id, invocation.type_args.len()) {
            Ok(signature) => signature,
            Err(error) => {
                return Err(ProgramError::Registry { statement, error });
            },
        };
        if invocation.branches.len() != signature.branches.len() {
            return Err(ProgramError::BranchCountMismatch { statement });
        }
        let ghost of_branch = |branch: int|
            self.branch_defect(registry, end as int, statement as int, branch);
        let mut branch: usize = 0;
        while branch < invocation.branches.len()
            invariant
                branch <= invocation.branches.len(),
                statement < end <= self.statements@.len(),
                self.statements@[statement as int] == Statement::Invocation(*invocation),
                registry.resolve(invocation.libfunc_id, invocation.type_args.len()) is Ok,
                *signature == self.signature(registry, statement as int),
                invocation.branches@.len() == signature.branches@.len(),
                of_branch == |branch: int|
                    self.branch_defect(registry, end as int, statement as int, branch),
                first_defect(0, invocation.branches@.len() as int, of_branch) == first_defect(
                    branch as int,
                    invocation.branches@.len() as int,
                    of_branch,
                ),
            decreases invocation.branches.len() - branch,
        {
            let target = match invocation.branches[branch] {
                BranchTarget::Fallthrough => statement + 1,
                BranchTarget::Statement(index) => index,
            };
            if !(statement < target && target < end) {
                proof {
                    assert(of_branch(branch as int) == Some(
                        ProgramError::BadBranchTarget { statement, branch },
                    ));
                }
                return Err(ProgramError::BadBranchTarget { statement, branch });
            }
            if let ApChangeRule::FunctionCall(callee) = signature.branches[branch].ap_change {
                if callee >= self.funcs.len() {
                    proof {
                        assert(of_branch(branch as int) == Some(
                            ProgramError::UnknownCallee { statement, branch },
                        ));
                    }
                    return Err(ProgramError::UnknownCallee { statement, branch });
                }
            }
            proof {
                assert(of_branch(branch as int) is None);
            }
            branch += 1;
        }
        let ghost of_template = |position: int|
            self.template_defect(registry, statement as int, position);
        let mut position: usize = 0;
        while position < signature.code.len()
            invariant
                position <= signature.code.len(),
                statement < end <= self.statements@.len(),
                self.statements@[statement as int] == Statement::Invocation(*invocation),
                *signature == self.signature(registry, statement as int),
                invocation.branches@.len() == signature.branches@.len(),
                registry.resolve(invocation.libfunc_id, invocation.type_args.len()) is Ok,
                of_branch == |branch: int|
                    self.branch_defect(registry, end as int, statement as int, branch),
                first_defect(0, invocation.branches@.len() as int, of_branch) is None,
                of_template == |position: int|
                    self.template_defect(registry, statement as int, position),
                first_defect(0, signature.code@.len() as int, of_template) == first_defect(
                    position as int,
                    signature.code@.len() as int,
                    of_template,
                ),
            decreases signature.code.len() - position,
        {
            let out_of_range = match signature.code[position] {
                InstructionTemplate::Jump { branch } => branch >= signature.branches.len(),
                InstructionTemplate::JumpNonZero { branch, .. } => branch
                    >= signature.branches.len(),
                InstructionTemplate::Call { branch } => branch >= signature.branches.len(),
                _ => false,
            };
            if out_of_range {
                proof {
                    assert(of_template(position as int) == Some(
                        ProgramError::BadCodeTemplate { statement },
                    ));
                }
                return Err(ProgramError::BadCodeTemplate { statement });
            }
            proof {
                assert(of_template(position as int) is None);
            }
            position += 1;
        }
        Ok(())
    }

    /// Checks one function of the program against the registry.
    fn check_function(&self, registry: &Registry, function: usize) -> (res: Result<
        (),
        ProgramError,
    >)
        requires
            function < self.funcs@.len(),
        ensures
            match self.function_defect(registry, function as int) {
                Some(error) => res == Err::<(), ProgramError>(error),
                None => res is Ok,
            },
    {
        let func = &self.funcs[function];
        let body_start = if function == 0 {
            0
        } else {
            self.funcs[function - 1].end
        };
        if !(func.entry_point < func.end && func.end <= self.statements.len()) || func.entry_point
            != body_start {
            return Err(ProgramError::BadFunctionRange { function });
        }
        let ghost of_statement = |statement: int|
            self.statement_defect(registry, func.end as int, statement);
        let mut statement: usize = func.entry_point;
        while statement < func.end
            invariant
                func.entry_point <= statement <= func.end <= self.statements@.len(),
                function < self.funcs@.len(),
                *func == self.funcs@[function as int],
                func.entry_point == self.body_start(function as int),
                of_statement == |statement: int|
                    self.statement_defect(registry, func.end as int, statement),
                first_defect(func.entry_point as int, func.end as int, of_statement)
                    == first_defect(statement as int, func.end as int, of_statement),
            decreases func.end - statement,
        {
            match self.check_statement(registry, func.end, statement) {
                Ok(()) => {},
                Err(error) => {
                    proof {
                        assert(of_statement(statement as int) == Some(error));
                    }
                    return Err(error);
                },
            }
            proof {
                assert(of_statement(statement as int) is None);
            }
            statement += 1;
        }
        Ok(())
    }

    /// Checks every function of the program against the registry: for each
    /// function its first defect, if it has one. A program with several
    /// defective functions has them all reported at once.
    pub fn diagnose(&self, registry: &Registry) -> (defects: Vec<Option<ProgramError>>)
        ensures
            defects@.len() == self.funcs@.len(),
            forall|function: int|
                0 <= function < self.funcs@.len() ==> #[trigger] defects@[function]
                    == self.function_defect(registry, function),
    {
        let mut defects: Vec<Option<ProgramError>> = Vec::new();
        let mut function: usize = 0;
        while function < self.funcs.len()
            invariant
                function <= self.funcs@.len(),
                defects@.len() == function,
                forall|f: int|
                    0 <= f < function ==> #[trigger] defects@[f] == self.function_defect(
                        registry,
                        f,
                    ),
            decreases self.funcs.len() - function,
        {
            defects.push(
                match self.check_function(registry, function) {
                    Ok(()) => None,
                    Err(error) => Some(error),
                },
            );
            function += 1;
        }
        defects
    }

    /// Checks the program against the registry.
    ///
    /// A program passes when the bodies of its functions follow each other
    /// and cover the statements, the registry answers for every invocation,
    /// and each invocation lists one target per outcome, each of them a later
    /// statement of the same body. Otherwise the first defect is reported.
    ///
    /// Within a body control only moves forward, so that the statements
    /// stand in an order in which they can be worked through once: a target
    /// that is not a later statement is refused as a `BadBranchTarget`, also
    /// where it would close no loop. Loops come by recursion only: what
    /// repeats is written as a function that calls itself.
    pub fn validate(&self, registry: &Registry) -> (res: Result<(), ProgramError>)
        ensures
            match self.defect(registry) {
                Some(error) => res == Err::<(), ProgramError>(error),
                None => res is Ok,
            },
            res is Ok <==> self.well_formed(registry),
    {
        let ghost of_function = |function: int| self.function_defect(registry, function);
        let mut function: usize = 0;
        while function < self.funcs.len()
            invariant
                function <= self.funcs.len(),
                of_function == |function: int| self.function_defect(registry, function),
                first_defect(0, self.funcs@.len() as int, of_function) == first_defect(
                    function as int,
                    self.funcs@.len() as int,
                    of_function,
                ),
            decreases self.funcs.len() - function,
        {
            match self.check_function(registry, function) {
                Ok(()) => {},
                Err(error) => {
                    proof {
                        assert(of_function(function as int) == Some(error));
                    }
                    return Err(error);
                },
            }
            proof {
                assert(of_function(function as int) is None);
            }
            function += 1;
        }
        let covered = if self.funcs.len() == 0 {
            0
        } else {
            self.funcs[self.funcs.len() - 1].end
        };
        if covered != self.statements.len() {
            return Err(ProgramError::UncoveredStatements);
        }
        Ok(())
    }
}

} // verus!
