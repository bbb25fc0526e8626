use vstd::prelude::*;

use crate::program::{IrProgram, Statement};
use crate::registry::{ApChangeRule, Cost, CostTokenType, Registry};

verus! {

/// The cost of a function as a whole.
#[derive(Clone, Copy, Debug, PartialEq, Eq, Structural)]
pub enum FunctionCost {
    /// Every path through the function costs this much.
    Closed(Cost),
    /// What the function costs depends on the path that is taken: it has to
    /// be tracked while the program runs.
    Open,
}

/// What running a program costs.
#[derive(Debug, PartialEq, Eq)]
pub struct GasInfo {
    /// For each statement, and each outcome of it, what taking the outcome costs.
    pub variable_values: Vec<Vec<Cost>>,
    /// For each function, what it costs as a whole.
    pub function_costs: Vec<FunctionCost>,
}

/// A cost that a function is to be reported with, whatever its statements add up to.
#[derive(Clone, Copy, Debug, PartialEq, Eq, Structural)]
pub struct EnforcedCost {
    /// The index of the function.
    pub function: usize,
    /// The cost to report.
    pub cost: Cost,
}

/// Why the cost of a program cannot be worked out.
#[derive(Clone, Copy, Debug, PartialEq, Eq, Structural)]
pub enum CostError {
    /// A cost below zero: of the statement, or, where `statement` is `None`,
    /// among the enforced costs.
    NegativeCostDetected { statement: Option<usize>, token: CostTokenType },
    /// The costs of functions that call each other did not settle within the
    /// rounds that were allowed.
    UnresolvableCostCycle,
    /// Both phases of the analysis cover the same resource: for an outcome of
    /// the statement, or, where `statement` is `None`, for a function.
    DoubleCounted { statement: Option<usize>, token: CostTokenType },
    /// The two pieces of cost information are not about the same program.
    ShapeMismatch,
    /// A cost is more than can be held.
    CostOverflow,
}

impl FunctionCost {
    /// Whether the cost is open, or closed and nowhere below zero.
    pub open spec fn non_negative(self) -> bool {
        match self {
            FunctionCost::Closed(cost) => cost.non_negative(),
            FunctionCost::Open => true,
        }
    }
}

/// The two costs together, of which each resource is covered by at most one.
pub open spec fn joined(first: Cost, second: Cost) -> Cost {
    first.plus(second)
}

/// The two function costs together: open if one of them is.
pub open spec fn joined_function_cost(first: FunctionCost, second: FunctionCost) -> FunctionCost {
    match (first, second) {
        (FunctionCost::Closed(a), FunctionCost::Closed(b)) => FunctionCost::Closed(a.plus(b)),
        _ => FunctionCost::Open,
    }
}

impl GasInfo {
    /// Whether no cost in it stands below zero.
    pub open spec fn non_negative(&self) -> bool {
        &&& forall|statement: int, branch: int|
            0 <= statement < self.variable_values@.len() && 0 <= branch
                < self.variable_values@[statement]@.len() ==> (
            #[trigger] self.variable_values@[statement]@[branch]).non_negative()
        &&& forall|function: int|
            0 <= function < self.function_costs@.len() ==> (
            #[trigger] self.function_costs@[function]).non_negative()
    }

    /// Whether the two are about programs of the same shape.
    pub open spec fn same_shape(&self, other: &GasInfo) -> bool {
        &&& self.variable_values@.len() == other.variable_values@.len()
        &&& self.function_costs@.len() == other.function_costs@.len()
        &&& forall|statement: int|
            0 <= statement < self.variable_values@.len() ==> (
            #[trigger] self.variable_values@[statement])@.len()
                == other.variable_values@[statement]@.len()
    }

    /// Whether the two cover no resource in common for any outcome of any
    /// statement, nor for any function.
    pub open spec fn disjoint(&self, other: &GasInfo) -> bool {
        &&& forall|s: int, b: int|
            0 <= s < self.variable_values@.len() && 0 <= b < self.variable_values@[s]@.len() ==> (
            #[trigger] self.variable_values@[s]@[b]).disjoint(other.variable_values@[s]@[b])
        &&& forall|f: int|
            0 <= f < self.function_costs@.len() ==> function_costs_disjoint(
                #[trigger] self.function_costs@[f],
                other.function_costs@[f],
            )
    }

    /// Whether `combined` holds, place by place, the two together.
    pub open spec fn is_combination(&self, other: &GasInfo, combined: &GasInfo) -> bool {
        &&& self.same_shape(combined)
        &&& forall|s: int, b: int|
            0 <= s < self.variable_values@.len() && 0 <= b < self.variable_values@[s]@.len()
                ==> #[trigger] combined.variable_values@[s]@[b] == joined(
                self.variable_values@[s]@[b],
                other.variable_values@[s]@[b],
            )
        &&& forall|f: int|
            0 <= f < self.function_costs@.len() ==> #[trigger] combined.function_costs@[f]
                == joined_function_cost(self.function_costs@[f], other.function_costs@[f])
    }

    /// Whether both cover the resource for the outcome `branch` of `statement`.
    pub open spec fn both_cover(
        &self,
        other: &GasInfo,
        statement: int,
        branch: int,
        token: CostTokenType,
    ) -> bool {
        &&& 0 <= statement < self.variable_values@.len()
        &&& 0 <= branch < self.variable_values@[statement]@.len()
        &&& self.variable_values@[statement]@[branch].of(token) != 0
        &&& other.variable_values@[statement]@[branch].of(token) != 0
    }

    /// Whether both cover the resource: for an outcome of the statement, or,
    /// where `statement` is `None`, for a function.
    pub open spec fn double_counted_at(
        &self,
        other: &GasInfo,
        statement: Option<usize>,
        token: CostTokenType,
    ) -> bool {
        if statement is Some {
            exists|branch: int|
                #[trigger] self.both_cover(other, statement->0 as int, branch, token)
        } else {
            exists|function: int|
                0 <= function < self.function_costs@.len() && #[trigger] shared_by(
                    self.function_costs@[function],
                    other.function_costs@[function],
                    token,
                )
        }
    }

    /// The first place at which both cover a resource, with the resource.
    fn find_double_count(&self, other: &GasInfo) -> (found: Option<
        (Option<usize>, CostTokenType),
    >)
        requires
            self.same_shape(other),
        ensures
            found is None <==> self.disjoint(other),
            found matches Some((statement, token)) ==> self.double_counted_at(
                other,
                statement,
                token,
            ),
    {
        let mut statement: usize = 0;
        while statement < self.variable_values.len()
            invariant
                self.same_shape(other),
                statement <= self.variable_values@.len(),
                forall|s: int, b: int|
                    0 <= s < statement && 0 <= b < self.variable_values@[s]@.len() ==> (
                    #[trigger] self.variable_values@[s]@[b]).disjoint(
                        other.variable_values@[s]@[b],
                    ),
            decreases self.variable_values.len() - statement,
        {
            let mine = &self.variable_values[statement];
            let theirs = &other.variable_values[statement];
            let mut branch: usize = 0;
            while branch < mine.len()
                invariant
                    self.same_shape(other),
                    statement < self.variable_values@.len(),
                    *mine == self.variable_values@[statement as int],
                    *theirs == other.variable_values@[statement as int],
                    mine@.len() == theirs@.len(),
                    branch <= mine@.len(),
                    forall|b: int| 0 <= b < branch ==> (#[trigger] mine@[b]).disjoint(theirs@[b]),
                decreases mine.len() - branch,
            {
                if let Some(token) = mine[branch].first_shared(&theirs[branch]) {
                    proof {
                        let witness = branch as int;
                        assert(!self.variable_values@[statement as int]@[witness].disjoint(
                            other.variable_values@[statement as int]@[witness],
                        ));
                        assert(self.variable_values@[statement as int]@[witness].of(token) != 0);
                        assert(other.variable_values@[statement as int]@[witness].of(token) != 0);
                        assert(self.both_cover(other, statement as int, witness, token));
                        let place = Some(statement);
                        assert(self.both_cover(other, place->0 as int, witness, token));
                        assert(self.double_counted_at(other, place, token));

                    }
                    return Some((Some(statement), token));
                }
                branch += 1;
            }
            statement += 1;
        }
        let mut function: usize = 0;
        while function < self.function_costs.len()
            invariant
                self.same_shape(other),
                function <= self.function_costs@.len(),
                forall|s: int, b: int|
                    0 <= s < self.variable_values@.len() && 0 <= b
                        < self.variable_values@[s]@.len() ==> (
                    #[trigger] self.variable_values@[s]@[b]).disjoint(
                        other.variable_values@[s]@[b],
                    ),
                forall|f: int|
                    0 <= f < function ==> function_costs_disjoint(
                        #[trigger] self.function_costs@[f],
                        other.function_costs@[f],
                    ),
            decreases self.function_costs.len() - function,
        {
            if let (FunctionCost::Closed(a), FunctionCost::Closed(b)) = (
                self.function_costs[function],
                other.function_costs[function],
            ) {
                if let Some(token) = a.first_shared(&b) {
                    proof {
                        assert(!function_costs_disjoint(
                            self.function_costs@[function as int],
                            other.function_costs@[function as int],
                        ));
                        assert(shared_by(
                            self.function_costs@[function as int],
                            other.function_costs@[function as int],
                            token,
                        ));
                    }
                    return Some((None, token));
                }
            }
            function += 1;
        }
        None
    }

    /// Puts the cost information of the two phases of the analysis together,
    /// adding resource by resource.
    ///
    /// The two have to be about the same program, and no resource may be
    /// covered by both for one outcome of a statement or for one function: a
    /// resource that is counted twice is an error, not a sum.
    pub fn combine(&self, other: &GasInfo) -> (res: Result<GasInfo, CostError>)
        ensures
            match res {
                Ok(combined) => self.same_shape(other) && self.disjoint(other)
                    && self.is_combination(other, &combined),
                Err(CostError::ShapeMismatch) => !self.same_shape(other),
                Err(CostError::DoubleCounted { statement, token }) => self.same_shape(other)
                    && !self.disjoint(other) && self.double_counted_at(other, statement, token),
                Err(_) => false,
            },
    {
        if self.variable_values.len() != other.variable_values.len() || self.function_costs.len()
            != other.function_costs.len() {
            return Err(CostError::ShapeMismatch);
        }
        if !same_shape_from(self, other, 0) {
            return Err(CostError::ShapeMismatch);
        }
        if let Some((statement, token)) = self.find_double_count(other) {
            return Err(CostError::DoubleCounted { statement, token });
        }
        let mut variable_values: Vec<Vec<Cost>> = Vec::new();
        let mut statement: usize = 0;
        while statement < self.variable_values.len()
            invariant
                self.same_shape(other),
                self.disjoint(other),
                statement <= self.variable_values@.len(),
                variable_values@.len() == statement,
                forall|s: int|
                    0 <= s < statement ==> (#[trigger] variable_values@[s])@.len()
                        == self.variable_values@[s]@.len(),
                forall|s: int, b: int|
                    0 <= s < statement && 0 <= b < self.variable_values@[s]@.len()
                        ==> #[trigger] variable_values@[s]@[b] == joined(
                        self.variable_values@[s]@[b],
                        other.variable_values@[s]@[b],
                    ),
            decreases self.variable_values.len() - statement,
        {
            let mine = &self.variable_values[statement];
            let theirs = &other.variable_values[statement];
            let mut row: Vec<Cost> = Vec::new();
            let mut branch: usize = 0;
            while branch < mine.len()
                invariant
                    self.same_shape(other),
                    self.disjoint(other),
                    statement < self.variable_values@.len(),
                    *mine == self.variable_values@[statement as int],
                    *theirs == other.variable_values@[statement as int],
                    mine@.len() == theirs@.len(),
                    branch <= mine@.len(),
                    row@.len() == branch,
                    forall|b: int|
                        0 <= b < branch ==> #[trigger] row@[b] == joined(mine@[b], theirs@[b]),
                decreases mine.len() - branch,
            {
                proof {
                    assert(self.variable_values@[statement as int]@[branch as int].disjoint(
                        other.variable_values@[statement as int]@[branch as int],
                    ));
                }
                match mine[branch].checked_add(&theirs[branch]) {
                    Some(sum) => row.push(sum),
                    None => unreached(),
                }
                branch += 1;
            }
            variable_values.push(row);
            statement += 1;
        }
        let mut function_costs: Vec<FunctionCost> = Vec::new();
        let mut function: usize = 0;
        while function < self.function_costs.len()
            invariant
                self.same_shape(other),
                self.disjoint(other),
                function <= self.function_costs@.len(),
                function_costs@.len() == function,
                forall|f: int|
                    0 <= f < function ==> #[trigger] function_costs@[f] == joined_function_cost(
                        self.function_costs@[f],
                        other.function_costs@[f],
                    ),
            decreases self.function_costs.len() - function,
        {
            proof {
                assert(function_costs_disjoint(
                    self.function_costs@[function as int],
                    other.function_costs@[function as int],
                ));
            }
            let both = match (self.function_costs[function], other.function_costs[function]) {
                (FunctionCost::Closed(a), FunctionCost::Closed(b)) => match a.checked_add(&b) {
                    Some(sum) => FunctionCost::Closed(sum),
                    None => unreached(),
                },
                _ => FunctionCost::Open,
            };
            function_costs.push(both);
            function += 1;
        }
        Ok(GasInfo { variable_values, function_costs })
    }
}

/// Whether both function costs are closed and cover the resource.
pub open spec fn shared_by(first: FunctionCost, second: FunctionCost, token: CostTokenType) -> bool {
    match (first, second) {
        (FunctionCost::Closed(a), FunctionCost::Closed(b)) => a.of(token) != 0 && b.of(token)
            != 0,
        _ => false,
    }
}

/// Whether the two function costs cover no resource in common.
pub open spec fn function_costs_disjoint(first: FunctionCost, second: FunctionCost) -> bool {
    match (first, second) {
        (FunctionCost::Closed(a), FunctionCost::Closed(b)) => a.disjoint(b),
        _ => true,
    }
}

/// Whether the rows from `from` on have the same lengths in both.
fn same_shape_from(first: &GasInfo, second: &GasInfo, from: usize) -> (same: bool)
    requires
        first.variable_values@.len() == second.variable_values@.len(),
        first.function_costs@.len() == second.function_costs@.len(),
        from <= first.variable_values@.len(),
        forall|s: int|
            0 <= s < from ==> (#[trigger] first.variable_values@[s])@.len()
                == second.variable_values@[s]@.len(),
    ensures
        same == first.same_shape(second),
{
    let mut statement: usize = from;
    while statement < first.variable_values.len()
        invariant
            from <= statement <= first.variable_values@.len(),
            first.variable_values@.len() == second.variable_values@.len(),
            first.function_costs@.len() == second.function_costs@.len(),
            forall|s: int|
                0 <= s < statement ==> (#[trigger] first.variable_values@[s])@.len()
                    == second.variable_values@[s]@.len(),
        decreases first.variable_values.len() - statement,
    {
        if first.variable_values[statement].len() != second.variable_values[statement].len() {
            return false;
        }
        statement += 1;
    }
    true
}

/// The part of the cost of an invocation that a phase of the analysis covers.
#[derive(Clone, Copy, Debug, PartialEq, Eq, Structural)]
pub enum Phase {
    /// The static cost of the library function: what every invocation of it
    /// costs, whichever outcome it has.
    Precost,
    /// The cost of the outcome that is taken.
    Postcost,
}

/// What the phase covers of the cost of the outcome `branch` of `statement`.
pub open spec fn phase_cost(
    program: &IrProgram,
    registry: &Registry,
    phase: Phase,
    statement: int,
    branch: int,
) -> Cost {
    match phase {
        Phase::Precost => program.signature(registry, statement).static_cost,
        Phase::Postcost => program.branch_signature(registry, statement, branch).cost,
    }
}

/// Whether `rows` holds, for each outcome of each invocation in a body, what
/// the phase covers of its cost, and nothing for any other statement.
pub open spec fn rows_of_phase(
    program: &IrProgram,
    registry: &Registry,
    phase: Phase,
    rows: Seq<Vec<Cost>>,
) -> bool {
    &&& rows.len() == program.statements@.len()
    &&& forall|function: int, statement: int| #[trigger]
        program.in_body(function, statement) ==> rows[statement]@.len() == program.branch_count(
            statement,
        )
    &&& forall|function: int, statement: int, branch: int|
        #![trigger program.in_body(function, statement), rows[statement]@[branch]]
        program.in_body(function, statement) && 0 <= branch < program.branch_count(statement)
            ==> rows[statement]@[branch] == phase_cost(
            program,
            registry,
            phase,
            statement,
            branch,
        )
    &&& forall|statement: int|
        0 <= statement < rows.len() && !in_some_body(program, statement) ==> (
        #[trigger] rows[statement])@.len() == 0
}

/// Whether the statement lies in the body of a function.
pub open spec fn in_some_body(program: &IrProgram, statement: int) -> bool {
    exists|function: int| #[trigger] program.in_body(function, statement)
}

/// Whether the statement lies in the body of one of the first `upto` functions.
pub open spec fn in_body_before(program: &IrProgram, upto: int, statement: int) -> bool {
    exists|function: int| function < upto && #[trigger] program.in_body(function, statement)
}

/// The rows of a phase: for each outcome of each invocation in a body what
/// the phase covers of its cost. A cost below zero is reported instead.
fn phase_rows(program: &IrProgram, registry: &Registry, phase: Phase) -> (res: Result<
    Vec<Vec<Cost>>,
    CostError,
>)
    requires
        program.well_formed(registry),
    ensures
        match res {
            Ok(rows) => {
                &&& rows_of_phase(program, registry, phase, rows@)
                &&& forall|statement: int, branch: int|
                    0 <= statement < rows@.len() && 0 <= branch < rows@[statement]@.len() ==> (
                    #[trigger] rows@[statement]@[branch]).non_negative()
            },
            Err(CostError::NegativeCostDetected { statement, token }) => statement is Some
                && in_some_body(program, statement->0 as int) && exists|branch: int|
                0 <= branch < program.branch_count(statement->0 as int) && (#[trigger] phase_cost(
                    program,
                    registry,
                    phase,
                    statement->0 as int,
                    branch,
                )).of(token) < 0,
            Err(_) => false,
        },
{
    let mut rows: Vec<Vec<Cost>> = Vec::new();
    while rows.len() < program.statements.len()
        invariant
            rows@.len() <= program.statements@.len(),
            forall|s: int| 0 <= s < rows@.len() ==> (#[trigger] rows@[s])@.len() == 0,
        decreases program.statements.len() - rows.len(),
    {
        rows.push(Vec::new());
    }
    let mut function: usize = 0;
    while function < program.funcs.len()
        invariant
            program.well_formed(registry),
            function <= program.funcs@.len(),
            rows@.len() == program.statements@.len(),
            forall|f: int, s: int|
                f < function && #[trigger] program.in_body(f, s) ==> rows@[s]@.len()
                    == program.branch_count(s),
            forall|f: int, s: int, b: int|
                #![trigger program.in_body(f, s), rows@[s]@[b]]
                f < function && program.in_body(f, s) && 0 <= b < program.branch_count(s)
                    ==> rows@[s]@[b] == phase_cost(program, registry, phase, s, b),
            forall|s: int|
                0 <= s < rows@.len() && !in_body_before(program, function as int, s) ==> (
                #[trigger] rows@[s])@.len() == 0,
            forall|s: int, b: int|
                0 <= s < rows@.len() && 0 <= b < rows@[s]@.len() ==> (
                #[trigger] rows@[s]@[b]).non_negative(),
        decreases program.funcs.len() - function,
    {
        proof {
            program.well_formed_function(registry, function as int);
        }
        let func = &program.funcs[function];
        let ghost rows_before = rows@;
        let mut statement: usize = func.entry_point;
        while statement < func.end
            invariant
                program.well_formed(registry),
                function < program.funcs@.len(),
                *func == program.funcs@[function as int],
                func.entry_point <= statement <= func.end <= program.statements@.len(),
                rows@.len() == program.statements@.len(),
                rows_before.len() == rows@.len(),
                forall|s: int|
                    0 <= s < rows@.len() && !(func.entry_point <= s < statement) ==> rows@[s]
                        == rows_before[s],
                forall|s: int|
                    func.entry_point <= s < statement ==> (#[trigger] rows@[s])@.len()
                        == program.branch_count(s),
                forall|s: int, b: int|
                    func.entry_point <= s < statement && 0 <= b < program.branch_count(s)
                        ==> #[trigger] rows@[s]@[b] == phase_cost(program, registry, phase, s, b),
                forall|s: int, b: int|
                    0 <= s < rows@.len() && 0 <= b < rows@[s]@.len() ==> (
                    #[trigger] rows@[s]@[b]).non_negative(),
            decreases func.end - statement,
        {
            let mut row: Vec<Cost> = Vec::new();
            if let Statement::Invocation(invocation) = &program.statements[statement] {
                proof {
                    program.well_formed_statement(registry, function as int, statement as int);
                }
                let signature = program.signature_at(registry, function, statement);
                let mut branch: usize = 0;
                while branch < signature.branches.len()
                    invariant
                        program.in_body(function as int, statement as int),
                        program.statements@[statement as int] == Statement::Invocation(
                            *invocation,
                        ),
                        *signature == program.signature(registry, statement as int),
                        signature.branches@.len() == invocation.branches@.len(),
                        branch <= signature.branches@.len(),
                        row@.len() == branch,
                        forall|b: int|
                            0 <= b < branch ==> #[trigger] row@[b] == phase_cost(
                                program,
                                registry,
                                phase,
                                statement as int,
                                b,
                            ),
                        forall|b: int| 0 <= b < branch ==> (#[trigger] row@[b]).non_negative(),
                    decreases signature.branches.len() - branch,
                {
                    let cost = match phase {
                        Phase::Precost => signature.static_cost,
                        Phase::Postcost => signature.branches[branch].cost,
                    };
                    if let Some(token) = cost.first_negative() {
                        proof {
                            let place = Some(statement);
                            assert(program.in_body(function as int, place->0 as int));
                            assert(phase_cost(
                                program,
                                registry,
                                phase,
                                place->0 as int,
                                branch as int,
                            ).of(token) < 0);
                        }
                        return Err(
                            CostError::NegativeCostDetected { statement: Some(statement), token },
                        );
                    }
                    row.push(cost);
                    branch += 1;
                }
            }
            rows.set(statement, row);
            statement += 1;
        }
        proof {
            assert forall|f: int, s: int|
                f < function + 1 && #[trigger] program.in_body(f, s) implies rows@[s]@.len()
                    == program.branch_count(s) by {
                if f < function {
                    program.well_formed_function(registry, f);
                    crate::ap_change::bodies_ordered(program, registry, f, function as int);
                    assert(rows@[s] == rows_before[s]);
                }
            }
            assert forall|f: int, s: int, b: int|
                #![trigger program.in_body(f, s), rows@[s]@[b]]
                f < function + 1 && program.in_body(f, s) && 0 <= b < program.branch_count(
                    s,
                ) implies rows@[s]@[b] == phase_cost(program, registry, phase, s, b) by {
                if f < function {
                    program.well_formed_function(registry, f);
                    crate::ap_change::bodies_ordered(program, registry, f, function as int);
                    assert(rows@[s] == rows_before[s]);
                    assert(rows_before[s]@[b] == phase_cost(program, registry, phase, s, b));
                }
            }
            assert forall|s: int|
                0 <= s < rows@.len() && !in_body_before(program, function + 1, s) implies (
            #[trigger] rows@[s])@.len() == 0 by {
                if func.entry_point <= s < func.end {
                    assert(program.in_body(function as int, s));
                } else {
                    assert(rows@[s] == rows_before[s]);
                    if in_body_before(program, function as int, s) {
                        let g = choose|g: int| g < function && #[trigger] program.in_body(g, s);
                        assert(g < function + 1 && program.in_body(g, s));
                    }
                }
            }
        }
        function += 1;
    }
    proof {
        assert forall|s: int| 0 <= s < rows@.len() && !in_some_body(program, s) implies (
        #[trigger] rows@[s])@.len() == 0 by {
            if in_body_before(program, program.funcs@.len() as int, s) {
                let g = choose|g: int|
                    g < program.funcs@.len() && #[trigger] program.in_body(g, s);
                assert(program.in_body(g, s));
            }
        }
    }
    Ok(rows)
}

/// The first phase of the cost analysis: for each statement the static cost
/// of its library function, which does not depend on the path that is taken.
/// It says nothing of what the functions cost as a whole.
pub fn calc_gas_precost_info(program: &IrProgram, registry: &Registry) -> (res: Result<
    GasInfo,
    CostError,
>)
    requires
        program.well_formed(registry),
    ensures
        match res {
            Ok(info) => {
                &&& rows_of_phase(program, registry, Phase::Precost, info.variable_values@)
                &&& info.function_costs@.len() == program.funcs@.len()
                &&& forall|function: int|
                    0 <= function < info.function_costs@.len() ==> #[trigger] info.function_costs@[function]
                        == FunctionCost::Closed(Cost::zero())
                &&& info.non_negative()
            },
            Err(CostError::NegativeCostDetected { statement, token }) => statement is Some
                && in_some_body(program, statement->0 as int) && program.branch_count(
                statement->0 as int,
            ) > 0 && program.signature(registry, statement->0 as int).static_cost.of(token) < 0,
            Err(_) => false,
        },
{
    let variable_values = match phase_rows(program, registry, Phase::Precost) {
        Ok(rows) => rows,
        Err(error) => {
            return Err(error);
        },
    };
    let mut function_costs: Vec<FunctionCost> = Vec::new();
    while function_costs.len() < program.funcs.len()
        invariant
            function_costs@.len() <= program.funcs@.len(),
            forall|function: int|
                0 <= function < function_costs@.len() ==> #[trigger] function_costs@[function]
                    == FunctionCost::Closed(Cost::zero()),
        decreases program.funcs.len() - function_costs.len(),
    {
        function_costs.push(FunctionCost::Closed(Cost::zero()));
    }
    Ok(GasInfo { variable_values, function_costs })
}

/// A cost in whole numbers of any size: what the costs of a path add up to.
pub struct Total {
    pub step: int,
    pub range_check: int,
    pub pedersen: int,
    pub bitwise: int,
}

impl Total {
    /// The cost of nothing.
    pub open spec fn zero() -> Total {
        Total { step: 0, range_check: 0, pedersen: 0, bitwise: 0 }
    }

    /// The sum of the two, resource by resource.
    pub open spec fn plus(self, other: Total) -> Total {
        Total {
            step: self.step + other.step,
            range_check: self.range_check + other.range_check,
            pedersen: self.pedersen + other.pedersen,
            bitwise: self.bitwise + other.bitwise,
        }
    }

    /// Whether the cost can be held: whether every resource is within the
    /// range of the numbers that costs are held in.
    pub open spec fn fits(self) -> bool {
        &&& i64::MIN <= self.step <= i64::MAX
        &&& i64::MIN <= self.range_check <= i64::MAX
        &&& i64::MIN <= self.pedersen <= i64::MAX
        &&& i64::MIN <= self.bitwise <= i64::MAX
    }

    /// How much of the resource it holds.
    pub open spec fn of(self, token: CostTokenType) -> int {
        match token {
            CostTokenType::Step => self.step,
            CostTokenType::RangeCheck => self.range_check,
            CostTokenType::Pedersen => self.pedersen,
            CostTokenType::Bitwise => self.bitwise,
        }
    }
}

/// The cost as a total.
pub open spec fn total_of(cost: Cost) -> Total {
    Total {
        step: cost.step as int,
        range_check: cost.range_check as int,
        pedersen: cost.pedersen as int,
        bitwise: cost.bitwise as int,
    }
}

/// The function cost as a total: `None` for an open cost.
pub open spec fn function_total(cost: FunctionCost) -> Option<Total> {
    match cost {
        FunctionCost::Closed(cost) => Some(total_of(cost)),
        FunctionCost::Open => None,
    }
}

/// The function costs as totals.
pub open spec fn function_totals(costs: Seq<FunctionCost>) -> Seq<Option<Total>> {
    costs.map_values(|cost: FunctionCost| function_total(cost))
}

/// The cost that is enforced for the function: that of the last entry for
/// it, if there is one.
pub open spec fn enforced_for(enforced: Seq<EnforcedCost>, function: int) -> Option<Cost>
    decreases enforced.len(),
{
    if enforced.len() == 0 {
        None
    } else if enforced.last().function == function {
        Some(enforced.last().cost)
    } else {
        enforced_for(enforced.drop_last(), function)
    }
}

/// Whether what it costs to get to a return through the outcome `branch` of
/// `statement`, in the body of `function`, is more than can be held.
pub open spec fn via_overflows(
    program: &IrProgram,
    registry: &Registry,
    costs: Seq<Option<Total>>,
    function: int,
    statement: int,
    branch: int,
) -> bool {
    &&& program.in_body(function, statement)
    &&& program.statements@[statement] is Invocation
    &&& 0 <= branch < program.branch_count(statement)
    &&& via_total(
        program,
        registry,
        costs,
        program.funcs@[function].end as int,
        statement,
        branch,
    ) is Some
    &&& !via_total(
        program,
        registry,
        costs,
        program.funcs@[function].end as int,
        statement,
        branch,
    )->0.fits()
}

/// Whether working out what the functions cost one round on from `costs`
/// forms a sum that cannot be held, in the body of a function without an
/// enforced cost.
pub open spec fn round_overflows(
    program: &IrProgram,
    registry: &Registry,
    enforced: Seq<EnforcedCost>,
    costs: Seq<Option<Total>>,
) -> bool {
    exists|function: int, statement: int, branch: int|
        0 <= function < program.funcs@.len() && enforced_for(enforced, function) is None
            && #[trigger] via_overflows(program, registry, costs, function, statement, branch)
}

/// Whether the costs of the functions have not settled before the round
/// `round`, and the round forms a sum that cannot be held.
pub open spec fn overflows_at(
    program: &IrProgram,
    registry: &Registry,
    enforced: Seq<EnforcedCost>,
    round: nat,
) -> bool {
    &&& never_settles(program, registry, enforced, round)
    &&& round_overflows(
        program,
        registry,
        enforced,
        iterated_totals(program, registry, enforced, round),
    )
}

/// What the call that an outcome makes costs, given what the functions
/// cost: nothing where it makes none, `None` where the callee is open.
pub open spec fn call_total(rule: ApChangeRule, costs: Seq<Option<Total>>) -> Option<Total> {
    match rule {
        ApChangeRule::FunctionCall(callee) => if callee < costs.len() {
            costs[callee as int]
        } else {
            None
        },
        _ => Some(Total::zero()),
    }
}

/// What taking the outcome `branch` of the invocation at `statement` costs:
/// the static cost of the library function, the cost of the outcome, and
/// the cost of the function that the outcome calls, if it calls one.
pub open spec fn step_total(
    program: &IrProgram,
    registry: &Registry,
    costs: Seq<Option<Total>>,
    statement: int,
    branch: int,
) -> Option<Total> {
    let outcome = program.branch_signature(registry, statement, branch);
    match call_total(outcome.ap_change, costs) {
        Some(call) => Some(
            total_of(program.signature(registry, statement).static_cost).plus(
                total_of(outcome.cost),
            ).plus(call),
        ),
        None => None,
    }
}

/// What it costs to get from the statement to a return of the function,
/// whose body ends at `end`: `None` where that depends on the path.
pub open spec fn exit_total(
    program: &IrProgram,
    registry: &Registry,
    costs: Seq<Option<Total>>,
    end: int,
    statement: int,
) -> Option<Total>
    decreases end - statement, program.branch_count(statement) + 1,
{
    if !(0 <= statement < end) {
        None
    } else {
        match program.statements@[statement] {
            Statement::Return(_) => Some(Total::zero()),
            Statement::Invocation(_) => if program.branch_count(statement) == 0 {
                Some(total_of(program.signature(registry, statement).static_cost))
            } else {
                agreed_total(
                    program,
                    registry,
                    costs,
                    end,
                    statement,
                    program.branch_count(statement),
                )
            },
        }
    }
}

/// What it costs to get to a return through the outcome `branch`.
pub open spec fn via_total(
    program: &IrProgram,
    registry: &Registry,
    costs: Seq<Option<Total>>,
    end: int,
    statement: int,
    branch: int,
) -> Option<Total>
    decreases end - statement, 0int,
{
    let target = program.target(statement, branch);
    if !(0 <= statement < target < end) {
        None
    } else {
        match (
            step_total(program, registry, costs, statement, branch),
            exit_total(program, registry, costs, end, target),
        ) {
            (Some(step), Some(rest)) => Some(step.plus(rest)),
            _ => None,
        }
    }
}

/// What it costs to get to a return through any of the first `upto`
/// outcomes, if that is the same for each of them.
pub open spec fn agreed_total(
    program: &IrProgram,
    registry: &Registry,
    costs: Seq<Option<Total>>,
    end: int,
    statement: int,
    upto: int,
) -> Option<Total>
    decreases end - statement, upto,
{
    if upto <= 0 || !(0 <= statement < end) {
        None
    } else if upto == 1 {
        via_total(program, registry, costs, end, statement, 0)
    } else {
        match (
            agreed_total(program, registry, costs, end, statement, upto - 1),
            via_total(program, registry, costs, end, statement, upto - 1),
        ) {
            (Some(before), Some(last)) => if before == last {
                Some(before)
            } else {
                None
            },
            _ => None,
        }
    }
}

/// What the statements of the function add up to, given what the functions cost.
pub open spec fn derived_total(
    program: &IrProgram,
    registry: &Registry,
    costs: Seq<Option<Total>>,
    function: int,
) -> Option<Total> {
    exit_total(
        program,
        registry,
        costs,
        program.funcs@[function].end as int,
        program.funcs@[function].entry_point as int,
    )
}

/// The costs of the functions one round on: for each function the cost that
/// is enforced for it, or else what its statements add up to.
pub open spec fn next_totals(
    program: &IrProgram,
    registry: &Registry,
    enforced: Seq<EnforcedCost>,
    costs: Seq<Option<Total>>,
) -> Seq<Option<Total>> {
    Seq::new(
        program.funcs@.len(),
        |function: int|
            match enforced_for(enforced, function) {
                Some(cost) => Some(total_of(cost)),
                None => derived_total(program, registry, costs, function),
            },
    )
}

/// The costs of the functions after so many rounds, starting from the
/// enforced costs and zero for every other function.
pub open spec fn iterated_totals(
    program: &IrProgram,
    registry: &Registry,
    enforced: Seq<EnforcedCost>,
    rounds: nat,
) -> Seq<Option<Total>>
    decreases rounds,
{
    if rounds == 0 {
        Seq::new(
            program.funcs@.len(),
            |function: int|
                match enforced_for(enforced, function) {
                    Some(cost) => Some(total_of(cost)),
                    None => Some(Total::zero()),
                },
        )
    } else {
        next_totals(
            program,
            registry,
            enforced,
            iterated_totals(program, registry, enforced, (rounds - 1) as nat),
        )
    }
}

/// Whether the costs of the functions are settled: another round gives the same.
pub open spec fn settled(
    program: &IrProgram,
    registry: &Registry,
    enforced: Seq<EnforcedCost>,
    costs: Seq<Option<Total>>,
) -> bool {
    next_totals(program, registry, enforced, costs) == costs
}

/// Whether `choices` is a path in the body of the function, from its entry:
/// every step leaves an invocation by one of its outcomes.
pub open spec fn cost_path_ok(program: &IrProgram, function: int, choices: Seq<int>) -> bool
    decreases choices.len(),
{
    if choices.len() == 0 {
        true
    } else {
        let start = program.funcs@[function].entry_point as int;
        let before = crate::ap_change::path_end(program, start, choices.drop_last());
        &&& cost_path_ok(program, function, choices.drop_last())
        &&& program.in_body(function, before)
        &&& program.statements@[before] is Invocation
        &&& 0 <= choices.last() < program.branch_count(before)
    }
}

/// What the steps of a path cost together: `None` where a step calls a
/// function whose cost is open.
pub open spec fn path_total(
    program: &IrProgram,
    registry: &Registry,
    costs: Seq<Option<Total>>,
    function: int,
    choices: Seq<int>,
) -> Option<Total>
    decreases choices.len(),
{
    if choices.len() == 0 {
        Some(Total::zero())
    } else {
        let start = program.funcs@[function].entry_point as int;
        let before = crate::ap_change::path_end(program, start, choices.drop_last());
        match (
            path_total(program, registry, costs, function, choices.drop_last()),
            step_total(program, registry, costs, before, choices.last()),
        ) {
            (Some(so_far), Some(step)) => Some(so_far.plus(step)),
            _ => None,
        }
    }
}

/// Where the outcomes agree on what it costs to get to a return, each of
/// them costs that.
proof fn agreed_is_each(
    program: &IrProgram,
    registry: &Registry,
    costs: Seq<Option<Total>>,
    end: int,
    statement: int,
    upto: int,
    branch: int,
)
    requires
        agreed_total(program, registry, costs, end, statement, upto) is Some,
        0 <= branch < upto,
    ensures
        via_total(program, registry, costs, end, statement, branch) == agreed_total(
            program,
            registry,
            costs,
            end,
            statement,
            upto,
        ),
    decreases upto,
{
    if upto > 1 && branch < upto - 1 {
        agreed_is_each(program, registry, costs, end, statement, upto - 1, branch);
    }
}

/// Along a path from the entry of a function whose statements add up to one
/// cost, what has been paid and what is left to pay add up to that cost.
proof fn paid_and_left(
    program: &IrProgram,
    registry: &Registry,
    costs: Seq<Option<Total>>,
    function: int,
    choices: Seq<int>,
)
    requires
        program.well_formed(registry),
        0 <= function < program.funcs@.len(),
        derived_total(program, registry, costs, function) is Some,
        cost_path_ok(program, function, choices),
    ensures
        program.in_body(
            function,
            crate::ap_change::path_end(
                program,
                program.funcs@[function].entry_point as int,
                choices,
            ),
        ),
        path_total(program, registry, costs, function, choices) is Some,
        exit_total(
            program,
            registry,
            costs,
            program.funcs@[function].end as int,
            crate::ap_change::path_end(
                program,
                program.funcs@[function].entry_point as int,
                choices,
            ),
        ) is Some,
        path_total(program, registry, costs, function, choices)->0.plus(
            exit_total(
                program,
                registry,
                costs,
                program.funcs@[function].end as int,
                crate::ap_change::path_end(
                    program,
                    program.funcs@[function].entry_point as int,
                    choices,
                ),
            )->0,
        ) == derived_total(program, registry, costs, function)->0,
    decreases choices.len(),
{
    let start = program.funcs@[function].entry_point as int;
    let end = program.funcs@[function].end as int;
    program.well_formed_function(registry, function);
    if choices.len() > 0 {
        let before = crate::ap_change::path_end(program, start, choices.drop_last());
        paid_and_left(program, registry, costs, function, choices.drop_last());
        program.well_formed_branch(registry, function, before, choices.last());
        agreed_is_each(
            program,
            registry,
            costs,
            end,
            before,
            program.branch_count(before),
            choices.last(),
        );
    }
}

/// **Additivity of cost along a path.** Where the statements of a function
/// add up to one cost, every path from the entry of the function to a return
/// costs exactly that: the sum of what its steps cost.
pub proof fn cost_additivity(
    program: &IrProgram,
    registry: &Registry,
    costs: Seq<Option<Total>>,
    function: int,
    choices: Seq<int>,
)
    requires
        program.well_formed(registry),
        0 <= function < program.funcs@.len(),
        derived_total(program, registry, costs, function) is Some,
        cost_path_ok(program, function, choices),
        program.statements@[crate::ap_change::path_end(
            program,
            program.funcs@[function].entry_point as int,
            choices,
        )] is Return,
    ensures
        path_total(program, registry, costs, function, choices) == derived_total(
            program,
            registry,
            costs,
            function,
        ),
{
    paid_and_left(program, registry, costs, function, choices);
}

/// The exit cost as a total: `None` where it depends on the path.
pub open spec fn exit_of(cost: Option<Cost>) -> Option<Total> {
    match cost {
        Some(cost) => Some(total_of(cost)),
        None => None,
    }
}

/// The cost that is enforced for the function, if one is: where several
/// entries name the function, the last of them counts.
pub fn find_enforced(enforced: &Vec<EnforcedCost>, function: usize) -> (found: Option<Cost>)
    ensures
        found == enforced_for(enforced@, function as int),
{
    let mut i: usize = enforced.len();
    proof {
        assert(enforced@.take(i as int) =~= enforced@);
    }
    while i > 0
        invariant
            i <= enforced.len(),
            enforced_for(enforced@, function as int) == enforced_for(
                enforced@.take(i as int),
                function as int,
            ),
        decreases i,
    {
        proof {
            assert(enforced@.take(i as int).drop_last() =~= enforced@.take(i - 1));
        }
        i -= 1;
        if enforced[i].function == function {
            return Some(enforced[i].cost);
        }
    }
    None
}

/// The sum of four numbers, where it can be held.
fn add4(a: i64, b: i64, c: i64, d: i64) -> (sum: Option<i64>)
    ensures
        sum is Some <==> i64::MIN <= a + b + c + d <= i64::MAX,
        sum matches Some(total) ==> total == a + b + c + d,
{
    let total: i128 = a as i128 + b as i128 + c as i128 + d as i128;
    if total < -9223372036854775808i128 || total > 9223372036854775807i128 {
        None
    } else {
        Some(total as i64)
    }
}

/// The sum of four costs, resource by resource, where it can be held.
fn sum4(a: &Cost, b: &Cost, c: &Cost, d: &Cost) -> (sum: Option<Cost>)
    ensures
        sum is Some <==> total_of(*a).plus(total_of(*b)).plus(total_of(*c)).plus(
            total_of(*d),
        ).fits(),
        sum matches Some(cost) ==> total_of(cost) == total_of(*a).plus(total_of(*b)).plus(
            total_of(*c),
        ).plus(total_of(*d)),
{
    let step = add4(a.step, b.step, c.step, d.step);
    let range_check = add4(a.range_check, b.range_check, c.range_check, d.range_check);
    let pedersen = add4(a.pedersen, b.pedersen, c.pedersen, d.pedersen);
    let bitwise = add4(a.bitwise, b.bitwise, c.bitwise, d.bitwise);
    match (step, range_check, pedersen, bitwise) {
        (Some(step), Some(range_check), Some(pedersen), Some(bitwise)) => Some(
            Cost { step, range_check, pedersen, bitwise },
        ),
        _ => None,
    }
}

/// What the statements of the function add up to, given what the functions cost.
fn derive_function_cost(
    program: &IrProgram,
    registry: &Registry,
    costs: &Vec<FunctionCost>,
    function: usize,
) -> (res: Result<FunctionCost, CostError>)
    requires
        program.well_formed(registry),
        function < program.funcs@.len(),
        costs@.len() == program.funcs@.len(),
    ensures
        match res {
            Ok(cost) => function_total(cost) == derived_total(
                program,
                registry,
                function_totals(costs@),
                function as int,
            ) && forall|statement: int, branch: int|
                !#[trigger] via_overflows(
                    program,
                    registry,
                    function_totals(costs@),
                    function as int,
                    statement,
                    branch,
                ),
            Err(error) => error == CostError::CostOverflow && exists|
                statement: int,
                branch: int,
            | #[trigger]
                via_overflows(
                    program,
                    registry,
                    function_totals(costs@),
                    function as int,
                    statement,
                    branch,
                ),
        },
{
    proof {
        program.well_formed_function(registry, function as int);
    }
    let func = &program.funcs[function];
    let entry = func.entry_point;
    let end = func.end;
    let ghost totals = function_totals(costs@);
    let mut table: Vec<Option<Cost>> = Vec::new();
    while table.len() < end
        invariant
            table@.len() <= end,
        decreases end - table.len(),
    {
        table.push(None);
    }
    let mut statement: usize = end;
    while statement > entry
        invariant
            program.well_formed(registry),
            function < program.funcs@.len(),
            *func == program.funcs@[function as int],
            entry == func.entry_point,
            end == func.end,
            costs@.len() == program.funcs@.len(),
            totals == function_totals(costs@),
            entry <= statement <= end <= program.statements@.len(),
            table@.len() == end,
            forall|t: int|
                statement <= t < end ==> exit_of(#[trigger] table@[t]) == exit_total(
                    program,
                    registry,
                    totals,
                    end as int,
                    t,
                ),
            forall|t: int, b: int|
                statement <= t ==> !#[trigger] via_overflows(
                    program,
                    registry,
                    totals,
                    function as int,
                    t,
                    b,
                ),
        decreases statement,
    {
        statement -= 1;
        let exit = match &program.statements[statement] {
            Statement::Return(_) => Some(Cost::zero()),
            Statement::Invocation(invocation) => {
                proof {
                    program.well_formed_statement(registry, function as int, statement as int);
                }
                let signature = program.signature_at(registry, function, statement);
                if invocation.branches.len() == 0 {
                    Some(signature.static_cost)
                } else {
                    let mut agreed: Option<Cost> = None;
                    let mut branch: usize = 0;
                    while branch < invocation.branches.len()
                        invariant
                            program.well_formed(registry),
                            program.in_body(function as int, statement as int),
                            *func == program.funcs@[function as int],
                            end == func.end,
                            costs@.len() == program.funcs@.len(),
                            totals == function_totals(costs@),
                            entry <= statement < end <= program.statements@.len(),
                            table@.len() == end,
                            program.statements@[statement as int] == Statement::Invocation(
                                *invocation,
                            ),
                            *signature == program.signature(registry, statement as int),
                            signature.branches@.len() == invocation.branches@.len(),
                            invocation.branches@.len() > 0,
                            branch <= invocation.branches@.len(),
                            forall|t: int|
                                statement < t < end ==> exit_of(#[trigger] table@[t])
                                    == exit_total(program, registry, totals, end as int, t),
                            forall|t: int, b: int|
                                statement < t ==> !#[trigger] via_overflows(
                                    program,
                                    registry,
                                    totals,
                                    function as int,
                                    t,
                                    b,
                                ),
                            forall|b: int|
                                0 <= b < branch ==> !#[trigger] via_overflows(
                                    program,
                                    registry,
                                    totals,
                                    function as int,
                                    statement as int,
                                    b,
                                ),
                            branch > 0 ==> exit_of(agreed) == agreed_total(
                                program,
                                registry,
                                totals,
                                end as int,
                                statement as int,
                                branch as int,
                            ),
                        decreases invocation.branches.len() - branch,
                    {
                        proof {
                            program.well_formed_branch(
                                registry,
                                function as int,
                                statement as int,
                                branch as int,
                            );
                        }
                        let outcome = &signature.branches[branch];
                        let target = match invocation.branches[branch] {
                            crate::program::BranchTarget::Fallthrough => statement + 1,
                            crate::program::BranchTarget::Statement(index) => index,
                        };
                        let call: Option<Cost> = match outcome.ap_change {
                            ApChangeRule::FunctionCall(callee) => match costs[callee] {
                                FunctionCost::Closed(cost) => Some(cost),
                                FunctionCost::Open => None,
                            },
                            _ => Some(Cost::zero()),
                        };
                        assert(exit_of(call) == call_total(outcome.ap_change, totals));
                        let via: Option<Cost> = match (call, table[target]) {
                            (Some(call), Some(rest)) => {
                                match sum4(&signature.static_cost, &outcome.cost, &call, &rest) {
                                    Some(via) => Some(via),
                                    None => {
                                        proof {
                                            assert(via_overflows(
                                                program,
                                                registry,
                                                totals,
                                                function as int,
                                                statement as int,
                                                branch as int,
                                            ));
                                        }
                                        return Err(CostError::CostOverflow);
                                    },
                                }
                            },
                            _ => None,
                        };
                        assert(exit_of(via) == via_total(
                            program,
                            registry,
                            totals,
                            end as int,
                            statement as int,
                            branch as int,
                        ));
                        if branch == 0 {
                            agreed = via;
                        } else {
                            agreed = match (agreed, via) {
                                (Some(before), Some(last)) => if before == last {
                                    Some(before)
                                } else {
                                    None
                                },
                                _ => None,
                            };
                        }
                        branch += 1;
                    }
                    agreed
                }
            },
        };
        let ghost before = table@;
        table.set(statement, exit);
        proof {
            assert forall|t: int, b: int| statement <= t implies !#[trigger] via_overflows(
                program,
                registry,
                totals,
                function as int,
                t,
                b,
            ) by {
                if t == statement && via_overflows(program, registry, totals, function as int, t, b) {
                    assert(0 <= b < program.branch_count(statement as int));
                }
            }
            assert forall|t: int| statement <= t < end implies exit_of(#[trigger] table@[t])
                == exit_total(program, registry, totals, end as int, t) by {
                if t > statement {
                    assert(table@[t] == before[t]);
                }
            }
        }
    }
    proof {
        assert forall|t: int, b: int| !#[trigger] via_overflows(
            program,
            registry,
            totals,
            function as int,
            t,
            b,
        ) by {
            if via_overflows(program, registry, totals, function as int, t, b) {
                assert(program.in_body(function as int, t));
            }
        }
    }
    Ok(
        match table[entry] {
            Some(cost) => FunctionCost::Closed(cost),
            None => FunctionCost::Open,
        },
    )
}

/// The costs of the functions one round on.
fn next_costs(
    program: &IrProgram,
    registry: &Registry,
    enforced: &Vec<EnforcedCost>,
    costs: &Vec<FunctionCost>,
) -> (res: Result<Vec<FunctionCost>, CostError>)
    requires
        program.well_formed(registry),
        costs@.len() == program.funcs@.len(),
    ensures
        match res {
            Ok(next) => function_totals(next@) == next_totals(
                program,
                registry,
                enforced@,
                function_totals(costs@),
            ) && !round_overflows(program, registry, enforced@, function_totals(costs@)),
            Err(error) => error == CostError::CostOverflow && round_overflows(
                program,
                registry,
                enforced@,
                function_totals(costs@),
            ),
        },
{
    let mut next: Vec<FunctionCost> = Vec::new();
    let mut function: usize = 0;
    while function < program.funcs.len()
        invariant
            program.well_formed(registry),
            costs@.len() == program.funcs@.len(),
            function <= program.funcs@.len(),
            next@.len() == function,
            forall|f: int|
                0 <= f < function ==> function_total(#[trigger] next@[f]) == next_totals(
                    program,
                    registry,
                    enforced@,
                    function_totals(costs@),
                )[f],
            forall|f: int, t: int, b: int|
                0 <= f < function && enforced_for(enforced@, f) is None
                    ==> !#[trigger] via_overflows(
                    program,
                    registry,
                    function_totals(costs@),
                    f,
                    t,
                    b,
                ),
        decreases program.funcs.len() - function,
    {
        let cost = match find_enforced(enforced, function) {
            Some(cost) => FunctionCost::Closed(cost),
            None => match derive_function_cost(program, registry, costs, function) {
                Ok(cost) => cost,
                Err(error) => {
                    proof {
                        let (statement, branch) = choose|statement: int, branch: int| #[trigger]
                            via_overflows(
                                program,
                                registry,
                                function_totals(costs@),
                                function as int,
                                statement,
                                branch,
                            );
                        assert(via_overflows(
                            program,
                            registry,
                            function_totals(costs@),
                            function as int,
                            statement,
                            branch,
                        ));
                    }
                    return Err(error);
                },
            },
        };
        next.push(cost);
        function += 1;
    }
    proof {
        assert(function_totals(next@) =~= next_totals(
            program,
            registry,
            enforced@,
            function_totals(costs@),
        ));
    }
    Ok(next)
}

/// Whether the two hold the same costs.
fn same_costs(first: &Vec<FunctionCost>, second: &Vec<FunctionCost>) -> (same: bool)
    requires
        first@.len() == second@.len(),
    ensures
        same == (function_totals(first@) == function_totals(second@)),
{
    let mut function: usize = 0;
    while function < first.len()
        invariant
            first@.len() == second@.len(),
            function <= first@.len(),
            forall|f: int| 0 <= f < function ==> first@[f] == second@[f],
        decreases first.len() - function,
    {
        if first[function] != second[function] {
            proof {
                assert(function_totals(first@)[function as int] != function_totals(
                    second@,
                )[function as int]);
            }
            return false;
        }
        function += 1;
    }
    proof {
        assert(function_totals(first@) =~= function_totals(second@));
    }
    true
}

/// Whether the costs of the functions settle in round `round`, and in none before it.
pub open spec fn settles_at(
    program: &IrProgram,
    registry: &Registry,
    enforced: Seq<EnforcedCost>,
    round: nat,
) -> bool {
    &&& iterated_totals(program, registry, enforced, round + 1) == iterated_totals(
        program,
        registry,
        enforced,
        round,
    )
    &&& forall|earlier: nat|
        earlier < round ==> #[trigger] iterated_totals(program, registry, enforced, earlier + 1)
            != iterated_totals(program, registry, enforced, earlier)
}

/// Whether the costs are what the functions cost once the costs have
/// settled, in the round `round`: they settle in no round before it, no round
/// up to it forms a sum that cannot be held, and no cost stands below zero.
pub open spec fn solved_at(
    program: &IrProgram,
    registry: &Registry,
    enforced: Seq<EnforcedCost>,
    round: nat,
    costs: Seq<FunctionCost>,
) -> bool {
    &&& settles_at(program, registry, enforced, round)
    &&& function_totals(costs) == iterated_totals(program, registry, enforced, round)
    &&& forall|earlier: nat|
        earlier <= round ==> !#[trigger] round_overflows(
            program,
            registry,
            enforced,
            iterated_totals(program, registry, enforced, earlier),
        )
    &&& forall|function: int|
        0 <= function < costs.len() ==> (#[trigger] costs[function]).non_negative()
    &&& forall|entry: int|
        0 <= entry < enforced.len() ==> (#[trigger] enforced[entry]).cost.non_negative()
}

/// Whether the costs are what the functions cost once the costs have
/// settled, within the rounds that are allowed.
pub open spec fn costs_solved(
    program: &IrProgram,
    registry: &Registry,
    enforced: Seq<EnforcedCost>,
    max_iterations: usize,
    costs: Seq<FunctionCost>,
) -> bool {
    exists|round: nat|
        round < max_iterations && #[trigger] solved_at(program, registry, enforced, round, costs)
}

/// Whether the costs of the functions settle in none of the first `rounds` rounds.
pub open spec fn never_settles(
    program: &IrProgram,
    registry: &Registry,
    enforced: Seq<EnforcedCost>,
    rounds: nat,
) -> bool {
    forall|round: nat|
        round < rounds ==> #[trigger] iterated_totals(program, registry, enforced, round + 1)
            != iterated_totals(program, registry, enforced, round)
}

/// The second phase of the cost analysis: for each outcome of each statement
/// what taking it costs, and for each function what it costs as a whole.
///
/// The cost of a function is what its statements add up to along every path
/// from its entry to a return, calls included; it is open where the paths
/// differ. A function with an enforced cost is reported, and counted where it
/// is called, with that cost. The costs of the functions are worked out in
/// rounds, from the enforced costs and zero for every other function, until a
/// round changes nothing; functions that call themselves or each other and add
/// cost on the way never get there, and fail after `max_iterations` rounds.
pub fn compute_postcost_info(
    program: &IrProgram,
    registry: &Registry,
    enforced_costs: &Vec<EnforcedCost>,
    max_iterations: usize,
) -> (res: Result<GasInfo, CostError>)
    requires
        program.well_formed(registry),
    ensures
        match res {
            Ok(info) => {
                &&& rows_of_phase(program, registry, Phase::Postcost, info.variable_values@)
                &&& info.function_costs@.len() == program.funcs@.len()
                &&& settled(program, registry, enforced_costs@, function_totals(info.function_costs@))
                &&& costs_solved(
                    program,
                    registry,
                    enforced_costs@,
                    max_iterations,
                    info.function_costs@,
                )
                &&& forall|function: int|
                    0 <= function < program.funcs@.len() && enforced_for(
                        enforced_costs@,
                        function,
                    ) is Some ==> #[trigger] info.function_costs@[function]
                        == FunctionCost::Closed(enforced_for(enforced_costs@, function)->0)
                &&& info.non_negative()
            },
            Err(CostError::NegativeCostDetected { statement, token }) => negative_cost_at(
                program,
                registry,
                enforced_costs@,
                statement,
                token,
            ),
            Err(CostError::UnresolvableCostCycle) => never_settles(
                program,
                registry,
                enforced_costs@,
                max_iterations as nat,
            ),
            Err(CostError::CostOverflow) => exists|round: nat|
                round < max_iterations && #[trigger] overflows_at(
                    program,
                    registry,
                    enforced_costs@,
                    round,
                ),
            Err(_) => false,
        },
{
    let variable_values = match phase_rows(program, registry, Phase::Postcost) {
        Ok(rows) => rows,
        Err(error) => {
            proof {
                let place = error->NegativeCostDetected_statement;
                let token = error->NegativeCostDetected_token;
                assert(negative_cost_at(program, registry, enforced_costs@, place, token));
            }
            return Err(error);
        },
    };
    let mut entry: usize = 0;
    while entry < enforced_costs.len()
        invariant
            entry <= enforced_costs@.len(),
            forall|e: int| 0 <= e < entry ==> (#[trigger] enforced_costs@[e]).cost.non_negative(),
        decreases enforced_costs.len() - entry,
    {
        if let Some(token) = enforced_costs[entry].cost.first_negative() {
            proof {
                let place: Option<usize> = None;
                assert(enforced_costs@[entry as int].cost.of(token) < 0);
                assert(negative_cost_at(program, registry, enforced_costs@, place, token));
            }
            return Err(CostError::NegativeCostDetected { statement: None, token });
        }
        entry += 1;
    }
    let mut current: Vec<FunctionCost> = Vec::new();
    let mut function: usize = 0;
    while function < program.funcs.len()
        invariant
            function <= program.funcs@.len(),
            current@.len() == function,
            forall|f: int|
                0 <= f < function ==> function_total(#[trigger] current@[f]) == iterated_totals(
                    program,
                    registry,
                    enforced_costs@,
                    0,
                )[f],
        decreases program.funcs.len() - function,
    {
        let cost = match find_enforced(enforced_costs, function) {
            Some(cost) => cost,
            None => Cost::zero(),
        };
        current.push(FunctionCost::Closed(cost));
        function += 1;
    }
    proof {
        assert(function_totals(current@) =~= iterated_totals(
            program,
            registry,
            enforced_costs@,
            0,
        ));
    }
    let mut round: usize = 0;
    while round < max_iterations
        invariant
            program.well_formed(registry),
            round <= max_iterations,
            current@.len() == program.funcs@.len(),
            rows_of_phase(program, registry, Phase::Postcost, variable_values@),
            forall|statement: int, branch: int|
                0 <= statement < variable_values@.len() && 0 <= branch
                    < variable_values@[statement]@.len() ==> (
                #[trigger] variable_values@[statement]@[branch]).non_negative(),
            forall|e: int|
                0 <= e < enforced_costs@.len() ==> (
                #[trigger] enforced_costs@[e]).cost.non_negative(),
            function_totals(current@) == iterated_totals(
                program,
                registry,
                enforced_costs@,
                round as nat,
            ),
            never_settles(program, registry, enforced_costs@, round as nat),
            forall|earlier: nat|
                earlier < round ==> !#[trigger] round_overflows(
                    program,
                    registry,
                    enforced_costs@,
                    iterated_totals(program, registry, enforced_costs@, earlier),
                ),
        decreases max_iterations - round,
    {
        let next = match next_costs(program, registry, enforced_costs, &current) {
            Ok(next) => next,
            Err(error) => {
                proof {
                    assert(overflows_at(program, registry, enforced_costs@, round as nat));
                }
                return Err(error);
            },
        };
        proof {
            assert(function_totals(next@) == iterated_totals(
                program,
                registry,
                enforced_costs@,
                (round + 1) as nat,
            ));
            assert(next@.len() == function_totals(next@).len());
        }
        if same_costs(&next, &current) {
            proof {
                assert(settles_at(program, registry, enforced_costs@, round as nat));
                assert forall|f: int|
                    0 <= f < program.funcs@.len() && enforced_for(
                        enforced_costs@,
                        f,
                    ) is Some implies #[trigger] current@[f] == FunctionCost::Closed(
                    enforced_for(enforced_costs@, f)->0,
                ) by {
                    assert(function_totals(next@)[f] == function_totals(current@)[f]);
                    assert(function_total(current@[f]) == Some(
                        total_of(enforced_for(enforced_costs@, f)->0),
                    ));
                }
            }
            if let Some((function, token)) = first_negative_function(&current) {
                proof {
                    let place: Option<usize> = None;
                    assert(function_totals(current@)[function as int] == Some(
                        total_of(current@[function as int]->Closed_0),
                    ));
                    assert(negative_total_at(
                        program,
                        registry,
                        enforced_costs@,
                        round as nat,
                        function as int,
                        token,
                    ));
                    assert(negative_cost_at(program, registry, enforced_costs@, place, token));
                }
                return Err(CostError::NegativeCostDetected { statement: None, token });
            }
            proof {
                assert(solved_at(program, registry, enforced_costs@, round as nat, current@));
            }
            return Ok(GasInfo { variable_values, function_costs: current });
        }
        current = next;
        round += 1;
    }
    Err(CostError::UnresolvableCostCycle)
}

/// The first function whose cost stands below zero for a resource, with the resource.
fn first_negative_function(costs: &Vec<FunctionCost>) -> (found: Option<(usize, CostTokenType)>)
    ensures
        found is None ==> forall|function: int|
            0 <= function < costs@.len() ==> (#[trigger] costs@[function]).non_negative(),
        found matches Some((function, token)) ==> function < costs@.len()
            && costs@[function as int] is Closed && costs@[function as int]->Closed_0.of(token)
            < 0,
{
    let mut function: usize = 0;
    while function < costs.len()
        invariant
            function <= costs@.len(),
            forall|f: int| 0 <= f < function ==> (#[trigger] costs@[f]).non_negative(),
        decreases costs.len() - function,
    {
        if let FunctionCost::Closed(cost) = costs[function] {
            if let Some(token) = cost.first_negative() {
                return Some((function, token));
            }
        }
        function += 1;
    }
    None
}

/// Whether the costs of the functions settle in the round `round`, and what
/// the function then costs stands below zero for the resource.
pub open spec fn negative_total_at(
    program: &IrProgram,
    registry: &Registry,
    enforced: Seq<EnforcedCost>,
    round: nat,
    function: int,
    token: CostTokenType,
) -> bool {
    &&& settles_at(program, registry, enforced, round)
    &&& 0 <= function < program.funcs@.len()
    &&& iterated_totals(program, registry, enforced, round)[function] is Some
    &&& iterated_totals(program, registry, enforced, round)[function]->0.of(token) < 0
}

/// Whether a cost below zero stands at the place: the cost of an outcome of
/// the statement, or, where `statement` is `None`, an enforced cost or what a
/// function costs as a whole once the costs have settled.
pub open spec fn negative_cost_at(
    program: &IrProgram,
    registry: &Registry,
    enforced: Seq<EnforcedCost>,
    statement: Option<usize>,
    token: CostTokenType,
) -> bool {
    if statement is Some {
        in_some_body(program, statement->0 as int) && exists|branch: int|
            0 <= branch < program.branch_count(statement->0 as int) && (#[trigger] phase_cost(
                program,
                registry,
                Phase::Postcost,
                statement->0 as int,
                branch,
            )).of(token) < 0
    } else {
        ||| exists|entry: int|
            0 <= entry < enforced.len() && (#[trigger] enforced[entry]).cost.of(token) < 0
        ||| exists|round: nat, function: int| #[trigger]
            negative_total_at(program, registry, enforced, round, function, token)
    }
}

/// **Cost is never negative.** What two phases that hold no negative cost
/// and cover no resource in common give together holds no negative cost.
pub proof fn combination_non_negative(first: &GasInfo, second: &GasInfo, combined: &GasInfo)
    requires
        first.non_negative(),
        second.non_negative(),
        first.same_shape(second),
        first.disjoint(second),
        first.is_combination(second, combined),
    ensures
        combined.non_negative(),
{
    assert forall|statement: int, branch: int|
        0 <= statement < combined.variable_values@.len() && 0 <= branch
            < combined.variable_values@[statement]@.len() implies (
    #[trigger] combined.variable_values@[statement]@[branch]).non_negative() by {
        let a = first.variable_values@[statement]@[branch];
        let b = second.variable_values@[statement]@[branch];
        assert(a.non_negative());
        assert(b.non_negative());
        assert(a.disjoint(b));
        assert(combined.variable_values@[statement]@[branch] == joined(a, b));
    }
    assert forall|function: int| 0 <= function < combined.function_costs@.len() implies (
    #[trigger] combined.function_costs@[function]).non_negative() by {
        let a = first.function_costs@[function];
        let b = second.function_costs@[function];
        assert(a.non_negative());
        assert(b.non_negative());
        assert(function_costs_disjoint(a, b));
        assert(combined.function_costs@[function] == joined_function_cost(a, b));
    }
}

/// **Additivity of cost, for a reported cost.** Where the costs of the
/// functions are settled, a function that is reported with a closed cost and
/// has no enforced cost costs exactly that along every path from its entry to
/// a return.
pub proof fn closed_cost_is_path_cost(
    program: &IrProgram,
    registry: &Registry,
    enforced: Seq<EnforcedCost>,
    function_costs: Seq<FunctionCost>,
    function: int,
    choices: Seq<int>,
)
    requires
        program.well_formed(registry),
        function_costs.len() == program.funcs@.len(),
        settled(program, registry, enforced, function_totals(function_costs)),
        0 <= function < program.funcs@.len(),
        enforced_for(enforced, function) is None,
        function_costs[function] is Closed,
        cost_path_ok(program, function, choices),
        program.statements@[crate::ap_change::path_end(
            program,
            program.funcs@[function].entry_point as int,
            choices,
        )] is Return,
    ensures
        path_total(program, registry, function_totals(function_costs), function, choices)
            == Some(total_of(function_costs[function]->Closed_0)),
{
    let totals = function_totals(function_costs);
    assert(next_totals(program, registry, enforced, totals)[function] == totals[function]);
    cost_additivity(program, registry, totals, function, choices);
}

/// **An enforced cost is the reported cost.** Where the costs of the
/// functions are settled, a function with an enforced cost has exactly that cost.
pub proof fn enforced_cost_respected(
    program: &IrProgram,
    registry: &Registry,
    enforced: Seq<EnforcedCost>,
    function_costs: Seq<FunctionCost>,
    function: int,
)
    requires
        function_costs.len() == program.funcs@.len(),
        settled(program, registry, enforced, function_totals(function_costs)),
        0 <= function < program.funcs@.len(),
        enforced_for(enforced, function) is Some,
    ensures
        function_costs[function] == FunctionCost::Closed(enforced_for(enforced, function)->0),
{
    let totals = function_totals(function_costs);
    assert(next_totals(program, registry, enforced, totals)[function] == totals[function]);
    assert(function_total(function_costs[function]) == Some(
        total_of(enforced_for(enforced, function)->0),
    ));
}

/// Whether the static cost of the library function that `statement`
/// invokes and the cost of one of its outcomes both cover the resource.
pub open spec fn counted_twice(
    program: &IrProgram,
    registry: &Registry,
    statement: int,
    token: CostTokenType,
) -> bool {
    exists|function: int, branch: int|
        #![trigger program.in_body(function, statement), program.branch_signature(registry, statement, branch)]
        program.in_body(function, statement) && 0 <= branch < program.branch_count(statement)
            && program.signature(registry, statement).static_cost.of(token) != 0
            && program.branch_signature(registry, statement, branch).cost.of(token) != 0
}

/// Whether the analysis of the costs of the program fails with this error:
/// - a cost below zero: the static cost or the cost of an outcome of the
///   statement, an enforced cost, or what a function costs once the costs
///   have settled;
/// - costs that settle in none of the rounds that are allowed;
/// - a resource that the static cost and the cost of an outcome of one
///   statement both cover;
/// - a sum that cannot be held, formed in a round before the costs settle.
pub open spec fn cost_failure(
    program: &IrProgram,
    registry: &Registry,
    enforced: Seq<EnforcedCost>,
    max_iterations: usize,
    error: CostError,
) -> bool {
    match error {
        CostError::NegativeCostDetected { statement, token } => negative_cost_at(
            program,
            registry,
            enforced,
            statement,
            token,
        ) || (statement is Some && in_some_body(program, statement->0 as int)
            && program.branch_count(statement->0 as int) > 0 && program.signature(
            registry,
            statement->0 as int,
        ).static_cost.of(token) < 0),
        CostError::UnresolvableCostCycle => never_settles(
            program,
            registry,
            enforced,
            max_iterations as nat,
        ),
        CostError::DoubleCounted { statement, token } => statement is Some && counted_twice(
            program,
            registry,
            statement->0 as int,
            token,
        ),
        CostError::CostOverflow => exists|round: nat|
            round < max_iterations && #[trigger] overflows_at(program, registry, enforced, round),
        CostError::ShapeMismatch => false,
    }
}

/// Whether `info` is what running the program costs:
/// - for each outcome of each statement the static cost of its library
///   function and the cost of the outcome together, of which no resource is
///   covered by both;
/// - for each function what it costs once the costs have settled, within the
///   rounds that are allowed: the cost that is enforced for it, if one is;
/// - no cost below zero.
pub open spec fn gas_solved(
    program: &IrProgram,
    registry: &Registry,
    enforced: Seq<EnforcedCost>,
    max_iterations: usize,
    info: GasInfo,
) -> bool {
    &&& info.non_negative()
    &&& info.function_costs@.len() == program.funcs@.len()
    &&& settled(program, registry, enforced, function_totals(info.function_costs@))
    &&& costs_solved(program, registry, enforced, max_iterations, info.function_costs@)
    &&& forall|function: int|
        0 <= function < program.funcs@.len() && enforced_for(enforced, function) is Some
            ==> #[trigger] info.function_costs@[function] == FunctionCost::Closed(
            enforced_for(enforced, function)->0,
        )
    &&& info.variable_values@.len() == program.statements@.len()
    &&& forall|function: int, statement: int| #[trigger]
        program.in_body(function, statement) ==> info.variable_values@[statement]@.len()
            == program.branch_count(statement)
    &&& forall|function: int, statement: int, branch: int|
        #![trigger program.in_body(function, statement), combined_value(program, registry, info.variable_values@, statement, branch)]
        program.in_body(function, statement) && 0 <= branch < program.branch_count(statement)
            ==> combined_value(program, registry, info.variable_values@, statement, branch)
}

/// The costs of the functions settle in one round only.
pub proof fn settled_round_unique(
    program: &IrProgram,
    registry: &Registry,
    enforced: Seq<EnforcedCost>,
    first: nat,
    second: nat,
)
    requires
        settles_at(program, registry, enforced, first),
        settles_at(program, registry, enforced, second),
    ensures
        first == second,
{
    if first < second {
        assert(iterated_totals(program, registry, enforced, first + 1) != iterated_totals(
            program,
            registry,
            enforced,
            first,
        ));
    } else if second < first {
        assert(iterated_totals(program, registry, enforced, second + 1) != iterated_totals(
            program,
            registry,
            enforced,
            second,
        ));
    }
}

/// **Success is owed where it can be had.** Where some information is what
/// running the program costs, the analysis of the costs fails with no error:
/// so it succeeds.
pub proof fn solved_excludes_failure(
    program: &IrProgram,
    registry: &Registry,
    enforced: Seq<EnforcedCost>,
    max_iterations: usize,
    info: GasInfo,
    error: CostError,
)
    requires
        gas_solved(program, registry, enforced, max_iterations, info),
    ensures
        !cost_failure(program, registry, enforced, max_iterations, error),
{
    let costs = info.function_costs@;
    let round = choose|round: nat|
        round < max_iterations && #[trigger] solved_at(program, registry, enforced, round, costs);
    if cost_failure(program, registry, enforced, max_iterations, error) {
        match error {
            CostError::NegativeCostDetected { statement, token } => {
                if statement is Some {
                    let at = statement->0 as int;
                    let function = choose|function: int| #[trigger] program.in_body(function, at);
                    if negative_cost_at(program, registry, enforced, statement, token) {
                        let branch = choose|branch: int|
                            0 <= branch < program.branch_count(at) && (#[trigger] phase_cost(
                                program,
                                registry,
                                Phase::Postcost,
                                at,
                                branch,
                            )).of(token) < 0;
                        assert(combined_value(
                            program,
                            registry,
                            info.variable_values@,
                            at,
                            branch,
                        ));
                        assert(info.variable_values@[at]@[branch].non_negative());
                    } else {
                        assert(combined_value(program, registry, info.variable_values@, at, 0));
                        assert(info.variable_values@[at]@[0].non_negative());
                    }
                } else {
                    if exists|round: nat, function: int| #[trigger]
                        negative_total_at(program, registry, enforced, round, function, token) {
                        let (other, function) = choose|other: nat, function: int| #[trigger]
                            negative_total_at(program, registry, enforced, other, function, token);
                        settled_round_unique(program, registry, enforced, round, other);
                        assert(function_totals(costs)[function] == function_total(
                            costs[function],
                        ));
                        assert(costs[function].non_negative());
                    } else {
                        let entry = choose|entry: int|
                            0 <= entry < enforced.len() && (#[trigger] enforced[entry]).cost.of(
                                token,
                            ) < 0;
                        assert(enforced[entry].cost.non_negative());
                    }
                }
            },
            CostError::UnresolvableCostCycle => {
                assert(iterated_totals(program, registry, enforced, round + 1)
                    != iterated_totals(program, registry, enforced, round));
            },
            CostError::DoubleCounted { statement, token } => {
                let at = statement->0 as int;
                let (function, branch) = choose|function: int, branch: int|
                    #![trigger program.in_body(function, at), program.branch_signature(registry, at, branch)]
                    program.in_body(function, at) && 0 <= branch < program.branch_count(at)
                        && program.signature(registry, at).static_cost.of(token) != 0
                        && program.branch_signature(registry, at, branch).cost.of(token) != 0;
                assert(combined_value(program, registry, info.variable_values@, at, branch));
            },
            CostError::CostOverflow => {
                let other = choose|other: nat|
                    other < max_iterations && #[trigger] overflows_at(
                        program,
                        registry,
                        enforced,
                        other,
                    );
                if other > round {
                    assert(iterated_totals(program, registry, enforced, round + 1)
                        != iterated_totals(program, registry, enforced, round));
                }
            },
            CostError::ShapeMismatch => {},
        }
    }
}

/// **The costs of a program are determined.** Two pieces of information
/// that are what running one program costs hold the same costs: for every
/// outcome of every statement, and for every function.
pub proof fn gas_solution_is_determined(
    program: &IrProgram,
    registry: &Registry,
    enforced: Seq<EnforcedCost>,
    max_iterations: usize,
    first: GasInfo,
    second: GasInfo,
)
    requires
        program.well_formed(registry),
        gas_solved(program, registry, enforced, max_iterations, first),
        gas_solved(program, registry, enforced, max_iterations, second),
    ensures
        first.function_costs@ == second.function_costs@,
        first.variable_values@.len() == second.variable_values@.len(),
        forall|statement: int|
            0 <= statement < first.variable_values@.len() ==> (
            #[trigger] first.variable_values@[statement])@ == second.variable_values@[statement]@,
{
    let mine = first.function_costs@;
    let theirs = second.function_costs@;
    let one = choose|round: nat|
        round < max_iterations && #[trigger] solved_at(program, registry, enforced, round, mine);
    let other = choose|round: nat|
        round < max_iterations && #[trigger] solved_at(program, registry, enforced, round, theirs);
    settled_round_unique(program, registry, enforced, one, other);
    assert forall|function: int| 0 <= function < mine.len() implies mine[function]
        == theirs[function] by {
        assert(function_totals(mine)[function] == function_totals(theirs)[function]);
        assert(function_total(mine[function]) == function_total(theirs[function]));
    }
    assert(mine =~= theirs);
    assert forall|statement: int| 0 <= statement < first.variable_values@.len() implies (
    #[trigger] first.variable_values@[statement])@ == second.variable_values@[statement]@ by {
        crate::ap_change::statement_has_body(program, registry, statement);
        let function = choose|function: int| #[trigger] program.in_body(function, statement);
        assert forall|branch: int|
            0 <= branch < program.branch_count(statement) implies first.variable_values@[statement]@[branch]
            == second.variable_values@[statement]@[branch] by {
            assert(combined_value(
                program,
                registry,
                first.variable_values@,
                statement,
                branch,
            ));
            assert(combined_value(
                program,
                registry,
                second.variable_values@,
                statement,
                branch,
            ));
        }
        assert(first.variable_values@[statement]@ =~= second.variable_values@[statement]@);
    }
}

/// **A function of one statement.** Where the body of a function without
/// an enforced cost is one invocation that calls nothing and whose single
/// outcome leads on to a return, the function is reported with a closed cost:
/// the static cost of the library function and the cost of the outcome
/// together, which is also what the outcome of the statement is reported with.
pub proof fn single_statement_cost(
    program: &IrProgram,
    registry: &Registry,
    enforced: Seq<EnforcedCost>,
    max_iterations: usize,
    info: GasInfo,
    function: int,
)
    requires
        program.well_formed(registry),
        gas_solved(program, registry, enforced, max_iterations, info),
        program.single_statement_body(function),
        enforced_for(enforced, function) is None,
        !(program.branch_signature(
            registry,
            program.funcs@[function].entry_point as int,
            0,
        ).ap_change is FunctionCall),
    ensures
        info.function_costs@[function] is Closed,
        total_of(info.function_costs@[function]->Closed_0) == total_of(
            program.signature(registry, program.funcs@[function].entry_point as int).static_cost,
        ).plus(
            total_of(
                program.branch_signature(
                    registry,
                    program.funcs@[function].entry_point as int,
                    0,
                ).cost,
            ),
        ),
        info.variable_values@[program.funcs@[function].entry_point as int]@.len() == 1,
        info.variable_values@[program.funcs@[function].entry_point as int]@[0] == joined(
            program.signature(registry, program.funcs@[function].entry_point as int).static_cost,
            program.branch_signature(
                registry,
                program.funcs@[function].entry_point as int,
                0,
            ).cost,
        ),
{
    let entry = program.funcs@[function].entry_point as int;
    let end = program.funcs@[function].end as int;
    let totals = function_totals(info.function_costs@);
    program.well_formed_function(registry, function);
    assert(program.in_body(function, entry));
    assert(combined_value(program, registry, info.variable_values@, entry, 0));
    assert(next_totals(program, registry, enforced, totals)[function] == totals[function]);
    assert(exit_total(program, registry, totals, end, entry + 1) == Some(Total::zero()));
    assert(via_total(program, registry, totals, end, entry, 0) == Some(
        total_of(program.signature(registry, entry).static_cost).plus(
            total_of(program.branch_signature(registry, entry, 0).cost),
        ).plus(Total::zero()).plus(Total::zero()),
    ));
    assert(agreed_total(program, registry, totals, end, entry, 1) == via_total(
        program,
        registry,
        totals,
        end,
        entry,
        0,
    ));
    assert(exit_total(program, registry, totals, end, entry) == agreed_total(
        program,
        registry,
        totals,
        end,
        entry,
        1,
    ));
    assert(totals[function] == function_total(info.function_costs@[function]));
}

/// **A function that branches.** Where the body of a function without an
/// enforced cost begins with an invocation that calls nothing and has two
/// outcomes, each of which leads to a return, and the two outcomes cost
/// differently, the function is reported with an open cost, and each outcome
/// of the statement with its own cost beside the static cost of the library
/// function: the two are not brought down to one number.
pub proof fn two_way_cost(
    program: &IrProgram,
    registry: &Registry,
    enforced: Seq<EnforcedCost>,
    max_iterations: usize,
    info: GasInfo,
    function: int,
)
    requires
        program.well_formed(registry),
        gas_solved(program, registry, enforced, max_iterations, info),
        program.two_way_body(function),
        enforced_for(enforced, function) is None,
        !(program.branch_signature(
            registry,
            program.funcs@[function].entry_point as int,
            0,
        ).ap_change is FunctionCall),
        !(program.branch_signature(
            registry,
            program.funcs@[function].entry_point as int,
            1,
        ).ap_change is FunctionCall),
        total_of(
            program.branch_signature(
                registry,
                program.funcs@[function].entry_point as int,
                0,
            ).cost,
        ) != total_of(
            program.branch_signature(
                registry,
                program.funcs@[function].entry_point as int,
                1,
            ).cost,
        ),
    ensures
        info.function_costs@[function] == FunctionCost::Open,
        info.variable_values@[program.funcs@[function].entry_point as int]@.len() == 2,
        forall|branch: int|
            0 <= branch < 2 ==> #[trigger] info.variable_values@[program.funcs@[function].entry_point as int]@[branch]
                == joined(
                program.signature(
                    registry,
                    program.funcs@[function].entry_point as int,
                ).static_cost,
                program.branch_signature(
                    registry,
                    program.funcs@[function].entry_point as int,
                    branch,
                ).cost,
            ),
{
    let entry = program.funcs@[function].entry_point as int;
    let end = program.funcs@[function].end as int;
    let totals = function_totals(info.function_costs@);
    program.well_formed_function(registry, function);
    assert(program.in_body(function, entry));
    program.well_formed_branch(registry, function, entry, 0);
    program.well_formed_branch(registry, function, entry, 1);
    assert(combined_value(program, registry, info.variable_values@, entry, 0));
    assert(combined_value(program, registry, info.variable_values@, entry, 1));
    assert(next_totals(program, registry, enforced, totals)[function] == totals[function]);
    let fixed = total_of(program.signature(registry, entry).static_cost);
    let first = total_of(program.branch_signature(registry, entry, 0).cost);
    let second = total_of(program.branch_signature(registry, entry, 1).cost);
    assert(exit_total(program, registry, totals, end, program.target(entry, 0)) == Some(
        Total::zero(),
    ));
    assert(exit_total(program, registry, totals, end, program.target(entry, 1)) == Some(
        Total::zero(),
    ));
    assert(via_total(program, registry, totals, end, entry, 0) == Some(
        fixed.plus(first).plus(Total::zero()).plus(Total::zero()),
    ));
    assert(via_total(program, registry, totals, end, entry, 1) == Some(
        fixed.plus(second).plus(Total::zero()).plus(Total::zero()),
    ));
    assert(agreed_total(program, registry, totals, end, entry, 1) == via_total(
        program,
        registry,
        totals,
        end,
        entry,
        0,
    ));
    assert(agreed_total(program, registry, totals, end, entry, 2) is None);
    assert(exit_total(program, registry, totals, end, entry) is None);
    assert(totals[function] == function_total(info.function_costs@[function]));
}

/// Works out what running a program costs: both phases of the analysis, put together.
pub fn calc_gas_info(
    program: &IrProgram,
    registry: &Registry,
    enforced_costs: &Vec<EnforcedCost>,
    max_iterations: usize,
) -> (res: Result<GasInfo, CostError>)
    requires
        program.well_formed(registry),
    ensures
        res matches Err(error) ==> cost_failure(
            program,
            registry,
            enforced_costs@,
            max_iterations,
            error,
        ),
        res matches Ok(info) ==> gas_solved(
            program,
            registry,
            enforced_costs@,
            max_iterations,
            info,
        ),
{
    let precost = match calc_gas_precost_info(program, registry) {
        Ok(info) => info,
        Err(error) => {
            return Err(error);
        },
    };
    let postcost = match compute_postcost_info(
        program,
        registry,
        enforced_costs,
        max_iterations,
    ) {
        Ok(info) => info,
        Err(error) => {
            return Err(error);
        },
    };
    let combined = match precost.combine(&postcost) {
        Ok(info) => info,
        Err(error) => {
            return Err(error);
        },
    };
    proof {
        assert forall|function: int, statement: int| #[trigger]
            program.in_body(function, statement) implies combined.variable_values@[statement]@.len()
            == program.branch_count(statement) by {
            program.well_formed_function(registry, function);
            assert(precost.variable_values@[statement]@.len() == program.branch_count(statement));
            assert(combined.variable_values@[statement]@.len()
                == precost.variable_values@[statement]@.len());
        }
        combination_non_negative(&precost, &postcost, &combined);
        assert(function_totals(combined.function_costs@) =~= function_totals(
            postcost.function_costs@,
        )) by {
            assert forall|f: int| 0 <= f < combined.function_costs@.len() implies function_total(
                combined.function_costs@[f],
            ) == function_total(postcost.function_costs@[f]) by {
                assert(precost.function_costs@[f] == FunctionCost::Closed(Cost::zero()));
                assert(combined.function_costs@[f] == joined_function_cost(
                    precost.function_costs@[f],
                    postcost.function_costs@[f],
                ));
            }
        }
        assert forall|f: int| 0 <= f < combined.function_costs@.len() implies combined.function_costs@[f]
            == postcost.function_costs@[f] by {
            assert(precost.function_costs@[f] == FunctionCost::Closed(Cost::zero()));
            assert(combined.function_costs@[f] == joined_function_cost(
                precost.function_costs@[f],
                postcost.function_costs@[f],
            ));
        }
        assert(combined.function_costs@ =~= postcost.function_costs@);
        assert forall|function: int|
            0 <= function < program.funcs@.len() && enforced_for(
                enforced_costs@,
                function,
            ) is Some implies #[trigger] combined.function_costs@[function]
            == FunctionCost::Closed(enforced_for(enforced_costs@, function)->0) by {
            enforced_cost_respected(
                program,
                registry,
                enforced_costs@,
                combined.function_costs@,
                function,
            );
        }
        assert forall|function: int, statement: int, branch: int|
            #![trigger program.in_body(function, statement), combined_value(program, registry, combined.variable_values@, statement, branch)]
            program.in_body(function, statement) && 0 <= branch < program.branch_count(
                statement,
            ) implies combined_value(
            program,
            registry,
            combined.variable_values@,
            statement,
            branch,
        ) by {
            program.well_formed_function(registry, function);
            assert(precost.variable_values@[statement]@[branch] == phase_cost(
                program,
                registry,
                Phase::Precost,
                statement,
                branch,
            ));
            assert(postcost.variable_values@[statement]@[branch] == phase_cost(
                program,
                registry,
                Phase::Postcost,
                statement,
                branch,
            ));
            assert(precost.variable_values@[statement]@[branch].disjoint(
                postcost.variable_values@[statement]@[branch],
            ));
            assert(combined.variable_values@[statement]@[branch] == joined(
                precost.variable_values@[statement]@[branch],
                postcost.variable_values@[statement]@[branch],
            ));
        }
    }
    Ok(combined)
}

/// Whether the rows hold, for the outcome `branch` of `statement`, the static
/// cost of the library function and the cost of the outcome together, of
/// which no resource is covered by both.
pub open spec fn combined_value(
    program: &IrProgram,
    registry: &Registry,
    rows: Seq<Vec<Cost>>,
    statement: int,
    branch: int,
) -> bool {
    let fixed = phase_cost(program, registry, Phase::Precost, statement, branch);
    let taken = phase_cost(program, registry, Phase::Postcost, statement, branch);
    &&& 0 <= statement < rows.len()
    &&& 0 <= branch < rows[statement]@.len()
    &&& fixed.disjoint(taken)
    &&& rows[statement]@[branch] == joined(fixed, taken)
}


} // verus!
