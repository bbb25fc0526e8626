use vstd::prelude::*;

use crate::program::{BranchTarget, IrProgram, Statement};
use crate::registry::{ApChangeRule, Registry};

verus! {

/// The allocation-pointer changes of a program.
#[derive(Debug, PartialEq, Eq)]
pub struct ApChangeInfo {
    /// For each statement, how far the allocation pointer stands above where
    /// it stood at the entry of the function, or `None` for a statement that
    /// no path from the entry reaches.
    pub offsets: Vec<Option<usize>>,
    /// For each function, how far a call of it moves the allocation pointer.
    pub function_ap_change: Vec<usize>,
}

/// Why the allocation-pointer changes of a program cannot be worked out.
#[derive(Clone, Copy, Debug, PartialEq, Eq, Structural)]
pub enum ApChangeError {
    /// Two paths reach the statement, or two returns of one function, with
    /// the allocation pointer at different offsets.
    ApTrackingConflict { statement: usize },
    /// The change of the function has no bound that can be worked out: it
    /// depends on itself, on a statement whose effect is only known when the
    /// program runs, or it is more than can be held.
    UnboundedApChange { function: usize },
}

/// How many cells an outcome consumes, given the changes of the functions
/// that are known: `None` where it is not known.
pub open spec fn branch_delta(rule: ApChangeRule, totals: Seq<Option<usize>>) -> Option<int> {
    match rule {
        ApChangeRule::Known(cells) => Some(cells as int),
        ApChangeRule::FunctionCall(callee) => if callee < totals.len() {
            match totals[callee as int] {
                Some(total) => Some(total as int),
                None => None,
            }
        } else {
            None
        },
        ApChangeRule::Unknown => None,
    }
}

/// The statement that one arrives at from `start` by taking, at each
/// invocation on the way, the outcome that `choices` names.
pub open spec fn path_end(program: &IrProgram, start: int, choices: Seq<int>) -> int
    decreases choices.len(),
{
    if choices.len() == 0 {
        start
    } else {
        program.target(path_end(program, start, choices.drop_last()), choices.last())
    }
}

/// Whether `choices` is a path in the body of `function`, from its entry:
/// every step leaves an invocation by one of its outcomes, and what the
/// outcome consumes is known.
pub open spec fn path_ok(
    program: &IrProgram,
    registry: &Registry,
    totals: Seq<Option<usize>>,
    function: int,
    choices: Seq<int>,
) -> bool
    decreases choices.len(),
{
    if choices.len() == 0 {
        true
    } else {
        let start = program.funcs@[function].entry_point as int;
        let before = path_end(program, start, choices.drop_last());
        &&& path_ok(program, registry, totals, function, choices.drop_last())
        &&& program.in_body(function, before)
        &&& program.statements@[before] is Invocation
        &&& 0 <= choices.last() < program.branch_count(before)
        &&& branch_delta(
            program.branch_signature(registry, before, choices.last()).ap_change,
            totals,
        ) is Some
    }
}

/// How many cells are consumed along a path.
pub open spec fn path_sum(
    program: &IrProgram,
    registry: &Registry,
    totals: Seq<Option<usize>>,
    function: int,
    choices: Seq<int>,
) -> int
    decreases choices.len(),
{
    if choices.len() == 0 {
        0
    } else {
        let start = program.funcs@[function].entry_point as int;
        let before = path_end(program, start, choices.drop_last());
        path_sum(program, registry, totals, function, choices.drop_last()) + branch_delta(
            program.branch_signature(registry, before, choices.last()).ap_change,
            totals,
        )->0
    }
}

/// Whether the offsets agree along the outcome `branch` of `statement`: if
/// the statement has an offset, the target has it plus what the outcome
/// consumes.
pub open spec fn edge_holds(
    offsets: Seq<Option<usize>>,
    totals: Seq<Option<usize>>,
    program: &IrProgram,
    registry: &Registry,
    statement: int,
    branch: int,
) -> bool {
    match offsets[statement] {
        None => true,
        Some(offset) => match branch_delta(
            program.branch_signature(registry, statement, branch).ap_change,
            totals,
        ) {
            None => false,
            Some(cells) => offset + cells <= usize::MAX && offsets[program.target(
                statement,
                branch,
            )] == Some((offset + cells) as usize),
        },
    }
}

/// Whether the change of the function is the offset of the return at
/// `statement`, if that return has an offset.
pub open spec fn return_holds(
    offsets: Seq<Option<usize>>,
    totals: Seq<Option<usize>>,
    function: int,
    statement: int,
) -> bool {
    match offsets[statement] {
        None => true,
        Some(offset) => totals[function] == Some(offset),
    }
}

/// Whether a path from the entry of the function reaches the statement with
/// the offset that the statement has.
pub open spec fn reached(
    offsets: Seq<Option<usize>>,
    totals: Seq<Option<usize>>,
    program: &IrProgram,
    registry: &Registry,
    function: int,
    statement: int,
) -> bool {
    exists|choices: Seq<int>|
        {
            &&& #[trigger] path_ok(program, registry, totals, function, choices)
            &&& path_end(program, program.funcs@[function].entry_point as int, choices)
                == statement
            &&& offsets[statement] == Some(
                path_sum(program, registry, totals, function, choices) as usize,
            )
            &&& path_sum(program, registry, totals, function, choices) <= usize::MAX
        }
}

/// Whether the offsets are right for the body of the function: the entry
/// stands at zero, the offsets agree along every outcome, the returns that
/// have an offset have the change of the function, and only statements that a
/// path reaches have an offset.
pub open spec fn body_valid(
    offsets: Seq<Option<usize>>,
    totals: Seq<Option<usize>>,
    program: &IrProgram,
    registry: &Registry,
    function: int,
) -> bool {
    let func = program.funcs@[function];
    &&& totals[function] is Some
    &&& offsets[func.entry_point as int] == Some(0usize)
    &&& forall|statement: int, branch: int|
        func.entry_point <= statement < func.end && program.statements@[statement] is Invocation
            && 0 <= branch < program.branch_count(statement) ==> #[trigger] edge_holds(
            offsets,
            totals,
            program,
            registry,
            statement,
            branch,
        )
    &&& forall|statement: int|
        func.entry_point <= statement < func.end && program.statements@[statement] is Return
            ==> #[trigger] return_holds(offsets, totals, function, statement)
    &&& forall|statement: int|
        func.entry_point <= statement < func.end && offsets[statement] is Some
            ==> #[trigger] reached(offsets, totals, program, registry, function, statement)
    &&& no_return_reached(offsets, program, function) ==> totals[function] == Some(0usize)
}

/// Whether no return in the body of the function has an offset: whether no
/// path from the entry of the function gets to a return.
pub open spec fn no_return_reached(
    offsets: Seq<Option<usize>>,
    program: &IrProgram,
    function: int,
) -> bool {
    forall|statement: int|
        program.funcs@[function].entry_point <= statement < program.funcs@[function].end
            && program.statements@[statement] is Return ==> (#[trigger] offsets[statement]) is None
}

/// Whether the functions can be put in an order in which every function
/// comes after the functions that it calls: `rank` gives the place of each.
pub open spec fn call_order(program: &IrProgram, registry: &Registry, rank: Seq<nat>) -> bool {
    &&& rank.len() == program.funcs@.len()
    &&& forall|function: int, statement: int, branch: int|
        #![trigger program.in_body(function, statement), program.branch_signature(registry, statement, branch)]
        program.in_body(function, statement) && program.statements@[statement] is Invocation && 0
            <= branch < program.branch_count(statement) ==> (program.branch_signature(
            registry,
            statement,
            branch,
        ).ap_change matches ApChangeRule::FunctionCall(callee) ==> callee < rank.len()
            && rank[callee as int] < rank[function])
}

/// Whether what every outcome in the body of the function consumes is known.
pub open spec fn ready(
    program: &IrProgram,
    registry: &Registry,
    totals: Seq<Option<usize>>,
    function: int,
) -> bool {
    forall|statement: int, branch: int|
        #![trigger program.branch_signature(registry, statement, branch)]
        program.in_body(function, statement) && program.statements@[statement] is Invocation && 0
            <= branch < program.branch_count(statement) ==> branch_delta(
            program.branch_signature(registry, statement, branch).ap_change,
            totals,
        ) is Some
}

/// Whether the functions whose change is not known wait for each other:
/// `function` is one of them, and none of them is ready.
pub open spec fn stuck(
    program: &IrProgram,
    registry: &Registry,
    totals: Seq<Option<usize>>,
    function: int,
) -> bool {
    &&& totals.len() == program.funcs@.len()
    &&& 0 <= function < totals.len()
    &&& totals[function] is None
    &&& forall|other: int|
        0 <= other < totals.len() && totals[other] is None ==> !#[trigger] ready(
            program,
            registry,
            totals,
            other,
        )
}

/// Whether two paths in the body of the function disagree: they end at the
/// same statement, or at two returns, having consumed different numbers of cells.
pub open spec fn paths_disagree(
    program: &IrProgram,
    registry: &Registry,
    totals: Seq<Option<usize>>,
    function: int,
    statement: int,
) -> bool {
    exists|first: Seq<int>, second: Seq<int>|
        {
            let start = program.funcs@[function].entry_point as int;
            &&& #[trigger] path_ok(program, registry, totals, function, first)
            &&& #[trigger] path_ok(program, registry, totals, function, second)
            &&& path_end(program, start, second) == statement
            &&& path_end(program, start, first) == statement || (program.statements@[statement] is Return
                && program.statements@[path_end(program, start, first)] is Return)
            &&& path_sum(program, registry, totals, function, first) != path_sum(
                program,
                registry,
                totals,
                function,
                second,
            )
        }
}

/// Whether the change of the function has no bound that can be worked out,
/// with the changes in `totals` known: the function waits for itself or for
/// others that wait, or a path in its body consumes more than can be held.
pub open spec fn unbounded(
    program: &IrProgram,
    registry: &Registry,
    totals: Seq<Option<usize>>,
    function: int,
) -> bool {
    stuck(program, registry, totals, function) || path_overflows(
        program,
        registry,
        totals,
        function,
    )
}

/// The changes that have been worked out for some of the functions of a
/// program, with the offsets in the bodies of those functions and the order
/// in which they were worked out.
pub struct WorkedOut {
    /// For each function what a call of it consumes, where that is known.
    pub totals: Seq<Option<usize>>,
    /// For each statement its offset.
    pub offsets: Seq<Option<usize>>,
    /// For each function its place in the order.
    pub rank: Seq<nat>,
    /// The number of places that have been given.
    pub bound: int,
}

impl WorkedOut {
    /// Whether the changes are right for the program: every function whose
    /// change is known comes after the functions that it calls, whose changes
    /// are known too, and the offsets in its body are right.
    pub open spec fn holds(self, program: &IrProgram, registry: &Registry) -> bool {
        &&& self.offsets.len() == program.statements@.len()
        &&& ordered_so_far(program, registry, self.totals, self.rank, self.bound)
        &&& forall|function: int|
            0 <= function < self.totals.len() && self.totals[function] is Some
                ==> #[trigger] body_valid(self.offsets, self.totals, program, registry, function)
    }
}

/// Whether, with changes that have been worked out, two paths in the body
/// of the function disagree at the statement.
pub open spec fn disagree_after(
    program: &IrProgram,
    registry: &Registry,
    known: WorkedOut,
    function: int,
    statement: int,
) -> bool {
    known.holds(program, registry) && paths_disagree(
        program,
        registry,
        known.totals,
        function,
        statement,
    )
}

/// Whether, with changes that have been worked out, the change of the
/// function has no bound that can be worked out.
pub open spec fn unbounded_after(
    program: &IrProgram,
    registry: &Registry,
    known: WorkedOut,
    function: int,
) -> bool {
    known.holds(program, registry) && known.totals[function] is None && unbounded(
        program,
        registry,
        known.totals,
        function,
    )
}

/// Whether a path in the body of the function consumes more cells than can be held.
pub open spec fn path_overflows(
    program: &IrProgram,
    registry: &Registry,
    totals: Seq<Option<usize>>,
    function: int,
) -> bool {
    exists|choices: Seq<int>|
        #[trigger] path_ok(program, registry, totals, function, choices) && path_sum(
            program,
            registry,
            totals,
            function,
            choices,
        ) > usize::MAX
}

impl ApChangeInfo {
    /// The changes of the functions, as the tracker holds them.
    pub open spec fn totals(&self) -> Seq<Option<usize>> {
        self.function_ap_change@.map_values(|total: usize| Some(total))
    }

    /// Whether the offsets and changes are right for the program.
    pub open spec fn valid(&self, program: &IrProgram, registry: &Registry) -> bool {
        &&& self.offsets@.len() == program.statements@.len()
        &&& self.function_ap_change@.len() == program.funcs@.len()
        &&& forall|function: int|
            0 <= function < program.funcs@.len() ==> #[trigger] body_valid(
                self.offsets@,
                self.totals(),
                program,
                registry,
                function,
            )
        &&& forall|function: int|
            0 <= function < program.funcs@.len() ==> #[trigger] ready(
                program,
                registry,
                self.totals(),
                function,
            )
        &&& exists|rank: Seq<nat>| #[trigger] call_order(program, registry, rank)
    }
}

/// Along a path in a body for which the offsets are right, the statement
/// that the path ends at has the offset that the path consumes.
pub proof fn conservation(
    offsets: Seq<Option<usize>>,
    totals: Seq<Option<usize>>,
    program: &IrProgram,
    registry: &Registry,
    function: int,
    choices: Seq<int>,
)
    requires
        program.well_formed(registry),
        0 <= function < program.funcs@.len(),
        body_valid(offsets, totals, program, registry, function),
        path_ok(program, registry, totals, function, choices),
    ensures
        program.in_body(
            function,
            path_end(program, program.funcs@[function].entry_point as int, choices),
        ),
        offsets[path_end(program, program.funcs@[function].entry_point as int, choices)] == Some(
            path_sum(program, registry, totals, function, choices) as usize,
        ),
        0 <= path_sum(program, registry, totals, function, choices) <= usize::MAX,
    decreases choices.len(),
{
    let start = program.funcs@[function].entry_point as int;
    program.well_formed_function(registry, function);
    if choices.len() > 0 {
        let before = path_end(program, start, choices.drop_last());
        conservation(offsets, totals, program, registry, function, choices.drop_last());
        program.well_formed_branch(registry, function, before, choices.last());
        assert(edge_holds(offsets, totals, program, registry, before, choices.last()));
    }
}

/// **Conservation of the allocation pointer.** Whatever path is taken from
/// the entry of a function to a statement, the statement has the offset that
/// the path consumes: so every two paths to one statement consume the same.
pub proof fn ap_conservation(
    info: &ApChangeInfo,
    program: &IrProgram,
    registry: &Registry,
    function: int,
    choices: Seq<int>,
)
    requires
        program.well_formed(registry),
        info.valid(program, registry),
        0 <= function < program.funcs@.len(),
        path_ok(program, registry, info.totals(), function, choices),
    ensures
        program.in_body(
            function,
            path_end(program, program.funcs@[function].entry_point as int, choices),
        ),
        info.offsets@[path_end(program, program.funcs@[function].entry_point as int, choices)]
            == Some(path_sum(program, registry, info.totals(), function, choices) as usize),
        0 <= path_sum(program, registry, info.totals(), function, choices) <= usize::MAX,
{
    assert(body_valid(info.offsets@, info.totals(), program, registry, function));
    conservation(info.offsets@, info.totals(), program, registry, function, choices);
}

/// A path under some changes is a path under fewer of them, and consumes
/// the same, where the fewer still tell what every outcome in the body
/// consumes.
proof fn path_transfer(
    program: &IrProgram,
    registry: &Registry,
    more: Seq<Option<usize>>,
    fewer: Seq<Option<usize>>,
    function: int,
    choices: Seq<int>,
)
    requires
        extends(fewer, more),
        ready(program, registry, fewer, function),
        path_ok(program, registry, more, function, choices),
    ensures
        path_ok(program, registry, fewer, function, choices),
        path_sum(program, registry, fewer, function, choices) == path_sum(
            program,
            registry,
            more,
            function,
            choices,
        ),
    decreases choices.len(),
{
    if choices.len() > 0 {
        path_transfer(program, registry, more, fewer, function, choices.drop_last());
        let start = program.funcs@[function].entry_point as int;
        let before = path_end(program, start, choices.drop_last());
        assert(branch_delta(
            program.branch_signature(registry, before, choices.last()).ap_change,
            fewer,
        ) is Some);
    }
}

/// A function that is ready stays ready when more changes get known.
proof fn ready_stable(
    program: &IrProgram,
    registry: &Registry,
    earlier: Seq<Option<usize>>,
    later: Seq<Option<usize>>,
    function: int,
)
    requires
        extends(earlier, later),
        ready(program, registry, earlier, function),
    ensures
        ready(program, registry, later, function),
{
    assert forall|statement: int, branch: int|
        #![trigger program.branch_signature(registry, statement, branch)]
        program.in_body(function, statement) && program.statements@[statement] is Invocation && 0
            <= branch < program.branch_count(statement) implies branch_delta(
        program.branch_signature(registry, statement, branch).ap_change,
        later,
    ) is Some by {
        assert(branch_delta(
            program.branch_signature(registry, statement, branch).ap_change,
            earlier,
        ) is Some);
    }
}

/// Whether `later` knows every change that `earlier` knows, and the same.
pub open spec fn extends(earlier: Seq<Option<usize>>, later: Seq<Option<usize>>) -> bool {
    &&& earlier.len() == later.len()
    &&& forall|function: int|
        0 <= function < earlier.len() && earlier[function] is Some ==> later[function]
            == earlier[function]
}

/// A path stays a path, and consumes the same, when more changes get known.
proof fn path_stable(
    program: &IrProgram,
    registry: &Registry,
    earlier: Seq<Option<usize>>,
    later: Seq<Option<usize>>,
    function: int,
    choices: Seq<int>,
)
    requires
        extends(earlier, later),
        path_ok(program, registry, earlier, function, choices),
    ensures
        path_ok(program, registry, later, function, choices),
        path_sum(program, registry, later, function, choices) == path_sum(
            program,
            registry,
            earlier,
            function,
            choices,
        ),
    decreases choices.len(),
{
    if choices.len() > 0 {
        path_stable(program, registry, earlier, later, function, choices.drop_last());
    }
}

/// One more step at the end of a path.
proof fn path_extend(
    program: &IrProgram,
    registry: &Registry,
    totals: Seq<Option<usize>>,
    function: int,
    choices: Seq<int>,
    branch: int,
)
    requires
        path_ok(program, registry, totals, function, choices),
        program.in_body(
            function,
            path_end(program, program.funcs@[function].entry_point as int, choices),
        ),
        program.statements@[path_end(
            program,
            program.funcs@[function].entry_point as int,
            choices,
        )] is Invocation,
        0 <= branch < program.branch_count(
            path_end(program, program.funcs@[function].entry_point as int, choices),
        ),
        branch_delta(
            program.branch_signature(
                registry,
                path_end(program, program.funcs@[function].entry_point as int, choices),
                branch,
            ).ap_change,
            totals,
        ) is Some,
    ensures
        path_ok(program, registry, totals, function, choices.push(branch)),
        path_end(program, program.funcs@[function].entry_point as int, choices.push(branch))
            == program.target(
            path_end(program, program.funcs@[function].entry_point as int, choices),
            branch,
        ),
        path_sum(program, registry, totals, function, choices.push(branch)) == path_sum(
            program,
            registry,
            totals,
            function,
            choices,
        ) + branch_delta(
            program.branch_signature(
                registry,
                path_end(program, program.funcs@[function].entry_point as int, choices),
                branch,
            ).ap_change,
            totals,
        )->0,
{
    assert(choices.push(branch).drop_last() =~= choices);
}

/// The bodies of the functions of a well-formed program follow each other.
pub proof fn bodies_ordered(program: &IrProgram, registry: &Registry, first: int, second: int)
    requires
        program.well_formed(registry),
        0 <= first < second < program.funcs@.len(),
    ensures
        program.funcs@[first].end <= program.funcs@[second].entry_point,
    decreases second - first,
{
    program.well_formed_function(registry, second);
    if first + 1 < second {
        bodies_ordered(program, registry, first, second - 1);
        program.well_formed_function(registry, second - 1);
    }
}

/// What is right for a body stays right when more changes get known and the
/// offsets of the body stay as they are.
proof fn body_valid_stable(
    program: &IrProgram,
    registry: &Registry,
    offsets: Seq<Option<usize>>,
    totals: Seq<Option<usize>>,
    new_offsets: Seq<Option<usize>>,
    new_totals: Seq<Option<usize>>,
    function: int,
)
    requires
        program.well_formed(registry),
        0 <= function < program.funcs@.len(),
        totals.len() == program.funcs@.len(),
        offsets.len() == program.statements@.len(),
        new_offsets.len() == offsets.len(),
        body_valid(offsets, totals, program, registry, function),
        extends(totals, new_totals),
        forall|statement: int|
            program.in_body(function, statement) ==> new_offsets[statement] == offsets[statement],
    ensures
        body_valid(new_offsets, new_totals, program, registry, function),
{
    let func = program.funcs@[function];
    program.well_formed_function(registry, function);
    assert forall|statement: int, branch: int|
        func.entry_point <= statement < func.end && program.statements@[statement] is Invocation
            && 0 <= branch < program.branch_count(statement) implies #[trigger] edge_holds(
        new_offsets,
        new_totals,
        program,
        registry,
        statement,
        branch,
    ) by {
        program.well_formed_branch(registry, function, statement, branch);
        assert(edge_holds(offsets, totals, program, registry, statement, branch));
        assert(program.in_body(function, statement));
        assert(program.in_body(function, program.target(statement, branch)));
    }
    assert forall|statement: int|
        func.entry_point <= statement < func.end && program.statements@[statement] is Return implies #[trigger] return_holds(
        new_offsets,
        new_totals,
        function,
        statement,
    ) by {
        assert(return_holds(offsets, totals, function, statement));
        assert(program.in_body(function, statement));
    }
    assert forall|statement: int|
        func.entry_point <= statement < func.end
            && new_offsets[statement] is Some implies #[trigger] reached(
        new_offsets,
        new_totals,
        program,
        registry,
        function,
        statement,
    ) by {
        assert(program.in_body(function, statement));
        assert(reached(offsets, totals, program, registry, function, statement));
        let choices = choose|choices: Seq<int>|
            {
                &&& #[trigger] path_ok(program, registry, totals, function, choices)
                &&& path_end(program, func.entry_point as int, choices) == statement
                &&& offsets[statement] == Some(
                    path_sum(program, registry, totals, function, choices) as usize,
                )
                &&& path_sum(program, registry, totals, function, choices) <= usize::MAX
            };
        path_stable(program, registry, totals, new_totals, function, choices);
    }
    assert(program.in_body(function, func.entry_point as int));
    if no_return_reached(new_offsets, program, function) {
        assert forall|statement: int|
            func.entry_point <= statement < func.end && program.statements@[statement] is Return implies (
        #[trigger] offsets[statement]) is None by {
            assert(program.in_body(function, statement));
            assert(new_offsets[statement] is None);
        }
    }
}

/// Whether, of the functions whose change is known, each comes after the
/// functions that it calls, whose changes are known too, and has a place
/// below `bound`.
pub open spec fn ordered_so_far(
    program: &IrProgram,
    registry: &Registry,
    totals: Seq<Option<usize>>,
    rank: Seq<nat>,
    bound: int,
) -> bool {
    &&& rank.len() == program.funcs@.len()
    &&& totals.len() == program.funcs@.len()
    &&& forall|function: int|
        0 <= function < totals.len() && totals[function] is Some ==> #[trigger] rank[function]
            < bound
    &&& forall|function: int, statement: int, branch: int|
        #![trigger program.in_body(function, statement), program.branch_signature(registry, statement, branch)]
        program.in_body(function, statement) && totals[function] is Some
            && program.statements@[statement] is Invocation && 0 <= branch < program.branch_count(
            statement,
        ) ==> (program.branch_signature(registry, statement, branch).ap_change matches ApChangeRule::FunctionCall(
            callee,
        ) ==> callee < rank.len() && totals[callee as int] is Some && rank[callee as int]
            < rank[function])
}

/// A function that is ready takes its place after the functions whose
/// changes are known.
proof fn ordered_step(
    program: &IrProgram,
    registry: &Registry,
    totals: Seq<Option<usize>>,
    rank: Seq<nat>,
    bound: int,
    function: int,
    total: usize,
)
    requires
        0 <= bound,
        ordered_so_far(program, registry, totals, rank, bound),
        0 <= function < totals.len(),
        totals[function] is None,
        ready(program, registry, totals, function),
    ensures
        ordered_so_far(
            program,
            registry,
            totals.update(function, Some(total)),
            rank.update(function, bound as nat),
            bound + 1,
        ),
{
    let new_totals = totals.update(function, Some(total));
    let new_rank = rank.update(function, bound as nat);
    assert forall|f: int, s: int, b: int|
        #![trigger program.in_body(f, s), program.branch_signature(registry, s, b)]
        program.in_body(f, s) && new_totals[f] is Some && program.statements@[s] is Invocation && 0
            <= b < program.branch_count(s) implies (program.branch_signature(
        registry,
        s,
        b,
    ).ap_change matches ApChangeRule::FunctionCall(callee) ==> callee < new_rank.len()
        && new_totals[callee as int] is Some && new_rank[callee as int] < new_rank[f]) by {
        if let ApChangeRule::FunctionCall(callee) = program.branch_signature(
            registry,
            s,
            b,
        ).ap_change {
            if f == function {
                assert(branch_delta(program.branch_signature(registry, s, b).ap_change, totals) is Some);
                assert(totals[callee as int] is Some);
                assert(rank[callee as int] < bound);
            } else {
                assert(totals[f] is Some);
                assert(totals[callee as int] is Some && rank[callee as int] < rank[f]);
            }
        }
    }
}

/// How many functions have no known change yet.
pub open spec fn unknown_count(totals: Seq<Option<usize>>) -> nat
    decreases totals.len(),
{
    if totals.len() == 0 {
        0
    } else {
        unknown_count(totals.drop_last()) + if totals.last() is None {
            1nat
        } else {
            0nat
        }
    }
}

/// Getting to know one more change leaves one fewer unknown.
proof fn unknown_count_update(totals: Seq<Option<usize>>, function: int, total: usize)
    requires
        0 <= function < totals.len(),
        totals[function] is None,
    ensures
        unknown_count(totals.update(function, Some(total))) + 1 == unknown_count(totals),
    decreases totals.len(),
{
    let updated = totals.update(function, Some(total));
    if function == totals.len() - 1 {
        assert(updated.drop_last() =~= totals.drop_last());
    } else {
        unknown_count_update(totals.drop_last(), function, total);
        assert(updated.drop_last() =~= totals.drop_last().update(function, Some(total)));
    }
}

/// Where nothing is unknown every change is known.
proof fn unknown_count_zero(totals: Seq<Option<usize>>)
    requires
        unknown_count(totals) == 0,
    ensures
        forall|function: int| 0 <= function < totals.len() ==> (#[trigger] totals[function]) is Some,
    decreases totals.len(),
{
    if totals.len() > 0 {
        unknown_count_zero(totals.drop_last());
        assert forall|function: int| 0 <= function < totals.len() implies (
        #[trigger] totals[function]) is Some by {
            if function < totals.len() - 1 {
                assert(totals.drop_last()[function] == totals[function]);
            }
        }
    }
}

/// Whether `info` is valid for the program and holds the changes that are
/// known in `totals`.
pub open spec fn agrees_with(
    totals: Seq<Option<usize>>,
    info: ApChangeInfo,
    program: &IrProgram,
    registry: &Registry,
) -> bool {
    info.valid(program, registry) && extends(totals, info.totals())
}

/// No valid information exists for a program in which two paths disagree.
proof fn two_paths_refute(
    info: ApChangeInfo,
    program: &IrProgram,
    registry: &Registry,
    totals: Seq<Option<usize>>,
    function: int,
    first: Seq<int>,
    second: Seq<int>,
)
    requires
        program.well_formed(registry),
        0 <= function < program.funcs@.len(),
        path_ok(program, registry, totals, function, first),
        path_ok(program, registry, totals, function, second),
        path_sum(program, registry, totals, function, first) != path_sum(
            program,
            registry,
            totals,
            function,
            second,
        ),
        path_end(program, program.funcs@[function].entry_point as int, first) == path_end(
            program,
            program.funcs@[function].entry_point as int,
            second,
        ) || (program.statements@[path_end(
            program,
            program.funcs@[function].entry_point as int,
            first,
        )] is Return && program.statements@[path_end(
            program,
            program.funcs@[function].entry_point as int,
            second,
        )] is Return),
    ensures
        !agrees_with(totals, info, program, registry),
{
    if agrees_with(totals, info, program, registry) {
        let start = program.funcs@[function].entry_point as int;
        path_stable(program, registry, totals, info.totals(), function, first);
        path_stable(program, registry, totals, info.totals(), function, second);
        ap_conservation(&info, program, registry, function, first);
        ap_conservation(&info, program, registry, function, second);
        assert(body_valid(info.offsets@, info.totals(), program, registry, function));
        if path_end(program, start, first) != path_end(program, start, second) {
            assert(return_holds(
                info.offsets@,
                info.totals(),
                function,
                path_end(program, start, first),
            ));
            assert(return_holds(
                info.offsets@,
                info.totals(),
                function,
                path_end(program, start, second),
            ));
        }
    }
}

/// No valid information exists for a program in which a path consumes more
/// than can be held.
proof fn overflow_refutes(
    info: ApChangeInfo,
    program: &IrProgram,
    registry: &Registry,
    totals: Seq<Option<usize>>,
    function: int,
    route: Seq<int>,
)
    requires
        program.well_formed(registry),
        0 <= function < program.funcs@.len(),
        path_ok(program, registry, totals, function, route),
        path_sum(program, registry, totals, function, route) > usize::MAX,
    ensures
        !agrees_with(totals, info, program, registry),
{
    if agrees_with(totals, info, program, registry) {
        path_stable(program, registry, totals, info.totals(), function, route);
        ap_conservation(&info, program, registry, function, route);
    }
}

/// A path to a return tells what a call of the function consumes.
proof fn return_forces(
    info: ApChangeInfo,
    program: &IrProgram,
    registry: &Registry,
    totals: Seq<Option<usize>>,
    function: int,
    route: Seq<int>,
)
    requires
        program.well_formed(registry),
        agrees_with(totals, info, program, registry),
        0 <= function < program.funcs@.len(),
        path_ok(program, registry, totals, function, route),
        program.statements@[path_end(
            program,
            program.funcs@[function].entry_point as int,
            route,
        )] is Return,
    ensures
        info.function_ap_change@[function] == path_sum(program, registry, totals, function, route),
{
    let start = program.funcs@[function].entry_point as int;
    path_stable(program, registry, totals, info.totals(), function, route);
    ap_conservation(&info, program, registry, function, route);
    assert(body_valid(info.offsets@, info.totals(), program, registry, function));
    assert(return_holds(info.offsets@, info.totals(), function, path_end(program, start, route)));
}

/// A call of a function of which no return is reached consumes nothing.
proof fn no_return_forces(
    info: ApChangeInfo,
    offsets: Seq<Option<usize>>,
    totals: Seq<Option<usize>>,
    known: Seq<Option<usize>>,
    program: &IrProgram,
    registry: &Registry,
    function: int,
)
    requires
        program.well_formed(registry),
        agrees_with(totals, info, program, registry),
        0 <= function < program.funcs@.len(),
        extends(totals, known),
        ready(program, registry, totals, function),
        body_valid(offsets, known, program, registry, function),
        no_return_reached(offsets, program, function),
    ensures
        info.function_ap_change@[function] == 0,
{
    let func = program.funcs@[function];
    assert(body_valid(info.offsets@, info.totals(), program, registry, function));
    assert forall|statement: int|
        func.entry_point <= statement < func.end && program.statements@[statement] is Return implies (
    #[trigger] info.offsets@[statement]) is None by {
        if info.offsets@[statement] is Some {
            assert(reached(
                info.offsets@,
                info.totals(),
                program,
                registry,
                function,
                statement,
            ));
            let choices = choose|choices: Seq<int>|
                {
                    &&& #[trigger] path_ok(program, registry, info.totals(), function, choices)
                    &&& path_end(program, func.entry_point as int, choices) == statement
                    &&& info.offsets@[statement] == Some(
                        path_sum(program, registry, info.totals(), function, choices) as usize,
                    )
                    &&& path_sum(program, registry, info.totals(), function, choices)
                        <= usize::MAX
                };
            path_transfer(program, registry, info.totals(), totals, function, choices);
            path_stable(program, registry, totals, known, function, choices);
            conservation(offsets, known, program, registry, function, choices);
            assert(offsets[statement] is None);
        }
    }
    assert(no_return_reached(info.offsets@, program, function));
}

/// Where valid information exists and every function whose change is not
/// known waits for another, every change is known.
proof fn waiting_is_known(
    info: ApChangeInfo,
    program: &IrProgram,
    registry: &Registry,
    totals: Seq<Option<usize>>,
    rank: Seq<nat>,
    function: int,
)
    requires
        program.well_formed(registry),
        agrees_with(totals, info, program, registry),
        call_order(program, registry, rank),
        0 <= function < program.funcs@.len(),
        forall|other: int|
            0 <= other < totals.len() && totals[other] is None ==> !#[trigger] ready(
                program,
                registry,
                totals,
                other,
            ),
    ensures
        totals[function] is Some,
    decreases rank[function],
{
    if totals[function] is None {
        assert(!ready(program, registry, totals, function));
        let (statement, branch) = choose|statement: int, branch: int|
            #![trigger program.branch_signature(registry, statement, branch)]
            program.in_body(function, statement) && program.statements@[statement] is Invocation
                && 0 <= branch < program.branch_count(statement) && !(branch_delta(
                program.branch_signature(registry, statement, branch).ap_change,
                totals,
            ) is Some);
        let rule = program.branch_signature(registry, statement, branch).ap_change;
        assert(ready(program, registry, info.totals(), function));
        assert(branch_delta(rule, info.totals()) is Some);
        program.well_formed_branch(registry, function, statement, branch);
        if let ApChangeRule::FunctionCall(callee) = rule {
            assert(rank[callee as int] < rank[function]);
            waiting_is_known(info, program, registry, totals, rank, callee as int);
        }
    }
}

/// No valid information exists for a program whose functions wait for each other.
proof fn stuck_refutes(
    info: ApChangeInfo,
    program: &IrProgram,
    registry: &Registry,
    totals: Seq<Option<usize>>,
    function: int,
)
    requires
        program.well_formed(registry),
        stuck(program, registry, totals, function),
        info.valid(program, registry) ==> extends(totals, info.totals()),
    ensures
        !info.valid(program, registry),
{
    if info.valid(program, registry) {
        let rank = choose|rank: Seq<nat>| #[trigger] call_order(program, registry, rank);
        waiting_is_known(info, program, registry, totals, rank, function);
    }
}

/// Whether what every outcome in the body of the function consumes is known.
fn is_ready(
    program: &IrProgram,
    registry: &Registry,
    totals: &Vec<Option<usize>>,
    function: usize,
) -> (res: bool)
    requires
        program.well_formed(registry),
        function < program.funcs@.len(),
        totals@.len() == program.funcs@.len(),
    ensures
        res == ready(program, registry, totals@, function as int),
{
    proof {
        program.well_formed_function(registry, function as int);
    }
    let func = &program.funcs[function];
    let mut statement: usize = func.entry_point;
    while statement < func.end
        invariant
            program.well_formed(registry),
            function < program.funcs@.len(),
            *func == program.funcs@[function as int],
            totals@.len() == program.funcs@.len(),
            func.entry_point <= statement <= func.end <= program.statements@.len(),
            forall|s: int, b: int|
                #![trigger program.branch_signature(registry, s, b)]
                func.entry_point <= s < statement && program.statements@[s] is Invocation && 0 <= b
                    < program.branch_count(s) ==> branch_delta(
                    program.branch_signature(registry, s, b).ap_change,
                    totals@,
                ) is Some,
        decreases func.end - statement,
    {
        if let Statement::Invocation(invocation) = &program.statements[statement] {
            proof {
                program.well_formed_statement(registry, function as int, statement as int);
            }
            let signature = program.signature_at(registry, function, statement);
            let mut branch: usize = 0;
            while branch < signature.branches.len()
                invariant
                    program.well_formed(registry),
                    program.in_body(function as int, statement as int),
                    totals@.len() == program.funcs@.len(),
                    program.statements@[statement as int] == Statement::Invocation(*invocation),
                    *signature == program.signature(registry, statement as int),
                    signature.branches@.len() == invocation.branches@.len(),
                    branch <= signature.branches.len(),
                    forall|b: int|
                        #![trigger program.branch_signature(registry, statement as int, b)]
                        0 <= b < branch ==> branch_delta(
                            program.branch_signature(registry, statement as int, b).ap_change,
                            totals@,
                        ) is Some,
                decreases signature.branches.len() - branch,
            {
                let known = match signature.branches[branch].ap_change {
                    ApChangeRule::Known(_) => true,
                    ApChangeRule::FunctionCall(callee) => callee < totals.len()
                        && totals[callee].is_some(),
                    ApChangeRule::Unknown => false,
                };
                if !known {
                    proof {
                        assert(branch_delta(
                            program.branch_signature(
                                registry,
                                statement as int,
                                branch as int,
                            ).ap_change,
                            totals@,
                        ) is None);
                    }
                    return false;
                }
                branch += 1;
            }
        }
        statement += 1;
    }
    true
}

/// Follows the allocation pointer through the body of one function, of
/// which every outcome consumes a known number of cells.
fn track_function(
    program: &IrProgram,
    registry: &Registry,
    totals: &Vec<Option<usize>>,
    function: usize,
    offsets: &mut Vec<Option<usize>>,
) -> (res: Result<usize, ApChangeError>)
    requires
        program.well_formed(registry),
        function < program.funcs@.len(),
        totals@.len() == program.funcs@.len(),
        totals@[function as int] is None,
        old(offsets)@.len() == program.statements@.len(),
        ready(program, registry, totals@, function as int),
        forall|statement: int|
            program.in_body(function as int, statement) ==> old(offsets)@[statement] is None,
    ensures
        final(offsets)@.len() == old(offsets)@.len(),
        forall|statement: int|
            0 <= statement < old(offsets)@.len() && !program.in_body(function as int, statement)
                ==> final(offsets)@[statement] == old(offsets)@[statement],
        match res {
            Ok(total) => body_valid(
                final(offsets)@,
                totals@.update(function as int, Some(total)),
                program,
                registry,
                function as int,
            ),
            Err(ApChangeError::ApTrackingConflict { statement }) => paths_disagree(
                program,
                registry,
                totals@,
                function as int,
                statement as int,
            ),
            Err(ApChangeError::UnboundedApChange { function: unbounded }) => unbounded == function
                && path_overflows(program, registry, totals@, function as int),
        },
        match res {
            Ok(total) => forall|info: ApChangeInfo| #[trigger]
                agrees_with(totals@, info, program, registry) ==> info.function_ap_change@[function as int]
                    == total,
            Err(_) => forall|info: ApChangeInfo|
                !#[trigger] agrees_with(totals@, info, program, registry),
        },
{
    proof {
        program.well_formed_function(registry, function as int);
    }
    let func = &program.funcs[function];
    let entry = func.entry_point;
    let end = func.end;
    offsets.set(entry, Some(0));
    let ghost mut routes: Map<int, Seq<int>> = Map::empty().insert(entry as int, Seq::empty());
    proof {
        assert forall|t: int| entry <= t < end && (#[trigger] offsets@[t]) is Some implies t
            == entry by {
            assert(program.in_body(function as int, t));
        }
    }
    let mut total: Option<usize> = None;
    let ghost mut return_route: Seq<int> = Seq::empty();
    let ghost mut return_at: int = 0;
    let mut statement: usize = entry;
    while statement < end
        invariant
            program.well_formed(registry),
            function < program.funcs@.len(),
            *func == program.funcs@[function as int],
            entry == func.entry_point,
            end == func.end,
            totals@.len() == program.funcs@.len(),
            totals@[function as int] is None,
            ready(program, registry, totals@, function as int),
            entry <= statement <= end <= program.statements@.len(),
            offsets@.len() == program.statements@.len(),
            offsets@.len() == old(offsets)@.len(),
            forall|t: int|
                0 <= t < offsets@.len() && !program.in_body(function as int, t) ==> offsets@[t]
                    == old(offsets)@[t],
            offsets@[entry as int] == Some(0usize),
            forall|t: int|
                entry <= t < end && (#[trigger] offsets@[t]) is Some ==> {
                    &&& routes.contains_key(t)
                    &&& path_ok(program, registry, totals@, function as int, routes[t])
                    &&& path_end(program, entry as int, routes[t]) == t
                    &&& path_sum(program, registry, totals@, function as int, routes[t])
                        == offsets@[t]->0
                },
            forall|t: int, b: int|
                entry <= t < statement && program.statements@[t] is Invocation && 0 <= b
                    < program.branch_count(t) ==> #[trigger] edge_holds(
                    offsets@,
                    totals@,
                    program,
                    registry,
                    t,
                    b,
                ),
            forall|t: int|
                entry <= t < statement && program.statements@[t] is Return && (
                #[trigger] offsets@[t]) is Some ==> total == offsets@[t],
            total matches Some(cells) ==> {
                &&& path_ok(program, registry, totals@, function as int, return_route)
                &&& program.statements@[path_end(program, entry as int, return_route)] is Return
                &&& path_sum(program, registry, totals@, function as int, return_route) == cells
                &&& entry <= return_at < statement
                &&& program.statements@[return_at] is Return
                &&& offsets@[return_at] == Some(cells)
            },
        decreases end - statement,
    {
        if let Some(offset) = offsets[statement] {
            match &program.statements[statement] {
                Statement::Return(_) => {
                    match total {
                        None => {
                            total = Some(offset);
                            proof {
                                return_route = routes[statement as int];
                                return_at = statement as int;
                            }
                        },
                        Some(cells) => {
                            if cells != offset {
                                proof {
                                    let first = return_route;
                                    let second = routes[statement as int];
                                    assert(path_ok(
                                        program,
                                        registry,
                                        totals@,
                                        function as int,
                                        first,
                                    ));
                                    assert(path_ok(
                                        program,
                                        registry,
                                        totals@,
                                        function as int,
                                        second,
                                    ));
                                    assert forall|info: ApChangeInfo|
                                        !#[trigger] agrees_with(
                                            totals@,
                                            info,
                                            program,
                                            registry,
                                        ) by {
                                        two_paths_refute(
                                            info,
                                            program,
                                            registry,
                                            totals@,
                                            function as int,
                                            first,
                                            second,
                                        );
                                    }
                                }
                                return Err(ApChangeError::ApTrackingConflict { statement });
                            }
                        },
                    }
                },
                Statement::Invocation(invocation) => {
                    proof {
                        program.well_formed_statement(registry, function as int, statement as int);
                    }
                    let signature = program.signature_at(registry, function, statement);
                    let mut branch: usize = 0;
                    while branch < invocation.branches.len()
                        invariant
                            program.well_formed(registry),
                            function < program.funcs@.len(),
                            *func == program.funcs@[function as int],
                            entry == func.entry_point,
                            end == func.end,
                            totals@.len() == program.funcs@.len(),
                            totals@[function as int] is None,
                            ready(program, registry, totals@, function as int),
                            entry <= statement < end <= program.statements@.len(),
                            offsets@.len() == program.statements@.len(),
                            offsets@.len() == old(offsets)@.len(),
                            program.statements@[statement as int] == Statement::Invocation(
                                *invocation,
                            ),
                            *signature == program.signature(registry, statement as int),
                            signature.branches@.len() == invocation.branches@.len(),
                            branch <= invocation.branches.len(),
                            offsets@[statement as int] == Some(offset),
                            forall|t: int|
                                0 <= t < offsets@.len() && !program.in_body(function as int, t)
                                    ==> offsets@[t] == old(offsets)@[t],
                            offsets@[entry as int] == Some(0usize),
                            forall|t: int|
                                entry <= t < end && (#[trigger] offsets@[t]) is Some ==> {
                                    &&& routes.contains_key(t)
                                    &&& path_ok(
                                        program,
                                        registry,
                                        totals@,
                                        function as int,
                                        routes[t],
                                    )
                                    &&& path_end(program, entry as int, routes[t]) == t
                                    &&& path_sum(
                                        program,
                                        registry,
                                        totals@,
                                        function as int,
                                        routes[t],
                                    ) == offsets@[t]->0
                                },
                            forall|t: int, b: int|
                                entry <= t < statement && program.statements@[t] is Invocation && 0
                                    <= b < program.branch_count(t) ==> #[trigger] edge_holds(
                                    offsets@,
                                    totals@,
                                    program,
                                    registry,
                                    t,
                                    b,
                                ),
                            forall|b: int|
                                0 <= b < branch ==> #[trigger] edge_holds(
                                    offsets@,
                                    totals@,
                                    program,
                                    registry,
                                    statement as int,
                                    b,
                                ),
                            forall|t: int|
                                entry <= t < statement && program.statements@[t] is Return && (
                                #[trigger] offsets@[t]) is Some ==> total == offsets@[t],
                            total matches Some(cells) ==> {
                                &&& path_ok(
                                    program,
                                    registry,
                                    totals@,
                                    function as int,
                                    return_route,
                                )
                                &&& program.statements@[path_end(
                                    program,
                                    entry as int,
                                    return_route,
                                )] is Return
                                &&& path_sum(
                                    program,
                                    registry,
                                    totals@,
                                    function as int,
                                    return_route,
                                ) == cells
                                &&& entry <= return_at < statement
                                &&& program.statements@[return_at] is Return
                                &&& offsets@[return_at] == Some(cells)
                            },
                        decreases invocation.branches.len() - branch,
                    {
                        proof {
                            program.well_formed_branch(
                                registry,
                                function as int,
                                statement as int,
                                branch as int,
                            );
                            assert(program.in_body(function as int, statement as int));
                            assert(branch_delta(
                                program.branch_signature(
                                    registry,
                                    statement as int,
                                    branch as int,
                                ).ap_change,
                                totals@,
                            ) is Some);
                            path_extend(
                                program,
                                registry,
                                totals@,
                                function as int,
                                routes[statement as int],
                                branch as int,
                            );
                        }
                        let ghost route = routes[statement as int].push(branch as int);
                        let cells = match signature.branches[branch].ap_change {
                            ApChangeRule::Known(cells) => cells,
                            ApChangeRule::FunctionCall(callee) => match totals[callee] {
                                Some(cells) => cells,
                                None => unreached(),
                            },
                            ApChangeRule::Unknown => unreached(),
                        };
                        let reached = match offset.checked_add(cells) {
                            Some(reached) => reached,
                            None => {
                                proof {
                                    assert(path_ok(
                                        program,
                                        registry,
                                        totals@,
                                        function as int,
                                        route,
                                    ));
                                    assert forall|info: ApChangeInfo|
                                        !#[trigger] agrees_with(
                                            totals@,
                                            info,
                                            program,
                                            registry,
                                        ) by {
                                        overflow_refutes(
                                            info,
                                            program,
                                            registry,
                                            totals@,
                                            function as int,
                                            route,
                                        );
                                    }
                                }
                                return Err(ApChangeError::UnboundedApChange { function });
                            },
                        };
                        let target = match invocation.branches[branch] {
                            BranchTarget::Fallthrough => statement + 1,
                            BranchTarget::Statement(index) => index,
                        };
                        assert(target == program.target(statement as int, branch as int));
                        match offsets[target] {
                            None => {
                                let ghost before = offsets@;
                                offsets.set(target, Some(reached));
                                proof {
                                    routes = routes.insert(target as int, route);
                                    assert forall|t: int, b: int|
                                        entry <= t < statement && program.statements@[t] is Invocation
                                            && 0 <= b < program.branch_count(
                                            t,
                                        ) implies #[trigger] edge_holds(
                                        offsets@,
                                        totals@,
                                        program,
                                        registry,
                                        t,
                                        b,
                                    ) by {
                                        program.well_formed_branch(registry, function as int, t, b);
                                        assert(edge_holds(before, totals@, program, registry, t, b));
                                    }
                                    assert forall|b: int| 0 <= b < branch implies #[trigger] edge_holds(
                                        offsets@,
                                        totals@,
                                        program,
                                        registry,
                                        statement as int,
                                        b,
                                    ) by {
                                        program.well_formed_branch(
                                            registry,
                                            function as int,
                                            statement as int,
                                            b,
                                        );
                                        assert(edge_holds(
                                            before,
                                            totals@,
                                            program,
                                            registry,
                                            statement as int,
                                            b,
                                        ));
                                    }
                                }
                            },
                            Some(known) => {
                                if known != reached {
                                    proof {
                                        let first = routes[target as int];
                                        assert(path_ok(
                                            program,
                                            registry,
                                            totals@,
                                            function as int,
                                            first,
                                        ));
                                        assert(path_ok(
                                            program,
                                            registry,
                                            totals@,
                                            function as int,
                                            route,
                                        ));
                                        assert forall|info: ApChangeInfo|
                                            !#[trigger] agrees_with(
                                                totals@,
                                                info,
                                                program,
                                                registry,
                                            ) by {
                                            two_paths_refute(
                                                info,
                                                program,
                                                registry,
                                                totals@,
                                                function as int,
                                                first,
                                                route,
                                            );
                                        }
                                    }
                                    return Err(
                                        ApChangeError::ApTrackingConflict { statement: target },
                                    );
                                }
                            },
                        }
                        assert(edge_holds(
                            offsets@,
                            totals@,
                            program,
                            registry,
                            statement as int,
                            branch as int,
                        ));
                        branch += 1;
                    }
                },
            }
        }
        statement += 1;
    }
    let ghost found = total;
    let total = match total {
        Some(cells) => cells,
        None => 0,
    };
    proof {
        let known = totals@.update(function as int, Some(total));
        if no_return_reached(offsets@, program, function as int) {
            if found is Some {
                assert(offsets@[return_at] is None);
            }
        }
        assert(extends(totals@, known));
        assert forall|t: int, b: int|
            entry <= t < end && program.statements@[t] is Invocation && 0 <= b
                < program.branch_count(t) implies #[trigger] edge_holds(
            offsets@,
            known,
            program,
            registry,
            t,
            b,
        ) by {
            assert(edge_holds(offsets@, totals@, program, registry, t, b));
        }
        assert forall|t: int|
            entry <= t < end && program.statements@[t] is Return implies #[trigger] return_holds(
            offsets@,
            known,
            function as int,
            t,
        ) by {
            if offsets@[t] is Some {
                assert(total == offsets@[t]->0);
            }
        }
        assert forall|t: int| entry <= t < end && offsets@[t] is Some implies #[trigger] reached(
            offsets@,
            known,
            program,
            registry,
            function as int,
            t,
        ) by {
            path_stable(program, registry, totals@, known, function as int, routes[t]);
        }
        assert(body_valid(offsets@, known, program, registry, function as int));
        assert forall|info: ApChangeInfo| #[trigger]
            agrees_with(totals@, info, program, registry) implies info.function_ap_change@[function as int]
            == total by {
            if found is Some {
                return_forces(info, program, registry, totals@, function as int, return_route);
            } else {
                assert(no_return_reached(offsets@, program, function as int));
                no_return_forces(
                    info,
                    offsets@,
                    totals@,
                    known,
                    program,
                    registry,
                    function as int,
                );
            }
        }
    }
    Ok(total)
}

/// Works out the allocation-pointer changes of a program: for each
/// statement its offset from the entry of its function, for each function
/// what a call of it consumes. Callees are worked out before their callers.
pub fn calc_ap_changes(program: &IrProgram, registry: &Registry) -> (res: Result<
    ApChangeInfo,
    ApChangeError,
>)
    requires
        program.well_formed(registry),
    ensures
        res is Err ==> forall|info: ApChangeInfo| !#[trigger] info.valid(program, registry),
        match res {
            Ok(info) => info.valid(program, registry),
            Err(ApChangeError::ApTrackingConflict { statement }) => exists|
                known: WorkedOut,
                function: int,
            |
                0 <= function < program.funcs@.len() && #[trigger] disagree_after(
                    program,
                    registry,
                    known,
                    function,
                    statement as int,
                ),
            Err(ApChangeError::UnboundedApChange { function }) => exists|known: WorkedOut|
                #[trigger] unbounded_after(program, registry, known, function as int),
        },
{
    let count = program.funcs.len();
    let mut totals: Vec<Option<usize>> = Vec::new();
    while totals.len() < count
        invariant
            totals@.len() <= count,
            forall|f: int| 0 <= f < totals@.len() ==> (#[trigger] totals@[f]) is None,
            unknown_count(totals@) == totals@.len(),
        decreases count - totals.len(),
    {
        let ghost before = totals@;
        totals.push(None);
        proof {
            assert(totals@.drop_last() =~= before);
        }
    }
    let mut offsets: Vec<Option<usize>> = Vec::new();
    while offsets.len() < program.statements.len()
        invariant
            offsets@.len() <= program.statements@.len(),
            forall|s: int| 0 <= s < offsets@.len() ==> (#[trigger] offsets@[s]) is None,
        decreases program.statements.len() - offsets.len(),
    {
        offsets.push(None);
    }
    let mut unknown: usize = count;
    let ghost mut rank: Seq<nat> = Seq::new(count as nat, |function: int| 0nat);
    proof {
        assert forall|f: int, s: int|
            0 <= f < count && totals@[f] is None && #[trigger] program.in_body(
                f,
                s,
            ) implies offsets@[s] is None by {
            program.well_formed_function(registry, f);
        }
    }
    while unknown > 0
        invariant
            program.well_formed(registry),
            count == program.funcs@.len(),
            totals@.len() == count,
            offsets@.len() == program.statements@.len(),
            unknown == unknown_count(totals@),
            unknown <= count,
            ordered_so_far(program, registry, totals@, rank, count - unknown),
            forall|info: ApChangeInfo| #[trigger]
                info.valid(program, registry) ==> extends(totals@, info.totals()),
            forall|f: int|
                0 <= f < count && totals@[f] is Some ==> #[trigger] body_valid(
                    offsets@,
                    totals@,
                    program,
                    registry,
                    f,
                ),
            forall|f: int|
                0 <= f < count && totals@[f] is Some ==> #[trigger] ready(
                    program,
                    registry,
                    totals@,
                    f,
                ),
            forall|f: int, s: int|
                0 <= f < count && totals@[f] is None && #[trigger] program.in_body(f, s)
                    ==> offsets@[s] is None,
        decreases unknown,
    {
        let ghost at_start = unknown;
        let ghost totals_at_start = totals@;
        let mut progress = false;
        let mut function: usize = 0;
        while function < count
            invariant
                program.well_formed(registry),
                count == program.funcs@.len(),
                totals@.len() == count,
                offsets@.len() == program.statements@.len(),
                function <= count,
                unknown == unknown_count(totals@),
                unknown <= count,
                ordered_so_far(program, registry, totals@, rank, count - unknown),
                forall|info: ApChangeInfo| #[trigger]
                    info.valid(program, registry) ==> extends(totals@, info.totals()),
                forall|f: int|
                    0 <= f < count && totals@[f] is Some ==> #[trigger] ready(
                        program,
                        registry,
                        totals@,
                        f,
                    ),
                progress ==> unknown < at_start,
                !progress ==> totals@ == totals_at_start && unknown == at_start,
                !progress ==> forall|f: int|
                    0 <= f < function && totals@[f] is None ==> !#[trigger] ready(
                        program,
                        registry,
                        totals@,
                        f,
                    ),
                forall|f: int|
                    0 <= f < count && totals@[f] is Some ==> #[trigger] body_valid(
                        offsets@,
                        totals@,
                        program,
                        registry,
                        f,
                    ),
                forall|f: int, s: int|
                    0 <= f < count && totals@[f] is None && #[trigger] program.in_body(f, s)
                        ==> offsets@[s] is None,
            decreases count - function,
        {
            if totals[function].is_none() && is_ready(program, registry, &totals, function) {
                let ghost offsets_before = offsets@;
                let ghost totals_before = totals@;
                let followed = track_function(program, registry, &totals, function, &mut offsets);
                let total = match followed {
                    Ok(total) => total,
                    Err(error) => {
                        proof {
                            assert forall|info: ApChangeInfo|
                                !#[trigger] info.valid(program, registry) by {
                                if info.valid(program, registry) {
                                    assert(agrees_with(totals@, info, program, registry));
                                }
                            }
                            match error {
                                ApChangeError::ApTrackingConflict { statement } => {
                                    let known = WorkedOut {
                                        totals: totals@,
                                        offsets: offsets_before,
                                        rank,
                                        bound: count - unknown,
                                    };
                                    assert(known.holds(program, registry));
                                    assert(disagree_after(
                                        program,
                                        registry,
                                        known,
                                        function as int,
                                        statement as int,
                                    ));
                                },
                                ApChangeError::UnboundedApChange { function: unbounded_one } => {
                                    let known = WorkedOut {
                                        totals: totals@,
                                        offsets: offsets_before,
                                        rank,
                                        bound: count - unknown,
                                    };
                                    assert(known.holds(program, registry));
                                    assert(unbounded_after(
                                        program,
                                        registry,
                                        known,
                                        unbounded_one as int,
                                    ));
                                    assert(exists|known: WorkedOut| #[trigger]
                                        unbounded_after(
                                            program,
                                            registry,
                                            known,
                                            unbounded_one as int,
                                        ));
                                },
                            }
                        }
                        return Err(error);
                    },
                };
                totals.set(function, Some(total));
                proof {
                    ordered_step(
                        program,
                        registry,
                        totals_before,
                        rank,
                        count - unknown,
                        function as int,
                        total,
                    );
                    rank = rank.update(function as int, (count - unknown) as nat);
                    unknown_count_update(totals_before, function as int, total);
                    assert(extends(totals_before, totals@));
                    assert forall|info: ApChangeInfo| #[trigger]
                        info.valid(program, registry) implies extends(
                        totals@,
                        info.totals(),
                    ) by {
                        assert(agrees_with(totals_before, info, program, registry));
                        assert(info.totals()[function as int] == Some(total));
                    }
                    assert forall|f: int|
                        0 <= f < count && totals@[f] is Some implies #[trigger] ready(
                        program,
                        registry,
                        totals@,
                        f,
                    ) by {
                        ready_stable(program, registry, totals_before, totals@, f);
                    }
                    assert(extends(totals_before, totals@));
                    assert forall|f: int|
                        0 <= f < count && totals@[f] is Some implies #[trigger] body_valid(
                        offsets@,
                        totals@,
                        program,
                        registry,
                        f,
                    ) by {
                        if f != function {
                            assert(body_valid(offsets_before, totals_before, program, registry, f));
                            assert forall|s: int| program.in_body(f, s) implies offsets@[s]
                                == offsets_before[s] by {
                                program.well_formed_function(registry, f);
                                program.well_formed_function(registry, function as int);
                                if f < function {
                                    bodies_ordered(program, registry, f, function as int);
                                } else {
                                    bodies_ordered(program, registry, function as int, f);
                                }
                                assert(!program.in_body(function as int, s));
                                assert(0 <= s < offsets_before.len());
                            }
                            body_valid_stable(
                                program,
                                registry,
                                offsets_before,
                                totals_before,
                                offsets@,
                                totals@,
                                f,
                            );
                        }
                    }
                    assert forall|f: int, s: int|
                        0 <= f < count && totals@[f] is None && #[trigger] program.in_body(
                            f,
                            s,
                        ) implies offsets@[s] is None by {
                        program.well_formed_function(registry, f);
                        program.well_formed_function(registry, function as int);
                        if f < function {
                            bodies_ordered(program, registry, f, function as int);
                        } else {
                            bodies_ordered(program, registry, function as int, f);
                        }
                        assert(!program.in_body(function as int, s));
                        assert(0 <= s < offsets_before.len());
                        assert(totals_before[f] is None);
                        assert(offsets_before[s] is None);
                    }
                }
                unknown = unknown - 1;
                progress = true;
            }
            function += 1;
        }
        if !progress {
            let waiting = first_unknown(&totals);
            let failure = Err(ApChangeError::UnboundedApChange { function: waiting });
            proof {
                assert(stuck(program, registry, totals@, waiting as int));
                let known = WorkedOut {
                    totals: totals@,
                    offsets: offsets@,
                    rank,
                    bound: count - unknown,
                };
                assert(known.holds(program, registry));
                assert(unbounded_after(program, registry, known, waiting as int));
                assert forall|info: ApChangeInfo| !#[trigger] info.valid(program, registry) by {
                    stuck_refutes(info, program, registry, totals@, waiting as int);
                }
                assert(failure is Err);
                assert(failure->Err_0 is UnboundedApChange);
                assert(failure->Err_0->UnboundedApChange_function == waiting);
                assert(exists|known: WorkedOut| #[trigger]
                    unbounded_after(program, registry, known, waiting as int));
            }
            return failure;
        }
    }
    proof {
        unknown_count_zero(totals@);
        assert forall|f: int| 0 <= f < count implies #[trigger] ready(
            program,
            registry,
            totals@,
            f,
        ) by {
            assert(totals@[f] is Some);
        }
    }
    let mut function_ap_change: Vec<usize> = Vec::new();
    let mut function: usize = 0;
    while function < count
        invariant
            function <= count,
            totals@.len() == count,
            ordered_so_far(program, registry, totals@, rank, count as int),
            forall|f: int|
                0 <= f < count ==> #[trigger] ready(program, registry, totals@, f),
            function_ap_change@.len() == function,
            forall|f: int| 0 <= f < count ==> (#[trigger] totals@[f]) is Some,
            forall|f: int|
                0 <= f < function ==> Some(#[trigger] function_ap_change@[f]) == totals@[f],
        decreases count - function,
    {
        match totals[function] {
            Some(total) => function_ap_change.push(total),
            None => function_ap_change.push(0),
        }
        function += 1;
    }
    let info = ApChangeInfo { offsets, function_ap_change };
    proof {
        assert(info.totals() =~= totals@);
        assert(call_order(program, registry, rank));
    }
    Ok(info)
}

/// The first function whose change is not known.
fn first_unknown(totals: &Vec<Option<usize>>) -> (function: usize)
    requires
        unknown_count(totals@) > 0,
    ensures
        function < totals@.len(),
        totals@[function as int] is None,
{
    let mut function: usize = 0;
    while function < totals.len()
        invariant
            function <= totals.len(),
            forall|f: int| 0 <= f < function ==> (#[trigger] totals@[f]) is Some,
            unknown_count(totals@) > 0,
        decreases totals.len() - function,
    {
        if totals[function].is_none() {
            return function;
        }
        function += 1;
    }
    proof {
        all_known_count(totals@);
    }
    0
}

/// Where every change is known, none is unknown.
proof fn all_known_count(totals: Seq<Option<usize>>)
    requires
        forall|function: int| 0 <= function < totals.len() ==> (#[trigger] totals[function]) is Some,
    ensures
        unknown_count(totals) == 0,
    decreases totals.len(),
{
    if totals.len() > 0 {
        assert forall|function: int| 0 <= function < totals.drop_last().len() implies (
        #[trigger] totals.drop_last()[function]) is Some by {
            assert(totals[function] is Some);
        }
        all_known_count(totals.drop_last());
    }
}

/// Whether the effect of every outcome in every body is known but for the
/// changes of the functions it calls, and those functions exist: whether
/// every function is ready once every change is known.
pub open spec fn effects_known(program: &IrProgram, registry: &Registry) -> bool {
    forall|function: int|
        0 <= function < program.funcs@.len() ==> #[trigger] ready(
            program,
            registry,
            all_known(program),
            function,
        )
}

/// Changes of which every one is known: each of them nothing.
pub open spec fn all_known(program: &IrProgram) -> Seq<Option<usize>> {
    Seq::new(program.funcs@.len(), |function: int| Some(0usize))
}

/// Where the functions can be put in an order in which each comes after
/// those it calls, and every effect is known, no function waits for ever.
proof fn waiting_ends(
    program: &IrProgram,
    registry: &Registry,
    totals: Seq<Option<usize>>,
    rank: Seq<nat>,
    function: int,
)
    requires
        call_order(program, registry, rank),
        effects_known(program, registry),
        totals.len() == program.funcs@.len(),
        0 <= function < program.funcs@.len(),
        forall|other: int|
            0 <= other < totals.len() && totals[other] is None ==> !#[trigger] ready(
                program,
                registry,
                totals,
                other,
            ),
    ensures
        totals[function] is Some,
    decreases rank[function],
{
    if totals[function] is None {
        let full = all_known(program);
        assert(!ready(program, registry, totals, function));
        let (statement, branch) = choose|statement: int, branch: int|
            #![trigger program.branch_signature(registry, statement, branch)]
            program.in_body(function, statement) && program.statements@[statement] is Invocation
                && 0 <= branch < program.branch_count(statement) && !(branch_delta(
                program.branch_signature(registry, statement, branch).ap_change,
                totals,
            ) is Some);
        let rule = program.branch_signature(registry, statement, branch).ap_change;
        assert(ready(program, registry, full, function));
        assert(branch_delta(rule, full) is Some);
        if let ApChangeRule::FunctionCall(callee) = rule {
            assert(rank[callee as int] < rank[function]);
            waiting_ends(program, registry, totals, rank, callee as int);
        }
    }
}

/// **Which error comes.** In a program whose functions can be put in an
/// order in which each comes after those it calls, and in which every effect
/// is known, the change of a function is unbounded only where a path in its
/// body consumes more than can be held: every other failure is a conflict.
pub proof fn unbounded_is_overflow(
    program: &IrProgram,
    registry: &Registry,
    rank: Seq<nat>,
    known: WorkedOut,
    function: int,
)
    requires
        call_order(program, registry, rank),
        effects_known(program, registry),
        unbounded_after(program, registry, known, function),
    ensures
        path_overflows(program, registry, known.totals, function),
{
    if stuck(program, registry, known.totals, function) {
        waiting_ends(program, registry, known.totals, rank, function);
    }
}

/// **A function of one statement.** Where the body of a function is one
/// invocation whose single outcome consumes `cells` cells and leads on to a
/// return, the invocation stands at offset zero, the return at `cells`, and a
/// call of the function consumes `cells`.
pub proof fn single_statement_ap(
    info: &ApChangeInfo,
    program: &IrProgram,
    registry: &Registry,
    function: int,
    cells: usize,
)
    requires
        program.well_formed(registry),
        info.valid(program, registry),
        program.single_statement_body(function),
        program.branch_signature(
            registry,
            program.funcs@[function].entry_point as int,
            0,
        ).ap_change == ApChangeRule::Known(cells),
    ensures
        info.offsets@[program.funcs@[function].entry_point as int] == Some(0usize),
        info.offsets@[program.funcs@[function].entry_point + 1] == Some(cells),
        info.function_ap_change@[function] == cells,
{
    let entry = program.funcs@[function].entry_point as int;
    assert(body_valid(info.offsets@, info.totals(), program, registry, function));
    assert(edge_holds(info.offsets@, info.totals(), program, registry, entry, 0));
    assert(return_holds(info.offsets@, info.totals(), function, entry + 1));
}

/// Every statement before the body of the function `upto` lies in the body
/// of a function before it.
proof fn body_before(program: &IrProgram, registry: &Registry, statement: int, upto: int)
    requires
        program.well_formed(registry),
        0 <= upto <= program.funcs@.len(),
        0 <= statement < program.body_start(upto),
    ensures
        exists|function: int| #[trigger] program.in_body(function, statement),
    decreases upto,
{
    if upto > 0 {
        program.well_formed_function(registry, upto - 1);
        if statement >= program.funcs@[upto - 1].entry_point {
            assert(program.in_body(upto - 1, statement));
        } else {
            body_before(program, registry, statement, upto - 1);
        }
    }
}

/// Every statement of a well-formed program lies in the body of a function.
pub proof fn statement_has_body(program: &IrProgram, registry: &Registry, statement: int)
    requires
        program.well_formed(registry),
        0 <= statement < program.statements@.len(),
    ensures
        exists|function: int| #[trigger] program.in_body(function, statement),
{
    program.well_formed_covers(registry);
    body_before(program, registry, statement, program.funcs@.len() as int);
}

/// A path under the changes of one valid piece of information is a path
/// under those of another, and consumes the same.
proof fn path_agree(
    first: &ApChangeInfo,
    second: &ApChangeInfo,
    program: &IrProgram,
    registry: &Registry,
    rank: Seq<nat>,
    function: int,
    choices: Seq<int>,
)
    requires
        program.well_formed(registry),
        first.valid(program, registry),
        second.valid(program, registry),
        call_order(program, registry, rank),
        0 <= function < program.funcs@.len(),
        path_ok(program, registry, first.totals(), function, choices),
    ensures
        path_ok(program, registry, second.totals(), function, choices),
        path_sum(program, registry, second.totals(), function, choices) == path_sum(
            program,
            registry,
            first.totals(),
            function,
            choices,
        ),
    decreases rank[function], 0nat, choices.len(),
{
    if choices.len() > 0 {
        path_agree(first, second, program, registry, rank, function, choices.drop_last());
        let start = program.funcs@[function].entry_point as int;
        let before = path_end(program, start, choices.drop_last());
        let rule = program.branch_signature(registry, before, choices.last()).ap_change;
        if let ApChangeRule::FunctionCall(callee) = rule {
            assert(callee < rank.len() && rank[callee as int] < rank[function]);
            totals_agree(first, second, program, registry, rank, callee as int);
        }
    }
}

/// Two valid pieces of information agree on what a call of a function consumes.
proof fn totals_agree(
    first: &ApChangeInfo,
    second: &ApChangeInfo,
    program: &IrProgram,
    registry: &Registry,
    rank: Seq<nat>,
    function: int,
)
    requires
        program.well_formed(registry),
        first.valid(program, registry),
        second.valid(program, registry),
        call_order(program, registry, rank),
        0 <= function < program.funcs@.len(),
    ensures
        first.function_ap_change@[function] == second.function_ap_change@[function],
    decreases rank[function], 2nat, 0nat,
{
    let func = program.funcs@[function];
    assert(body_valid(first.offsets@, first.totals(), program, registry, function));
    assert(body_valid(second.offsets@, second.totals(), program, registry, function));
    if !no_return_reached(first.offsets@, program, function) {
        let at = choose|at: int|
            func.entry_point <= at < func.end && program.statements@[at] is Return && !((
            #[trigger] first.offsets@[at]) is None);
        same_offset(first, second, program, registry, rank, function, at);
        assert(return_holds(first.offsets@, first.totals(), function, at));
        assert(return_holds(second.offsets@, second.totals(), function, at));
    } else if !no_return_reached(second.offsets@, program, function) {
        let at = choose|at: int|
            func.entry_point <= at < func.end && program.statements@[at] is Return && !((
            #[trigger] second.offsets@[at]) is None);
        same_offset(second, first, program, registry, rank, function, at);
    }
}

/// A statement that has an offset in one valid piece of information has the
/// same offset in another.
proof fn same_offset(
    first: &ApChangeInfo,
    second: &ApChangeInfo,
    program: &IrProgram,
    registry: &Registry,
    rank: Seq<nat>,
    function: int,
    statement: int,
)
    requires
        program.well_formed(registry),
        first.valid(program, registry),
        second.valid(program, registry),
        call_order(program, registry, rank),
        program.in_body(function, statement),
        first.offsets@[statement] is Some,
    ensures
        second.offsets@[statement] == first.offsets@[statement],
    decreases rank[function], 1nat, 0nat,
{
    assert(body_valid(first.offsets@, first.totals(), program, registry, function));
    assert(reached(first.offsets@, first.totals(), program, registry, function, statement));
    let choices = choose|choices: Seq<int>|
        {
            &&& #[trigger] path_ok(program, registry, first.totals(), function, choices)
            &&& path_end(program, program.funcs@[function].entry_point as int, choices)
                == statement
            &&& first.offsets@[statement] == Some(
                path_sum(program, registry, first.totals(), function, choices) as usize,
            )
            &&& path_sum(program, registry, first.totals(), function, choices) <= usize::MAX
        };
    path_agree(first, second, program, registry, rank, function, choices);
    ap_conservation(second, program, registry, function, choices);
}

/// **The allocation-pointer changes of a program are determined.** Two
/// valid pieces of information about one program hold the same offsets and
/// the same changes.
pub proof fn ap_changes_are_unique(
    first: &ApChangeInfo,
    second: &ApChangeInfo,
    program: &IrProgram,
    registry: &Registry,
)
    requires
        program.well_formed(registry),
        first.valid(program, registry),
        second.valid(program, registry),
    ensures
        first.offsets@ == second.offsets@,
        first.function_ap_change@ == second.function_ap_change@,
{
    let rank = choose|rank: Seq<nat>| #[trigger] call_order(program, registry, rank);
    assert forall|function: int|
        0 <= function < program.funcs@.len() implies first.function_ap_change@[function]
        == second.function_ap_change@[function] by {
        totals_agree(first, second, program, registry, rank, function);
    }
    assert(first.function_ap_change@ =~= second.function_ap_change@);
    assert forall|statement: int|
        0 <= statement < program.statements@.len() implies first.offsets@[statement]
        == second.offsets@[statement] by {
        statement_has_body(program, registry, statement);
        let function = choose|function: int| #[trigger] program.in_body(function, statement);
        if first.offsets@[statement] is Some {
            same_offset(first, second, program, registry, rank, function, statement);
        } else if second.offsets@[statement] is Some {
            same_offset(second, first, program, registry, rank, function, statement);
        }
    }
    assert(first.offsets@ =~= second.offsets@);
}

} // verus!
