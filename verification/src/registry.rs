use vstd::prelude::*;

verus! {

/// A resource that running a program consumes.
#[derive(Clone, Copy, Debug, PartialEq, Eq, Hash, Structural)]
pub enum CostTokenType {
    /// An atomic execution step.
    Step,
    /// A use of the range-check builtin.
    RangeCheck,
    /// A use of the Pedersen-hash builtin.
    Pedersen,
    /// A use of the bitwise builtin.
    Bitwise,
}

/// A cost: for each resource how much of it is consumed. A resource that
/// the cost does not cover stands at zero.
#[derive(Clone, Copy, Debug, PartialEq, Eq, Structural)]
pub struct Cost {
    pub step: i64,
    pub range_check: i64,
    pub pedersen: i64,
    pub bitwise: i64,
}

impl Cost {
    /// How much of the resource the cost holds.
    pub open spec fn of(self, token: CostTokenType) -> int {
        match token {
            CostTokenType::Step => self.step as int,
            CostTokenType::RangeCheck => self.range_check as int,
            CostTokenType::Pedersen => self.pedersen as int,
            CostTokenType::Bitwise => self.bitwise as int,
        }
    }

    /// Whether no resource stands below zero.
    pub open spec fn non_negative(self) -> bool {
        self.step >= 0 && self.range_check >= 0 && self.pedersen >= 0 && self.bitwise >= 0
    }

    /// Whether the resource by resource sum of the two costs can be held.
    pub open spec fn sum_fits(self, other: Cost) -> bool {
        &&& i64::MIN <= self.step + other.step <= i64::MAX
        &&& i64::MIN <= self.range_check + other.range_check <= i64::MAX
        &&& i64::MIN <= self.pedersen + other.pedersen <= i64::MAX
        &&& i64::MIN <= self.bitwise + other.bitwise <= i64::MAX
    }

    /// The sum of the two costs, resource by resource, where it can be held.
    pub open spec fn plus(self, other: Cost) -> Cost {
        Cost {
            step: (self.step + other.step) as i64,
            range_check: (self.range_check + other.range_check) as i64,
            pedersen: (self.pedersen + other.pedersen) as i64,
            bitwise: (self.bitwise + other.bitwise) as i64,
        }
    }

    /// Whether the two costs cover no resource in common: of each resource
    /// at most one of them holds anything.
    pub open spec fn disjoint(self, other: Cost) -> bool {
        &&& self.step == 0 || other.step == 0
        &&& self.range_check == 0 || other.range_check == 0
        &&& self.pedersen == 0 || other.pedersen == 0
        &&& self.bitwise == 0 || other.bitwise == 0
    }

    /// The cost of nothing.
    pub open spec fn spec_zero() -> Cost {
        Cost { step: 0, range_check: 0, pedersen: 0, bitwise: 0 }
    }

    /// The cost of nothing.
    #[verifier::when_used_as_spec(spec_zero)]
    pub fn zero() -> (cost: Cost)
        ensures
            cost == Cost::spec_zero(),
    {
        Cost { step: 0, range_check: 0, pedersen: 0, bitwise: 0 }
    }

    /// How much of the resource the cost holds.
    pub fn get(&self, token: CostTokenType) -> (count: i64)
        ensures
            count == self.of(token),
    {
        match token {
            CostTokenType::Step => self.step,
            CostTokenType::RangeCheck => self.range_check,
            CostTokenType::Pedersen => self.pedersen,
            CostTokenType::Bitwise => self.bitwise,
        }
    }

    /// The first resource that stands below zero, if there is one.
    pub fn first_negative(&self) -> (found: Option<CostTokenType>)
        ensures
            found is None <==> self.non_negative(),
            found matches Some(token) ==> self.of(token) < 0,
    {
        if self.step < 0 {
            Some(CostTokenType::Step)
        } else if self.range_check < 0 {
            Some(CostTokenType::RangeCheck)
        } else if self.pedersen < 0 {
            Some(CostTokenType::Pedersen)
        } else if self.bitwise < 0 {
            Some(CostTokenType::Bitwise)
        } else {
            None
        }
    }

    /// The first resource that both costs cover, if there is one.
    pub fn first_shared(&self, other: &Cost) -> (found: Option<CostTokenType>)
        ensures
            found is None <==> self.disjoint(*other),
            found matches Some(token) ==> self.of(token) != 0 && other.of(token) != 0,
    {
        if self.step != 0 && other.step != 0 {
            Some(CostTokenType::Step)
        } else if self.range_check != 0 && other.range_check != 0 {
            Some(CostTokenType::RangeCheck)
        } else if self.pedersen != 0 && other.pedersen != 0 {
            Some(CostTokenType::Pedersen)
        } else if self.bitwise != 0 && other.bitwise != 0 {
            Some(CostTokenType::Bitwise)
        } else {
            None
        }
    }

    /// The sum of the two costs, resource by resource; `None` where a sum
    /// cannot be held.
    pub fn checked_add(&self, other: &Cost) -> (sum: Option<Cost>)
        ensures
            sum is Some <==> self.sum_fits(*other),
            sum matches Some(total) ==> total == self.plus(*other),
    {
        let step = self.step.checked_add(other.step);
        let range_check = self.range_check.checked_add(other.range_check);
        let pedersen = self.pedersen.checked_add(other.pedersen);
        let bitwise = self.bitwise.checked_add(other.bitwise);
        match (step, range_check, pedersen, bitwise) {
            (Some(step), Some(range_check), Some(pedersen), Some(bitwise)) => Some(
                Cost { step, range_check, pedersen, bitwise },
            ),
            _ => None,
        }
    }
}

/// How an invocation of a library function moves the allocation pointer.
#[derive(Clone, Copy, Debug, PartialEq, Eq, Structural)]
pub enum ApChangeRule {
    /// It consumes exactly so many cells.
    Known(usize),
    /// It consumes what a call of the function with this index consumes.
    FunctionCall(usize),
    /// What it consumes is only known when the program runs.
    Unknown,
}

/// What one outcome of a library function does.
#[derive(Clone, Copy, Debug, PartialEq, Eq, Structural)]
pub struct BranchSignature {
    /// How many variables the outcome produces.
    pub outputs: usize,
    /// How the outcome moves the allocation pointer.
    pub ap_change: ApChangeRule,
    /// What taking this outcome costs, beyond the static cost of the function.
    pub cost: Cost,
}

/// One instruction of the code that a library function becomes, before the
/// addresses of a particular invocation are filled in.
#[derive(Clone, Copy, Debug, PartialEq, Eq, Structural)]
pub enum InstructionTemplate {
    /// Stores a constant in the cell at `dst` cells above the allocation
    /// pointer at the start of the statement.
    StoreImmediate { dst: i16, value: i64 },
    /// Copies the cell at `src` to the cell at `dst`, both counted from the
    /// allocation pointer at the start of the statement.
    Copy { dst: i16, src: i16 },
    /// Stores in `dst` the sum of the cell at `src` and a constant.
    AddImmediate { dst: i16, src: i16, value: i64 },
    /// Jumps to the target of the outcome with this index.
    Jump { branch: usize },
    /// Jumps to the target of the outcome with this index if the cell at
    /// `condition` is not zero.
    JumpNonZero { condition: i16, branch: usize },
    /// Calls the function that the outcome with this index names, or jumps
    /// to the target of the outcome if it names none.
    Call { branch: usize },
}

/// What the registry knows of a library function.
#[derive(Debug, PartialEq, Eq)]
pub struct LibfuncSignature {
    /// The identifier of the library function.
    pub id: u64,
    /// How many type arguments an invocation has to give.
    pub generic_arity: usize,
    /// How many variables an invocation takes.
    pub inputs: usize,
    /// What every invocation costs, whichever outcome it has.
    pub static_cost: Cost,
    /// The outcomes, in the order in which an invocation lists its targets.
    pub branches: Vec<BranchSignature>,
    /// The code that an invocation becomes.
    pub code: Vec<InstructionTemplate>,
    /// The execution hint that comes with the first instruction of the code,
    /// if there is one.
    pub hint: Option<u64>,
}

/// Why the registry does not answer for an invocation.
#[derive(Clone, Copy, Debug, PartialEq, Eq, Structural)]
pub enum RegistryError {
    /// No library function with this identifier is registered.
    UnknownLibfunc { id: u64 },
    /// The invocation gives another number of type arguments than the library
    /// function declares.
    ArityMismatch { id: u64, expected: usize, found: usize },
}

/// The library functions that programs may invoke, with what each costs and
/// does. Where an identifier is registered twice the first entry counts.
#[derive(Debug, PartialEq, Eq)]
pub struct Registry {
    pub libfuncs: Vec<LibfuncSignature>,
}

/// The position of the first library function with the identifier, or the
/// number of library functions if there is none.
pub open spec fn position_of(libfuncs: Seq<LibfuncSignature>, id: u64) -> int
    decreases libfuncs.len(),
{
    if libfuncs.len() == 0 {
        0
    } else if libfuncs[0].id == id {
        0
    } else {
        1 + position_of(libfuncs.drop_first(), id)
    }
}

/// The position is within bounds, names the first entry with the identifier
/// if there is one, and is past the end otherwise.
pub proof fn position_of_is_first(libfuncs: Seq<LibfuncSignature>, id: u64)
    ensures
        0 <= position_of(libfuncs, id) <= libfuncs.len(),
        position_of(libfuncs, id) < libfuncs.len() ==> libfuncs[position_of(libfuncs, id)].id
            == id,
        forall|i: int| 0 <= i < position_of(libfuncs, id) ==> (#[trigger] libfuncs[i]).id != id,
    decreases libfuncs.len(),
{
    if libfuncs.len() > 0 && libfuncs[0].id != id {
        let rest = libfuncs.drop_first();
        position_of_is_first(rest, id);
        assert forall|i: int| 0 <= i < position_of(libfuncs, id) implies (
        #[trigger] libfuncs[i]).id != id by {
            if i > 0 {
                assert(rest[i - 1] == libfuncs[i]);
            }
        }
    }
}

impl Registry {
    /// What the registry answers for an invocation of the library function
    /// `id` with `type_args` type arguments: the position of its signature.
    pub open spec fn resolve(&self, id: u64, type_args: usize) -> Result<int, RegistryError> {
        let position = position_of(self.libfuncs@, id);
        if position >= self.libfuncs@.len() {
            Err(RegistryError::UnknownLibfunc { id })
        } else if self.libfuncs@[position].generic_arity != type_args {
            Err(
                RegistryError::ArityMismatch {
                    id,
                    expected: self.libfuncs@[position].generic_arity,
                    found: type_args,
                },
            )
        } else {
            Ok(position)
        }
    }

    /// The signature of the library function `id`, for an invocation with
    /// `type_args` type arguments.
    pub fn lookup(&self, id: u64, type_args: usize) -> (res: Result<
        &LibfuncSignature,
        RegistryError,
    >)
        ensures
            match (res, self.resolve(id, type_args)) {
                (Ok(signature), Ok(position)) => *signature == self.libfuncs@[position],
                (Err(error), Err(expected)) => error == expected,
                _ => false,
            },
    {
        let mut i: usize = 0;
        proof {
            assert(self.libfuncs@.skip(0) =~= self.libfuncs@);
        }
        while i < self.libfuncs.len()
            invariant
                i <= self.libfuncs.len(),
                position_of(self.libfuncs@, id) == i + position_of(
                    self.libfuncs@.skip(i as int),
                    id,
                ),
            decreases self.libfuncs.len() - i,
        {
            proof {
                assert(self.libfuncs@.skip(i as int).drop_first() =~= self.libfuncs@.skip(i + 1));
            }
            if self.libfuncs[i].id == id {
                let signature = &self.libfuncs[i];
                if signature.generic_arity != type_args {
                    return Err(
                        RegistryError::ArityMismatch {
                            id,
                            expected: signature.generic_arity,
                            found: type_args,
                        },
                    );
                }
                return Ok(signature);
            }
            i += 1;
        }
        Err(RegistryError::UnknownLibfunc { id })
    }
}

} // verus!
