use vstd::prelude::*;

verus! {

/// A Sierra program, as `cairo_lang_sierra` holds it.
#[verifier::external_type_specification]
#[verifier::external_body]
pub struct ExSierraProgram(cairo_lang_sierra::program::Program);

/// Why assembled code is not handed on.
#[derive(Clone, Copy, Debug, PartialEq, Eq, Structural)]
pub enum SierraCompileError {
    /// The code takes more words than are allowed.
    BytecodeTooLarge,
    /// The assembled program is not well formed: a defect of the compiler.
    Internal,
}

/// Where a function of the program begins in the code.
#[derive(Clone, Copy, Debug, PartialEq, Eq, Structural)]
pub struct FunctionEntry {
    /// The identifier of the function.
    pub function: u64,
    /// The offset, in words, at which the code of the function begins.
    pub offset: usize,
}

/// Assembled CASM code, as plain values.
#[derive(Debug, PartialEq, Eq)]
pub struct Assembled {
    /// The words of the code, each in decimal notation.
    pub bytecode: Vec<String>,
    /// The hints in their structured form, each list with the offset of the
    /// instruction that it goes with.
    pub hints: Vec<(usize, Vec<String>)>,
}

/// A CASM program as it is handed on.
#[derive(Debug, PartialEq, Eq)]
pub struct AssembledProgram {
    /// The words of the code, each in decimal notation.
    pub bytecode: Vec<String>,
    /// The hint table: the hints in their structured form, each list with
    /// the offset of the instruction that it goes with.
    pub hints: Vec<(usize, Vec<String>)>,
    /// The hints in their pythonic, human-readable form, where they are asked for.
    pub pythonic_hints: Option<Vec<(usize, Vec<String>)>>,
    /// Where each function of the program begins, in the order of the functions.
    pub entry_points: Vec<FunctionEntry>,
}

/// The Sierra program that the bytes are the JSON form of: `None` for bytes
/// that are not the JSON form of a program.
pub uninterp spec fn sierra_program_of(bytes: Seq<u8>) -> Option<
    cairo_lang_sierra::program::Program,
>;

/// Reads a Sierra program from its JSON form.
///
/// Calls `serde_json::from_slice` for `cairo_lang_sierra::program::Program`.
/// It reads the bytes and nothing else, so what comes back, a program or
/// none, is given by the bytes alone; nothing more is claimed of the program.
#[verifier::external_body]
fn from_json(bytes: &[u8]) -> (program: Option<cairo_lang_sierra::program::Program>)
    ensures
        program == sierra_program_of(bytes@),
{
    serde_json::from_slice(bytes).ok()
}

/// Reads a Sierra program from its JSON form: the program that the bytes
/// stand for, or `None` for bytes that are not the JSON form of a program.
pub fn parse_sierra_json(bytes: &[u8]) -> (program: Option<cairo_lang_sierra::program::Program>)
    ensures
        program == sierra_program_of(bytes@),
{
    from_json(bytes)
}

/// Whether the hints stand in the order of the code, each at an offset
/// within it, and no offset twice.
pub open spec fn hints_in_order(hints: Seq<(usize, Vec<String>)>, size: int) -> bool {
    &&& forall|i: int| 0 <= i < hints.len() ==> (#[trigger] hints[i]).0 < size
    &&& forall|i: int, j: int|
        0 <= i < j < hints.len() ==> (#[trigger] hints[i]).0 < (#[trigger] hints[j]).0
}

/// Whether every function begins at a statement that has code, within the code.
pub open spec fn entries_in_code(entries: Seq<(u64, usize)>, starts: Seq<usize>, size: int) -> bool {
    forall|i: int|
        0 <= i < entries.len() ==> (#[trigger] entries[i]).1 < starts.len() && starts[entries[i].1 as int]
            < size
}

/// What becomes of an assembled program. One of more words than are allowed
/// is refused. One whose hints are not in the order of the code, or of which
/// a function begins outside the code, is a defect of the compiler. Every
/// other is handed on with its words, its hint table, the pythonic hints that
/// come with it and the entry points of its functions.
pub open spec fn finished(
    assembled: Assembled,
    pythonic_hints: Option<Vec<(usize, Vec<String>)>>,
    entries: Seq<(u64, usize)>,
    starts: Seq<usize>,
    max_bytecode_size: usize,
    res: Result<AssembledProgram, SierraCompileError>,
) -> bool {
    let size = assembled.bytecode@.len() as int;
    if size > max_bytecode_size {
        res == Err::<AssembledProgram, SierraCompileError>(SierraCompileError::BytecodeTooLarge)
    } else if !hints_in_order(assembled.hints@, size) || (pythonic_hints matches Some(hints)
        && !hints_in_order(hints@, size)) || !entries_in_code(entries, starts, size) {
        res == Err::<AssembledProgram, SierraCompileError>(SierraCompileError::Internal)
    } else {
        &&& res matches Ok(program)
        &&& program.bytecode == assembled.bytecode
        &&& program.hints == assembled.hints
        &&& program.pythonic_hints == pythonic_hints
        &&& program.entry_points@.len() == entries.len()
        &&& forall|i: int|
            0 <= i < entries.len() ==> #[trigger] program.entry_points@[i] == (FunctionEntry {
                function: entries[i].0,
                offset: starts[entries[i].1 as int],
            })
    }
}

/// Whether the hints stand in the order of the code, each within it.
fn check_hints(hints: &Vec<(usize, Vec<String>)>, size: usize) -> (ordered: bool)
    ensures
        ordered == hints_in_order(hints@, size as int),
{
    let mut i: usize = 0;
    while i < hints.len()
        invariant
            i <= hints@.len(),
            forall|k: int| 0 <= k < i ==> (#[trigger] hints@[k]).0 < size,
            forall|k: int| 0 < k < i ==> (#[trigger] hints@[k - 1]).0 < hints@[k].0,
        decreases hints.len() - i,
    {
        if hints[i].0 >= size || (i > 0 && hints[i - 1].0 >= hints[i].0) {
            proof {
                if hints@[i as int].0 < size {
                    let before = i - 1;
                    let here = i as int;
                    assert(0 <= before < here < hints@.len() && !(hints@[before].0
                        < hints@[here].0));
                } else {
                    let here = i as int;
                    assert(0 <= here < hints@.len() && !(hints@[here].0 < size));
                }
            }
            return false;
        }
        i += 1;
    }
    proof {
        increasing_is_ordered(hints@);
    }
    true
}

/// Checks an assembled program and hands it on, with the entry points of
/// the functions and the pythonic hints that come with it.
///
/// `entries` holds for each function its identifier and the index of the
/// statement at which it begins, `starts` for each statement the offset at
/// which its code begins.
pub fn finish(
    assembled: Assembled,
    pythonic_hints: Option<Vec<(usize, Vec<String>)>>,
    entries: &Vec<(u64, usize)>,
    starts: &Vec<usize>,
    max_bytecode_size: usize,
) -> (res: Result<AssembledProgram, SierraCompileError>)
    ensures
        finished(assembled, pythonic_hints, entries@, starts@, max_bytecode_size, res),
{
    let size = assembled.bytecode.len();
    if size > max_bytecode_size {
        return Err(SierraCompileError::BytecodeTooLarge);
    }
    if !check_hints(&assembled.hints, size) {
        return Err(SierraCompileError::Internal);
    }
    if let Some(hints) = &pythonic_hints {
        if !check_hints(hints, size) {
            return Err(SierraCompileError::Internal);
        }
    }
    let mut entry_points: Vec<FunctionEntry> = Vec::new();
    let mut i: usize = 0;
    while i < entries.len()
        invariant
            i <= entries@.len(),
            size == assembled.bytecode@.len(),
            size <= max_bytecode_size,
            hints_in_order(assembled.hints@, size as int),
            pythonic_hints matches Some(hints) ==> hints_in_order(hints@, size as int),
            entry_points@.len() == i,
            forall|k: int|
                0 <= k < i ==> (#[trigger] entries@[k]).1 < starts@.len() && starts@[entries@[k].1 as int]
                    < size,
            forall|k: int|
                0 <= k < i ==> #[trigger] entry_points@[k] == (FunctionEntry {
                    function: entries@[k].0,
                    offset: starts@[entries@[k].1 as int],
                }),
        decreases entries.len() - i,
    {
        let (function, statement) = entries[i];
        if statement >= starts.len() || starts[statement] >= size {
            proof {
                let here = i as int;
                assert(!(entries@[here].1 < starts@.len() && starts@[entries@[here].1 as int]
                    < size));
                assert(!entries_in_code(entries@, starts@, size as int));
            }
            return Err(SierraCompileError::Internal);
        }
        entry_points.push(FunctionEntry { function, offset: starts[statement] });
        i += 1;
    }
    Ok(
        AssembledProgram {
            bytecode: assembled.bytecode,
            hints: assembled.hints,
            pythonic_hints,
            entry_points,
        },
    )
}

/// Offsets of which each is larger than the one before it are in order.
proof fn increasing_is_ordered(hints: Seq<(usize, Vec<String>)>)
    requires
        forall|k: int| 0 < k < hints.len() ==> (#[trigger] hints[k - 1]).0 < hints[k].0,
    ensures
        forall|i: int, j: int|
            0 <= i < j < hints.len() ==> (#[trigger] hints[i]).0 < (#[trigger] hints[j]).0,
{
    assert forall|i: int, j: int| 0 <= i < j < hints.len() implies (#[trigger] hints[i]).0 < (
    #[trigger] hints[j]).0 by {
        ordered_between(hints, i, j);
    }
}

proof fn ordered_between(hints: Seq<(usize, Vec<String>)>, i: int, j: int)
    requires
        forall|k: int| 0 < k < hints.len() ==> (#[trigger] hints[k - 1]).0 < hints[k].0,
        0 <= i < j < hints.len(),
    ensures
        hints[i].0 < hints[j].0,
    decreases j - i,
{
    assert(hints[j - 1].0 < hints[j].0);
    if i < j - 1 {
        ordered_between(hints, i, j - 1);
    }
}

} // verus!
