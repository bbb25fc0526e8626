use cairo_lang_casm::hints::PythonicHint;
use cairo_lang_sierra::program::Program;
use cairo_lang_sierra_to_casm::compiler::{compile, SierraToCasmConfig};
use cairo_lang_sierra_to_casm::metadata::calc_metadata_ap_change_only;
use cairo_lang_sierra_type_size::ProgramRegistryInfo;
use cairo_toolkit::sierra_compile::{
    finish, parse_sierra_json, Assembled, AssembledProgram, FunctionEntry, SierraCompileError,
};

const PROGRAM: &str = "type felt252 = felt252;

libfunc felt252_const<1> = felt252_const<1>;
libfunc store_temp<felt252> = store_temp<felt252>;

felt252_const<1>() -> ([0]);
store_temp<felt252>([0]) -> ([0]);
return([0]);

main@0() -> (felt252);
";

const ARRAY_PROGRAM: &str = "type felt252 = felt252;
type Array<felt252> = Array<felt252>;

libfunc array_new<felt252> = array_new<felt252>;
libfunc store_temp<Array<felt252>> = store_temp<Array<felt252>>;

array_new<felt252>() -> ([0]);
store_temp<Array<felt252>>([0]) -> ([0]);
return([0]);

main@0() -> (Array<felt252>);
";

fn hints(offsets: &[usize], form: &str) -> Vec<(usize, Vec<String>)> {
    offsets.iter().map(|offset| (*offset, vec![format!("{form} hint at {offset}")])).collect()
}

fn assembled(words: usize, offsets: &[usize]) -> Assembled {
    Assembled {
        bytecode: (0..words).map(|word| word.to_string()).collect(),
        hints: hints(offsets, "structured"),
    }
}

/// Has the Cairo compiler crates generate and assemble the code of a
/// program, and hands what they made to `finish`.
fn compiled(
    text: &str,
    max_bytecode_size: usize,
    add_pythonic_hints: bool,
) -> Result<AssembledProgram, SierraCompileError> {
    let program: Program = cairo_lang_sierra::ProgramParser::new().parse(text).unwrap();
    let info = ProgramRegistryInfo::new(&program).unwrap();
    let metadata = calc_metadata_ap_change_only(&program, &info).unwrap();
    let config = SierraToCasmConfig { gas_usage_check: false, max_bytecode_size: usize::MAX };
    let code = compile(&program, &info, &metadata, config).unwrap();
    let made = code.assemble();
    let assembled = Assembled {
        bytecode: made.bytecode.iter().map(|word| word.to_string()).collect(),
        hints: made
            .hints
            .iter()
            .map(|(at, hints)| (*at, hints.iter().map(|hint| format!("{hint:?}")).collect()))
            .collect(),
    };
    let pythonic_hints = if add_pythonic_hints {
        Some(
            made.hints
                .iter()
                .map(|(at, hints)| {
                    (*at, hints.iter().map(|hint| hint.get_pythonic_hint()).collect())
                })
                .collect(),
        )
    } else {
        None
    };
    let entries: Vec<(u64, usize)> =
        program.funcs.iter().map(|function| (function.id.id, function.entry_point.0)).collect();
    let starts: Vec<usize> =
        code.debug_info.sierra_statement_info.iter().map(|info| info.start_offset).collect();
    finish(assembled, pythonic_hints, &entries, &starts, max_bytecode_size)
}

#[test]
fn a_sierra_program_is_compiled_to_casm() {
    let compiled_program = compiled(PROGRAM, usize::MAX, true).unwrap();
    // [ap + 0] = 1, ap++; ret;
    assert_eq!(
        compiled_program.bytecode,
        vec!["5189976364521848832".to_string(), "1".to_string(), "2345108766317314046".to_string()]
    );
    assert!(compiled_program.hints.is_empty());
    assert_eq!(compiled_program.pythonic_hints, Some(vec![]));
    assert_eq!(compiled_program.entry_points.len(), 1);
    assert_eq!(compiled_program.entry_points[0].offset, 0);
    let plain = compiled(PROGRAM, usize::MAX, false).unwrap();
    assert_eq!(plain.pythonic_hints, None);
    assert_eq!(plain.bytecode, compiled_program.bytecode);
}

#[test]
fn hints_come_in_both_forms() {
    let compiled_program = compiled(ARRAY_PROGRAM, usize::MAX, true).unwrap();
    assert_eq!(compiled_program.hints.len(), 1);
    assert_eq!(compiled_program.hints[0].0, 0);
    assert_eq!(compiled_program.hints[0].1.len(), 1);
    assert!(compiled_program.hints[0].1[0].contains("AllocSegment"));
    assert_eq!(
        compiled_program.pythonic_hints,
        Some(vec![(0, vec!["memory[ap + 0] = segments.add()".to_string()])])
    );
    assert_eq!(compiled_program.entry_points.len(), 1);
    assert_eq!(compiled_program.entry_points[0].offset, 0);
    let plain = compiled(ARRAY_PROGRAM, usize::MAX, false).unwrap();
    assert_eq!(plain.hints, compiled_program.hints);
    assert_eq!(plain.pythonic_hints, None);
}

#[test]
fn a_sierra_program_over_the_size_limit_is_refused() {
    assert_eq!(compiled(PROGRAM, 2, true), Err(SierraCompileError::BytecodeTooLarge));
    assert!(compiled(PROGRAM, 3, true).is_ok());
}

#[test]
fn a_sierra_program_is_read_from_json() {
    let program = cairo_lang_sierra::ProgramParser::new().parse(PROGRAM).unwrap();
    let json = serde_json::to_vec(&program).unwrap();
    let parsed = parse_sierra_json(&json).unwrap();
    assert_eq!(parsed, program);
    assert!(parse_sierra_json(b"fn main() {}").is_none());
    assert!(parse_sierra_json(b"{\"statements\": 3}").is_none());
}

#[test]
fn finish_hands_a_well_formed_program_on() {
    let entries = vec![(7, 0), (9, 2)];
    let starts = vec![0, 2, 3];
    assert_eq!(
        finish(assembled(5, &[0, 3]), Some(hints(&[0, 3], "pythonic")), &entries, &starts, 5),
        Ok(AssembledProgram {
            bytecode: assembled(5, &[]).bytecode,
            hints: hints(&[0, 3], "structured"),
            pythonic_hints: Some(hints(&[0, 3], "pythonic")),
            entry_points: vec![
                FunctionEntry { function: 7, offset: 0 },
                FunctionEntry { function: 9, offset: 3 }
            ],
        })
    );
    let plain = finish(assembled(5, &[0, 3]), None, &entries, &starts, 5).unwrap();
    assert_eq!(plain.hints, hints(&[0, 3], "structured"));
    assert_eq!(plain.pythonic_hints, None);
    let empty = finish(assembled(0, &[]), Some(vec![]), &vec![], &vec![], 0).unwrap();
    assert!(empty.bytecode.is_empty() && empty.entry_points.is_empty());
}

#[test]
fn finish_refuses_a_program_that_is_too_large_or_malformed() {
    let none = vec![];
    let starts = vec![0, 2];
    assert_eq!(
        finish(assembled(5, &[]), None, &none, &starts, 4),
        Err(SierraCompileError::BytecodeTooLarge)
    );
    for offsets in [&[5usize][..], &[3, 3], &[3, 1]] {
        assert_eq!(
            finish(assembled(5, offsets), None, &none, &starts, 5),
            Err(SierraCompileError::Internal)
        );
        assert_eq!(
            finish(assembled(5, &[]), Some(hints(offsets, "pythonic")), &none, &starts, 5),
            Err(SierraCompileError::Internal)
        );
    }
    // A function that begins at a statement without code, or past the code.
    assert_eq!(
        finish(assembled(5, &[]), None, &vec![(1, 2)], &starts, 5),
        Err(SierraCompileError::Internal)
    );
    assert_eq!(
        finish(assembled(2, &[]), None, &vec![(1, 1)], &starts, 5),
        Err(SierraCompileError::Internal)
    );
}
