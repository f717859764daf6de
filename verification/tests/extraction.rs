use contract_index::ast::{AstKind, AstNode};
use contract_index::errors::ExtractError;
use contract_index::extract::{AstUnit, CompiledOutput, CompiledUnit, normalize_crlf};
use contract_index::functions::AbiFunction;
use contract_index::source::{ContractSource, Metadata, PlainContract, SourceFile};

fn file(name: &str, content: &str) -> SourceFile {
    SourceFile { name: name.to_string(), content: content.to_string() }
}

fn node(kind: AstKind, name: Option<&str>, start: usize, len: usize, children: Vec<AstNode>) -> AstNode {
    AstNode { kind, name: name.map(|n| n.to_string()), src_start: start, src_len: len, children }
}

fn demo_contract() -> PlainContract {
    let metadata = Metadata {
        contract_name: "Counter".to_string(),
        compiler_version: "v0.8.21".to_string(),
        runs: 200,
        optimization_used: true,
        bytecode_hash: "default".to_string(),
    };
    let source = ContractSource::SingleSolidity(file("main.sol", demo_content_crlf().as_str()));
    PlainContract::new(metadata, source)
}

/// The file content with Windows line endings; AST offsets refer to the
/// normalized (LF) form, as the toolchain computes them.
fn demo_content_crlf() -> String {
    let body =
        "function decrement() public override {\n        count = count.subtract(1);\n    }";
    let lf = format!("contract Counter {{\n    {}\n}}\n", body);
    lf.replace("\n", "\r\n")
}

/// The compiled output a toolchain run over the demo source reports: one
/// unit named `Counter` whose AST locates `decrement` at the normalized
/// byte range computed above, plus an `AdvancedCounter` unit without an
/// AST, as an inheriting unit compiled from the same file.
fn demo_output() -> CompiledOutput {
    let decrement = node(AstKind::FunctionDefinition, Some("decrement"), 23, 79, vec![]);
    let getter_free_body = vec![decrement];
    let counter_def = node(AstKind::ContractDefinition, Some("Counter"), 0, 0, getter_free_body);
    let pragma = node(AstKind::Other, None, 0, 0, vec![]);
    CompiledOutput {
        units: vec![
            CompiledUnit {
                contract_name: "Counter".to_string(),
                filename: "main.sol".to_string(),
                ast: Some(AstUnit {
                    absolute_path: "main.sol".to_string(),
                    nodes: vec![pragma, counter_def],
                }),
                abi: Some(vec![AbiFunction {
                    name: "decrement".to_string(),
                    signature: "decrement()".to_string(),
                    selector: 0x2baeceb7,
                }]),
            },
            CompiledUnit {
                contract_name: "AdvancedCounter".to_string(),
                filename: "main.sol".to_string(),
                ast: None,
                abi: None,
            },
        ],
        source_files: vec![file("main.sol", demo_content_crlf().as_str())],
    }
}

#[test]
fn crlf_normalization() {
    let bytes: Vec<u8> = b"a\r\nb\rc\nd\r\n".to_vec();
    assert_eq!(normalize_crlf(&bytes), b"a\nb\rc\nd\n".to_vec());
    assert_eq!(normalize_crlf(&Vec::new()), Vec::<u8>::new());
}

#[test]
fn compile_and_get_source_by_function() {
    let contract = demo_contract();
    let output = demo_output();

    let source = contract.source_code_by_contract_and_function_name(&output, "Counter", "decrement");
    let expected_found =
        "function decrement() public override {\n        count = count.subtract(1);\n    }";
    assert!(matches!(source, Ok(found) if found == expected_found));

    // A unit without an AST yields a defined not-found error, not a panic
    // and not an empty success.
    let source = contract.source_code_by_contract_and_function_name(
        &output,
        "AdvancedCounter",
        "decrement",
    );
    assert!(matches!(source, Err(_e)));

    // A synthesized getter has no function-definition node.
    let source = contract.source_code_by_contract_and_function_name(&output, "Counter", "count");
    assert!(matches!(source, Err(_e)));
}

#[test]
fn get_source_by_function_exact_text() {
    let metadata = Metadata {
        contract_name: "C2".to_string(),
        compiler_version: "v0.8.21".to_string(),
        runs: 0,
        optimization_used: false,
        bytecode_hash: String::new(),
    };
    let body = "function decrement() public override {\n    count = count.subtract(1);\n}";
    let content = format!("contract C2 {{\n{}\n}}\n", body);
    let contract = PlainContract::new(
        metadata,
        ContractSource::SingleSolidity(file("main.sol", content.as_str())),
    );
    let decrement = node(AstKind::FunctionDefinition, Some("decrement"), 14, 71, vec![]);
    let c2 = node(AstKind::ContractDefinition, Some("C2"), 0, 0, vec![decrement]);
    let output = CompiledOutput {
        units: vec![CompiledUnit {
            contract_name: "C2".to_string(),
            filename: "main.sol".to_string(),
            ast: Some(AstUnit { absolute_path: "main.sol".to_string(), nodes: vec![c2] }),
            abi: None,
        }],
        source_files: vec![file("main.sol", content.as_str())],
    };
    let found = contract
        .source_code_by_contract_and_function_name(&output, "C2", "decrement")
        .expect("function source");
    assert_eq!(found, body);
    // A non-existent function name is a not-found error, not a panic and
    // not an empty success.
    let missing = contract.source_code_by_contract_and_function_name(&output, "C2", "increment");
    assert_eq!(missing.unwrap_err(), ExtractError::FunctionNotFound);
}

#[test]
fn extraction_error_variants() {
    let contract = demo_contract();
    let output = demo_output();

    let err = contract
        .source_code_by_contract_and_function_name(&output, "Nowhere", "decrement")
        .unwrap_err();
    assert_eq!(err, ExtractError::ContractNotFound);

    let err = contract
        .source_code_by_contract_and_function_name(&output, "Counter", "missing")
        .unwrap_err();
    assert_eq!(err, ExtractError::FunctionNotFound);

    let mut no_file = demo_output();
    no_file.source_files.clear();
    let err = contract
        .source_code_by_contract_and_function_name(&no_file, "Counter", "decrement")
        .unwrap_err();
    assert_eq!(err, ExtractError::SourceFileMissing);

    let mut bad_range = demo_output();
    match bad_range.units[0].ast {
        Some(ref mut ast) => match ast.nodes[1].children.get_mut(0) {
            Some(n) => n.src_len = 100000,
            None => panic!("demo shape changed"),
        },
        None => panic!("demo shape changed"),
    }
    let err = contract
        .source_code_by_contract_and_function_name(&bad_range, "Counter", "decrement")
        .unwrap_err();
    assert_eq!(err, ExtractError::InvalidSourceRange);
}

#[test]
fn extract_functions_builds_rows() {
    let contract = demo_contract();
    let output = demo_output();
    let rows = contract.extract_functions(&output);
    // One ABI entry across both units: the AST-less unit has no ABI.
    assert_eq!(rows.len(), 1);
    let row = &rows[0];
    assert_eq!(row.contract_id, contract.id());
    assert_eq!(row.contract_name, "Counter");
    assert_eq!(row.function_name, "decrement");
    assert_eq!(row.filename, "main.sol");
    assert_eq!(row.signature, "decrement()");
    assert_eq!(row.selector, "0x2baeceb7");
    assert_eq!(
        row.source_code,
        "function decrement() public override {\n        count = count.subtract(1);\n    }"
    );
}

#[test]
fn extraction_failure_degrades_to_empty_source() {
    let contract = demo_contract();
    let mut output = demo_output();
    // Take the AST away: every row survives with an empty source field.
    output.units[0].ast = None;
    let rows = contract.extract_functions(&output);
    assert_eq!(rows.len(), 1);
    assert_eq!(rows[0].source_code, "");
    assert_eq!(rows[0].function_name, "decrement");
    // Without an AST the row's file name is empty too.
    assert_eq!(rows[0].filename, "");
}

#[test]
fn sliced_text_decodes_multibyte_characters() {
    let metadata = Metadata {
        contract_name: "U".to_string(),
        compiler_version: "v0.8.21".to_string(),
        runs: 0,
        optimization_used: false,
        bytecode_hash: String::new(),
    };
    // The accented characters take two bytes each; AST ranges are byte
    // ranges, so a range may cover them whole or split them.
    let content = "contract U {\n\u{e9}\u{e9} fn\n}\n";
    let contract = PlainContract::new(
        metadata,
        ContractSource::SingleSolidity(file("main.sol", content)),
    );
    let whole = node(AstKind::FunctionDefinition, Some("f"), 13, 4, vec![]);
    let split = node(AstKind::FunctionDefinition, Some("g"), 14, 2, vec![]);
    let u = node(AstKind::ContractDefinition, Some("U"), 0, 0, vec![whole, split]);
    let output = CompiledOutput {
        units: vec![CompiledUnit {
            contract_name: "U".to_string(),
            filename: "main.sol".to_string(),
            ast: Some(AstUnit { absolute_path: "main.sol".to_string(), nodes: vec![u] }),
            abi: None,
        }],
        source_files: vec![file("main.sol", content)],
    };
    // A range on character boundaries decodes exactly.
    let text = contract
        .source_code_by_contract_and_function_name(&output, "U", "f")
        .expect("whole characters");
    assert_eq!(text, "\u{e9}\u{e9}");
    // A range splitting a character decodes lossily, never panics.
    let text = contract
        .source_code_by_contract_and_function_name(&output, "U", "g")
        .expect("split character");
    assert_eq!(text, "\u{fffd}\u{fffd}");
}
