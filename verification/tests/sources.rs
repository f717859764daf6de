use contract_index::errors::SourceError;
use contract_index::source::{ContractSource, ContractSourceType, Metadata, PlainContract,
    SourceFile, select_source};

fn file(name: &str, content: &str) -> SourceFile {
    SourceFile { name: name.to_string(), content: content.to_string() }
}

#[test]
fn enumerate_single_file_shapes() {
    let single = ContractSource::SingleSolidity(file("main.sol", "contract A {}"));
    let files = single.get_source_files().expect("single file");
    assert_eq!(files.len(), 1);
    assert_eq!(files[0].name, "main.sol");
    assert_eq!(files[0].content, "contract A {}");

    let vyper = ContractSource::Vyper(file("main.vy", "# v"));
    let files = vyper.get_source_files().expect("vyper file");
    assert_eq!(files.len(), 1);
    assert_eq!(files[0].name, "main.vy");
}

#[test]
fn enumerate_multi_file_shape() {
    let multi = ContractSource::MultiSolidity(vec![file("a.sol", "a"), file("b.sol", "b")]);
    let files = multi.get_source_files().expect("multi files");
    assert_eq!(files.len(), 2);
    assert_eq!(files[0].name, "a.sol");
    assert_eq!(files[1].name, "b.sol");
}

#[test]
fn enumerate_embedded_json_sources() {
    let doc = r#"{"name":"A","sources":{"contracts/A.sol":{"content":"contract A {}"},"contracts/B.sol":{"content":"contract B {}"}},"settings":{}}"#;
    let json = ContractSource::Json(file("contract.json", doc));
    let files = json.get_source_files().expect("embedded sources");
    assert_eq!(files.len(), 2);
    // The parser walks the source map in key order.
    assert_eq!(files[0].name, "contracts/A.sol");
    assert_eq!(files[0].content, "contract A {}");
    assert_eq!(files[1].name, "contracts/B.sol");
    assert_eq!(files[1].content, "contract B {}");
}

#[test]
fn malformed_embedded_json_is_hard_error() {
    let not_json = ContractSource::Json(file("contract.json", "not json at all"));
    assert_eq!(not_json.get_source_files().unwrap_err(), SourceError::MalformedDocument);

    let no_sources = ContractSource::Json(file("contract.json", r#"{"name":"A"}"#));
    assert_eq!(no_sources.get_source_files().unwrap_err(), SourceError::MalformedDocument);

    let bad_entry = ContractSource::Json(file("contract.json", r#"{"sources":{"a.sol":{}}}"#));
    assert_eq!(bad_entry.get_source_files().unwrap_err(), SourceError::MalformedDocument);
}

#[test]
fn ingestion_priority_order() {
    let json = Some("{}".to_string());
    let sol = Some("contract A {}".to_string());
    let vy = Some("# v".to_string());
    let multi = vec![file("a.sol", "a")];

    // A structured document always wins, even over loose files.
    let picked = select_source(json.clone(), sol.clone(), vy.clone(), multi.clone());
    assert!(matches!(picked, ContractSource::Json(ref f) if f.name == "contract.json"));

    let picked = select_source(None, sol.clone(), vy.clone(), multi.clone());
    assert!(matches!(picked, ContractSource::SingleSolidity(ref f) if f.name == "main.sol"));

    let picked = select_source(None, None, vy.clone(), multi.clone());
    assert!(matches!(picked, ContractSource::Vyper(ref f) if f.name == "main.vy"));

    let picked = select_source(None, None, None, multi.clone());
    assert!(matches!(picked, ContractSource::MultiSolidity(ref fs) if fs.len() == 1));
}

#[test]
fn source_type_labels() {
    let single = ContractSource::SingleSolidity(file("main.sol", "x"));
    assert_eq!(single.source_type(), ContractSourceType::SingleSolidity);
    assert_eq!(single.source_type().label(), "single_sol");
    let multi = ContractSource::MultiSolidity(vec![]);
    assert_eq!(multi.source_type().label(), "multi_sol");
    let vyper = ContractSource::Vyper(file("main.vy", "x"));
    assert_eq!(vyper.source_type().label(), "vyper");
    let json = ContractSource::Json(file("contract.json", "{}"));
    assert_eq!(json.source_type().label(), "json");
}

#[test]
fn contract_identity_ignores_metadata() {
    let m1 = Metadata {
        contract_name: "A".to_string(),
        compiler_version: "v0.8.0".to_string(),
        runs: 200,
        optimization_used: true,
        bytecode_hash: "h1".to_string(),
    };
    let m2 = Metadata {
        contract_name: "B".to_string(),
        compiler_version: "v0.4.11".to_string(),
        runs: 0,
        optimization_used: false,
        bytecode_hash: "h2".to_string(),
    };
    let c1 = PlainContract::new(m1, ContractSource::SingleSolidity(file("main.sol", "same code")));
    let c2 = PlainContract::new(m2, ContractSource::SingleSolidity(file("main.sol", "same code")));
    assert_eq!(c1.id(), c2.id());
    assert_eq!(c1.hash(), c1.id());
}

#[test]
fn export_plan_names_and_errors() {
    let m = Metadata {
        contract_name: "A".to_string(),
        compiler_version: "v0.8.0".to_string(),
        runs: 0,
        optimization_used: false,
        bytecode_hash: String::new(),
    };
    let multi = ContractSource::MultiSolidity(vec![file("../escape", "x"), file("ok.sol", "y")]);
    let plan = PlainContract::new(m.duplicate(), multi).export_plan().expect("plan");
    assert_eq!(plan[0].name, "escape.sol");
    assert_eq!(plan[1].name, "ok.sol");

    let bad = ContractSource::Json(file("contract.json", "nope"));
    let err = PlainContract::new(m, bad).export_plan().unwrap_err();
    assert_eq!(err, SourceError::MalformedDocument);
}
