use contract_index::functions::ContractFunction;
use contract_index::orchestrator::{collect_page, should_compile};
use contract_index::source::{ContractSource, Metadata, PlainContract, SourceFile};

fn row(id: &str) -> ContractFunction {
    ContractFunction {
        id: id.to_string(),
        contract_id: "c".to_string(),
        contract_name: "C".to_string(),
        function_name: "f".to_string(),
        filename: "main.sol".to_string(),
        signature: "f()".to_string(),
        selector: "0x00000000".to_string(),
        source_code: String::new(),
    }
}

fn contract_of(source: ContractSource) -> PlainContract {
    let metadata = Metadata {
        contract_name: "A".to_string(),
        compiler_version: "v0.8.0".to_string(),
        runs: 0,
        optimization_used: false,
        bytecode_hash: String::new(),
    };
    PlainContract::new(metadata, source)
}

fn file(name: &str, content: &str) -> SourceFile {
    SourceFile { name: name.to_string(), content: content.to_string() }
}

#[test]
fn alternate_language_contracts_are_skipped() {
    let vy = contract_of(ContractSource::Vyper(file("main.vy", "# v")));
    assert!(!should_compile(&vy));
    let sol = contract_of(ContractSource::SingleSolidity(file("main.sol", "contract A {}")));
    assert!(should_compile(&sol));
    let json = contract_of(ContractSource::Json(file("contract.json", "{}")));
    assert!(should_compile(&json));
    let multi = contract_of(ContractSource::MultiSolidity(vec![]));
    assert!(should_compile(&multi));
}

#[test]
fn fan_in_same_rows_in_any_delivery_order() {
    // The batches of one page, as delivered with concurrency one ...
    let sequential = vec![
        vec![row("a1"), row("a2")],
        vec![row("b1")],
        vec![],
        vec![row("c1"), row("c2"), row("c3")],
    ];
    // ... and as delivered with concurrency equal to the page size.
    let interleaved = vec![
        vec![row("c1"), row("c2"), row("c3")],
        vec![],
        vec![row("a1"), row("a2")],
        vec![row("b1")],
    ];
    let collected_a = collect_page(&sequential);
    let collected_b = collect_page(&interleaved);
    let mut ids_a: Vec<String> = collected_a.iter().map(|r| r.id.clone()).collect();
    let mut ids_b: Vec<String> = collected_b.iter().map(|r| r.id.clone()).collect();
    assert_eq!(ids_a.len(), 6);
    ids_a.sort();
    ids_b.sort();
    assert_eq!(ids_a, ids_b);
}

#[test]
fn fan_in_keeps_batch_order_within_delivery() {
    let batches = vec![vec![row("x")], vec![row("y"), row("z")]];
    let collected = collect_page(&batches);
    let ids: Vec<String> = collected.iter().map(|r| r.id.clone()).collect();
    assert_eq!(ids, vec!["x".to_string(), "y".to_string(), "z".to_string()]);
}
