use contract_index::errors::StoreError;
use contract_index::functions::ContractFunction;
use contract_index::source::{ContractSource, Metadata, PlainContract, SourceFile};
use contract_index::store::Storage;

fn contract(name: &str, code: &str) -> PlainContract {
    let metadata = Metadata {
        contract_name: name.to_string(),
        compiler_version: "v0.8.21".to_string(),
        runs: 200,
        optimization_used: true,
        bytecode_hash: "default".to_string(),
    };
    let source = ContractSource::SingleSolidity(SourceFile {
        name: "main.sol".to_string(),
        content: code.to_string(),
    });
    PlainContract::new(metadata, source)
}

fn row(id: &str) -> ContractFunction {
    ContractFunction {
        id: id.to_string(),
        contract_id: "c".to_string(),
        contract_name: "C".to_string(),
        function_name: "f".to_string(),
        filename: "main.sol".to_string(),
        signature: "f()".to_string(),
        selector: "0x00000000".to_string(),
        source_code: String::new(),
    }
}

#[test]
fn store_many_is_idempotent() {
    let mut st = Storage::new();
    let batch = vec![contract("A", "aa"), contract("B", "bb")];
    let again = vec![contract("A", "aa"), contract("B", "bb")];
    st.store_contracts(batch);
    assert_eq!(st.count_contracts(), 2);
    st.store_contracts(again);
    assert_eq!(st.count_contracts(), 2);
}

#[test]
fn store_many_skips_duplicates_within_batch() {
    let mut st = Storage::new();
    // Same code under different metadata: one entity.
    st.store_contracts(vec![contract("A", "aa"), contract("Other", "aa")]);
    assert_eq!(st.count_contracts(), 1);
}

#[test]
fn store_contract_reports_duplicate_id() {
    let mut st = Storage::new();
    let c = contract("A", "aa");
    assert!(st.store_contract(&c, None).is_ok());
    assert_eq!(st.store_contract(&c, None), Err(StoreError::DuplicateId));
    assert_eq!(st.count_contracts(), 1);
    assert!(st.store_contract(&c, Some("custom".to_string())).is_ok());
    assert_eq!(st.count_contracts(), 2);
}

#[test]
fn get_contract_by_id() {
    let mut st = Storage::new();
    let a = contract("A", "aa");
    let id = a.id();
    st.store_contracts(vec![a]);
    let found = st.get_contract(&id).expect("stored contract");
    assert_eq!(found.id(), id);
    assert_eq!(found.metadata.contract_name, "A");
    assert!(st.get_contract("missing").is_none());
}

#[test]
fn pagination_visits_every_contract_exactly_once() {
    let mut st = Storage::new();
    let codes = ["a", "b", "c", "d", "e"];
    let mut ids: Vec<String> = Vec::new();
    let mut batch: Vec<PlainContract> = Vec::new();
    for code in codes.iter() {
        let c = contract("C", code);
        ids.push(c.id());
        batch.push(c);
    }
    st.store_contracts(batch);

    let page_size = 2;
    let mut seen: Vec<String> = Vec::new();
    let mut offset = 0;
    loop {
        let page = st.page(offset, page_size);
        if page.is_empty() {
            break;
        }
        for c in page.iter() {
            seen.push(c.id());
        }
        offset += page_size;
    }
    assert_eq!(seen.len(), 5);
    let mut expected = ids.clone();
    expected.sort();
    let mut got = seen.clone();
    got.sort();
    assert_eq!(got, expected);
}

#[test]
fn pagination_empty_store_has_zero_pages() {
    let st = Storage::new();
    assert_eq!(st.count_contracts(), 0);
    assert!(st.page(0, 4).is_empty());
}

#[test]
fn page_windows_are_stable() {
    let mut st = Storage::new();
    st.store_contracts(vec![contract("A", "a"), contract("B", "b"), contract("C", "c")]);
    let w1: Vec<String> = st.page(1, 2).iter().map(|c| c.id()).collect();
    let w2: Vec<String> = st.page(1, 2).iter().map(|c| c.id()).collect();
    assert_eq!(w1, w2);
    assert_eq!(w1.len(), 2);
    assert_eq!(st.page(2, 5).len(), 1);
    assert_eq!(st.page(7, 2).len(), 0);
}

#[test]
fn store_functions_is_idempotent() {
    let mut st = Storage::new();
    let rows = vec![row("r1"), row("r2"), row("r1")];
    st.store_functions(&rows);
    assert_eq!(st.count_functions(), 2);
    st.store_functions(&rows);
    assert_eq!(st.count_functions(), 2);
    // A batch with one new row grows the table by exactly one.
    st.store_functions(&vec![row("r2"), row("r3")]);
    assert_eq!(st.count_functions(), 3);
    // Function inserts leave the contract table untouched.
    assert_eq!(st.count_contracts(), 0);
}
