use contract_index::hashing::{multi_hash, simple_hash};
use contract_index::source::{ContractSource, SourceFile};

fn file(name: &str, content: &str) -> SourceFile {
    SourceFile { name: name.to_string(), content: content.to_string() }
}

#[test]
fn simple_hash_exact_value() {
    assert_eq!(simple_hash("abc"), "900150983cd24fb0d6963f7d28e17f72");
}

#[test]
fn simple_hash_whitespace_invariant() {
    assert_eq!(simple_hash(" a b\tc\n"), simple_hash("abc"));
    assert_eq!(simple_hash("a\r\n  b\u{00a0}c"), simple_hash("abc"));
    assert_ne!(simple_hash("abd"), simple_hash("abc"));
}

#[test]
fn simple_hash_not_identity() {
    // The digest is not the stripped input handed back.
    assert_ne!(simple_hash("abc"), "abc");
    assert_eq!(simple_hash("abc").len(), 32);
}

#[test]
fn multi_hash_exact_value() {
    let contents = vec!["aa".to_string(), "bb".to_string()];
    assert_eq!(multi_hash(&contents), "fde2ab815c2b8d76ae9eded7d367574a");
}

#[test]
fn multi_hash_order_invariant() {
    let ab = vec!["aa".to_string(), "bb".to_string()];
    let ba = vec!["bb".to_string(), "aa".to_string()];
    assert_eq!(multi_hash(&ab), multi_hash(&ba));
}

#[test]
fn source_hash_whitespace_invariant_all_shapes() {
    let tidy = "contract A { uint x; }";
    let messy = "contract\tA {\n    uint x;\n}\n";
    let single_a = ContractSource::SingleSolidity(file("main.sol", tidy));
    let single_b = ContractSource::SingleSolidity(file("main.sol", messy));
    assert_eq!(single_a.hash(), single_b.hash());

    let vyper_a = ContractSource::Vyper(file("main.vy", tidy));
    let vyper_b = ContractSource::Vyper(file("main.vy", messy));
    assert_eq!(vyper_a.hash(), vyper_b.hash());

    let json_a = ContractSource::Json(file("contract.json", tidy));
    let json_b = ContractSource::Json(file("contract.json", messy));
    assert_eq!(json_a.hash(), json_b.hash());

    let multi_a = ContractSource::MultiSolidity(vec![file("a.sol", tidy), file("b.sol", "x")]);
    let multi_b = ContractSource::MultiSolidity(vec![file("a.sol", messy), file("b.sol", " x ")]);
    assert_eq!(multi_a.hash(), multi_b.hash());
}

#[test]
fn source_hash_file_order_invariant() {
    let fwd = ContractSource::MultiSolidity(vec![file("a.sol", "aa"), file("b.sol", "bb")]);
    let rev = ContractSource::MultiSolidity(vec![file("b.sol", "bb"), file("a.sol", "aa")]);
    assert_eq!(fwd.hash(), rev.hash());
    assert_eq!(fwd.hash(), "fde2ab815c2b8d76ae9eded7d367574a");
}

#[test]
fn single_and_multi_hash_differ_in_scheme() {
    // One file hashed as a multi-file source goes through digest
    // concatenation, so it differs from the bare content digest.
    let single = ContractSource::SingleSolidity(file("a.sol", "aa"));
    let multi = ContractSource::MultiSolidity(vec![file("a.sol", "aa")]);
    assert_ne!(single.hash(), multi.hash());
}

#[test]
fn empty_inputs_hash() {
    assert_eq!(simple_hash(""), "d41d8cd98f00b204e9800998ecf8427e");
    assert_eq!(simple_hash(" \t\n"), "d41d8cd98f00b204e9800998ecf8427e");
    // No files: nothing to sort or join, so the combined fingerprint is the
    // fingerprint of empty text.
    assert_eq!(multi_hash(&Vec::new()), "d41d8cd98f00b204e9800998ecf8427e");
}
