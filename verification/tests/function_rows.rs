use contract_index::functions::{AbiFunction, ContractFunction, selector_hex};

#[test]
fn selector_rendering_is_fixed_width_lowercase() {
    assert_eq!(selector_hex(0x12345678), "0x12345678");
    assert_eq!(selector_hex(0), "0x00000000");
    assert_eq!(selector_hex(0xdeadbeef), "0xdeadbeef");
    assert_eq!(selector_hex(0x0000002a), "0x0000002a");
}

#[test]
fn from_abi_builds_stable_row() {
    let f = AbiFunction {
        name: "transfer".to_string(),
        signature: "transfer(address,uint256)".to_string(),
        selector: 0x12345678,
    };
    let row = ContractFunction::from_abi(
        "cid".to_string(),
        "f.sol".to_string(),
        "Token".to_string(),
        &f,
        "body".to_string(),
    );
    // The row id is the fingerprint of contract id, file name and selector
    // concatenated.
    assert_eq!(row.id, "9eb73350614be3b6522e45c365f8bf15");
    assert_eq!(row.contract_id, "cid");
    assert_eq!(row.contract_name, "Token");
    assert_eq!(row.function_name, "transfer");
    assert_eq!(row.filename, "f.sol");
    assert_eq!(row.signature, "transfer(address,uint256)");
    assert_eq!(row.selector, "0x12345678");
    assert_eq!(row.source_code, "body");
}

#[test]
fn from_abi_same_inputs_same_id() {
    let f = AbiFunction {
        name: "a".to_string(),
        signature: "a()".to_string(),
        selector: 7,
    };
    let r1 = ContractFunction::from_abi(
        "c".to_string(),
        "x.sol".to_string(),
        "A".to_string(),
        &f.duplicate(),
        String::new(),
    );
    let r2 = ContractFunction::from_abi(
        "c".to_string(),
        "x.sol".to_string(),
        "B".to_string(),
        &f,
        "other".to_string(),
    );
    // The id depends on contract id, file and selector alone: re-indexing
    // the same contract yields the same row id.
    assert_eq!(r1.id, r2.id);
}
