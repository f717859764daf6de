use contract_index::chars::trim_version_prefix;
use contract_index::path::{has_solidity_extension, materialize_plan, sanitize_path};
use contract_index::source::SourceFile;

fn file(name: &str, content: &str) -> SourceFile {
    SourceFile { name: name.to_string(), content: content.to_string() }
}

#[test]
fn sanitize_strips_parent_traversal() {
    assert_eq!(sanitize_path("../../etc/passwd"), "etc/passwd");
    assert_eq!(sanitize_path("a/../../b"), "a/b");
    assert_eq!(sanitize_path(".."), "");
}

#[test]
fn sanitize_forces_absolute_to_relative() {
    assert_eq!(sanitize_path("/abs/path"), "abs/path");
    assert_eq!(sanitize_path("//x"), "x");
    assert_eq!(sanitize_path("/"), "");
}

#[test]
fn sanitize_keeps_ordinary_paths() {
    assert_eq!(sanitize_path("contracts/token.sol"), "contracts/token.sol");
    assert_eq!(sanitize_path("a//b/./c"), "a/b/c");
}

#[test]
fn materialize_appends_default_extension() {
    let plan = materialize_plan(&vec![file("Token", "t")]);
    assert_eq!(plan.len(), 1);
    assert_eq!(plan[0].name, "Token.sol");
    assert_eq!(plan[0].content, "t");
}

#[test]
fn materialize_keeps_existing_extension() {
    let plan = materialize_plan(&vec![file("Token.sol", "t"), file("lib/SafeMath.vy", "s")]);
    assert_eq!(plan[0].name, "Token.sol");
    assert_eq!(plan[1].name, "lib/SafeMath.vy");
}

#[test]
fn materialize_respects_sibling_claim() {
    // A sibling already claims `Token.sol`, so the extension-less entry
    // keeps its bare name.
    let plan = materialize_plan(&vec![file("Token", "a"), file("Token.sol", "b")]);
    assert_eq!(plan[0].name, "Token");
    assert_eq!(plan[1].name, "Token.sol");
}

#[test]
fn materialize_sanitizes_every_entry() {
    let plan = materialize_plan(&vec![file("../../etc/passwd.sol", "p"), file("/abs/a.sol", "a")]);
    assert_eq!(plan[0].name, "etc/passwd.sol");
    assert_eq!(plan[1].name, "abs/a.sol");
}

#[test]
fn solidity_extension_check() {
    assert!(has_solidity_extension("a.sol"));
    assert!(has_solidity_extension("dir/b.sol"));
    assert!(!has_solidity_extension("a.vy"));
    assert!(!has_solidity_extension("sol"));
    assert!(!has_solidity_extension(""));
}

#[test]
fn version_prefix_trimming() {
    assert_eq!(trim_version_prefix("v0.8.21+commit"), "0.8.21+commit");
    assert_eq!(trim_version_prefix("0.8.21"), "0.8.21");
    assert_eq!(trim_version_prefix("vv1.0.0"), "1.0.0");
    assert_eq!(trim_version_prefix(""), "");
}

#[test]
fn sanitize_empty_path() {
    assert_eq!(sanitize_path(""), "");
    assert_eq!(sanitize_path("."), "");
    assert_eq!(sanitize_path("./a"), "a");
}
