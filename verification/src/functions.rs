//! Function rows extracted from compiled contracts.
//!
//! One `ContractFunction` identifies one ABI-exposed function of one
//! compiled contract.  Its id is derived from the contract id, the file the
//! function was declared in, and its selector, so that re-indexing the same
//! contract yields the same row ids and idempotent storage deduplicates
//! them.
use vstd::prelude::*;

use crate::hashing::{simple_hash, spec_simple_hash};

verus! {

/// One ABI entry of a compiled contract, reduced to what the indexer
/// reads: the function's name, its canonical signature, and its four-byte
/// selector.
#[derive(Debug, Clone)]
pub struct AbiFunction {
    pub name: String,
    pub signature: String,
    pub selector: u32,
}

/// The mathematical view of an ABI entry.
pub struct AbiFunctionView {
    pub name: Seq<char>,
    pub signature: Seq<char>,
    pub selector: u32,
}

impl View for AbiFunction {
    type V = AbiFunctionView;

    open spec fn view(&self) -> AbiFunctionView {
        AbiFunctionView {
            name: self.name@,
            signature: self.signature@,
            selector: self.selector,
        }
    }
}

impl DeepView for AbiFunction {
    type V = AbiFunctionView;

    open spec fn deep_view(&self) -> AbiFunctionView {
        self.view()
    }
}

impl AbiFunction {
    /// An equal copy.
    pub fn duplicate(&self) -> (r: AbiFunction)
        ensures
            r == *self,
    {
        AbiFunction {
            name: self.name.clone(),
            signature: self.signature.clone(),
            selector: self.selector,
        }
    }
}

/// One exported function of one compiled contract, as persisted.
#[derive(Debug, Clone)]
pub struct ContractFunction {
    pub id: String,
    /// The contract id.  A compilation can yield several named contracts
    /// from one source, so several `contract_name`s may share one
    /// `contract_id`.
    pub contract_id: String,
    pub contract_name: String,
    pub function_name: String,
    pub filename: String,
    pub signature: String,
    pub selector: String,
    pub source_code: String,
}

/// The mathematical view of a function row.
pub struct ContractFunctionView {
    pub id: Seq<char>,
    pub contract_id: Seq<char>,
    pub contract_name: Seq<char>,
    pub function_name: Seq<char>,
    pub filename: Seq<char>,
    pub signature: Seq<char>,
    pub selector: Seq<char>,
    pub source_code: Seq<char>,
}

impl View for ContractFunction {
    type V = ContractFunctionView;

    open spec fn view(&self) -> ContractFunctionView {
        ContractFunctionView {
            id: self.id@,
            contract_id: self.contract_id@,
            contract_name: self.contract_name@,
            function_name: self.function_name@,
            filename: self.filename@,
            signature: self.signature@,
            selector: self.selector@,
            source_code: self.source_code@,
        }
    }
}

impl DeepView for ContractFunction {
    type V = ContractFunctionView;

    open spec fn deep_view(&self) -> ContractFunctionView {
        self.view()
    }
}

/// The sixteen lowercase hex digits.
pub open spec fn hex_char(d: int) -> char {
    seq!['0', '1', '2', '3', '4', '5', '6', '7', '8', '9', 'a', 'b', 'c', 'd', 'e', 'f'][d]
}

/// The last `n` hex digits of `v`, most significant first.
pub open spec fn spec_hex_digits(v: nat, n: nat) -> Seq<char>
    decreases n,
{
    if n == 0 {
        Seq::<char>::empty()
    } else {
        spec_hex_digits(v / 16, (n - 1) as nat).push(hex_char((v % 16) as int))
    }
}

/// A selector rendered the way it is persisted: `0x` followed by the eight
/// lowercase hex digits of its four bytes.
pub open spec fn spec_selector_hex(sel: u32) -> Seq<char> {
    seq!['0', 'x'] + spec_hex_digits(sel as nat, 8)
}

/// One lowercase hex digit.
fn hex_char_of(d: u32) -> (r: char)
    requires
        d < 16,
    ensures
        r == hex_char(d as int),
{
    match d {
        0 => '0',
        1 => '1',
        2 => '2',
        3 => '3',
        4 => '4',
        5 => '5',
        6 => '6',
        7 => '7',
        8 => '8',
        9 => '9',
        10 => 'a',
        11 => 'b',
        12 => 'c',
        13 => 'd',
        14 => 'e',
        _ => 'f',
    }
}

/// The last `n` hex digits of `v`, most significant first.
fn hex_digits(v: u32, n: u32) -> (r: Vec<char>)
    ensures
        r@ == spec_hex_digits(v as nat, n as nat),
    decreases n,
{
    if n == 0 {
        let r: Vec<char> = Vec::new();
        proof {
            assert(r@ =~= spec_hex_digits(v as nat, 0));
        }
        r
    } else {
        let mut r = hex_digits(v / 16, n - 1);
        r.push(hex_char_of(v % 16));
        r
    }
}

/// Renders a selector as `0x` plus eight lowercase hex digits.
pub fn selector_hex(sel: u32) -> (r: String)
    ensures
        r@ == spec_selector_hex(sel),
{
    let mut chars: Vec<char> = Vec::new();
    chars.push('0');
    chars.push('x');
    let digits = hex_digits(sel, 8);
    let mut k: usize = 0;
    while k < digits.len()
        invariant
            k <= digits@.len(),
            chars@ == seq!['0', 'x'] + digits@.take(k as int),
        decreases digits@.len() - k,
    {
        chars.push(digits[k]);
        proof {
            assert(seq!['0', 'x'] + digits@.take(k + 1) =~= (seq!['0', 'x'] + digits@.take(
                k as int,
            )).push(digits@[k as int]));
        }
        k = k + 1;
    }
    proof {
        assert(digits@.take(digits@.len() as int) =~= digits@);
    }
    crate::chars::chars_to_string(&chars)
}

/// The row that the ABI entry `f` yields for contract `contract_id`: the
/// selector is rendered in fixed-width hex, and the row id is the
/// fingerprint of contract id, file name and selector concatenated.
pub open spec fn spec_from_abi(
    contract_id: Seq<char>,
    filename: Seq<char>,
    contract_name: Seq<char>,
    f: AbiFunctionView,
    source_code: Seq<char>,
) -> ContractFunctionView {
    ContractFunctionView {
        id: spec_simple_hash(contract_id + filename + spec_selector_hex(f.selector)),
        contract_id: contract_id,
        contract_name: contract_name,
        function_name: f.name,
        filename: filename,
        signature: f.signature,
        selector: spec_selector_hex(f.selector),
        source_code: source_code,
    }
}

impl ContractFunction {
    /// Builds the persisted row for one ABI entry.
    pub fn from_abi(
        contract_id: String,
        filename: String,
        contract_name: String,
        f: &AbiFunction,
        source_code: String,
    ) -> (r: ContractFunction)
        ensures
            r@ == spec_from_abi(contract_id@, filename@, contract_name@, f@, source_code@),
    {
        let selector = selector_hex(f.selector);
        let mut key = String::new();
        key.append(contract_id.as_str());
        key.append(filename.as_str());
        key.append(selector.as_str());
        let id = simple_hash(key.as_str());
        let function_name = f.name.clone();
        let signature = f.signature.clone();
        ContractFunction {
            id,
            contract_id,
            contract_name,
            function_name,
            filename,
            signature,
            selector,
            source_code,
        }
    }

    /// An equal copy.
    pub fn duplicate(&self) -> (r: ContractFunction)
        ensures
            r == *self,
    {
        ContractFunction {
            id: self.id.clone(),
            contract_id: self.contract_id.clone(),
            contract_name: self.contract_name.clone(),
            function_name: self.function_name.clone(),
            filename: self.filename.clone(),
            signature: self.signature.clone(),
            selector: self.selector.clone(),
            source_code: self.source_code.clone(),
        }
    }
}

} // verus!
