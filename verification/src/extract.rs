//! Recovery of function source text from compiled output.
//!
//! The toolchain's output is modeled as an explicit result value: one
//! compilation can yield several named units, each carrying the compiled
//! contract's name, the source file it came from, optionally its AST, and
//! optionally its ABI.  Given that output and the original source files,
//! the extractor finds the AST node of a function and slices its literal
//! text out of the file content — after applying the same line-ending
//! normalization the toolchain applies before computing byte offsets, or
//! every recovered span would be shifted.
use vstd::prelude::*;

use vstd::utf8::{encode_utf8, valid_utf8};

use crate::ast::{AstNode, function_src_of_nodes, scope_of_nodes, spec_function_src_of_nodes,
    spec_scope_of_nodes};
use crate::errors::ExtractError;
use crate::functions::{AbiFunction, AbiFunctionView, ContractFunction, ContractFunctionView,
    spec_from_abi};
use crate::source::{PlainContract, SourceFile, spec_contract_id};

verus! {

/// The AST the toolchain reports for one unit: the absolute path of the
/// parsed file and the file's top-level nodes.
#[derive(Debug)]
pub struct AstUnit {
    pub absolute_path: String,
    pub nodes: Vec<AstNode>,
}

/// One compilation unit of the toolchain's output.
#[derive(Debug)]
pub struct CompiledUnit {
    /// The contract's name as compiled; one source can yield several.
    pub contract_name: String,
    /// The name of the source file the unit was compiled from, as it
    /// appears among the enumerated source files.
    pub filename: String,
    /// The unit's AST, when the toolchain was asked for one.
    pub ast: Option<AstUnit>,
    /// The unit's ABI: its exported functions, when the toolchain emitted
    /// one.
    pub abi: Option<Vec<AbiFunction>>,
}

/// The compiled output of one contract: its units, and the original
/// (pre-normalization) source files the compilation consumed.
#[derive(Debug)]
pub struct CompiledOutput {
    pub units: Vec<CompiledUnit>,
    pub source_files: Vec<SourceFile>,
}

/// Line-ending normalization: every CR-LF pair becomes one LF, exactly as
/// the toolchain normalizes sources before computing AST byte offsets.
pub open spec fn spec_normalize_crlf(s: Seq<u8>) -> Seq<u8>
    decreases s.len(),
{
    if s.len() == 0 {
        Seq::<u8>::empty()
    } else if s.len() >= 2 && s[0] == 13 && s[1] == 10 {
        seq![10u8] + spec_normalize_crlf(s.skip(2))
    } else {
        seq![s[0]] + spec_normalize_crlf(s.skip(1))
    }
}

/// Replaces every CR-LF pair by one LF.
pub fn normalize_crlf(bytes: &Vec<u8>) -> (r: Vec<u8>)
    ensures
        r@ == spec_normalize_crlf(bytes@),
{
    let mut out: Vec<u8> = Vec::new();
    let mut i: usize = 0;
    proof {
        assert(bytes@.skip(0int) =~= bytes@);
        assert(Seq::<u8>::empty() + spec_normalize_crlf(bytes@) =~= spec_normalize_crlf(bytes@));
    }
    while i < bytes.len()
        invariant
            i <= bytes@.len(),
            spec_normalize_crlf(bytes@) == out@ + spec_normalize_crlf(bytes@.skip(i as int)),
        decreases bytes@.len() - i,
    {
        let ghost tail = bytes@.skip(i as int);
        proof {
            assert(tail[0] == bytes@[i as int]);
            if i + 1 < bytes@.len() {
                assert(tail[1] == bytes@[i + 1]);
            }
        }
        if bytes[i] == 13 && i + 1 < bytes.len() && bytes[i + 1] == 10 {
            out.push(10);
            proof {
                assert(tail.skip(2) =~= bytes@.skip(i + 2));
                assert(spec_normalize_crlf(tail) == seq![10u8] + spec_normalize_crlf(
                    bytes@.skip(i + 2),
                ));
                assert(out@ + spec_normalize_crlf(bytes@.skip(i + 2)) =~= (out@.drop_last()
                    + spec_normalize_crlf(tail)));
                assert(spec_normalize_crlf(bytes@) == out@ + spec_normalize_crlf(
                    bytes@.skip(i + 2),
                ));
            }
            i = i + 2;
        } else {
            let b = bytes[i];
            out.push(b);
            proof {
                assert(tail.skip(1) =~= bytes@.skip(i + 1));
                assert(spec_normalize_crlf(tail) == seq![b] + spec_normalize_crlf(
                    bytes@.skip(i + 1),
                ));
                assert(out@ + spec_normalize_crlf(bytes@.skip(i + 1)) =~= (out@.drop_last()
                    + spec_normalize_crlf(tail)));
                assert(spec_normalize_crlf(bytes@) == out@ + spec_normalize_crlf(
                    bytes@.skip(i + 1),
                ));
            }
            i = i + 1;
        }
    }
    proof {
        assert(bytes@.skip(bytes@.len() as int) =~= Seq::<u8>::empty());
        assert(spec_normalize_crlf(Seq::<u8>::empty()) =~= Seq::<u8>::empty());
        assert(out@ =~= out@ + Seq::<u8>::empty());
    }
    out
}

/// What lossy UTF-8 decoding makes of a byte sequence.
pub uninterp spec fn lossy_decode_of(bytes: Seq<u8>) -> Seq<char>;

/// Relies on `String::from_utf8_lossy`: the decoding is a function of the
/// bytes alone, and valid UTF-8 decodes to exactly the characters whose
/// encoding the bytes are.
#[verifier::external_body]
fn bytes_to_string_lossy(b: &Vec<u8>) -> (r: String)
    ensures
        r@ == lossy_decode_of(b@),
        valid_utf8(b@) ==> b@ == encode_utf8(r@),
{
    String::from_utf8_lossy(b).into_owned()
}

/// Whether a unit was compiled as the named contract.
pub open spec fn spec_unit_matches(u: CompiledUnit, name: Seq<char>) -> bool {
    u.contract_name@ == name
}

/// The index of the first unit compiled as the named contract.
pub open spec fn spec_find_unit(units: Seq<CompiledUnit>, name: Seq<char>) -> Option<int>
    decreases units.len(),
{
    if units.len() == 0 {
        None
    } else if spec_unit_matches(units[0], name) {
        Some(0int)
    } else {
        match spec_find_unit(units.drop_first(), name) {
            Some(j) => Some(j + 1),
            None => None,
        }
    }
}

/// The index of the first source file with the given name.
pub open spec fn spec_find_file(files: Seq<SourceFile>, name: Seq<char>) -> Option<int>
    decreases files.len(),
{
    if files.len() == 0 {
        None
    } else if files[0].name@ == name {
        Some(0int)
    } else {
        match spec_find_file(files.drop_first(), name) {
            Some(j) => Some(j + 1),
            None => None,
        }
    }
}

/// A search that passed the first `i` elements without a match finds, in
/// the whole sequence, whatever it finds in the rest, shifted by `i`.
proof fn lemma_find_unit_skip(units: Seq<CompiledUnit>, name: Seq<char>, i: int)
    requires
        0 <= i <= units.len(),
        forall|k: int| 0 <= k < i ==> !spec_unit_matches(#[trigger] units[k], name),
    ensures
        spec_find_unit(units, name) == match spec_find_unit(units.skip(i), name) {
            Some(j) => Some(j + i),
            None => None::<int>,
        },
    decreases i,
{
    if i == 0 {
        assert(units.skip(0int) =~= units);
    } else {
        assert(!spec_unit_matches(units[0], name));
        assert forall|k: int|
            0 <= k < i - 1 implies !spec_unit_matches(#[trigger] units.drop_first()[k], name) by {
            assert(units.drop_first()[k] == units[k + 1]);
        }
        lemma_find_unit_skip(units.drop_first(), name, i - 1);
        assert(units.drop_first().skip(i - 1) =~= units.skip(i));
    }
}

/// The file search shifted the same way.
proof fn lemma_find_file_skip(files: Seq<SourceFile>, name: Seq<char>, i: int)
    requires
        0 <= i <= files.len(),
        forall|k: int| 0 <= k < i ==> (#[trigger] files[k]).name@ != name,
    ensures
        spec_find_file(files, name) == match spec_find_file(files.skip(i), name) {
            Some(j) => Some(j + i),
            None => None::<int>,
        },
    decreases i,
{
    if i == 0 {
        assert(files.skip(0int) =~= files);
    } else {
        assert forall|k: int|
            0 <= k < i - 1 implies (#[trigger] files.drop_first()[k]).name@ != name by {
            assert(files.drop_first()[k] == files[k + 1]);
        }
        lemma_find_file_skip(files.drop_first(), name, i - 1);
        assert(files.drop_first().skip(i - 1) =~= files.skip(i));
    }
}

/// Finds the first unit compiled as the named contract.
fn find_unit(units: &Vec<CompiledUnit>, name: &str) -> (r: Option<usize>)
    ensures
        r matches Some(i) ==> i < units@.len() && spec_find_unit(units@, name@) == Some(i as int),
        r is None ==> spec_find_unit(units@, name@) is None,
{
    let mut i: usize = 0;
    while i < units.len()
        invariant
            i <= units@.len(),
            forall|k: int| 0 <= k < i ==> !spec_unit_matches(#[trigger] units@[k], name@),
        decreases units@.len() - i,
    {
        if crate::chars::str_eq(units[i].contract_name.as_str(), name) {
            proof {
                lemma_find_unit_skip(units@, name@, i as int);
                assert(units@.skip(i as int)[0] == units@[i as int]);
            }
            return Some(i);
        }
        i = i + 1;
    }
    proof {
        lemma_find_unit_skip(units@, name@, units@.len() as int);
        assert(units@.skip(units@.len() as int) =~= Seq::<CompiledUnit>::empty());
    }
    None
}

/// Finds the first source file with the given name.
fn find_file(files: &Vec<SourceFile>, name: &str) -> (r: Option<usize>)
    ensures
        r matches Some(i) ==> i < files@.len() && spec_find_file(files@, name@) == Some(i as int),
        r is None ==> spec_find_file(files@, name@) is None,
{
    let mut i: usize = 0;
    while i < files.len()
        invariant
            i <= files@.len(),
            forall|k: int| 0 <= k < i ==> (#[trigger] files@[k]).name@ != name@,
        decreases files@.len() - i,
    {
        if crate::chars::str_eq(files[i].name.as_str(), name) {
            proof {
                lemma_find_file_skip(files@, name@, i as int);
                assert(files@.skip(i as int)[0] == files@[i as int]);
            }
            return Some(i);
        }
        i = i + 1;
    }
    proof {
        lemma_find_file_skip(files@, name@, files@.len() as int);
        assert(files@.skip(files@.len() as int) =~= Seq::<SourceFile>::empty());
    }
    None
}

/// The top-level AST nodes of a unit: none when the toolchain reported no
/// AST.
pub open spec fn spec_unit_nodes(u: CompiledUnit) -> Seq<AstNode> {
    match u.ast {
        Some(a) => a.nodes@,
        None => Seq::<AstNode>::empty(),
    }
}

/// The file name recorded on a function row: the absolute path of the
/// unit's AST, or empty without one.
pub open spec fn spec_ast_path(u: CompiledUnit) -> Seq<char> {
    match u.ast {
        Some(a) => a.absolute_path@,
        None => Seq::<char>::empty(),
    }
}

/// What the extraction of one function's source text yields, step by step:
/// the first unit compiled under the contract name (else the contract is
/// not found); the original source file matching that unit's file name
/// (else it is missing); the unit's AST searched for the contract's body
/// and, inside it, for the function's definition node (else the function
/// is not found — inherited functions and synthesized getters end here by
/// design); and the node's byte range sliced out of the normalized file
/// content (a range outside the content is invalid), decoded as text.
pub open spec fn spec_extract_source(
    units: Seq<CompiledUnit>,
    files: Seq<SourceFile>,
    contract_name: Seq<char>,
    function_name: Seq<char>,
) -> Result<Seq<char>, ExtractError> {
    match spec_find_unit(units, contract_name) {
        None => Err(ExtractError::ContractNotFound),
        Some(ui) => match spec_find_file(files, units[ui].filename@) {
            None => Err(ExtractError::SourceFileMissing),
            Some(fi) => {
                let content = spec_normalize_crlf(encode_utf8(files[fi].content@));
                match spec_scope_of_nodes(spec_unit_nodes(units[ui]), contract_name) {
                    None => Err(ExtractError::FunctionNotFound),
                    Some(scope) => match spec_function_src_of_nodes(scope, function_name) {
                        None => Err(ExtractError::FunctionNotFound),
                        Some((start, len)) => if start + len <= content.len() {
                            Ok(lossy_decode_of(content.subrange(start as int, start + len)))
                        } else {
                            Err(ExtractError::InvalidSourceRange)
                        },
                    },
                }
            },
        },
    }
}

/// Recovers the literal source text of one function of one compiled
/// contract, per `spec_extract_source`.
pub fn extract_source_text(
    units: &Vec<CompiledUnit>,
    files: &Vec<SourceFile>,
    contract_name: &str,
    function_name: &str,
) -> (r: Result<String, ExtractError>)
    ensures
        (r is Ok) == (spec_extract_source(units@, files@, contract_name@, function_name@) is Ok),
        r matches Ok(s) ==> spec_extract_source(units@, files@, contract_name@, function_name@)
            matches Ok(m) && s@ == m,
        r matches Err(e) ==> spec_extract_source(units@, files@, contract_name@, function_name@)
            matches Err(e2) && e == e2,
{
    let ui = match find_unit(units, contract_name) {
        Some(i) => i,
        None => {
            return Err(ExtractError::ContractNotFound);
        },
    };
    let unit = &units[ui];
    let fi = match find_file(files, unit.filename.as_str()) {
        Some(j) => j,
        None => {
            return Err(ExtractError::SourceFileMissing);
        },
    };
    let content_bytes = files[fi].content.as_str().as_bytes_vec();
    let normalized = normalize_crlf(&content_bytes);
    let scope = match &unit.ast {
        Some(a) => scope_of_nodes(&a.nodes, contract_name),
        None => {
            proof {
                assert(spec_scope_of_nodes(spec_unit_nodes(units@[ui as int]), contract_name@)
                    is None);
            }
            None
        },
    };
    let scope = match scope {
        Some(s) => s,
        None => {
            return Err(ExtractError::FunctionNotFound);
        },
    };
    let src = match function_src_of_nodes(scope, function_name) {
        Some(p) => p,
        None => {
            return Err(ExtractError::FunctionNotFound);
        },
    };
    let (start, len) = src;
    let n = normalized.len();
    if start > n || len > n - start {
        return Err(ExtractError::InvalidSourceRange);
    }
    let mut slice: Vec<u8> = Vec::new();
    let mut k: usize = start;
    proof {
        assert(slice@ =~= normalized@.subrange(start as int, start as int));
    }
    while k < start + len
        invariant
            start <= k <= start + len,
            start + len <= n,
            n == normalized@.len(),
            slice@ == normalized@.subrange(start as int, k as int),
        decreases start + len - k,
    {
        slice.push(normalized[k]);
        proof {
            assert(normalized@.subrange(start as int, k + 1) =~= normalized@.subrange(
                start as int,
                k as int,
            ).push(normalized@[k as int]));
        }
        k = k + 1;
    }
    Ok(bytes_to_string_lossy(&slice))
}

/// The source text of a function, or empty text when extraction fails:
/// a per-function extraction failure degrades to an empty field, never to
/// an error for the whole contract.
pub open spec fn spec_source_or_empty(
    units: Seq<CompiledUnit>,
    files: Seq<SourceFile>,
    contract_name: Seq<char>,
    function_name: Seq<char>,
) -> Seq<char> {
    match spec_extract_source(units, files, contract_name, function_name) {
        Ok(s) => s,
        Err(_) => Seq::<char>::empty(),
    }
}

/// The function rows one unit contributes: one row per ABI entry, each
/// with the source text recovered through the whole output, or none when
/// the unit carries no ABI.
pub open spec fn spec_unit_rows(
    contract_id: Seq<char>,
    units: Seq<CompiledUnit>,
    files: Seq<SourceFile>,
    u: CompiledUnit,
) -> Seq<ContractFunctionView> {
    match u.abi {
        None => Seq::<ContractFunctionView>::empty(),
        Some(fns) => fns.deep_view().map_values(
            |f: AbiFunctionView| spec_from_abi(
                contract_id,
                spec_ast_path(u),
                u.contract_name@,
                f,
                spec_source_or_empty(units, files, u.contract_name@, f.name),
            ),
        ),
    }
}

/// Every function row of a compiled output: the rows of its units, in unit
/// order.
pub open spec fn spec_extract_functions(
    contract_id: Seq<char>,
    units: Seq<CompiledUnit>,
    files: Seq<SourceFile>,
) -> Seq<ContractFunctionView> {
    units.map_values(|u: CompiledUnit| spec_unit_rows(contract_id, units, files, u)).flatten()
}

impl PlainContract {
    /// Searches the compiled output for the source text of one function of
    /// one named contract, via the unit's AST.
    pub fn source_code_by_contract_and_function_name(
        &self,
        output: &CompiledOutput,
        contract_name: &str,
        function_name: &str,
    ) -> (r: Result<String, ExtractError>)
        ensures
            (r is Ok) == (spec_extract_source(
                output.units@,
                output.source_files@,
                contract_name@,
                function_name@,
            ) is Ok),
            r matches Ok(s) ==> spec_extract_source(
                output.units@,
                output.source_files@,
                contract_name@,
                function_name@,
            ) matches Ok(m) && s@ == m,
            r matches Err(e) ==> spec_extract_source(
                output.units@,
                output.source_files@,
                contract_name@,
                function_name@,
            ) matches Err(e2) && e == e2,
    {
        extract_source_text(&output.units, &output.source_files, contract_name, function_name)
    }

    /// Turns a compiled output into one persisted row per ABI-exposed
    /// function, across every unit of the compilation.  A function whose
    /// source text cannot be recovered gets an empty source field; a unit
    /// without an ABI contributes no rows.
    pub fn extract_functions(&self, output: &CompiledOutput) -> (r: Vec<ContractFunction>)
        ensures
            r.deep_view() == spec_extract_functions(
                spec_contract_id(self@),
                output.units@,
                output.source_files@,
            ),
    {
        let contract_id = self.id();
        let ghost cid = contract_id@;
        let ghost rowfn = |u: CompiledUnit|
            spec_unit_rows(cid, output.units@, output.source_files@, u);
        let mut rows: Vec<ContractFunction> = Vec::new();
        let mut u: usize = 0;
        proof {
            assert(rows.deep_view() =~= output.units@.take(0int).map_values(rowfn).flatten());
        }
        while u < output.units.len()
            invariant
                u <= output.units@.len(),
                cid == spec_contract_id(self@),
                cid == contract_id@,
                rowfn == (|uu: CompiledUnit|
                    spec_unit_rows(cid, output.units@, output.source_files@, uu)),
                rows.deep_view() == output.units@.take(u as int).map_values(rowfn).flatten(),
            decreases output.units@.len() - u,
        {
            let unit = &output.units[u];
            let ghost before = rows.deep_view();
            match &unit.abi {
                None => {
                    proof {
                        assert(rowfn(output.units@[u as int])
                            =~= Seq::<ContractFunctionView>::empty());
                    }
                },
                Some(fns) => {
                    let ghost perfn = |f: AbiFunctionView|
                        spec_from_abi(
                            cid,
                            spec_ast_path(output.units@[u as int]),
                            output.units@[u as int].contract_name@,
                            f,
                            spec_source_or_empty(
                                output.units@,
                                output.source_files@,
                                output.units@[u as int].contract_name@,
                                f.name,
                            ),
                        );
                    let mut f: usize = 0;
                    proof {
                        assert(fns.deep_view().take(0int).map_values(perfn)
                            =~= Seq::<ContractFunctionView>::empty());
                        assert(rows.deep_view() =~= before + fns.deep_view().take(0int).map_values(
                            perfn,
                        ));
                    }
                    while f < fns.len()
                        invariant
                            f <= fns@.len(),
                            cid == spec_contract_id(self@),
                            cid == contract_id@,
                            perfn == (|fv: AbiFunctionView|
                                spec_from_abi(
                                    cid,
                                    spec_ast_path(output.units@[u as int]),
                                    output.units@[u as int].contract_name@,
                                    fv,
                                    spec_source_or_empty(
                                        output.units@,
                                        output.source_files@,
                                        output.units@[u as int].contract_name@,
                                        fv.name,
                                    ),
                                )),
                            u < output.units@.len(),
                            fns@ == (match output.units@[u as int].abi {
                                Some(g) => g@,
                                None => Seq::<AbiFunction>::empty(),
                            }),
                            rows.deep_view() == before + fns.deep_view().take(f as int).map_values(
                                perfn,
                            ),
                        decreases fns@.len() - f,
                    {
                        let iunit = &output.units[u];
                        let entry = &fns[f];
                        let ghost fv = fns.deep_view()[f as int];
                        let source = match extract_source_text(
                            &output.units,
                            &output.source_files,
                            iunit.contract_name.as_str(),
                            entry.name.as_str(),
                        ) {
                            Ok(s) => s,
                            Err(_) => String::new(),
                        };
                        let path = match &iunit.ast {
                            Some(a) => a.absolute_path.clone(),
                            None => String::new(),
                        };
                        proof {
                            assert(entry@ == fv);
                            assert(path@ == spec_ast_path(output.units@[u as int]));
                            assert(source@ == spec_source_or_empty(
                                output.units@,
                                output.source_files@,
                                output.units@[u as int].contract_name@,
                                fv.name,
                            ));
                        }
                        let row = ContractFunction::from_abi(
                            contract_id.clone(),
                            path,
                            iunit.contract_name.clone(),
                            entry,
                            source,
                        );
                        proof {
                            assert(row@ == perfn(fv));
                        }
                        rows.push(row);
                        proof {
                            assert(rows.deep_view() =~= (before + fns.deep_view().take(
                                f as int,
                            ).map_values(perfn)).push(perfn(fv)));
                            assert(fns.deep_view().take(f + 1).map_values(perfn)
                                =~= fns.deep_view().take(f as int).map_values(perfn).push(
                                perfn(fv),
                            ));
                            assert(rows.deep_view() =~= before + fns.deep_view().take(
                                f + 1,
                            ).map_values(perfn));
                        }
                        f = f + 1;
                    }
                    proof {
                        assert(fns.deep_view().take(fns@.len() as int) =~= fns.deep_view());
                        assert(rowfn(output.units@[u as int]) =~= fns.deep_view().map_values(
                            perfn,
                        ));
                    }
                },
            }
            proof {
                let prefix = output.units@.take(u as int).map_values(rowfn);
                assert(rows.deep_view() =~= before + rowfn(output.units@[u as int]));
                prefix.lemma_flatten_push(rowfn(output.units@[u as int]));
                assert(output.units@.take(u + 1).map_values(rowfn) =~= prefix.push(
                    rowfn(output.units@[u as int]),
                ));
                assert(rows.deep_view() =~= output.units@.take(u + 1).map_values(rowfn).flatten());
            }
            u = u + 1;
        }
        proof {
            assert(output.units@.take(output.units@.len() as int) =~= output.units@);
        }
        rows
    }
}

} // verus!
