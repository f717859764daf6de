//! The contract data model: metadata, source files, and the four ingestible
//! source shapes.
//!
//! A contract's identity is derived from its source content alone — never
//! from its metadata — through the whitespace-insensitive fingerprint of the
//! `hashing` module, so that two archives holding the same code under
//! different names or compiler versions are the same entity.  Every type
//! carries a mathematical view (`@`), and all contracts are stated over
//! those views.
use vstd::prelude::*;

use crate::chars::strip_spaces;
use crate::errors::SourceError;
use crate::hashing::{lemma_multi_hash_order_invariant, multi_hash, seq_views, simple_hash,
    spec_digests, spec_multi_hash, spec_simple_hash};

verus! {

/// One named source file: a relative path and its full text.
#[derive(Debug, Clone)]
pub struct SourceFile {
    pub name: String,
    pub content: String,
}

/// The mathematical view of a source file.
pub struct SourceFileView {
    pub name: Seq<char>,
    pub content: Seq<char>,
}

impl View for SourceFile {
    type V = SourceFileView;

    open spec fn view(&self) -> SourceFileView {
        SourceFileView { name: self.name@, content: self.content@ }
    }
}

impl DeepView for SourceFile {
    type V = SourceFileView;

    open spec fn deep_view(&self) -> SourceFileView {
        self.view()
    }
}

impl SourceFile {
    /// An equal copy.
    pub fn duplicate(&self) -> (r: SourceFile)
        ensures
            r == *self,
    {
        SourceFile { name: self.name.clone(), content: self.content.clone() }
    }
}

/// The archive metadata of a contract, immutable once parsed.
#[derive(Debug, Clone)]
pub struct Metadata {
    pub contract_name: String,
    pub compiler_version: String,
    pub runs: u32,
    pub optimization_used: bool,
    pub bytecode_hash: String,
}

/// The mathematical view of contract metadata.
pub struct MetadataView {
    pub contract_name: Seq<char>,
    pub compiler_version: Seq<char>,
    pub runs: u32,
    pub optimization_used: bool,
    pub bytecode_hash: Seq<char>,
}

impl View for Metadata {
    type V = MetadataView;

    open spec fn view(&self) -> MetadataView {
        MetadataView {
            contract_name: self.contract_name@,
            compiler_version: self.compiler_version@,
            runs: self.runs,
            optimization_used: self.optimization_used,
            bytecode_hash: self.bytecode_hash@,
        }
    }
}

impl Metadata {
    /// An equal copy.
    pub fn duplicate(&self) -> (r: Metadata)
        ensures
            r == *self,
    {
        Metadata {
            contract_name: self.contract_name.clone(),
            compiler_version: self.compiler_version.clone(),
            runs: self.runs,
            optimization_used: self.optimization_used,
            bytecode_hash: self.bytecode_hash.clone(),
        }
    }
}

/// The shape of a contract source, as persisted.
#[derive(Debug, Clone, Copy, PartialEq, Eq, Structural)]
pub enum ContractSourceType {
    SingleSolidity,
    MultiSolidity,
    Vyper,
    Json,
}

impl ContractSourceType {
    /// The fixed text under which this shape is persisted.
    pub fn label(&self) -> (r: &'static str)
        ensures
            *self == ContractSourceType::SingleSolidity ==> r@ == "single_sol"@,
            *self == ContractSourceType::MultiSolidity ==> r@ == "multi_sol"@,
            *self == ContractSourceType::Vyper ==> r@ == "vyper"@,
            *self == ContractSourceType::Json ==> r@ == "json"@,
    {
        match self {
            ContractSourceType::SingleSolidity => "single_sol",
            ContractSourceType::MultiSolidity => "multi_sol",
            ContractSourceType::Vyper => "vyper",
            ContractSourceType::Json => "json",
        }
    }
}

/// The complete source code of a contract, in one of four shapes: a single
/// Solidity file, an ordered collection of Solidity files, a single Vyper
/// file, or a single JSON document embedding a named source map.
#[derive(Debug, Clone)]
pub enum ContractSource {
    SingleSolidity(SourceFile),
    MultiSolidity(Vec<SourceFile>),
    Vyper(SourceFile),
    Json(SourceFile),
}

/// The mathematical view of a contract source.
pub enum ContractSourceView {
    SingleSolidity(SourceFileView),
    MultiSolidity(Seq<SourceFileView>),
    Vyper(SourceFileView),
    Json(SourceFileView),
}

impl View for ContractSource {
    type V = ContractSourceView;

    open spec fn view(&self) -> ContractSourceView {
        match *self {
            ContractSource::SingleSolidity(f) => ContractSourceView::SingleSolidity(f@),
            ContractSource::MultiSolidity(fs) => ContractSourceView::MultiSolidity(fs.deep_view()),
            ContractSource::Vyper(f) => ContractSourceView::Vyper(f@),
            ContractSource::Json(f) => ContractSourceView::Json(f@),
        }
    }
}

/// The contents of a sequence of source files, in order.
pub open spec fn spec_contents(files: Seq<SourceFileView>) -> Seq<Seq<char>> {
    files.map_values(|f: SourceFileView| f.content)
}

/// The name/content pairs of a sequence of source files, in order.
pub open spec fn spec_file_pairs(files: Seq<SourceFileView>) -> Seq<(Seq<char>, Seq<char>)> {
    files.map_values(|f: SourceFileView| (f.name, f.content))
}

/// The identity fingerprint of a multi-file source: the order-insensitive
/// combined fingerprint of the file contents.
pub open spec fn spec_multi_source_hash(files: Seq<SourceFileView>) -> Seq<char> {
    spec_multi_hash(spec_contents(files))
}

/// The identity fingerprint of a contract source.  Single-file shapes are
/// fingerprinted on their content; the multi-file shape combines the
/// per-file fingerprints without regard to file order.
pub open spec fn spec_source_hash(src: ContractSourceView) -> Seq<char> {
    match src {
        ContractSourceView::SingleSolidity(f) => spec_simple_hash(f.content),
        ContractSourceView::MultiSolidity(fs) => spec_multi_source_hash(fs),
        ContractSourceView::Vyper(f) => spec_simple_hash(f.content),
        ContractSourceView::Json(f) => spec_simple_hash(f.content),
    }
}

/// The shape of a source.
pub open spec fn spec_source_type(src: ContractSourceView) -> ContractSourceType {
    match src {
        ContractSourceView::SingleSolidity(_) => ContractSourceType::SingleSolidity,
        ContractSourceView::MultiSolidity(_) => ContractSourceType::MultiSolidity,
        ContractSourceView::Vyper(_) => ContractSourceType::Vyper,
        ContractSourceView::Json(_) => ContractSourceType::Json,
    }
}

/// The named source map that the embedded JSON document of a `Json` source
/// describes: its name/content pairs in document order, or nothing when the
/// document cannot be parsed or lacks the map.
pub uninterp spec fn embedded_sources_of(doc: Seq<char>) -> Option<Seq<(Seq<char>, Seq<char>)>>;

/// Relies on `serde_json`: parses the embedded verification-export document
/// and returns its named sources, or `None` when the document is not JSON,
/// has no `sources` object, or an entry has no `content` text.  The parse is
/// a function of the document text alone, and object members are visited in
/// the parser's deterministic (key-ordered) map order.
#[verifier::external_body]
fn parse_embedded_sources(content: &str) -> (r: Option<Vec<SourceFile>>)
    ensures
        (r is Some) == (embedded_sources_of(content@) is Some),
        r matches Some(files) ==> embedded_sources_of(content@) matches Some(m)
            && spec_file_pairs(files.deep_view()) == m,
{
    let v: serde_json::Value = serde_json::from_str(content).ok()?;
    let obj = v.get("sources")?.as_object()?;
    let mut files: Vec<SourceFile> = Vec::new();
    for (name, entry) in obj {
        let text = entry.get("content")?.as_str()?;
        files.push(SourceFile { name: name.clone(), content: text.to_string() });
    }
    Some(files)
}

/// The enumerated files of a source, as name/content pairs: the file itself
/// for the single-file shapes, the collection for the multi-file shape, and
/// the embedded source map for the JSON shape — whose failure to parse is a
/// malformed archive, not a skip.
pub open spec fn spec_enumerated_pairs(src: ContractSourceView) -> Result<
    Seq<(Seq<char>, Seq<char>)>,
    SourceError,
> {
    match src {
        ContractSourceView::SingleSolidity(f) => Ok(seq![(f.name, f.content)]),
        ContractSourceView::MultiSolidity(fs) => Ok(spec_file_pairs(fs)),
        ContractSourceView::Vyper(f) => Ok(seq![(f.name, f.content)]),
        ContractSourceView::Json(f) => match embedded_sources_of(f.content) {
            Some(m) => Ok(m),
            None => Err(SourceError::MalformedDocument),
        },
    }
}

impl ContractSource {
    /// The identity fingerprint of this source.
    pub fn hash(&self) -> (r: String)
        ensures
            r@ == spec_source_hash(self@),
    {
        match self {
            ContractSource::SingleSolidity(f) => simple_hash(f.content.as_str()),
            ContractSource::Vyper(f) => simple_hash(f.content.as_str()),
            ContractSource::Json(f) => simple_hash(f.content.as_str()),
            ContractSource::MultiSolidity(fs) => {
                let mut contents: Vec<String> = Vec::new();
                let mut i: usize = 0;
                proof {
                    assert(seq_views(contents@) =~= spec_contents(fs.deep_view()).take(0int));
                }
                while i < fs.len()
                    invariant
                        i <= fs@.len(),
                        seq_views(contents@) == spec_contents(fs.deep_view()).take(i as int),
                    decreases fs@.len() - i,
                {
                    let c = fs[i].content.clone();
                    contents.push(c);
                    proof {
                        let all = spec_contents(fs.deep_view());
                        assert(all[i as int] == fs@[i as int]@.content);
                        assert(seq_views(contents@) =~= all.take(i as int).push(all[i as int]));
                        assert(all.take(i + 1) =~= all.take(i as int).push(all[i as int]));
                    }
                    i = i + 1;
                }
                proof {
                    let all = spec_contents(fs.deep_view());
                    assert(all.take(fs@.len() as int) =~= all);
                }
                multi_hash(&contents)
            },
        }
    }

    /// The shape of this source.
    pub fn source_type(&self) -> (t: ContractSourceType)
        ensures
            t == spec_source_type(self@),
    {
        match self {
            ContractSource::SingleSolidity(_) => ContractSourceType::SingleSolidity,
            ContractSource::MultiSolidity(_) => ContractSourceType::MultiSolidity,
            ContractSource::Vyper(_) => ContractSourceType::Vyper,
            ContractSource::Json(_) => ContractSourceType::Json,
        }
    }

    /// The constituent files of this source.  For the JSON shape this parses
    /// the embedded document; a document without a readable source map is a
    /// malformed archive and a hard error.
    pub fn get_source_files(&self) -> (r: Result<Vec<SourceFile>, SourceError>)
        ensures
            (r is Ok) == (spec_enumerated_pairs(self@) is Ok),
            r matches Ok(files) ==> spec_enumerated_pairs(self@) matches Ok(m) && spec_file_pairs(
                files.deep_view(),
            ) == m,
            r matches Err(e) ==> spec_enumerated_pairs(self@) matches Err(e2) && e == e2,
    {
        match self {
            ContractSource::SingleSolidity(f) => {
                let files = vec![f.duplicate()];
                proof {
                    assert(spec_file_pairs(files.deep_view()) =~= seq![(f.name@, f.content@)]);
                }
                Ok(files)
            },
            ContractSource::Vyper(f) => {
                let files = vec![f.duplicate()];
                proof {
                    assert(spec_file_pairs(files.deep_view()) =~= seq![(f.name@, f.content@)]);
                }
                Ok(files)
            },
            ContractSource::MultiSolidity(fs) => {
                let files = duplicate_files(fs);
                proof {
                    assert(files.deep_view() =~= fs.deep_view());
                }
                Ok(files)
            },
            ContractSource::Json(f) => match parse_embedded_sources(f.content.as_str()) {
                Some(files) => Ok(files),
                None => Err(SourceError::MalformedDocument),
            },
        }
    }

    /// A copy with the same view.
    pub fn duplicate(&self) -> (r: ContractSource)
        ensures
            r@ == self@,
    {
        match self {
            ContractSource::SingleSolidity(f) => ContractSource::SingleSolidity(f.duplicate()),
            ContractSource::MultiSolidity(fs) => {
                let files = duplicate_files(fs);
                proof {
                    assert(files.deep_view() =~= fs.deep_view());
                }
                ContractSource::MultiSolidity(files)
            },
            ContractSource::Vyper(f) => ContractSource::Vyper(f.duplicate()),
            ContractSource::Json(f) => ContractSource::Json(f.duplicate()),
        }
    }
}

/// An equal copy of a vector of source files.
pub fn duplicate_files(v: &Vec<SourceFile>) -> (r: Vec<SourceFile>)
    ensures
        r@ == v@,
{
    let mut r: Vec<SourceFile> = Vec::new();
    let mut i: usize = 0;
    while i < v.len()
        invariant
            i <= v@.len(),
            r@ == v@.take(i as int),
        decreases v@.len() - i,
    {
        r.push(v[i].duplicate());
        proof {
            assert(r@ =~= v@.take(i + 1));
        }
        i = i + 1;
    }
    proof {
        assert(v@.take(v@.len() as int) =~= v@);
    }
    r
}

/// Picks the source shape of an ingested directory, in the fixed priority
/// order of ingestion: a structured JSON document first, then a single
/// Solidity file, then a single Vyper file; with none of the three present,
/// the collected sibling Solidity files form a multi-file source.
pub fn select_source(
    contract_json: Option<String>,
    solidity: Option<String>,
    vyper: Option<String>,
    multi: Vec<SourceFile>,
) -> (r: ContractSource)
    ensures
        contract_json matches Some(c) ==> (r@ matches ContractSourceView::Json(f) && f.name
            == "contract.json"@ && f.content == c@),
        solidity matches Some(c) ==> (contract_json is None ==> (r@ matches
            ContractSourceView::SingleSolidity(f) && f.name == "main.sol"@ && f.content == c@)),
        vyper matches Some(c) ==> (contract_json is None && solidity is None ==> (r@ matches
            ContractSourceView::Vyper(f) && f.name == "main.vy"@ && f.content == c@)),
        contract_json is None && solidity is None && vyper is None ==> (r@ matches
            ContractSourceView::MultiSolidity(fs) && fs == multi.deep_view()),
{
    match (contract_json, solidity, vyper) {
        (Some(content), _, _) => ContractSource::Json(
            SourceFile { name: String::from_str("contract.json"), content },
        ),
        (None, Some(content), _) => ContractSource::SingleSolidity(
            SourceFile { name: String::from_str("main.sol"), content },
        ),
        (None, None, Some(content)) => ContractSource::Vyper(
            SourceFile { name: String::from_str("main.vy"), content },
        ),
        (None, None, None) => ContractSource::MultiSolidity(multi),
    }
}

/// A contract: metadata plus source code.  Identity is a pure function of
/// the source content; the metadata never enters the fingerprint.
#[derive(Debug, Clone)]
pub struct PlainContract {
    pub metadata: Metadata,
    pub source: ContractSource,
}

/// The mathematical view of a contract.
pub struct PlainContractView {
    pub metadata: MetadataView,
    pub source: ContractSourceView,
}

impl View for PlainContract {
    type V = PlainContractView;

    open spec fn view(&self) -> PlainContractView {
        PlainContractView { metadata: self.metadata@, source: self.source@ }
    }
}

impl DeepView for PlainContract {
    type V = PlainContractView;

    open spec fn deep_view(&self) -> PlainContractView {
        self.view()
    }
}

/// The id under which a contract is stored: the fingerprint of its source.
pub open spec fn spec_contract_id(c: PlainContractView) -> Seq<char> {
    spec_source_hash(c.source)
}

impl PlainContract {
    /// Packs metadata and source into a contract.
    pub fn new(metadata: Metadata, source: ContractSource) -> (r: PlainContract)
        ensures
            r@.metadata == metadata@,
            r@.source == source@,
    {
        PlainContract { metadata, source }
    }

    /// The identity fingerprint, derived from the source content alone.
    pub fn hash(&self) -> (r: String)
        ensures
            r@ == spec_contract_id(self@),
    {
        self.source.hash()
    }

    /// The id under which the contract is stored: its fingerprint.
    pub fn id(&self) -> (r: String)
        ensures
            r@ == spec_contract_id(self@),
    {
        self.hash()
    }

    /// The constituent files of the contract's source.
    pub fn get_source_files(&self) -> (r: Result<Vec<SourceFile>, SourceError>)
        ensures
            (r is Ok) == (spec_enumerated_pairs(self@.source) is Ok),
            r matches Ok(files) ==> spec_enumerated_pairs(self@.source) matches Ok(m)
                && spec_file_pairs(files.deep_view()) == m,
            r matches Err(e) ==> spec_enumerated_pairs(self@.source) matches Err(e2) && e == e2,
    {
        self.source.get_source_files()
    }

    /// A copy with the same view.
    pub fn duplicate(&self) -> (r: PlainContract)
        ensures
            r@ == self@,
    {
        PlainContract { metadata: self.metadata.duplicate(), source: self.source.duplicate() }
    }
}

/// Same shape, same code up to whitespace: the relation under which two
/// sources are guaranteed the same fingerprint.
pub open spec fn same_shape_same_stripped_code(s1: ContractSourceView, s2: ContractSourceView) -> bool {
    match (s1, s2) {
        (ContractSourceView::SingleSolidity(f1), ContractSourceView::SingleSolidity(f2)) => strip_spaces(
            f1.content,
        ) == strip_spaces(f2.content),
        (ContractSourceView::Vyper(f1), ContractSourceView::Vyper(f2)) => strip_spaces(f1.content)
            == strip_spaces(f2.content),
        (ContractSourceView::Json(f1), ContractSourceView::Json(f2)) => strip_spaces(f1.content)
            == strip_spaces(f2.content),
        (ContractSourceView::MultiSolidity(v1), ContractSourceView::MultiSolidity(v2)) => v1.len()
            == v2.len() && (forall|i: int|
            0 <= i < v1.len() ==> strip_spaces(#[trigger] v1[i].content) == strip_spaces(
                v2[i].content,
            )),
        _ => false,
    }
}

/// Identity is whitespace-invariant: inserting or removing whitespace
/// anywhere in any constituent file, in any of the four source shapes,
/// leaves the fingerprint unchanged.
pub proof fn lemma_source_hash_whitespace_invariant(s1: ContractSourceView, s2: ContractSourceView)
    requires
        same_shape_same_stripped_code(s1, s2),
    ensures
        spec_source_hash(s1) == spec_source_hash(s2),
{
    match (s1, s2) {
        (ContractSourceView::MultiSolidity(v1), ContractSourceView::MultiSolidity(v2)) => {
            assert(spec_digests(spec_contents(v1)) =~= spec_digests(spec_contents(v2)));
        },
        _ => {},
    }
}

/// Identity is insertion-order-invariant for multi-file sources: permuting
/// the order of the files leaves the fingerprint unchanged.
pub proof fn lemma_multi_source_hash_order_invariant(a: Seq<SourceFileView>, b: Seq<SourceFileView>)
    requires
        spec_contents(a).to_multiset() == spec_contents(b).to_multiset(),
    ensures
        spec_multi_source_hash(a) == spec_multi_source_hash(b),
{
    lemma_multi_hash_order_invariant(spec_contents(a), spec_contents(b));
}

/// The order-invariance of the previous lemma, stated on whole sources.
pub proof fn lemma_source_hash_file_order_invariant(s1: ContractSourceView, s2: ContractSourceView)
    requires
        s1 matches ContractSourceView::MultiSolidity(v1) && s2 matches
            ContractSourceView::MultiSolidity(v2) && spec_contents(v1).to_multiset()
            == spec_contents(v2).to_multiset(),
    ensures
        spec_source_hash(s1) == spec_source_hash(s2),
{
    match (s1, s2) {
        (ContractSourceView::MultiSolidity(v1), ContractSourceView::MultiSolidity(v2)) => {
            lemma_multi_source_hash_order_invariant(v1, v2);
        },
        _ => {},
    }
}

} // verus!
