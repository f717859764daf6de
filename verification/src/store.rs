//! The content-addressed contract store.
//!
//! Contracts are keyed by their identity fingerprint and functions by their
//! row id.  Bulk inserts are idempotent: a record whose key is already
//! present is silently skipped — duplicate detection is the store's job,
//! not the caller's.  Pagination returns stable windows so that the
//! orchestrator can walk the whole corpus one bounded page at a time.
use vstd::prelude::*;

use crate::errors::StoreError;
use crate::functions::{ContractFunction, ContractFunctionView};
use crate::source::{PlainContract, PlainContractView, spec_contract_id};

verus! {

/// One stored contract: the key it is stored under and the record.
#[derive(Debug, Clone)]
pub struct StoredContract {
    pub id: String,
    pub contract: PlainContract,
}

/// The mathematical view of a stored contract.
pub struct StoredContractView {
    pub id: Seq<char>,
    pub contract: PlainContractView,
}

impl View for StoredContract {
    type V = StoredContractView;

    open spec fn view(&self) -> StoredContractView {
        StoredContractView { id: self.id@, contract: self.contract@ }
    }
}

impl DeepView for StoredContract {
    type V = StoredContractView;

    open spec fn deep_view(&self) -> StoredContractView {
        self.view()
    }
}

/// The keys of a stored-contract sequence, in storage order.
pub open spec fn contract_ids(s: Seq<StoredContractView>) -> Seq<Seq<char>> {
    s.map_values(|c: StoredContractView| c.id)
}

/// The row ids of a function sequence, in storage order.
pub open spec fn function_ids(s: Seq<ContractFunctionView>) -> Seq<Seq<char>> {
    s.map_values(|f: ContractFunctionView| f.id)
}

/// What an idempotent bulk insert leaves in the store: each contract of the
/// batch, in order, is appended under its fingerprint unless that key is
/// already present — then it is silently skipped.
pub open spec fn spec_insert_new(
    s: Seq<StoredContractView>,
    batch: Seq<PlainContractView>,
) -> Seq<StoredContractView>
    decreases batch.len(),
{
    if batch.len() == 0 {
        s
    } else {
        let c = batch[0];
        let s2 = if contract_ids(s).contains(spec_contract_id(c)) {
            s
        } else {
            s.push(StoredContractView { id: spec_contract_id(c), contract: c })
        };
        spec_insert_new(s2, batch.drop_first())
    }
}

/// What an idempotent bulk insert leaves in the function table.
pub open spec fn spec_insert_new_functions(
    s: Seq<ContractFunctionView>,
    batch: Seq<ContractFunctionView>,
) -> Seq<ContractFunctionView>
    decreases batch.len(),
{
    if batch.len() == 0 {
        s
    } else {
        let f = batch[0];
        let s2 = if function_ids(s).contains(f.id) {
            s
        } else {
            s.push(f)
        };
        spec_insert_new_functions(s2, batch.drop_first())
    }
}

/// One page of a sequence: the window from `offset`, at most `limit` long,
/// clipped to the sequence.
pub open spec fn spec_page_window<A>(s: Seq<A>, offset: int, limit: int) -> Seq<A>
    recommends
        offset >= 0,
        limit >= 0,
{
    let lo = if offset <= s.len() {
        offset
    } else {
        s.len() as int
    };
    let hi = if offset + limit <= s.len() {
        offset + limit
    } else {
        s.len() as int
    };
    s.subrange(lo, hi)
}

/// The mathematical view of the store.
pub struct StorageView {
    pub contracts: Seq<StoredContractView>,
    pub functions: Seq<ContractFunctionView>,
}

/// The content-addressed store of contracts and extracted functions.
pub struct Storage {
    contracts: Vec<StoredContract>,
    functions: Vec<ContractFunction>,
}

impl View for Storage {
    type V = StorageView;

    closed spec fn view(&self) -> StorageView {
        StorageView { contracts: self.contracts.deep_view(), functions: self.functions.deep_view() }
    }
}

impl Storage {
    /// The store never holds two records under one key.
    pub open spec fn wf(&self) -> bool {
        contract_ids(self@.contracts).no_duplicates() && function_ids(
            self@.functions,
        ).no_duplicates()
    }

    /// An empty store.
    pub fn new() -> (r: Storage)
        ensures
            r.wf(),
            r@.contracts == Seq::<StoredContractView>::empty(),
            r@.functions == Seq::<ContractFunctionView>::empty(),
    {
        let r = Storage { contracts: Vec::new(), functions: Vec::new() };
        proof {
            assert(r@.contracts =~= Seq::<StoredContractView>::empty());
            assert(r@.functions =~= Seq::<ContractFunctionView>::empty());
            assert(contract_ids(r@.contracts) =~= Seq::<Seq<char>>::empty());
            assert(function_ids(r@.functions) =~= Seq::<Seq<char>>::empty());
        }
        r
    }

    /// Whether a contract key is already in use.
    fn contains_contract_id(&self, id: &String) -> (r: bool)
        ensures
            r == contract_ids(self@.contracts).contains(id@),
    {
        let mut i: usize = 0;
        while i < self.contracts.len()
            invariant
                i <= self.contracts@.len(),
                forall|k: int| 0 <= k < i ==> contract_ids(self@.contracts)[k] != id@,
            decreases self.contracts@.len() - i,
        {
            if self.contracts[i].id.eq(id) {
                proof {
                    assert(contract_ids(self@.contracts)[i as int] == id@);
                }
                return true;
            }
            i = i + 1;
        }
        proof {
            if contract_ids(self@.contracts).contains(id@) {
                let k = choose|k: int|
                    0 <= k < contract_ids(self@.contracts).len() && contract_ids(self@.contracts)[k]
                        == id@;
            }
        }
        false
    }

    /// Whether a function row id is already in use.
    fn contains_function_id(&self, id: &String) -> (r: bool)
        ensures
            r == function_ids(self@.functions).contains(id@),
    {
        let mut i: usize = 0;
        while i < self.functions.len()
            invariant
                i <= self.functions@.len(),
                forall|k: int| 0 <= k < i ==> function_ids(self@.functions)[k] != id@,
            decreases self.functions@.len() - i,
        {
            if self.functions[i].id.eq(id) {
                proof {
                    assert(function_ids(self@.functions)[i as int] == id@);
                }
                return true;
            }
            i = i + 1;
        }
        proof {
            if function_ids(self@.functions).contains(id@) {
                let k = choose|k: int|
                    0 <= k < function_ids(self@.functions).len() && function_ids(self@.functions)[k]
                        == id@;
            }
        }
        false
    }

    /// Stores one contract, under the given id or, absent one, under its
    /// fingerprint.  A key already in use is an error and the store is
    /// unchanged.
    pub fn store_contract(&mut self, contract: &PlainContract, id: Option<String>) -> (r: Result<
        (),
        StoreError,
    >)
        requires
            old(self).wf(),
        ensures
            final(self).wf(),
            ({
                let key = match id {
                    Some(s) => s@,
                    None => spec_contract_id(contract@),
                };
                &&& (r is Ok) == !contract_ids(old(self)@.contracts).contains(key)
                &&& (r is Ok ==> final(self)@.contracts == old(self)@.contracts.push(
                    StoredContractView { id: key, contract: contract@ },
                ))
                &&& (r is Err ==> final(self)@.contracts == old(self)@.contracts)
                &&& final(self)@.functions == old(self)@.functions
            }),
    {
        let key = match id {
            Some(s) => s,
            None => contract.hash(),
        };
        if self.contains_contract_id(&key) {
            Err(StoreError::DuplicateId)
        } else {
            let ghost pre = self@.contracts;
            self.contracts.push(StoredContract { id: key, contract: contract.duplicate() });
            proof {
                assert(self@.contracts =~= pre.push(self@.contracts.last()));
                assert(contract_ids(self@.contracts) =~= contract_ids(pre).push(
                    self@.contracts.last().id,
                ));
                lemma_push_fresh_no_dup(contract_ids(pre), self@.contracts.last().id);
            }
            Ok(())
        }
    }

    /// Stores a batch of contracts keyed by fingerprint, idempotently: a
    /// contract whose fingerprint is already present is silently skipped,
    /// in particular every duplicate within the batch itself.
    pub fn store_contracts(&mut self, contracts: Vec<PlainContract>)
        requires
            old(self).wf(),
        ensures
            final(self).wf(),
            final(self)@.contracts == spec_insert_new(old(self)@.contracts, contracts.deep_view()),
            final(self)@.functions == old(self)@.functions,
    {
        let ghost batch = contracts.deep_view();
        let mut j: usize = 0;
        proof {
            assert(batch.take(0int) =~= Seq::<PlainContractView>::empty());
        }
        while j < contracts.len()
            invariant
                j <= contracts@.len(),
                batch == contracts.deep_view(),
                self.wf(),
                self@.contracts == spec_insert_new(old(self)@.contracts, batch.take(j as int)),
                self@.functions == old(self)@.functions,
            decreases contracts@.len() - j,
        {
            let c = contracts[j].duplicate();
            let key = c.hash();
            let ghost pre = self@.contracts;
            if !self.contains_contract_id(&key) {
                self.contracts.push(StoredContract { id: key, contract: c });
                proof {
                    assert(self@.contracts =~= pre.push(
                        StoredContractView { id: key@, contract: batch[j as int] },
                    ));
                    assert(contract_ids(self@.contracts) =~= contract_ids(pre).push(key@));
                    lemma_push_fresh_no_dup(contract_ids(pre), key@);
                }
            }
            proof {
                lemma_insert_new_push(old(self)@.contracts, batch.take(j as int), batch[j as int]);
                assert(batch.take(j + 1) =~= batch.take(j as int).push(batch[j as int]));
            }
            j = j + 1;
        }
        proof {
            assert(batch.take(contracts@.len() as int) =~= batch);
        }
    }

    /// The number of stored contracts.
    pub fn count_contracts(&self) -> (r: usize)
        ensures
            r == self@.contracts.len(),
    {
        self.contracts.len()
    }

    /// The number of stored function rows.
    pub fn count_functions(&self) -> (r: usize)
        ensures
            r == self@.functions.len(),
    {
        self.functions.len()
    }

    /// The contract stored under `id`, if any.
    pub fn get_contract(&self, id: &str) -> (r: Option<PlainContract>)
        ensures
            (r is Some) == contract_ids(self@.contracts).contains(id@),
            r matches Some(c) ==> exists|i: int|
                0 <= i < self@.contracts.len() && self@.contracts[i].id == id@ && c@
                    == #[trigger] self@.contracts[i].contract,
    {
        let mut i: usize = 0;
        while i < self.contracts.len()
            invariant
                i <= self.contracts@.len(),
                forall|k: int| 0 <= k < i ==> contract_ids(self@.contracts)[k] != id@,
            decreases self.contracts@.len() - i,
        {
            if crate::chars::str_eq(self.contracts[i].id.as_str(), id) {
                let c = self.contracts[i].contract.duplicate();
                proof {
                    assert(contract_ids(self@.contracts)[i as int] == id@);
                    assert(self@.contracts[i as int].id == id@ && c@ == self@.contracts[i as int].contract);
                }
                return Some(c);
            }
            i = i + 1;
        }
        proof {
            if contract_ids(self@.contracts).contains(id@) {
                let k = choose|k: int|
                    0 <= k < contract_ids(self@.contracts).len() && contract_ids(self@.contracts)[k]
                        == id@;
            }
        }
        None
    }

    /// One page of the stored contracts: the window starting at `offset`,
    /// at most `limit` long, in storage order.  The same window is returned
    /// on every call absent writes in between.
    pub fn page(&self, offset: usize, limit: usize) -> (r: Vec<PlainContract>)
        ensures
            r.deep_view() == spec_page_window(self@.contracts, offset as int, limit as int)
                .map_values(|c: StoredContractView| c.contract),
    {
        let n = self.contracts.len();
        let lo = if offset <= n {
            offset
        } else {
            n
        };
        let room = n - lo;
        let len = if limit <= room {
            limit
        } else {
            room
        };
        let mut r: Vec<PlainContract> = Vec::new();
        let mut k: usize = 0;
        let ghost window = spec_page_window(self@.contracts, offset as int, limit as int)
            .map_values(|c: StoredContractView| c.contract);
        proof {
            assert(window.len() == len);
            assert(r.deep_view() =~= window.take(0int));
        }
        while k < len
            invariant
                k <= len,
                n == self.contracts@.len(),
                lo + len <= n,
                window == spec_page_window(self@.contracts, offset as int, limit as int)
                    .map_values(|c: StoredContractView| c.contract),
                window.len() == len,
                forall|p: int| 0 <= p < window.len() ==> window[p] == self@.contracts[lo + p].contract,
                r.deep_view() == window.take(k as int),
            decreases len - k,
        {
            r.push(self.contracts[lo + k].contract.duplicate());
            proof {
                assert(r.deep_view() =~= window.take(k as int).push(window[k as int]));
                assert(window.take(k + 1) =~= window.take(k as int).push(window[k as int]));
            }
            k = k + 1;
        }
        proof {
            assert(window.take(len as int) =~= window);
        }
        r
    }

    /// Stores a batch of function rows keyed by row id, idempotently: a row
    /// whose id is already present is silently skipped.
    pub fn store_functions(&mut self, functions: &Vec<ContractFunction>)
        requires
            old(self).wf(),
        ensures
            final(self).wf(),
            final(self)@.functions == spec_insert_new_functions(
                old(self)@.functions,
                functions.deep_view(),
            ),
            final(self)@.contracts == old(self)@.contracts,
    {
        let ghost batch = functions.deep_view();
        let mut j: usize = 0;
        proof {
            assert(batch.take(0int) =~= Seq::<ContractFunctionView>::empty());
        }
        while j < functions.len()
            invariant
                j <= functions@.len(),
                batch == functions.deep_view(),
                self.wf(),
                self@.functions == spec_insert_new_functions(
                    old(self)@.functions,
                    batch.take(j as int),
                ),
                self@.contracts == old(self)@.contracts,
            decreases functions@.len() - j,
        {
            let f = functions[j].duplicate();
            let ghost pre = self@.functions;
            if !self.contains_function_id(&f.id) {
                self.functions.push(f);
                proof {
                    assert(self@.functions =~= pre.push(batch[j as int]));
                    assert(function_ids(self@.functions) =~= function_ids(pre).push(
                        batch[j as int].id,
                    ));
                    lemma_push_fresh_no_dup(function_ids(pre), batch[j as int].id);
                }
            }
            proof {
                lemma_insert_new_functions_push(
                    old(self)@.functions,
                    batch.take(j as int),
                    batch[j as int],
                );
                assert(batch.take(j + 1) =~= batch.take(j as int).push(batch[j as int]));
            }
            j = j + 1;
        }
        proof {
            assert(batch.take(functions@.len() as int) =~= batch);
        }
    }
}

/// Pushing a fresh key keeps a key sequence duplicate-free.
pub proof fn lemma_push_fresh_no_dup(ids: Seq<Seq<char>>, x: Seq<char>)
    requires
        ids.no_duplicates(),
        !ids.contains(x),
    ensures
        ids.push(x).no_duplicates(),
{
    let p = ids.push(x);
    assert forall|a: int, b: int| 0 <= a < b < p.len() implies p[a] != p[b] by {
        if b == p.len() - 1 {
            if p[a] == x {
                assert(ids[a] == x);
            }
        }
    }
}

/// One more batch element extends an idempotent insert by one step.
pub proof fn lemma_insert_new_push(
    s: Seq<StoredContractView>,
    batch: Seq<PlainContractView>,
    c: PlainContractView,
)
    ensures
        spec_insert_new(s, batch.push(c)) == ({
            let s2 = spec_insert_new(s, batch);
            if contract_ids(s2).contains(spec_contract_id(c)) {
                s2
            } else {
                s2.push(StoredContractView { id: spec_contract_id(c), contract: c })
            }
        }),
    decreases batch.len(),
{
    if batch.len() == 0 {
        let key = spec_contract_id(c);
        let s2 = if contract_ids(s).contains(key) {
            s
        } else {
            s.push(StoredContractView { id: key, contract: c })
        };
        assert(batch.push(c)[0] == c);
        assert(batch.push(c).drop_first() =~= Seq::<PlainContractView>::empty());
        assert(spec_insert_new(s2, Seq::<PlainContractView>::empty()) == s2);
        assert(spec_insert_new(s, batch) == s);
    } else {
        assert(batch.push(c)[0] == batch[0]);
        assert(batch.push(c).drop_first() =~= batch.drop_first().push(c));
        let s2 = if contract_ids(s).contains(spec_contract_id(batch[0])) {
            s
        } else {
            s.push(StoredContractView { id: spec_contract_id(batch[0]), contract: batch[0] })
        };
        assert(spec_insert_new(s, batch.push(c)) == spec_insert_new(
            s2,
            batch.drop_first().push(c),
        ));
        assert(spec_insert_new(s, batch) == spec_insert_new(s2, batch.drop_first()));
        lemma_insert_new_push(s2, batch.drop_first(), c);
    }
}

/// One more batch element extends an idempotent function insert by one
/// step.
pub proof fn lemma_insert_new_functions_push(
    s: Seq<ContractFunctionView>,
    batch: Seq<ContractFunctionView>,
    f: ContractFunctionView,
)
    ensures
        spec_insert_new_functions(s, batch.push(f)) == ({
            let s2 = spec_insert_new_functions(s, batch);
            if function_ids(s2).contains(f.id) {
                s2
            } else {
                s2.push(f)
            }
        }),
    decreases batch.len(),
{
    if batch.len() == 0 {
        let s2 = if function_ids(s).contains(f.id) {
            s
        } else {
            s.push(f)
        };
        assert(batch.push(f)[0] == f);
        assert(batch.push(f).drop_first() =~= Seq::<ContractFunctionView>::empty());
        assert(spec_insert_new_functions(s2, Seq::<ContractFunctionView>::empty()) == s2);
        assert(spec_insert_new_functions(s, batch) == s);
    } else {
        assert(batch.push(f)[0] == batch[0]);
        assert(batch.push(f).drop_first() =~= batch.drop_first().push(f));
        let s2 = if function_ids(s).contains(batch[0].id) {
            s
        } else {
            s.push(batch[0])
        };
        assert(spec_insert_new_functions(s, batch.push(f)) == spec_insert_new_functions(
            s2,
            batch.drop_first().push(f),
        ));
        assert(spec_insert_new_functions(s, batch) == spec_insert_new_functions(
            s2,
            batch.drop_first(),
        ));
        lemma_insert_new_functions_push(s2, batch.drop_first(), f);
    }
}

/// An idempotent insert never removes a key.
pub proof fn lemma_insert_new_keeps_ids(
    s: Seq<StoredContractView>,
    batch: Seq<PlainContractView>,
    id: Seq<char>,
)
    requires
        contract_ids(s).contains(id),
    ensures
        contract_ids(spec_insert_new(s, batch)).contains(id),
    decreases batch.len(),
{
    if batch.len() > 0 {
        let c = batch[0];
        if contract_ids(s).contains(spec_contract_id(c)) {
            lemma_insert_new_keeps_ids(s, batch.drop_first(), id);
        } else {
            let s2 = s.push(StoredContractView { id: spec_contract_id(c), contract: c });
            let k = choose|k: int|
                0 <= k < contract_ids(s).len() && contract_ids(s)[k] == id;
            assert(contract_ids(s2)[k] == id);
            lemma_insert_new_keeps_ids(s2, batch.drop_first(), id);
        }
    }
}

/// After an idempotent insert, the key of every contract of the batch is
/// present.
pub proof fn lemma_insert_new_covers_batch(
    s: Seq<StoredContractView>,
    batch: Seq<PlainContractView>,
)
    ensures
        forall|j: int|
            0 <= j < batch.len() ==> contract_ids(spec_insert_new(s, batch)).contains(
                spec_contract_id(#[trigger] batch[j]),
            ),
    decreases batch.len(),
{
    if batch.len() > 0 {
        let c = batch[0];
        let s2 = if contract_ids(s).contains(spec_contract_id(c)) {
            s
        } else {
            s.push(StoredContractView { id: spec_contract_id(c), contract: c })
        };
        if contract_ids(s).contains(spec_contract_id(c)) {
            lemma_insert_new_keeps_ids(s, batch.drop_first(), spec_contract_id(c));
        } else {
            assert(contract_ids(s2)[s.len() as int] == spec_contract_id(c));
            lemma_insert_new_keeps_ids(s2, batch.drop_first(), spec_contract_id(c));
        }
        lemma_insert_new_covers_batch(s2, batch.drop_first());
        assert forall|j: int|
            0 <= j < batch.len() implies contract_ids(spec_insert_new(s, batch)).contains(
            spec_contract_id(#[trigger] batch[j]),
        ) by {
            if j > 0 {
                assert(batch.drop_first()[j - 1] == batch[j]);
            }
        }
    }
}

/// Inserting a batch whose keys are all present changes nothing.
pub proof fn lemma_insert_new_noop(s: Seq<StoredContractView>, batch: Seq<PlainContractView>)
    requires
        forall|j: int|
            0 <= j < batch.len() ==> contract_ids(s).contains(
                spec_contract_id(#[trigger] batch[j]),
            ),
    ensures
        spec_insert_new(s, batch) == s,
    decreases batch.len(),
{
    if batch.len() > 0 {
        assert(contract_ids(s).contains(spec_contract_id(batch[0])));
        assert forall|j: int|
            0 <= j < batch.drop_first().len() implies contract_ids(s).contains(
            spec_contract_id(#[trigger] batch.drop_first()[j]),
        ) by {
            assert(batch.drop_first()[j] == batch[j + 1]);
        }
        lemma_insert_new_noop(s, batch.drop_first());
    }
}

/// Idempotent storage: storing the same contract batch twice leaves
/// exactly what storing it once leaves — one record per distinct
/// fingerprint — and in particular the contract count is unchanged by the
/// second call.
pub proof fn lemma_store_many_idempotent(
    s: Seq<StoredContractView>,
    batch: Seq<PlainContractView>,
)
    ensures
        spec_insert_new(spec_insert_new(s, batch), batch) == spec_insert_new(s, batch),
        spec_insert_new(spec_insert_new(s, batch), batch).len() == spec_insert_new(s, batch).len(),
{
    lemma_insert_new_covers_batch(s, batch);
    lemma_insert_new_noop(spec_insert_new(s, batch), batch);
}

/// Pagination completeness: walking the store page by page from offset 0
/// in steps of `p` concatenates, over the first `k` pages, to an exact
/// prefix of the corpus — and once `k * p` reaches the corpus size, to the
/// whole corpus, so every contract is visited exactly once.
pub open spec fn spec_collected_pages<A>(s: Seq<A>, p: int, k: int) -> Seq<A>
    decreases k,
{
    if k <= 0 {
        Seq::<A>::empty()
    } else {
        spec_collected_pages(s, p, k - 1) + spec_page_window(s, (k - 1) * p, p)
    }
}

/// The concatenation of the first `k` pages is the prefix of the corpus of
/// length `min(k * p, len)`.
pub proof fn lemma_collected_pages_prefix<A>(s: Seq<A>, p: int, k: int)
    requires
        p >= 1,
        k >= 0,
    ensures
        spec_collected_pages(s, p, k) == s.take(
            if k * p <= s.len() {
                k * p
            } else {
                s.len() as int
            },
        ),
    decreases k,
{
    if k == 0 {
        assert(spec_collected_pages(s, p, 0) =~= s.take(0int));
    } else {
        lemma_collected_pages_prefix(s, p, k - 1);
        assert((k - 1) * p == k * p - p) by (nonlinear_arith);
        assert(k * p >= (k - 1) * p + 1);
        assert(spec_collected_pages(s, p, k) =~= s.take(
            if k * p <= s.len() {
                k * p
            } else {
                s.len() as int
            },
        ));
    }
}

/// Pagination completeness: for any page size `p >= 1` and any number of
/// pages `k` with `k * p` at or beyond the corpus size, the pages
/// `[0, p), [p, 2p), ...` concatenate to exactly the whole corpus.
pub proof fn lemma_pagination_complete<A>(s: Seq<A>, p: int, k: int)
    requires
        p >= 1,
        k >= 0,
        k * p >= s.len(),
    ensures
        spec_collected_pages(s, p, k) == s,
{
    lemma_collected_pages_prefix(s, p, k);
    assert(s.take(s.len() as int) =~= s);
}

} // verus!
