//! Whitespace-insensitive content fingerprinting.
//!
//! A fingerprint is the MD5 digest, rendered as 32 lowercase hex characters,
//! of the content with every whitespace character removed.  Removing the
//! whitespace is deliberate policy: re-indenting or re-wrapping a source
//! file must not change its identity.
use vstd::prelude::*;

use crate::chars::{lemma_lex_leq_connected, lemma_lex_leq_total_ordering, lemma_lex_leq_transitive,
    lex_le, lex_leq, strip_spaces, strip_whitespace};

verus! {

/// The views of a sequence of strings.
pub open spec fn seq_views(s: Seq<String>) -> Seq<Seq<char>> {
    s.map_values(|x: String| x@)
}

/// The lexicographic order on character sequences as a relation value.
pub open spec fn lex_leq_rel() -> spec_fn(Seq<char>, Seq<char>) -> bool {
    |x: Seq<char>, y: Seq<char>| lex_leq(x, y)
}

/// The digest, as 32 lowercase hex characters, that the MD5 hash assigns to
/// a character sequence (hashing its UTF-8 encoding).
pub uninterp spec fn md5_hex_of(s: Seq<char>) -> Seq<char>;

/// Relies on `md5::compute`: the digest is a function of the input bytes
/// alone, and its lowercase-hex rendering writes two digits per digest byte.
#[verifier::external_body]
fn md5_hex(s: &str) -> (r: String)
    ensures
        r@ == md5_hex_of(s@),
{
    let digest = md5::compute(s.as_bytes());
    format!("{:x}", digest)
}

/// The fingerprint of one text blob: the MD5 hex digest of the text with
/// all whitespace removed.
pub open spec fn spec_simple_hash(s: Seq<char>) -> Seq<char> {
    md5_hex_of(strip_spaces(s))
}

/// Fingerprints `content` after removing all its whitespace characters.
pub fn simple_hash(content: &str) -> (r: String)
    ensures
        r@ == spec_simple_hash(content@),
{
    let stripped = strip_whitespace(content);
    md5_hex(stripped.as_str())
}

/// The fingerprint never sees whitespace: two texts whose non-whitespace
/// characters agree have the same fingerprint, however whitespace is
/// inserted or removed in either.
pub proof fn lemma_simple_hash_whitespace_invariant(a: Seq<char>, b: Seq<char>)
    requires
        strip_spaces(a) == strip_spaces(b),
    ensures
        spec_simple_hash(a) == spec_simple_hash(b),
{
}

/// The fingerprints of each blob in a sequence of text blobs.
pub open spec fn spec_digests(contents: Seq<Seq<char>>) -> Seq<Seq<char>> {
    contents.map_values(|c: Seq<char>| spec_simple_hash(c))
}

/// The combined fingerprint of many text blobs: each blob is fingerprinted
/// on its own, the digests are sorted lexicographically so that the order in
/// which the blobs were given cannot matter, and the concatenation of the
/// sorted digests is fingerprinted again.
pub open spec fn spec_multi_hash(contents: Seq<Seq<char>>) -> Seq<char> {
    spec_simple_hash(spec_digests(contents).sort_by(lex_leq_rel()).flatten())
}

/// Fingerprints a set of text blobs as one, independently of their order.
pub fn multi_hash(contents: &Vec<String>) -> (r: String)
    ensures
        r@ == spec_multi_hash(seq_views(contents@)),
{
    let mut digests: Vec<String> = Vec::new();
    let mut i: usize = 0;
    while i < contents.len()
        invariant
            i <= contents@.len(),
            seq_views(digests@) == spec_digests(seq_views(contents@)).take(i as int),
        decreases contents@.len() - i,
    {
        let d = simple_hash(contents[i].as_str());
        digests.push(d);
        proof {
            let all = spec_digests(seq_views(contents@));
            assert(seq_views(contents@)[i as int] == contents@[i as int]@);
            assert(all[i as int] == spec_simple_hash(contents@[i as int]@));
            assert(seq_views(digests@) =~= all.take(i as int).push(all[i as int]));
            assert(all.take(i + 1) =~= all.take(i as int).push(all[i as int]));
        }
        i = i + 1;
    }
    proof {
        let all = spec_digests(seq_views(contents@));
        assert(all.take(contents@.len() as int) =~= all);
    }
    let sorted = sort_digests(digests);
    let joined = join_all(&sorted);
    simple_hash(joined.as_str())
}

/// Sorts digest strings into the lexicographic order of their characters.
fn sort_digests(v: Vec<String>) -> (r: Vec<String>)
    ensures
        seq_views(r@) == seq_views(v@).sort_by(lex_leq_rel()),
{
    let leq = Ghost(lex_leq_rel());
    let mut out: Vec<String> = Vec::new();
    let mut i: usize = 0;
    proof {
        assert(seq_views(out@) =~= Seq::<Seq<char>>::empty());
        assert(seq_views(v@).take(0int) =~= Seq::<Seq<char>>::empty());
    }
    while i < v.len()
        invariant
            i <= v@.len(),
            vstd::relations::sorted_by(seq_views(out@), leq@),
            seq_views(out@).to_multiset() == seq_views(v@).take(i as int).to_multiset(),
            leq@ == lex_leq_rel(),
        decreases v@.len() - i,
    {
        let x = v[i].clone();
        let mut j: usize = 0;
        while j < out.len() && lex_le(out[j].as_str(), x.as_str())
            invariant
                j <= out@.len(),
                forall|k: int| 0 <= k < j ==> lex_leq(#[trigger] seq_views(out@)[k], x@),
            decreases out@.len() - j,
        {
            j = j + 1;
        }
        proof {
            let views = seq_views(out@);
            let inserted = seq_views(out@.insert(j as int, x));
            assert(inserted =~= views.insert(j as int, x@));
            if j < views.len() {
                lemma_lex_leq_connected(views[j as int], x@);
            }
            assert forall|p: int, q: int| 0 <= p < q < inserted.len() implies #[trigger] leq@(
                inserted[p],
                inserted[q],
            ) by {
                if p < j && q > j {
                    assert(leq@(views[p], views[q - 1]));
                } else if p == j && q > j {
                    assert(lex_leq(x@, views[j as int]));
                    if q - 1 > j {
                        assert(leq@(views[j as int], views[q - 1]));
                        lemma_lex_leq_transitive(x@, views[j as int], views[q - 1]);
                    }
                }
            }
            lemma_insert_multiset(views, j as int, x@);
            assert(seq_views(v@).take(i + 1) =~= seq_views(v@).take(i as int).push(v@[i as int]@));
            broadcast use vstd::seq_lib::group_to_multiset_ensures;

            assert(seq_views(v@).take(i + 1).to_multiset() =~= seq_views(v@).take(
                i as int,
            ).to_multiset().insert(x@));
        }
        out.insert(j, x);
        i = i + 1;
    }
    proof {
        assert(seq_views(v@).take(v@.len() as int) =~= seq_views(v@));
        lemma_lex_leq_total_ordering();
        seq_views(v@).lemma_sort_by_ensures(lex_leq_rel());
        vstd::seq_lib::lemma_sorted_unique(
            seq_views(out@),
            seq_views(v@).sort_by(lex_leq_rel()),
            lex_leq_rel(),
        );
    }
    out
}

/// Concatenates all the strings, in order.
fn join_all(v: &Vec<String>) -> (r: String)
    ensures
        r@ == seq_views(v@).flatten(),
{
    let mut r = String::new();
    let mut i: usize = 0;
    proof {
        assert(seq_views(v@).take(0int) =~= Seq::<Seq<char>>::empty());
        assert(Seq::<Seq<char>>::empty().flatten() =~= Seq::<char>::empty());
    }
    while i < v.len()
        invariant
            i <= v@.len(),
            r@ == seq_views(v@).take(i as int).flatten(),
        decreases v@.len() - i,
    {
        r.append(v[i].as_str());
        proof {
            let views = seq_views(v@);
            assert(views.take(i + 1) =~= views.take(i as int).push(views[i as int]));
            views.take(i as int).lemma_flatten_push(views[i as int]);
        }
        i = i + 1;
    }
    proof {
        assert(seq_views(v@).take(v@.len() as int) =~= seq_views(v@));
    }
    r
}

/// Inserting an element anywhere in a sequence adds it, and nothing else, to
/// the sequence's multiset.
pub proof fn lemma_insert_multiset<A>(s: Seq<A>, j: int, x: A)
    requires
        0 <= j <= s.len(),
    ensures
        s.insert(j, x).to_multiset() == s.to_multiset().insert(x),
{
    broadcast use vstd::seq_lib::group_to_multiset_ensures;
    broadcast use vstd::multiset::group_multiset_axioms;

    let pre = s.take(j);
    let post = s.skip(j);
    assert(s.insert(j, x) =~= pre.push(x) + post);
    assert(s =~= pre + post);
    vstd::seq_lib::lemma_multiset_commutative(pre.push(x), post);
    vstd::seq_lib::lemma_multiset_commutative(pre, post);
    assert(pre.push(x).to_multiset() =~= pre.to_multiset().insert(x));
    assert(s.insert(j, x).to_multiset() =~= s.to_multiset().insert(x));
}

/// Mapping a function over two sequences that hold the same elements, in any
/// orders, yields sequences that hold the same images.
pub proof fn lemma_map_values_multiset<A, B>(s1: Seq<A>, s2: Seq<A>, f: spec_fn(A) -> B)
    requires
        s1.to_multiset() == s2.to_multiset(),
    ensures
        s1.map_values(f).to_multiset() == s2.map_values(f).to_multiset(),
    decreases s1.len(),
{
    broadcast use vstd::seq_lib::group_to_multiset_ensures;
    broadcast use vstd::multiset::group_multiset_axioms;

    if s1.len() == 0 {
        assert(s2.to_multiset().len() == 0);
        assert(s1.map_values(f) =~= Seq::<B>::empty());
        assert(s2.map_values(f) =~= Seq::<B>::empty());
    } else {
        let x = s1[0];
        assert(s1.contains(x));
        assert(s2.to_multiset().count(x) > 0);
        assert(s2.contains(x));
        let i = choose|i: int| 0 <= i < s2.len() && s2[i] == x;
        assert(s1.remove(0).to_multiset() == s1.to_multiset().remove(x));
        assert(s2.remove(i).to_multiset() == s2.to_multiset().remove(x));
        lemma_map_values_multiset(s1.remove(0), s2.remove(i), f);
        assert(s1.remove(0).map_values(f) =~= s1.map_values(f).remove(0));
        assert(s2.remove(i).map_values(f) =~= s2.map_values(f).remove(i));
        let m1 = s1.map_values(f);
        let m2 = s2.map_values(f);
        assert(m1.remove(0).to_multiset() == m1.to_multiset().remove(f(x)));
        assert(m2[i] == f(x));
        assert(m2.remove(i).to_multiset() == m2.to_multiset().remove(f(x)));
        assert(m1.contains(f(x)));
        assert(m2.contains(f(x)));
        assert(m1.to_multiset().count(f(x)) > 0);
        assert(m2.to_multiset().count(f(x)) > 0);
        assert(m1.to_multiset() =~= m1.to_multiset().remove(f(x)).insert(f(x)));
        assert(m2.to_multiset() =~= m2.to_multiset().remove(f(x)).insert(f(x)));
    }
}

/// Reordering the blobs never changes the combined fingerprint.
pub proof fn lemma_multi_hash_order_invariant(c1: Seq<Seq<char>>, c2: Seq<Seq<char>>)
    requires
        c1.to_multiset() == c2.to_multiset(),
    ensures
        spec_multi_hash(c1) == spec_multi_hash(c2),
{
    let f = |c: Seq<char>| spec_simple_hash(c);
    lemma_map_values_multiset(c1, c2, f);
    lemma_lex_leq_total_ordering();
    c1.map_values(f).lemma_sort_by_ensures(lex_leq_rel());
    c2.map_values(f).lemma_sort_by_ensures(lex_leq_rel());
    vstd::seq_lib::lemma_sorted_unique(
        c1.map_values(f).sort_by(lex_leq_rel()),
        c2.map_values(f).sort_by(lex_leq_rel()),
        lex_leq_rel(),
    );
}

} // verus!
