//! Sanitization of archive-supplied file paths.
//!
//! Archives are untrusted input: a member may be named `../../etc/passwd`
//! or `/absolute/path`.  Materializing writes only under sanitized relative
//! paths: a path is split on `/`, its empty, current-directory and
//! parent-directory components are dropped, and the rest are joined again,
//! so the result can never leave the target directory.
use vstd::prelude::*;

use crate::chars::chars_to_string;
use crate::errors::SourceError;
use crate::source::{PlainContract, SourceFile, SourceFileView, spec_enumerated_pairs};

verus! {

/// Splits a character sequence on `/`.  Splitting the empty sequence gives
/// one empty component, and every separator opens a new component, so the
/// result always holds one component more than the sequence has separators.
pub open spec fn split_path(s: Seq<char>) -> Seq<Seq<char>>
    decreases s.len(),
{
    if s.len() == 0 {
        seq![Seq::<char>::empty()]
    } else if s[0] == '/' {
        seq![Seq::<char>::empty()] + split_path(s.drop_first())
    } else {
        let rest = split_path(s.drop_first());
        seq![seq![s[0]] + rest[0]] + rest.drop_first()
    }
}

/// A component survives sanitization when it is neither empty (a doubled or
/// leading separator), the current directory, nor a parent-directory
/// traversal.
pub open spec fn keep_component() -> spec_fn(Seq<char>) -> bool {
    |c: Seq<char>| c.len() > 0 && c != seq!['.'] && c != seq!['.', '.']
}

/// Joins components with `/` between them.
pub open spec fn join_components(parts: Seq<Seq<char>>) -> Seq<char>
    decreases parts.len(),
{
    if parts.len() == 0 {
        Seq::<char>::empty()
    } else if parts.len() == 1 {
        parts[0]
    } else {
        parts[0] + seq!['/'] + join_components(parts.drop_first())
    }
}

/// The components of a path that survive sanitization.
pub open spec fn sanitized_components(s: Seq<char>) -> Seq<Seq<char>> {
    split_path(s).filter(keep_component())
}

/// The sanitized form of a path.
pub open spec fn spec_sanitize_path(s: Seq<char>) -> Seq<char> {
    join_components(sanitized_components(s))
}

/// A split never yields no components.
pub proof fn lemma_split_nonempty(s: Seq<char>)
    ensures
        split_path(s).len() >= 1,
    decreases s.len(),
{
    if s.len() > 0 {
        lemma_split_nonempty(s.drop_first());
    }
}

/// How one more character extends a split: a separator opens a new empty
/// component; any other character extends the last component.
pub proof fn lemma_split_push(a: Seq<char>, c: char)
    ensures
        c == '/' ==> split_path(a.push(c)) == split_path(a).push(Seq::<char>::empty()),
        c != '/' ==> split_path(a.push(c)) == split_path(a).update(
            split_path(a).len() - 1,
            split_path(a).last().push(c),
        ),
    decreases a.len(),
{
    lemma_split_nonempty(a);
    if a.len() == 0 {
        assert(a =~= Seq::<char>::empty());
        assert(a.push(c) =~= seq![c]);
        assert(a.push(c).drop_first() =~= a);
        if c == '/' {
            assert(split_path(a.push(c)) =~~= split_path(a).push(Seq::<char>::empty()));
        } else {
            assert(seq![c] + split_path(a)[0] =~= seq![c]);
            assert(split_path(a.push(c)) =~~= split_path(a).update(
                split_path(a).len() - 1,
                split_path(a).last().push(c),
            ));
        }
    } else {
        let t = a.drop_first();
        assert(a.push(c).drop_first() =~= t.push(c));
        lemma_split_push(t, c);
        lemma_split_nonempty(t);
        lemma_split_nonempty(t.push(c));
        if c == '/' {
            if a[0] == '/' {
                assert(split_path(a.push(c)) =~~= split_path(a).push(Seq::<char>::empty()));
            } else {
                assert(split_path(t.push(c))[0] == split_path(t)[0]);
                assert(split_path(a.push(c)) =~~= split_path(a).push(Seq::<char>::empty()));
            }
        } else {
            if a[0] == '/' {
                assert(split_path(a.push(c)) =~~= split_path(a).update(
                    split_path(a).len() - 1,
                    split_path(a).last().push(c),
                ));
            } else {
                if split_path(t).len() == 1 {
                    assert(split_path(t.push(c))[0] == split_path(t)[0].push(c));
                    assert(split_path(a.push(c)) =~~= split_path(a).update(
                        split_path(a).len() - 1,
                        split_path(a).last().push(c),
                    ));
                } else {
                    assert(split_path(t.push(c))[0] == split_path(t)[0]);
                    assert(split_path(a.push(c)) =~~= split_path(a).update(
                        split_path(a).len() - 1,
                        split_path(a).last().push(c),
                    ));
                }
            }
        }
    }
}

/// No component of a split contains a separator.
pub proof fn lemma_split_components_no_slash(s: Seq<char>)
    ensures
        forall|i: int, j: int|
            0 <= i < split_path(s).len() && 0 <= j < split_path(s)[i].len() ==> #[trigger] split_path(
                s,
            )[i][j] != '/',
    decreases s.len(),
{
    if s.len() > 0 {
        let t = s.drop_first();
        lemma_split_components_no_slash(t);
        lemma_split_nonempty(t);
        let sp = split_path(s);
        let st = split_path(t);
        if s[0] == '/' {
            assert forall|i: int, j: int|
                0 <= i < sp.len() && 0 <= j < sp[i].len() implies #[trigger] sp[i][j] != '/' by {
                if i == 0 {
                    assert(sp[0].len() == 0);
                } else {
                    assert(sp[i] == st[i - 1]);
                }
            }
        } else {
            assert forall|i: int, j: int|
                0 <= i < sp.len() && 0 <= j < sp[i].len() implies #[trigger] sp[i][j] != '/' by {
                if i == 0 {
                    assert(sp[0] == seq![s[0]] + st[0]);
                    if j == 0 {
                        assert(sp[0][0] == s[0]);
                    } else {
                        assert(sp[0][j] == st[0][j - 1]);
                    }
                } else {
                    assert(sp[i] == st[i]);
                }
            }
        }
    }
}

/// How one more component extends a join.
pub proof fn lemma_join_push(parts: Seq<Seq<char>>, p: Seq<char>)
    ensures
        parts.len() == 0 ==> join_components(parts.push(p)) == p,
        parts.len() > 0 ==> join_components(parts.push(p)) == join_components(parts) + seq!['/']
            + p,
    decreases parts.len(),
{
    if parts.len() == 0 {
        assert(join_components(parts.push(p)) == parts.push(p)[0]);
    } else if parts.len() == 1 {
        assert(parts.push(p).drop_first() =~~= seq![p]);
        assert(join_components(seq![p]) == p);
        assert(join_components(parts.push(p)) =~= parts[0] + seq!['/'] + p);
    } else {
        assert(parts.push(p).drop_first() =~~= parts.drop_first().push(p));
        lemma_join_push(parts.drop_first(), p);
        assert(join_components(parts.push(p)) =~= join_components(parts) + seq!['/'] + p);
    }
}

/// The first character of a join of components that all have text is the
/// first character of the first component.
pub proof fn lemma_join_first(parts: Seq<Seq<char>>)
    requires
        parts.len() > 0,
        parts[0].len() > 0,
    ensures
        join_components(parts).len() > 0,
        join_components(parts)[0] == parts[0][0],
{
}

/// Every element of a filtered sequence is an element of the sequence it
/// was filtered from.
pub proof fn lemma_filter_element_provenance<A>(s: Seq<A>, pred: spec_fn(A) -> bool, i: int)
    requires
        0 <= i < s.filter(pred).len(),
    ensures
        s.contains(s.filter(pred)[i]),
    decreases s.len(),
{
    reveal(Seq::filter);
    if s.len() > 0 {
        let sub = s.drop_last().filter(pred);
        if pred(s.last()) && i == sub.len() {
            assert(s.filter(pred)[i] == s.last());
            assert(s[s.len() - 1] == s.last());
        } else {
            lemma_filter_element_provenance(s.drop_last(), pred, i);
            let k = choose|k: int|
                0 <= k < s.drop_last().len() && s.drop_last()[k] == s.filter(pred)[i];
            assert(s[k] == s.filter(pred)[i]);
        }
    }
}

/// Sanitizing keeps only safe components: none is empty, none is a
/// parent-directory traversal, none holds a separator; and the sanitized
/// path never begins with a separator.  A materialized file therefore stays
/// inside the target directory.
pub proof fn lemma_sanitize_path_stays_inside(s: Seq<char>)
    ensures
        forall|i: int|
            0 <= i < sanitized_components(s).len() ==> (#[trigger] sanitized_components(s)[i]).len()
                > 0 && sanitized_components(s)[i] != seq!['.', '.'] && sanitized_components(s)[i]
                != seq!['.'],
        forall|i: int, j: int|
            0 <= i < sanitized_components(s).len() && 0 <= j < sanitized_components(s)[i].len()
                ==> #[trigger] sanitized_components(s)[i][j] != '/',
        spec_sanitize_path(s).len() > 0 ==> spec_sanitize_path(s)[0] != '/',
{
    let parts = sanitized_components(s);
    broadcast use vstd::seq_lib::group_filter_ensures;

    assert forall|i: int| 0 <= i < parts.len() implies (#[trigger] parts[i]).len() > 0 && parts[i]
        != seq!['.', '.'] && parts[i] != seq!['.'] by {
        split_path(s).lemma_filter_pred(keep_component(), i);
        assert(keep_component()(parts[i]));
    }
    lemma_split_components_no_slash(s);
    assert forall|i: int, j: int|
        0 <= i < parts.len() && 0 <= j < parts[i].len() implies #[trigger] parts[i][j] != '/' by {
        lemma_filter_element_provenance(split_path(s), keep_component(), i);
        let src = split_path(s);
        let k = choose|k: int| 0 <= k < src.len() && src[k] == parts[i];
        assert(src[k][j] != '/');
    }
    if spec_sanitize_path(s).len() > 0 {
        if parts.len() == 0 {
            assert(spec_sanitize_path(s).len() == 0);
        } else {
            lemma_join_first(parts);
        }
    }
}

/// Sanitizes a path into its safe components, as characters.
fn sanitize_chars(name: &str) -> (r: Vec<char>)
    ensures
        r@ == spec_sanitize_path(name@),
{
    let n: usize = name.unicode_len();
    let mut components: Vec<Vec<char>> = Vec::new();
    let mut partial: Vec<char> = Vec::new();
    let mut i: usize = 0;
    proof {
        assert(name@.take(0int) =~= Seq::<char>::empty());
        assert(split_path(name@.take(0int)) =~~= components.deep_view().push(partial@));
    }
    while i < n
        invariant
            n == name@.len(),
            i <= n,
            split_path(name@.take(i as int)) == components.deep_view().push(partial@),
        decreases n - i,
    {
        let c = name.get_char(i);
        proof {
            assert(name@.take(i + 1) =~= name@.take(i as int).push(c));
            lemma_split_push(name@.take(i as int), c);
        }
        if c == '/' {
            let ghost old_components = components.deep_view();
            let ghost old_partial = partial@;
            components.push(partial);
            partial = Vec::new();
            proof {
                assert(components.deep_view() =~~= old_components.push(old_partial));
                assert(split_path(name@.take(i + 1)) =~~= components.deep_view().push(partial@));
            }
        } else {
            let ghost old_parts = components.deep_view().push(partial@);
            partial.push(c);
            proof {
                assert(old_parts.update(old_parts.len() - 1, old_parts.last().push(c))
                    =~~= components.deep_view().push(partial@));
            }
        }
        i = i + 1;
    }
    proof {
        assert(name@.take(n as int) =~= name@);
    }
    components.push(partial);
    proof {
        assert(components.deep_view() =~~= split_path(name@));
    }
    let mut out: Vec<char> = Vec::new();
    let mut kept_any = false;
    let mut j: usize = 0;
    proof {
        assert(components.deep_view().take(0int) =~~= Seq::<Seq<char>>::empty());
        reveal(Seq::filter);
        assert(out@ =~= join_components(
            components.deep_view().take(0int).filter(keep_component()),
        ));
    }
    while j < components.len()
        invariant
            j <= components@.len(),
            kept_any == (components.deep_view().take(j as int).filter(keep_component()).len() > 0),
            out@ == join_components(components.deep_view().take(j as int).filter(keep_component())),
            components.deep_view() == split_path(name@),
        decreases components@.len() - j,
    {
        let comp = &components[j];
        let keep = if comp.len() == 0 {
            false
        } else if comp.len() == 1 {
            comp[0] != '.'
        } else if comp.len() == 2 {
            comp[0] != '.' || comp[1] != '.'
        } else {
            true
        };
        proof {
            if comp@.len() == 1 && comp@[0] == '.' {
                assert(comp@ =~= seq!['.']);
            }
            if comp@.len() == 2 && comp@[0] == '.' && comp@[1] == '.' {
                assert(comp@ =~= seq!['.', '.']);
            }
            if comp@ == seq!['.'] {
                assert(comp@.len() == 1 && comp@[0] == '.');
            }
            if comp@ == seq!['.', '.'] {
                assert(comp@.len() == 2 && comp@[0] == '.' && comp@[1] == '.');
            }
            assert(keep == keep_component()(comp@));
        }
        let ghost parts_before = components.deep_view().take(j as int).filter(keep_component());
        if keep {
            if kept_any {
                out.push('/');
            }
            let mut k: usize = 0;
            let ghost out_start = out@;
            while k < comp.len()
                invariant
                    k <= comp@.len(),
                    out@ == out_start + comp@.take(k as int),
                decreases comp@.len() - k,
            {
                out.push(comp[k]);
                proof {
                    assert(out_start + comp@.take(k + 1) =~= (out_start + comp@.take(
                        k as int,
                    )).push(comp@[k as int]));
                }
                k = k + 1;
            }
            proof {
                assert(comp@.take(comp@.len() as int) =~= comp@);
            }
            kept_any = true;
        }
        proof {
            reveal(Seq::filter);
            let upto = components.deep_view().take(j + 1);
            assert(upto =~~= components.deep_view().take(j as int).push(comp@));
            assert(upto.drop_last() =~~= components.deep_view().take(j as int));
            lemma_join_push(parts_before, comp@);
            if keep_component()(comp@) {
                assert(upto.filter(keep_component()) =~~= parts_before.push(comp@));
                if parts_before.len() == 0 {
                    assert(out@ =~= comp@);
                } else {
                    assert(out@ =~= join_components(parts_before) + seq!['/'] + comp@);
                }
            } else {
                assert(upto.filter(keep_component()) =~~= parts_before);
            }
        }
        j = j + 1;
    }
    proof {
        assert(components.deep_view().take(components@.len() as int) =~~= components.deep_view());
    }
    out
}

/// Sanitizes an archive-supplied path: empty, current-directory and
/// parent-directory components are dropped, and an absolute path becomes
/// relative, so the result never escapes the directory it is joined to.
pub fn sanitize_path(name: &str) -> (r: String)
    ensures
        r@ == spec_sanitize_path(name@),
{
    let chars = sanitize_chars(name);
    chars_to_string(&chars)
}

/// The index of the last separator of a path, or -1 when it has none.
pub open spec fn last_slash(s: Seq<char>) -> int
    decreases s.len(),
{
    if s.len() == 0 {
        -1
    } else if s.last() == '/' {
        s.len() - 1
    } else {
        last_slash(s.drop_last())
    }
}

/// Whether the last component of a path carries an extension: a dot after
/// the component's first character.  A name that is all dot (hidden-file
/// style) has none.
pub open spec fn spec_has_extension(s: Seq<char>) -> bool {
    exists|i: int| last_slash(s) + 2 <= i && i < s.len() && s[i] == '.'
}

/// A non-empty path without an extension gets the default one.
pub open spec fn spec_needs_default_extension(s: Seq<char>) -> bool {
    s.len() > 0 && !spec_has_extension(s)
}

/// Decides `spec_needs_default_extension(v@)`.
fn needs_default_extension(v: &Vec<char>) -> (r: bool)
    ensures
        r == spec_needs_default_extension(v@),
{
    if v.len() == 0 {
        return false;
    }
    let mut k: usize = v.len();
    proof {
        assert(v@.take(v@.len() as int) =~= v@);
    }
    while k > 0 && v[k - 1] != '/'
        invariant
            k <= v@.len(),
            last_slash(v@) == last_slash(v@.take(k as int)),
        decreases k,
    {
        proof {
            assert(v@.take(k as int).drop_last() =~= v@.take(k - 1));
            assert(v@.take(k as int).last() == v@[k - 1]);
        }
        k = k - 1;
    }
    let start: usize = k;
    proof {
        if start > 0 {
            assert(v@.take(start as int).last() == v@[start - 1]);
            assert(last_slash(v@) == start - 1);
        } else {
            assert(v@.take(0int) =~= Seq::<char>::empty());
            assert(last_slash(v@) == -1);
        }
    }
    if start == v.len() {
        return true;
    }
    let mut i: usize = start + 1;
    while i < v.len()
        invariant
            start + 1 <= i <= v@.len(),
            forall|p: int| start + 1 <= p < i ==> v@[p] != '.',
            start == last_slash(v@) + 1,
            v@.len() > 0,
        decreases v@.len() - i,
    {
        if v[i] == '.' {
            return false;
        }
        i = i + 1;
    }
    true
}

/// The name under which a file is materialized: its sanitized path, with
/// the default Solidity extension appended when the path has none and no
/// sibling entry already claims the extended name.
pub open spec fn spec_target_name(name: Seq<char>, all_names: Seq<Seq<char>>) -> Seq<char> {
    let s = spec_sanitize_path(name);
    let ext = s + seq!['.', 's', 'o', 'l'];
    if spec_needs_default_extension(s) && !all_names.contains(ext) {
        ext
    } else {
        s
    }
}

/// The write plan of a set of source files: every file keeps its content
/// and is assigned its materialization name.
pub open spec fn spec_materialize_plan(entries: Seq<SourceFileView>) -> Seq<SourceFileView> {
    let names = entries.map_values(|e: SourceFileView| e.name);
    entries.map_values(
        |e: SourceFileView| SourceFileView {
            name: spec_target_name(e.name, names),
            content: e.content,
        },
    )
}

/// Computes where each file of a source is written: paths are sanitized so
/// that nothing escapes the target directory, and a file without an
/// extension gets the default one unless a sibling entry already claims
/// that name.  The caller creates the directories and writes the returned
/// name/content pairs verbatim.
pub fn materialize_plan(entries: &Vec<SourceFile>) -> (r: Vec<SourceFile>)
    ensures
        r.deep_view() == spec_materialize_plan(entries.deep_view()),
{
    let ghost names = entries.deep_view().map_values(|e: SourceFileView| e.name);
    let mut r: Vec<SourceFile> = Vec::new();
    let mut i: usize = 0;
    proof {
        assert(r.deep_view() =~~= spec_materialize_plan(entries.deep_view()).take(0int));
    }
    while i < entries.len()
        invariant
            i <= entries@.len(),
            names == entries.deep_view().map_values(|e: SourceFileView| e.name),
            r.deep_view() == spec_materialize_plan(entries.deep_view()).take(i as int),
        decreases entries@.len() - i,
    {
        let sc = sanitize_chars(entries[i].name.as_str());
        let name: String;
        if needs_default_extension(&sc) {
            let mut ext = Vec::new();
            let mut k: usize = 0;
            while k < sc.len()
                invariant
                    k <= sc@.len(),
                    ext@ == sc@.take(k as int),
                decreases sc@.len() - k,
            {
                ext.push(sc[k]);
                proof {
                    assert(sc@.take(k + 1) =~= sc@.take(k as int).push(sc@[k as int]));
                }
                k = k + 1;
            }
            proof {
                assert(sc@.take(sc@.len() as int) =~= sc@);
            }
            ext.push('.');
            ext.push('s');
            ext.push('o');
            ext.push('l');
            proof {
                assert(ext@ =~= sc@ + seq!['.', 's', 'o', 'l']);
            }
            let ext_s = chars_to_string(&ext);
            let mut hit = false;
            let mut j: usize = 0;
            while j < entries.len()
                invariant
                    j <= entries@.len(),
                    hit == (exists|p: int| 0 <= p < j && names[p] == ext_s@),
                    names == entries.deep_view().map_values(|e: SourceFileView| e.name),
                decreases entries@.len() - j,
            {
                if entries[j].name.eq(&ext_s) {
                    hit = true;
                    proof {
                        assert(names[j as int] == ext_s@);
                    }
                }
                j = j + 1;
            }
            proof {
                if hit {
                    assert(names.contains(ext_s@));
                } else {
                    assert(!names.contains(ext_s@)) by {
                        if names.contains(ext_s@) {
                            let p = choose|p: int| 0 <= p < names.len() && names[p] == ext_s@;
                            assert(exists|q: int| 0 <= q < entries@.len() && names[q] == ext_s@);
                        }
                    }
                }
            }
            if !hit {
                name = ext_s;
            } else {
                name = chars_to_string(&sc);
            }
        } else {
            name = chars_to_string(&sc);
        }
        let content = entries[i].content.clone();
        r.push(SourceFile { name, content });
        proof {
            let plan = spec_materialize_plan(entries.deep_view());
            assert(entries.deep_view()[i as int].name == entries@[i as int].name@);
            assert(plan[i as int] == SourceFileView {
                name: spec_target_name(entries@[i as int].name@, names),
                content: entries@[i as int].content@,
            });
            assert(r.deep_view() =~~= plan.take(i as int).push(plan[i as int]));
            assert(plan.take(i + 1) =~~= plan.take(i as int).push(plan[i as int]));
        }
        i = i + 1;
    }
    proof {
        let plan = spec_materialize_plan(entries.deep_view());
        assert(plan.take(entries@.len() as int) =~~= plan);
    }
    r
}

/// The views of a sequence of enumerated name/content pairs.
pub open spec fn spec_pair_files(pairs: Seq<(Seq<char>, Seq<char>)>) -> Seq<SourceFileView> {
    pairs.map_values(|p: (Seq<char>, Seq<char>)| SourceFileView { name: p.0, content: p.1 })
}

impl PlainContract {
    /// The write plan for exporting this contract's source files: its
    /// enumerated files under their materialization names.  A malformed
    /// embedded document is a hard error, as in enumeration.
    pub fn export_plan(&self) -> (r: Result<Vec<SourceFile>, SourceError>)
        ensures
            (r is Ok) == (spec_enumerated_pairs(self@.source) is Ok),
            r matches Ok(plan) ==> spec_enumerated_pairs(self@.source) matches Ok(m)
                && plan.deep_view() == spec_materialize_plan(spec_pair_files(m)),
            r matches Err(e) ==> spec_enumerated_pairs(self@.source) matches Err(e2) && e == e2,
    {
        let files = match self.get_source_files() {
            Ok(files) => files,
            Err(e) => {
                return Err(e);
            },
        };
        let plan = materialize_plan(&files);
        proof {
            match spec_enumerated_pairs(self@.source) {
                Ok(m) => {
                    assert(files.deep_view() =~~= spec_pair_files(m));
                },
                Err(_) => {},
            }
        }
        Ok(plan)
    }
}

/// Whether a file name ends in the primary source extension.
pub open spec fn spec_has_solidity_extension(s: Seq<char>) -> bool {
    s.len() >= 4 && s.skip(s.len() - 4) == seq!['.', 's', 'o', 'l']
}

/// Decides whether a file name ends in `.sol`; ingestion collects exactly
/// these files when a directory holds no bundling document.
pub fn has_solidity_extension(name: &str) -> (r: bool)
    ensures
        r == spec_has_solidity_extension(name@),
{
    let n: usize = name.unicode_len();
    if n < 4 {
        return false;
    }
    let c0 = name.get_char(n - 4);
    let c1 = name.get_char(n - 3);
    let c2 = name.get_char(n - 2);
    let c3 = name.get_char(n - 1);
    let r = c0 == '.' && c1 == 's' && c2 == 'o' && c3 == 'l';
    proof {
        let tail = name@.skip(n - 4);
        assert(tail.len() == 4);
        assert(tail[0] == c0 && tail[1] == c1 && tail[2] == c2 && tail[3] == c3);
        if r {
            assert(tail =~= seq!['.', 's', 'o', 'l']);
        } else {
            assert(tail != seq!['.', 's', 'o', 'l']);
        }
    }
    r
}

} // verus!
