//! The composite query language.
//!
//! A query mixes free-text path terms with tag atoms. A tag atom is a
//! maximal run of one or more colon-prefixed segments of tag characters,
//! written without spaces, such as `:lang:rust` or `:gitrepo`. Compilation
//! extracts every tag atom occurrence, turns each into a facet path by
//! replacing colons with slashes, and removes it from the text; the
//! remaining text is trimmed, an empty remainder standing for match-all
//! (`*`).

use vstd::prelude::*;

use crate::tags::is_tag_char;
use crate::tags::valid_facet;

verus! {

/// Whether a tag atom starts at position `i`: a colon directly followed by
/// a tag character.
pub open spec fn is_atom_start(s: Seq<char>, i: int) -> bool {
    &&& 0 <= i
    &&& i + 1 < s.len()
    &&& s[i] == ':'
    &&& is_tag_char(s[i + 1])
}

/// The end of the run of tag characters that starts at `i`.
pub open spec fn run_end(s: Seq<char>, i: int) -> int
    decreases s.len() - i,
{
    if 0 <= i < s.len() && is_tag_char(s[i]) {
        run_end(s, i + 1)
    } else {
        i
    }
}

/// The run of tag characters from `i` ends at the first position that
/// holds no tag character.
pub proof fn lemma_run_end_bounds(s: Seq<char>, i: int)
    requires
        0 <= i <= s.len(),
    ensures
        i <= run_end(s, i) <= s.len(),
        forall|k: int| i <= k < run_end(s, i) ==> is_tag_char(#[trigger] s[k]),
        run_end(s, i) < s.len() ==> !is_tag_char(s[run_end(s, i)]),
    decreases s.len() - i,
{
    if i < s.len() && is_tag_char(s[i]) {
        lemma_run_end_bounds(s, i + 1);
    }
}

/// A scan that stops exactly where the run of tag characters ends computes
/// `run_end`.
pub proof fn lemma_run_end_char(s: Seq<char>, i: int, j: int)
    requires
        0 <= i <= j <= s.len(),
        forall|k: int| i <= k < j ==> is_tag_char(#[trigger] s[k]),
        j < s.len() ==> !is_tag_char(s[j]),
    ensures
        run_end(s, i) == j,
    decreases j - i,
{
    if i < j {
        lemma_run_end_char(s, i + 1, j);
    }
}

/// The end of the tag atom that starts at `i`: segments of tag characters,
/// each introduced by a colon, taken greedily.
pub open spec fn atom_end(s: Seq<char>, i: int) -> int
    decreases s.len() - i,
    when is_atom_start(s, i)
    via atom_end_dec
{
    let j = run_end(s, i + 1);
    if is_atom_start(s, j) {
        atom_end(s, j)
    } else {
        j
    }
}

#[via_fn]
proof fn atom_end_dec(s: Seq<char>, i: int) {
    lemma_run_end_bounds(s, i + 1);
}

/// An atom spans at least one colon and one tag character.
pub proof fn lemma_atom_end_bounds(s: Seq<char>, i: int)
    requires
        is_atom_start(s, i),
    ensures
        i + 2 <= atom_end(s, i) <= s.len(),
    decreases s.len() - i,
{
    lemma_run_end_bounds(s, i + 1);
    let j = run_end(s, i + 1);
    if is_atom_start(s, j) {
        lemma_atom_end_bounds(s, j);
    }
}

/// The characters of an atom: a colon at the start, tag characters and
/// colons throughout, every colon followed by a tag character, a tag
/// character at the end.
pub proof fn lemma_atom_chars(s: Seq<char>, i: int)
    requires
        is_atom_start(s, i),
    ensures
        i + 2 <= atom_end(s, i) <= s.len(),
        forall|k: int|
            i <= k < atom_end(s, i) ==> (is_tag_char(#[trigger] s[k]) || s[k] == ':'),
        forall|k: int|
            i <= k < atom_end(s, i) && #[trigger] s[k] == ':' ==> k + 1 < atom_end(s, i)
                && is_tag_char(s[k + 1]),
        is_tag_char(s[atom_end(s, i) - 1]),
    decreases s.len() - i,
{
    lemma_run_end_bounds(s, i + 1);
    let j = run_end(s, i + 1);
    if is_atom_start(s, j) {
        lemma_atom_chars(s, j);
    }
}

/// Colons replaced by slashes, the transformation that turns a tag atom
/// into its facet path.
pub open spec fn facetize(a: Seq<char>) -> Seq<char> {
    a.map(|k: int, c: char| if c == ':' { '/' } else { c })
}

/// A tag atom's facet path is well formed.
pub proof fn lemma_atom_facet_valid(s: Seq<char>, i: int)
    requires
        is_atom_start(s, i),
    ensures
        valid_facet(facetize(s.subrange(i, atom_end(s, i)))),
{
    lemma_atom_chars(s, i);
    let e = atom_end(s, i);
    let a = s.subrange(i, e);
    let f = facetize(a);
    assert(f.len() >= 2);
    assert(f[0] == '/');
    assert(forall|k: int| 0 <= k < f.len() ==> is_tag_char(#[trigger] a[k]) || a[k] == ':');
    assert forall|k: int| 0 <= k < f.len() implies is_tag_char(#[trigger] f[k]) || f[k]
        == '/' by {
        if a[k] == ':' {
        } else {
            assert(f[k] == a[k]);
        }
    }
    assert(is_tag_char(a[f.len() - 1]));
    assert(f[f.len() - 1] == a[f.len() - 1]);
    assert forall|k: int| 0 < k < f.len() implies !(f[k - 1] == '/' && #[trigger] f[k]
        == '/') by {
        if f[k - 1] == '/' {
            assert(a[k - 1] == ':' || is_tag_char(a[k - 1]));
            if a[k - 1] == ':' {
                assert(is_tag_char(a[k]));
                assert(f[k] == a[k]);
            } else {
                assert(is_tag_char(a[k - 1]));
                assert(f[k - 1] == a[k - 1]);
                assert(a[k - 1] != '/');
            }
        }
    }
}

/// The extraction of every tag atom from position `i` on: the facet paths
/// of the atoms in order, and the remaining text.
pub open spec fn extract_from(s: Seq<char>, i: int) -> (Seq<Seq<char>>, Seq<char>)
    decreases s.len() - i,
    when 0 <= i
    via extract_from_dec
{
    if i >= s.len() {
        (Seq::empty(), Seq::empty())
    } else if is_atom_start(s, i) {
        let e = atom_end(s, i);
        let rest = extract_from(s, e);
        (seq![facetize(s.subrange(i, e))] + rest.0, rest.1)
    } else {
        let rest = extract_from(s, i + 1);
        (rest.0, seq![s[i]] + rest.1)
    }
}

#[via_fn]
proof fn extract_from_dec(s: Seq<char>, i: int) {
    if i < s.len() && is_atom_start(s, i) {
        lemma_atom_end_bounds(s, i);
    }
}

/// The facet paths required by a query: one per tag atom occurrence.
pub open spec fn query_facets(s: Seq<char>) -> Seq<Seq<char>> {
    extract_from(s, 0).0
}

/// The query text with every tag atom removed, untrimmed.
pub open spec fn query_residual_raw(s: Seq<char>) -> Seq<char> {
    extract_from(s, 0).1
}

/// Whitespace for the purposes of query trimming.
pub open spec fn is_space_char(c: char) -> bool {
    c == ' ' || c == '\t' || c == '\n' || c == '\r'
}

/// Leading whitespace removed.
pub open spec fn ltrim(s: Seq<char>) -> Seq<char>
    decreases s.len(),
{
    if s.len() > 0 && is_space_char(s.first()) {
        ltrim(s.drop_first())
    } else {
        s
    }
}

/// Trailing whitespace removed.
pub open spec fn rtrim(s: Seq<char>) -> Seq<char>
    decreases s.len(),
{
    if s.len() > 0 && is_space_char(s.last()) {
        rtrim(s.drop_last())
    } else {
        s
    }
}

/// Leading and trailing whitespace removed.
pub open spec fn trim_spec(s: Seq<char>) -> Seq<char> {
    rtrim(ltrim(s))
}

/// The residual path query: the remaining text trimmed, or `*` when
/// nothing remains.
pub open spec fn query_residual(s: Seq<char>) -> Seq<char> {
    if trim_spec(query_residual_raw(s)).len() == 0 {
        seq!['*']
    } else {
        trim_spec(query_residual_raw(s))
    }
}

proof fn lemma_ltrim_skip(s: Seq<char>, k: int)
    requires
        0 <= k <= s.len(),
        forall|j: int| 0 <= j < k ==> is_space_char(#[trigger] s[j]),
        k < s.len() ==> !is_space_char(s[k]),
    ensures
        ltrim(s) == s.skip(k),
    decreases k,
{
    if k == 0 {
        assert(s.skip(0) =~= s);
    } else {
        assert(is_space_char(s.first()));
        lemma_ltrim_skip(s.drop_first(), k - 1);
        assert(s.drop_first().skip(k - 1) =~= s.skip(k));
    }
}

proof fn lemma_rtrim_take(s: Seq<char>, k: int)
    requires
        0 <= k <= s.len(),
        forall|j: int| k <= j < s.len() ==> is_space_char(#[trigger] s[j]),
        k > 0 ==> !is_space_char(s[k - 1]),
    ensures
        rtrim(s) == s.take(k),
    decreases s.len(),
{
    if k == s.len() {
        if s.len() > 0 && is_space_char(s.last()) {
            assert(false);
        }
        assert(s.take(k) =~= s);
    } else {
        assert(is_space_char(s.last()));
        lemma_rtrim_take(s.drop_last(), k);
        assert(s.drop_last().take(k) =~= s.take(k));
    }
}

/// Decides whether one character may stand in a tag component; the exec
/// counterpart of `is_tag_char`.
fn tag_char_q(c: char) -> (b: bool)
    ensures
        b == is_tag_char(c),
{
    ('A' <= c && c <= 'Z') || ('a' <= c && c <= 'z') || ('0' <= c && c <= '9') || c == '_' || c
        == '-' || c == '.'
}

fn is_space(c: char) -> (b: bool)
    ensures
        b == is_space_char(c),
{
    c == ' ' || c == '\t' || c == '\n' || c == '\r'
}

/// Scans to the end of the run of tag characters starting at `j0`.
fn scan_run_end(text: &str, j0: usize) -> (j: usize)
    requires
        j0 <= text@.len(),
    ensures
        j == run_end(text@, j0 as int),
        j0 <= j <= text@.len(),
{
    let n = text.unicode_len();
    let mut j = j0;
    while j < n && tag_char_q(text.get_char(j))
        invariant
            n == text@.len(),
            j0 <= j <= n,
            forall|k: int| j0 <= k < j ==> is_tag_char(#[trigger] text@[k]),
        decreases n - j,
    {
        j = j + 1;
    }
    proof {
        lemma_run_end_char(text@, j0 as int, j as int);
    }
    j
}

/// Scans to the end of the tag atom starting at `i`.
fn scan_atom_end(text: &str, i: usize) -> (e: usize)
    requires
        is_atom_start(text@, i as int),
    ensures
        e == atom_end(text@, i as int),
        i + 2 <= e <= text@.len(),
{
    let n = text.unicode_len();
    proof {
        lemma_atom_end_bounds(text@, i as int);
    }
    let mut p = i;
    loop
        invariant
            n == text@.len(),
            i <= p < n,
            is_atom_start(text@, p as int),
            atom_end(text@, i as int) == atom_end(text@, p as int),
            atom_end(text@, i as int) >= i + 2,
        decreases n - p,
    {
        proof {
            lemma_atom_end_bounds(text@, p as int);
            lemma_run_end_bounds(text@, p + 1);
        }
        let j = scan_run_end(text, p + 1);
        if j < n && text.get_char(j) == ':' && j + 1 < n && tag_char_q(text.get_char(j + 1)) {
            assert(is_atom_start(text@, j as int));
            p = j;
        } else {
            assert(!is_atom_start(text@, j as int));
            assert(atom_end(text@, p as int) == j);
            return j;
        }
    }
}

/// A compiled query: the facet paths demanded by the tag atoms, and the
/// residual path-field text.
pub struct CompiledQuery {
    pub facets: Vec<String>,
    pub residual: String,
}

/// Compiles query text: extracts every tag atom into a facet path and
/// leaves the trimmed remaining text, `*` when nothing remains.
pub fn compile_query(text: &str) -> (r: CompiledQuery)
    ensures
        r.facets.deep_view() == query_facets(text@),
        r.residual@ == query_residual(text@),
        forall|i: int| 0 <= i < r.facets@.len() ==> valid_facet(#[trigger] r.facets@[i]@),
{
    let n = text.unicode_len();
    let mut facets: Vec<String> = Vec::new();
    let mut raw = String::new();
    let mut i: usize = 0;
    assert(facets.deep_view() =~= Seq::<Seq<char>>::empty());
    while i < n
        invariant
            n == text@.len(),
            0 <= i <= n,
            extract_from(text@, 0).0 == facets.deep_view() + extract_from(text@, i as int).0,
            extract_from(text@, 0).1 == raw@ + extract_from(text@, i as int).1,
            forall|k: int| 0 <= k < facets@.len() ==> valid_facet(#[trigger] facets@[k]@),
        decreases n - i,
    {
        let c = text.get_char(i);
        let atom_here = i + 1 < n && c == ':' && tag_char_q(text.get_char(i + 1));
        if atom_here {
            assert(is_atom_start(text@, i as int));
            let e = scan_atom_end(text, i);
            let mut f = String::new();
            let mut k = i;
            assert(f@ =~= facetize(text@.subrange(i as int, i as int)));
            while k < e
                invariant
                    n == text@.len(),
                    i <= k <= e <= n,
                    f@ == facetize(text@.subrange(i as int, k as int)),
                decreases e - k,
            {
                let ck = text.get_char(k);
                if ck == ':' {
                    f.push('/');
                } else {
                    f.push(ck);
                }
                assert(f@ =~= facetize(text@.subrange(i as int, k + 1)));
                k = k + 1;
            }
            proof {
                lemma_atom_facet_valid(text@, i as int);
            }
            crate::doctags::push_owned(&mut facets, f);
            assert(facets.deep_view() =~= (facets.deep_view().take(facets.deep_view().len() - 1))
                .push(facetize(text@.subrange(i as int, e as int))));
            assert(extract_from(text@, i as int).0 =~= seq![
                facetize(text@.subrange(i as int, e as int)),
            ] + extract_from(text@, e as int).0);
            assert(extract_from(text@, 0).0 =~= facets.deep_view() + extract_from(
                text@,
                e as int,
            ).0);
            i = e;
        } else {
            assert(!is_atom_start(text@, i as int));
            raw.push(c);
            assert(extract_from(text@, i as int).1 =~= seq![text@[i as int]] + extract_from(
                text@,
                i + 1,
            ).1);
            assert(extract_from(text@, 0).1 =~= raw@ + extract_from(text@, i + 1).1);
            i = i + 1;
        }
    }
    assert(extract_from(text@, n as int).0 =~= Seq::<Seq<char>>::empty());
    assert(extract_from(text@, n as int).1 =~= Seq::<char>::empty());
    assert(facets.deep_view() =~= query_facets(text@));
    assert(raw@ =~= query_residual_raw(text@));
    let residual = trim_string(&raw);
    if residual.as_str().unicode_len() == 0 {
        let mut star = String::new();
        star.push('*');
        assert(star@ =~= seq!['*']);
        return CompiledQuery { facets, residual: star };
    }
    CompiledQuery { facets, residual }
}

/// Removes leading and trailing whitespace.
fn trim_string(s: &String) -> (r: String)
    ensures
        r@ == trim_spec(s@),
{
    let n = s.as_str().unicode_len();
    let mut a: usize = 0;
    while a < n && is_space(s.as_str().get_char(a))
        invariant
            n == s@.len(),
            0 <= a <= n,
            forall|j: int| 0 <= j < a ==> is_space_char(#[trigger] s@[j]),
        decreases n - a,
    {
        a = a + 1;
    }
    proof {
        lemma_ltrim_skip(s@, a as int);
    }
    let mut b: usize = n;
    while b > a && is_space(s.as_str().get_char(b - 1))
        invariant
            n == s@.len(),
            a <= b <= n,
            forall|j: int| b <= j < n ==> is_space_char(#[trigger] s@[j]),
        decreases b,
    {
        b = b - 1;
    }
    proof {
        let lt = s@.skip(a as int);
        assert(forall|j: int|
            b - a <= j < lt.len() ==> is_space_char(#[trigger] lt[j]));
        if b > a {
            assert(!is_space_char(lt[b - a - 1]));
        }
        lemma_rtrim_take(lt, b - a);
    }
    let piece = s.as_str().substring_char(a, b);
    let r = piece.to_owned();
    assert(r@ =~= trim_spec(s@));
    r
}

} // verus!
