//! The search service: query execution, document point lookups, snippet
//! generation, facet statistics.
//!
//! The store decides which documents match and how they score; what this
//! module guarantees is on its side of that line: result lists respect the
//! limit, a malformed query surfaces as the recoverable `BadQuery` while
//! index failures surface as `IndexIO`, and every returned snippet carries
//! well-formed highlight intervals: sorted, pairwise disjoint and inside
//! the path.

use vstd::prelude::*;

use crate::ErrorKind;
use crate::doctags::string_eq_str;
use crate::query::compile_query;
use crate::store;

verus! {

/// The cap applied when a caller passes limit 0, "unlimited".
pub const UNLIMITED_CAP: usize = 100_000;

/// One document hit: the stored fields of an indexed entry. The
/// `parent_id` field of the schema is indexed but not stored, so a hit
/// carries only the id and the path.
pub struct DocHit {
    pub id: u64,
    pub path: String,
}

/// Half-open intervals that are in bounds, non-empty, sorted and pairwise
/// disjoint.
pub open spec fn intervals_wf(hl: Seq<(usize, usize)>, len: nat) -> bool {
    &&& forall|i: int| 0 <= i < hl.len() ==> (#[trigger] hl[i]).0 < hl[i].1 && hl[i].1 <= len
    &&& forall|i: int| 0 < i < hl.len() ==> (#[trigger] hl[i]).0 >= hl[i - 1].1
}

/// One search hit with its snippet: the stored path and the highlight
/// intervals into it, as half-open byte ranges.
pub struct Match {
    pub text: String,
    pub highlights: Vec<(usize, usize)>,
}

impl Match {
    /// The highlight intervals are well-formed with respect to the path:
    /// the store hands out byte offsets, so the bound is the path's
    /// length in UTF-8 bytes.
    pub open spec fn wf(&self) -> bool {
        intervals_wf(self.highlights@, vstd::utf8::encode_utf8(self.text@).len())
    }
}

/// Decides whether a list of intervals is well-formed for a fragment of
/// the given byte length.
pub fn intervals_ok(ranges: &Vec<(usize, usize)>, len: usize) -> (b: bool)
    ensures
        b == intervals_wf(ranges@, len as nat),
{
    let n = ranges.len();
    let mut i: usize = 0;
    while i < n
        invariant
            n == ranges@.len(),
            0 <= i <= n,
            forall|j: int|
                0 <= j < i ==> (#[trigger] ranges@[j]).0 < ranges@[j].1 && ranges@[j].1 <= len,
            forall|j: int| 0 < j < i ==> (#[trigger] ranges@[j]).0 >= ranges@[j - 1].1,
        decreases n - i,
    {
        let (s, e) = ranges[i];
        if !(s < e && e <= len) {
            return false;
        }
        if i > 0 && s < ranges[i - 1].1 {
            return false;
        }
        i = i + 1;
    }
    true
}

/// Keeps the intervals that are in bounds, non-empty and start no earlier
/// than the previous kept interval ends; an input that is already
/// well-formed passes through unchanged.
pub fn normalize_highlights(ranges: Vec<(usize, usize)>, len: usize) -> (r: Vec<(usize, usize)>)
    ensures
        intervals_wf(r@, len as nat),
        intervals_wf(ranges@, len as nat) ==> r@ == ranges@,
{
    if intervals_ok(&ranges, len) {
        return ranges;
    }
    let n = ranges.len();
    let mut r: Vec<(usize, usize)> = Vec::new();
    let mut i: usize = 0;
    while i < n
        invariant
            n == ranges@.len(),
            0 <= i <= n,
            intervals_wf(r@, len as nat),
        decreases n - i,
    {
        let (s, e) = ranges[i];
        let keep = if r.len() == 0 {
            s < e && e <= len
        } else {
            let prev_end = r[r.len() - 1].1;
            s < e && e <= len && s >= prev_end
        };
        if keep {
            let ghost r0 = r@;
            r.push((s, e));
            assert forall|j: int|
                0 <= j < r@.len() implies (#[trigger] r@[j]).0 < r@[j].1 && r@[j].1 <= len by {
                if j < r0.len() {
                    assert(r@[j] == r0[j]);
                }
            }
            assert forall|j: int| 0 < j < r@.len() implies (#[trigger] r@[j]).0 >= r@[j
                - 1].1 by {
                if j < r0.len() {
                    assert(r@[j] == r0[j]);
                    assert(r@[j - 1] == r0[j - 1]);
                }
            }
        }
        i = i + 1;
    }
    r
}

/// Compiles query text against an index: tag atoms become required facet
/// clauses, the residual text is given to the store's path-field parser.
/// An unparsable residual fails with `BadQuery`; a missing schema field
/// fails with `IndexIO`.
pub fn doctags_query(index: &tantivy::Index, text: &String) -> (r: Result<
    store::BoundQuery,
    ErrorKind,
>)
    ensures
        r is Err ==> r == Err::<store::BoundQuery, ErrorKind>(ErrorKind::BadQuery) || r == Err::<
            store::BoundQuery,
            ErrorKind,
        >(ErrorKind::IndexIO),
{
    let compiled = compile_query(text.as_str());
    let mut q = match store::parse_residual(index, "path", compiled.residual.as_str()) {
        Ok(q) => q,
        Err(e) => {
            return Err(e);
        },
    };
    let n = compiled.facets.len();
    let mut i: usize = 0;
    while i < n
        invariant
            n == compiled.facets@.len(),
            forall|k: int|
                0 <= k < n ==> crate::tags::valid_facet(#[trigger] compiled.facets@[k]@),
        decreases n - i,
    {
        q = match store::query_and_facet(q, "tags", compiled.facets[i].as_str()) {
            Ok(q2) => q2,
            Err(_) => {
                return Err(ErrorKind::IndexIO);
            },
        };
        i = i + 1;
    }
    Ok(q)
}

/// Compiles free text with the store's path-field parser alone, without
/// tag-atom extraction.
pub fn raw_query(index: &tantivy::Index, text: &str) -> (r: Result<store::BoundQuery, ErrorKind>)
    ensures
        r is Err ==> r == Err::<store::BoundQuery, ErrorKind>(ErrorKind::BadQuery) || r == Err::<
            store::BoundQuery,
            ErrorKind,
        >(ErrorKind::IndexIO),
{
    store::parse_residual(index, "path", text)
}

/// The limit actually applied: 0 means unlimited, capped at 100 000.
pub open spec fn effective_limit(limit: usize) -> usize {
    if limit == 0 {
        UNLIMITED_CAP
    } else {
        limit
    }
}

fn hit_from_doc(doc: &tantivy::TantivyDocument, schema: &tantivy::schema::Schema) -> (r: Result<
    DocHit,
    ErrorKind,
>)
    ensures
        r is Err ==> r == Err::<DocHit, ErrorKind>(ErrorKind::IndexIO),
{
    let id_field = match store::get_field(schema, "id") {
        Ok(f) => f,
        Err(_) => {
            return Err(ErrorKind::IndexIO);
        },
    };
    let path_field = match store::get_field(schema, "path") {
        Ok(f) => f,
        Err(_) => {
            return Err(ErrorKind::IndexIO);
        },
    };
    let id = match store::doc_get_u64(doc, &id_field) {
        Some(v) => v,
        None => {
            return Err(ErrorKind::IndexIO);
        },
    };
    let path = match store::doc_get_text(doc, &path_field) {
        Some(p) => p,
        None => {
            return Err(ErrorKind::IndexIO);
        },
    };
    Ok(DocHit { id, path })
}

/// Executes a composite query and returns the matching paths in
/// descending relevance order, at most the effective limit of them;
/// `limit = 0` stands for unlimited, capped at 100 000.
pub fn search(index: &tantivy::Index, text: String, limit: usize) -> (r: Result<
    Vec<String>,
    ErrorKind,
>)
    ensures
        r matches Ok(v) ==> v@.len() <= effective_limit(limit),
        r is Err ==> r == Err::<Vec<String>, ErrorKind>(ErrorKind::BadQuery) || r == Err::<
            Vec<String>,
            ErrorKind,
        >(ErrorKind::IndexIO),
{
    let limit = if limit == 0 {
        UNLIMITED_CAP
    } else {
        limit
    };
    let query = doctags_query(index, &text)?;
    let docs = match store::search_top_docs(&query, limit) {
        Ok(d) => d,
        Err(_) => {
            return Err(ErrorKind::IndexIO);
        },
    };
    let schema = store::index_schema(index);
    let mut docs = docs;
    let mut out: Vec<String> = Vec::new();
    let ghost total = docs@.len();
    while docs.len() > 0
        invariant
            out@.len() + docs@.len() == total,
            total <= effective_limit(limit),
        decreases docs@.len(),
    {
        let doc = docs.remove(0);
        let hit = hit_from_doc(&doc, &schema)?;
        out.push(hit.path);
    }
    Ok(out)
}

/// How many leading characters of a snippet fragment precede the path
/// text: 0 when the fragment is the path itself, 1 when the store
/// prepended a single space (one byte), `None` for any other shape, such
/// as a truncated fragment, whose byte offsets cannot be re-based onto
/// the path.
fn fragment_offset(fragment: &String, text: &String) -> (r: Option<usize>) {
    let fl = fragment.as_str().unicode_len();
    let tl = text.as_str().unicode_len();
    if fl == tl {
        if string_eq_str(fragment, text.as_str()) {
            return Some(0);
        }
        return None;
    }
    if fl == 0 || fl - 1 != tl {
        return None;
    }
    if fragment.as_str().get_char(0) != ' ' {
        return None;
    }
    let mut i: usize = 0;
    while i < tl
        invariant
            tl == text@.len(),
            fl == fragment@.len(),
            fl == tl + 1,
            0 <= i <= tl,
        decreases tl - i,
    {
        if fragment.as_str().get_char(i + 1) != text.as_str().get_char(i) {
            return None;
        }
        i = i + 1;
    }
    Some(1)
}

/// Moves every interval `off` bytes left, dropping the ones that start
/// before the offset.
fn shift_ranges(ranges: Vec<(usize, usize)>, off: usize) -> (r: Vec<(usize, usize)>) {
    let n = ranges.len();
    let mut r: Vec<(usize, usize)> = Vec::new();
    let mut i: usize = 0;
    while i < n
        invariant
            n == ranges@.len(),
            0 <= i <= n,
        decreases n - i,
    {
        let (s, e) = ranges[i];
        if s >= off && e >= off {
            r.push((s - off, e - off));
        }
        i = i + 1;
    }
    r
}

/// Executes a composite query and returns each hit's path with its
/// snippet; `max_results = 0` stands for unlimited, capped at 100 000.
/// The highlight intervals of every returned match are well-formed:
/// non-empty, sorted, disjoint and inside the path, as byte offsets. The
/// store reports offsets into its snippet fragment, which carries the
/// path behind one leading space; the offsets are re-based onto the path,
/// and a fragment of any other shape yields a match without highlights.
pub fn search_matches(index: &tantivy::Index, input: &String, max_results: usize) -> (r: Result<
    Vec<Match>,
    ErrorKind,
>)
    ensures
        r matches Ok(v) ==> v@.len() <= effective_limit(max_results) && (forall|i: int|
            0 <= i < v@.len() ==> (#[trigger] v@[i]).wf()),
        r is Err ==> r == Err::<Vec<Match>, ErrorKind>(ErrorKind::BadQuery) || r == Err::<
            Vec<Match>,
            ErrorKind,
        >(ErrorKind::IndexIO),
{
    let limit = if max_results == 0 {
        UNLIMITED_CAP
    } else {
        max_results
    };
    let query = doctags_query(index, input)?;
    let schema = store::index_schema(index);
    let docs = match store::search_top_docs(&query, limit) {
        Ok(d) => d,
        Err(_) => {
            return Err(ErrorKind::IndexIO);
        },
    };
    let generator = match store::snippet_generator(&query, "path") {
        Ok(g) => g,
        Err(_) => {
            return Err(ErrorKind::IndexIO);
        },
    };
    let mut docs = docs;
    let mut out: Vec<Match> = Vec::new();
    let ghost total = docs@.len();
    while docs.len() > 0
        invariant
            out@.len() + docs@.len() == total,
            total <= effective_limit(max_results),
            forall|i: int| 0 <= i < out@.len() ==> (#[trigger] out@[i]).wf(),
        decreases docs@.len(),
    {
        let doc = docs.remove(0);
        let hit = hit_from_doc(&doc, &schema)?;
        let (fragment, ranges) = store::doc_snippet(&generator, &doc);
        let shifted = match fragment_offset(&fragment, &hit.path) {
            Some(off) => shift_ranges(ranges, off),
            None => Vec::new(),
        };
        let text_bytes = hit.path.as_str().len();
        let highlights = normalize_highlights(shifted, text_bytes);
        let m = Match { text: hit.path, highlights };
        assert(m.wf());
        out.push(m);
    }
    Ok(out)
}

fn search_single_doc(index: &tantivy::Index, query: &store::BoundQuery) -> (r: Result<
    Option<DocHit>,
    ErrorKind,
>)
    ensures
        r is Err ==> r == Err::<Option<DocHit>, ErrorKind>(ErrorKind::IndexIO),
{
    let mut docs = match store::search_top_docs(query, 1) {
        Ok(d) => d,
        Err(_) => {
            return Err(ErrorKind::IndexIO);
        },
    };
    if docs.len() == 0 {
        return Ok(None);
    }
    let doc = docs.remove(0);
    let schema = store::index_schema(index);
    let hit = hit_from_doc(&doc, &schema)?;
    Ok(Some(hit))
}

/// Looks one document up by its id.
pub fn doc_from_id(index: &tantivy::Index, id: u64) -> (r: Result<Option<DocHit>, ErrorKind>)
    ensures
        r is Err ==> r == Err::<Option<DocHit>, ErrorKind>(ErrorKind::IndexIO),
{
    let query = match store::u64_term_query(index, "id", id) {
        Ok(q) => q,
        Err(_) => {
            return Err(ErrorKind::IndexIO);
        },
    };
    search_single_doc(index, &query)
}

/// Looks one document up by its stored path. An exact-term query on the
/// tokenized path field finds nothing, so the path is given to the parsed
/// query first, with the exact-term query as the fallback.
pub fn doc_from_path(index: &tantivy::Index, path: &String) -> (r: Result<
    Option<DocHit>,
    ErrorKind,
>)
    ensures
        r is Err ==> r == Err::<Option<DocHit>, ErrorKind>(ErrorKind::IndexIO),
{
    let query = match store::parse_residual(index, "path", path.as_str()) {
        Ok(q) => q,
        Err(ErrorKind::BadQuery) => {
            match store::text_term_query(index, "path", path.as_str()) {
                Ok(q) => q,
                Err(_) => {
                    return Err(ErrorKind::IndexIO);
                },
            }
        },
        Err(_) => {
            return Err(ErrorKind::IndexIO);
        },
    };
    search_single_doc(index, &query)
}

/// The statistics of an index: the total document count, and for every
/// facet under the root, its occurrence count.
pub struct Stats {
    pub total: usize,
    pub facet_counts: Vec<(String, u64)>,
}

/// Collects the index statistics: the document count and the top-level
/// facet counts.
pub fn stats(index: &tantivy::Index) -> (r: Result<Stats, ErrorKind>)
    ensures
        r is Err ==> r == Err::<Stats, ErrorKind>(ErrorKind::IndexIO),
{
    let all = store::all_docs_query(index);
    let total = match store::search_count(&all) {
        Ok(c) => c,
        Err(_) => {
            return Err(ErrorKind::IndexIO);
        },
    };
    let facet_counts = match store::facet_counts(index, "tags", "/") {
        Ok(f) => f,
        Err(_) => {
            return Err(ErrorKind::IndexIO);
        },
    };
    Ok(Stats { total, facet_counts })
}

} // verus!
