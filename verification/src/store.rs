//! The document store, a tantivy index.
//!
//! Everything the library takes from tantivy passes through this module:
//! the type declarations that let tantivy's values cross verified
//! signatures opaquely, and one trusted wrapper per tantivy call. What a
//! search returns depends on what lies in the index directory, so the
//! wrappers state only what holds of every outcome; the exact statements
//! live on the verified functions that take the wrappers' results as
//! arguments.

use vstd::prelude::*;

use crate::tags::valid_facet;

verus! {

#[verifier::external_type_specification]
#[verifier::external_body]
pub struct ExIndex(tantivy::Index);

#[verifier::external_type_specification]
#[verifier::external_body]
pub struct ExSchema(tantivy::schema::Schema);

#[verifier::external_type_specification]
#[verifier::external_body]
pub struct ExField(tantivy::schema::Field);

/// The store's writer handle. Verus refuses the declaration of
/// tantivy::IndexWriter, whose type parameter is bound by tantivy's
/// Document trait, so the writer is held opaquely in this struct.
#[verifier::external_body]
pub struct WriterHandle {
    inner: tantivy::IndexWriter<tantivy::TantivyDocument>,
}

#[verifier::external_type_specification]
#[verifier::external_body]
pub struct ExTantivyDocument(tantivy::TantivyDocument);

#[verifier::external_type_specification]
#[verifier::external_body]
pub struct ExTantivyError(tantivy::TantivyError);

#[verifier::external_type_specification]
#[verifier::external_body]
pub struct ExBooleanQuery(tantivy::query::BooleanQuery);

#[verifier::external_type_specification]
#[verifier::external_body]
pub struct ExQueryParserError(tantivy::query::QueryParserError);

#[verifier::external_type_specification]
#[verifier::external_body]
pub struct ExSnippetGenerator(tantivy::snippet::SnippetGenerator);

/// Relies on tantivy's SchemaBuilder (add_u64_field, add_text_field,
/// add_facet_field, build): a schema with an indexed, stored u64 field, an
/// indexed u64 field, a tokenized, stored text field and a facet field,
/// under the four names given. The builder panics when two fields share a
/// name and asserts that every name is valid — non-empty, not starting
/// with a dash — so the names must be pairwise distinct and well formed.
#[verifier::external_body]
pub(crate) fn build_doctags_schema(
    id_name: &str,
    parent_name: &str,
    path_name: &str,
    tags_name: &str,
) -> (r: tantivy::schema::Schema)
    requires
        id_name@.len() > 0 && id_name@[0] != '-',
        parent_name@.len() > 0 && parent_name@[0] != '-',
        path_name@.len() > 0 && path_name@[0] != '-',
        tags_name@.len() > 0 && tags_name@[0] != '-',
        id_name@ != parent_name@,
        id_name@ != path_name@,
        id_name@ != tags_name@,
        parent_name@ != path_name@,
        parent_name@ != tags_name@,
        path_name@ != tags_name@,
{
    let mut b = tantivy::schema::Schema::builder();
    b.add_u64_field(id_name, tantivy::schema::INDEXED | tantivy::schema::STORED);
    b.add_u64_field(parent_name, tantivy::schema::INDEXED);
    b.add_text_field(path_name, tantivy::schema::TEXT | tantivy::schema::STORED);
    b.add_facet_field(tags_name, tantivy::schema::FacetOptions::default());
    b.build()
}

/// Relies on tantivy::schema::Schema::get_field: the handle of the field
/// with the given name, or an error when the schema has none.
#[verifier::external_body]
pub(crate) fn get_field(schema: &tantivy::schema::Schema, name: &str) -> (r: Result<
    tantivy::schema::Field,
    tantivy::TantivyError,
>) {
    schema.get_field(name)
}

/// Relies on tantivy::Index::create_in_dir: creates an index under an
/// existing empty directory.
#[verifier::external_body]
pub(crate) fn index_create_in_dir(path: &str, schema: tantivy::schema::Schema) -> (r: Result<
    tantivy::Index,
    tantivy::TantivyError,
>) {
    tantivy::Index::create_in_dir(path, schema)
}

/// Relies on tantivy::Index::create_in_ram: an index held in memory.
#[verifier::external_body]
pub(crate) fn index_create_in_ram(schema: tantivy::schema::Schema) -> (r: tantivy::Index) {
    tantivy::Index::create_in_ram(schema)
}

/// Relies on tantivy::Index::open_in_dir: opens the index stored under a
/// directory.
#[verifier::external_body]
pub(crate) fn index_open_in_dir(path: &str) -> (r: Result<tantivy::Index, tantivy::TantivyError>) {
    tantivy::Index::open_in_dir(path)
}

/// Relies on tantivy::Index::schema: the schema the index was created
/// with.
#[verifier::external_body]
pub(crate) fn index_schema(index: &tantivy::Index) -> (r: tantivy::schema::Schema) {
    index.schema()
}

/// Relies on tantivy::Index::writer: a single-writer handle holding the
/// directory's write lock, with the given memory budget in bytes. The
/// budget must be at least the store's per-thread minimum of 15 MB.
#[verifier::external_body]
pub(crate) fn index_writer(index: &tantivy::Index, budget: usize) -> (r: Result<
    WriterHandle,
    tantivy::TantivyError,
>) {
    Ok(WriterHandle { inner: index.writer::<tantivy::TantivyDocument>(budget)? })
}

/// Relies on tantivy::TantivyDocument::new: an empty document.
#[verifier::external_body]
pub(crate) fn doc_new() -> (r: tantivy::TantivyDocument) {
    tantivy::TantivyDocument::new()
}

/// Relies on tantivy::TantivyDocument::add_u64: records an integer value
/// under a field.
#[verifier::external_body]
pub(crate) fn doc_add_u64(doc: &mut tantivy::TantivyDocument, f: &tantivy::schema::Field, v: u64) {
    doc.add_u64(*f, v)
}

/// Relies on tantivy::TantivyDocument::add_text: records a text value
/// under a field.
#[verifier::external_body]
pub(crate) fn doc_add_text(doc: &mut tantivy::TantivyDocument, f: &tantivy::schema::Field, v: &str) {
    doc.add_text(*f, v)
}

/// Relies on tantivy::TantivyDocument::add_facet and Facet::from, which
/// panics on text that is not a facet path: hence the requires.
#[verifier::external_body]
pub(crate) fn doc_add_facet(doc: &mut tantivy::TantivyDocument, f: &tantivy::schema::Field, v: &str)
    requires
        valid_facet(v@),
{
    doc.add_facet(*f, v)
}

/// Relies on tantivy::IndexWriter::add_document: buffers one document for
/// the next commit.
#[verifier::external_body]
pub(crate) fn writer_add(w: &WriterHandle, doc: tantivy::TantivyDocument) -> (r: Result<
    u64,
    tantivy::TantivyError,
>) {
    w.inner.add_document(doc)
}

/// Relies on tantivy::IndexWriter::commit: flushes every buffered document
/// to the index.
#[verifier::external_body]
pub(crate) fn writer_commit(w: &mut WriterHandle) -> (r: Result<u64, tantivy::TantivyError>) {
    w.inner.commit()
}

/// A query paired, inside one trusted function, with the index whose
/// schema resolved its fields. The store dereferences a field handle by
/// indexing its schema's field list and panics on a handle from another
/// schema; executing a query only through its own bound index makes that
/// mispairing inexpressible from verified code.
pub struct BoundQuery {
    index: tantivy::Index,
    query: tantivy::query::BooleanQuery,
}

/// Relies on tantivy's QueryParser (for_index, parse_query), whose
/// grammar covers terms, phrases, boolean operators and field prefixes,
/// on Schema::get_field, and on BooleanQuery::new: the parsed text as the
/// single must-clause of a query bound to this index, its default field
/// resolved by name from this same index's schema. A schema without the
/// field is `IndexIO`, unparsable text is `BadQuery`, and nothing else
/// fails.
#[verifier::external_body]
pub(crate) fn parse_residual(index: &tantivy::Index, default_field_name: &str, text: &str) -> (r:
    Result<BoundQuery, crate::ErrorKind>)
    ensures
        r matches Err(e) ==> e == crate::ErrorKind::BadQuery || e == crate::ErrorKind::IndexIO,
{
    let field = match index.schema().get_field(default_field_name) {
        Ok(f) => f,
        Err(_) => return Err(crate::ErrorKind::IndexIO),
    };
    let parser = tantivy::query::QueryParser::for_index(index, vec![field]);
    let q = parser.parse_query(text).map_err(|_| crate::ErrorKind::BadQuery)?;
    let query = tantivy::query::BooleanQuery::new(vec![(tantivy::query::Occur::Must, q)]);
    Ok(BoundQuery { index: index.clone(), query })
}

/// Relies on Schema::get_field, BooleanQuery::clauses, Query::box_clone,
/// Term::from_facet, TermQuery::new and Facet::from, which panics on text
/// that is not a facet path: the bound query with one more must-clause
/// requiring the facet, under the field resolved by name from the bound
/// index's own schema.
#[verifier::external_body]
pub(crate) fn query_and_facet(bq: BoundQuery, tags_field_name: &str, facet: &str) -> (r: Result<
    BoundQuery,
    crate::ErrorKind,
>)
    requires
        valid_facet(facet@),
    ensures
        r matches Err(e) ==> e == crate::ErrorKind::IndexIO,
{
    let field = match bq.index.schema().get_field(tags_field_name) {
        Ok(f) => f,
        Err(_) => return Err(crate::ErrorKind::IndexIO),
    };
    let mut clauses: Vec<_> = bq.query.clauses().iter().map(|(o, q)| (*o, q.box_clone())).collect();
    let term = tantivy::Term::from_facet(field, &tantivy::schema::Facet::from(facet));
    let tq = tantivy::query::TermQuery::new(term, tantivy::schema::IndexRecordOption::Basic);
    clauses.push((tantivy::query::Occur::Must, Box::new(tq)));
    Ok(BoundQuery { index: bq.index, query: tantivy::query::BooleanQuery::new(clauses) })
}

/// Relies on Schema::get_field, Term::from_facet, TermQuery::new,
/// BooleanQuery::new and Facet::from, which panics on text that is not a
/// facet path: a query bound to this index for the documents carrying the
/// facet, the field resolved by name from this same index's schema.
#[verifier::external_body]
pub(crate) fn facet_term_query(index: &tantivy::Index, tags_field_name: &str, facet: &str) -> (r:
    Result<BoundQuery, crate::ErrorKind>)
    requires
        valid_facet(facet@),
    ensures
        r matches Err(e) ==> e == crate::ErrorKind::IndexIO,
{
    let field = match index.schema().get_field(tags_field_name) {
        Ok(f) => f,
        Err(_) => return Err(crate::ErrorKind::IndexIO),
    };
    let term = tantivy::Term::from_facet(field, &tantivy::schema::Facet::from(facet));
    let tq = tantivy::query::TermQuery::new(term, tantivy::schema::IndexRecordOption::Basic);
    let query = tantivy::query::BooleanQuery::new(vec![(tantivy::query::Occur::Must, Box::new(tq))]);
    Ok(BoundQuery { index: index.clone(), query })
}

/// Relies on Schema::get_field, Term::from_field_u64, TermQuery::new and
/// BooleanQuery::new: a query bound to this index for the documents
/// holding the integer under the field of the given name.
#[verifier::external_body]
pub(crate) fn u64_term_query(index: &tantivy::Index, field_name: &str, v: u64) -> (r: Result<
    BoundQuery,
    crate::ErrorKind,
>)
    ensures
        r matches Err(e) ==> e == crate::ErrorKind::IndexIO,
{
    let field = match index.schema().get_field(field_name) {
        Ok(f) => f,
        Err(_) => return Err(crate::ErrorKind::IndexIO),
    };
    let term = tantivy::Term::from_field_u64(field, v);
    let tq = tantivy::query::TermQuery::new(term, tantivy::schema::IndexRecordOption::Basic);
    let query = tantivy::query::BooleanQuery::new(vec![(tantivy::query::Occur::Must, Box::new(tq))]);
    Ok(BoundQuery { index: index.clone(), query })
}

/// Relies on Schema::get_field, Term::from_field_text, TermQuery::new and
/// BooleanQuery::new: a query bound to this index for the documents
/// holding the exact term under the field of the given name.
#[verifier::external_body]
pub(crate) fn text_term_query(index: &tantivy::Index, field_name: &str, text: &str) -> (r: Result<
    BoundQuery,
    crate::ErrorKind,
>)
    ensures
        r matches Err(e) ==> e == crate::ErrorKind::IndexIO,
{
    let field = match index.schema().get_field(field_name) {
        Ok(f) => f,
        Err(_) => return Err(crate::ErrorKind::IndexIO),
    };
    let term = tantivy::Term::from_field_text(field, text);
    let tq = tantivy::query::TermQuery::new(term, tantivy::schema::IndexRecordOption::Basic);
    let query = tantivy::query::BooleanQuery::new(vec![(tantivy::query::Occur::Must, Box::new(tq))]);
    Ok(BoundQuery { index: index.clone(), query })
}

/// Relies on AllQuery and BooleanQuery::new: a query bound to this index
/// matching every document.
#[verifier::external_body]
pub(crate) fn all_docs_query(index: &tantivy::Index) -> (r: BoundQuery) {
    let query = tantivy::query::BooleanQuery::new(
        vec![(tantivy::query::Occur::Must, Box::new(tantivy::query::AllQuery))],
    );
    BoundQuery { index: index.clone(), query }
}

/// Relies on Index::reader, IndexReader::searcher, Searcher::search with
/// TopDocs::with_limit (which panics on a zero limit) ordered by score,
/// and Searcher::doc for each returned address: at most `limit` matching
/// stored documents of the query's own index, in descending relevance
/// order; their scores are dropped. The searcher is made here from the
/// bound index, and retrieval stays inside too, so neither a field handle
/// nor a document address can meet a foreign snapshot.
#[verifier::external_body]
pub(crate) fn search_top_docs(bq: &BoundQuery, limit: usize) -> (r: Result<
    Vec<tantivy::TantivyDocument>,
    tantivy::TantivyError,
>)
    requires
        limit >= 1,
    ensures
        r matches Ok(v) ==> v@.len() <= limit,
{
    let searcher = bq.index.reader()?.searcher();
    let collector = tantivy::collector::TopDocs::with_limit(limit).order_by_score();
    let top = searcher.search(&bq.query, &collector)?;
    top.into_iter().map(|(_score, addr)| searcher.doc::<tantivy::TantivyDocument>(addr)).collect()
}

/// Relies on Index::reader, IndexReader::searcher and Searcher::search
/// with the Count collector: how many documents of the query's own index
/// match.
#[verifier::external_body]
pub(crate) fn search_count(bq: &BoundQuery) -> (r: Result<usize, tantivy::TantivyError>) {
    let searcher = bq.index.reader()?.searcher();
    searcher.search(&bq.query, &tantivy::collector::Count)
}

/// Relies on Index::reader, IndexReader::searcher and FacetCollector
/// (for_field, add_facet, get) under an AllQuery: for every child of the
/// given facet prefix observed in the index, the facet path and its
/// document count. The field is named, not handled, and the searcher is
/// made here from the given index. Facet::from inside add_facet and get
/// panics on text that is not a facet path; the root `/` is accepted.
#[verifier::external_body]
pub(crate) fn facet_counts(index: &tantivy::Index, tags_field_name: &str, prefix: &str) -> (r:
    Result<Vec<(String, u64)>, tantivy::TantivyError>)
    requires
        prefix@ == "/"@ || valid_facet(prefix@),
{
    let searcher = index.reader()?.searcher();
    let mut collector = tantivy::collector::FacetCollector::for_field(tags_field_name);
    collector.add_facet(prefix);
    let counts = searcher.search(&tantivy::query::AllQuery, &collector)?;
    Ok(counts.get(prefix).map(|(facet, count)| (facet.to_string(), count)).collect())
}

/// Relies on TantivyDocument::get_first and Value::as_u64: the first value
/// stored under the field, when it is an integer.
#[verifier::external_body]
pub(crate) fn doc_get_u64(doc: &tantivy::TantivyDocument, f: &tantivy::schema::Field) -> (r: Option<
    u64,
>) {
    doc.get_first(*f).and_then(|v| tantivy::schema::Value::as_u64(&v))
}

/// Relies on TantivyDocument::get_first and Value::as_str: the first value
/// stored under the field, when it is text.
#[verifier::external_body]
pub(crate) fn doc_get_text(doc: &tantivy::TantivyDocument, f: &tantivy::schema::Field) -> (r:
    Option<String>) {
    doc.get_first(*f).and_then(|v| tantivy::schema::Value::as_str(&v)).map(|s| s.to_string())
}

/// Relies on Schema::get_field, Index::reader, IndexReader::searcher and
/// SnippetGenerator::create: a generator of highlighted snippets for the
/// bound query over the field resolved by name from the query's own
/// index, through a searcher made here from that same index.
#[verifier::external_body]
pub(crate) fn snippet_generator(bq: &BoundQuery, field_name: &str) -> (r: Result<
    tantivy::snippet::SnippetGenerator,
    tantivy::TantivyError,
>) {
    let field = bq.index.schema().get_field(field_name)?;
    let searcher = bq.index.reader()?.searcher();
    tantivy::snippet::SnippetGenerator::create(&searcher, &bq.query, field)
}

/// Relies on SnippetGenerator::snippet_from_doc, Snippet::fragment and
/// Snippet::highlighted: the snippet's fragment text and its highlight
/// ranges as half-open byte intervals.
#[verifier::external_body]
pub(crate) fn doc_snippet(
    generator: &tantivy::snippet::SnippetGenerator,
    doc: &tantivy::TantivyDocument,
) -> (r: (String, Vec<(usize, usize)>)) {
    let snippet = generator.snippet_from_doc(doc);
    let ranges = snippet.highlighted().iter().map(|h| (h.start, h.end)).collect();
    (snippet.fragment().to_string(), ranges)
}

} // verus!
