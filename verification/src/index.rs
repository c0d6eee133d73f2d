//! The index writer: schema, ingestion, directory lifecycle.
//!
//! A document holds an `id`, a `parent_id`, a tokenized `path` and
//! multi-valued facet `tags`. The index directory is owned by the store,
//! which marks it with a management marker file; `create_plan` decides
//! from the directory's state whether a create may recreate it, must fail,
//! or starts fresh. The filesystem work itself (checking, deleting and
//! creating directories) is the caller's.

use vstd::prelude::*;

use crate::ErrorKind;
use crate::store;
use crate::tags::is_valid_facet;
use crate::tags::valid_facet;
use crate::walk::Record;

verus! {

/// What a create of an index directory must do, given what is found on
/// disk.
#[derive(Clone, Copy, Debug, PartialEq, Eq, Structural)]
pub enum CreateAction {
    /// The directory holds a managed index: delete it and recreate.
    Recreate,
    /// The directory does not exist: create it fresh.
    CreateNew,
}

/// Decides the create policy: an existing directory may only be clobbered
/// when the store's management marker is present; without the marker the
/// create fails with `NotAnIndex`.
pub fn create_plan(exists: bool, has_marker: bool) -> (r: Result<CreateAction, ErrorKind>)
    ensures
        r == (if exists {
            if has_marker {
                Ok::<CreateAction, ErrorKind>(CreateAction::Recreate)
            } else {
                Err::<CreateAction, ErrorKind>(ErrorKind::NotAnIndex)
            }
        } else {
            Ok::<CreateAction, ErrorKind>(CreateAction::CreateNew)
        }),
{
    if exists {
        if has_marker {
            Ok(CreateAction::Recreate)
        } else {
            Err(ErrorKind::NotAnIndex)
        }
    } else {
        Ok(CreateAction::CreateNew)
    }
}

/// The write half of an index: the store's writer and the four field
/// handles of the schema.
pub struct DocIndexWriter {
    writer: store::WriterHandle,
    id: tantivy::schema::Field,
    parent_id: tantivy::schema::Field,
    path: tantivy::schema::Field,
    tags: tantivy::schema::Field,
}

/// The memory budget of an on-disk writer, in bytes.
pub const DISK_WRITER_BUDGET: usize = 50_000_000;

/// The memory budget of an in-memory writer, in bytes; the store demands
/// at least 15 MB per worker thread.
pub const RAM_WRITER_BUDGET: usize = 15_000_000;

fn doctags_schema() -> tantivy::schema::Schema {
    proof {
        reveal_strlit("id");
        reveal_strlit("parent_id");
        reveal_strlit("path");
        reveal_strlit("tags");
        assert("id"@.len() == 2 && "parent_id"@.len() == 9 && "path"@.len() == 4 && "tags"@.len()
            == 4);
        assert("path"@[0] != "tags"@[0]);
    }
    store::build_doctags_schema("id", "parent_id", "path", "tags")
}

/// Builds a writer over an index, resolving the schema's field handles.
fn writer_for(index: &tantivy::Index, budget: usize) -> (r: Result<DocIndexWriter, ErrorKind>)
    ensures
        r is Err ==> r == Err::<DocIndexWriter, ErrorKind>(ErrorKind::IndexIO),
{
    let schema = store::index_schema(index);
    let id = match store::get_field(&schema, "id") {
        Ok(f) => f,
        Err(_) => {
            return Err(ErrorKind::IndexIO);
        },
    };
    let parent_id = match store::get_field(&schema, "parent_id") {
        Ok(f) => f,
        Err(_) => {
            return Err(ErrorKind::IndexIO);
        },
    };
    let path = match store::get_field(&schema, "path") {
        Ok(f) => f,
        Err(_) => {
            return Err(ErrorKind::IndexIO);
        },
    };
    let tags = match store::get_field(&schema, "tags") {
        Ok(f) => f,
        Err(_) => {
            return Err(ErrorKind::IndexIO);
        },
    };
    let writer = match store::index_writer(index, budget) {
        Ok(w) => w,
        Err(_) => {
            return Err(ErrorKind::IndexIO);
        },
    };
    Ok(DocIndexWriter { writer, id, parent_id, path, tags })
}

/// Creates an index under an existing empty directory and opens a writer
/// on it. The caller has already applied `create_plan`: the directory
/// exists and holds nothing.
pub fn create_in_empty_dir(index_path: &str) -> (r: Result<DocIndexWriter, ErrorKind>)
    ensures
        r is Err ==> r == Err::<DocIndexWriter, ErrorKind>(ErrorKind::IndexIO),
{
    let schema = doctags_schema();
    let index = match store::index_create_in_dir(index_path, schema) {
        Ok(i) => i,
        Err(_) => {
            return Err(ErrorKind::IndexIO);
        },
    };
    writer_for(&index, DISK_WRITER_BUDGET)
}

/// Creates an in-memory index and a writer on it, for tests and ephemeral
/// use.
pub fn create_in_ram() -> (r: Result<(tantivy::Index, DocIndexWriter), ErrorKind>)
    ensures
        r is Err ==> r == Err::<(tantivy::Index, DocIndexWriter), ErrorKind>(ErrorKind::IndexIO),
{
    let schema = doctags_schema();
    let index = store::index_create_in_ram(schema);
    let writer = writer_for(&index, RAM_WRITER_BUDGET)?;
    Ok((index, writer))
}

/// Opens the index stored under a directory, read-only.
pub fn open(index_path: &str) -> (r: Result<tantivy::Index, ErrorKind>)
    ensures
        r is Err ==> r == Err::<tantivy::Index, ErrorKind>(ErrorKind::IndexIO),
{
    match store::index_open_in_dir(index_path) {
        Ok(i) => Ok(i),
        Err(_) => Err(ErrorKind::IndexIO),
    }
}

impl DocIndexWriter {
    /// Buffers one document. Every tag must be a well-formed facet path;
    /// the store's facet parser accepts no other text.
    pub fn add(&mut self, id: u64, parent_id: u64, path: &str, tags: &Vec<String>) -> (r: Result<
        (),
        ErrorKind,
    >)
        requires
            forall|i: int| 0 <= i < tags@.len() ==> valid_facet(#[trigger] tags@[i]@),
        ensures
            r is Err ==> r == Err::<(), ErrorKind>(ErrorKind::IndexIO),
    {
        let mut doc = store::doc_new();
        store::doc_add_u64(&mut doc, &self.id, id);
        store::doc_add_u64(&mut doc, &self.parent_id, parent_id);
        store::doc_add_text(&mut doc, &self.path, path);
        let n = tags.len();
        let mut i: usize = 0;
        while i < n
            invariant
                n == tags@.len(),
                0 <= i <= n,
                forall|k: int| 0 <= k < n ==> valid_facet(#[trigger] tags@[k]@),
            decreases n - i,
        {
            store::doc_add_facet(&mut doc, &self.tags, tags[i].as_str());
            i = i + 1;
        }
        match store::writer_add(&self.writer, doc) {
            Ok(_) => Ok(()),
            Err(_) => Err(ErrorKind::IndexIO),
        }
    }

    /// Commits every buffered document to the index.
    pub fn commit(&mut self) -> (r: Result<u64, ErrorKind>)
        ensures
            r is Err ==> r == Err::<u64, ErrorKind>(ErrorKind::IndexIO),
    {
        match store::writer_commit(&mut self.writer) {
            Ok(stamp) => Ok(stamp),
            Err(_) => Err(ErrorKind::IndexIO),
        }
    }
}

/// Buffers a whole record list, validating every tag first: a record
/// carrying a malformed tag fails with `InvalidManifest` before anything
/// of it is written; a record list whose tags are all well-formed facet
/// paths never fails that way.
pub fn write_records(writer: &mut DocIndexWriter, records: &Vec<Record>) -> (r: Result<
    (),
    ErrorKind,
>)
    ensures
        r is Err ==> r == Err::<(), ErrorKind>(ErrorKind::IndexIO) || r == Err::<(), ErrorKind>(
            ErrorKind::InvalidManifest,
        ),
        r == Err::<(), ErrorKind>(ErrorKind::InvalidManifest) ==> exists|i: int, j: int|
            0 <= i < records@.len() && 0 <= j < records@[i].tags@.len() && !valid_facet(
                #[trigger] records@[i].tags@[j]@,
            ),
        (forall|i: int, j: int|
            0 <= i < records@.len() && 0 <= j < records@[i].tags@.len() ==> valid_facet(
                #[trigger] records@[i].tags@[j]@,
            )) ==> (r is Ok || r == Err::<(), ErrorKind>(ErrorKind::IndexIO)),
{
    let n = records.len();
    let mut i: usize = 0;
    while i < n
        invariant
            n == records@.len(),
            0 <= i <= n,
        decreases n - i,
    {
        let rec = &records[i];
        let m = rec.tags.len();
        let mut j: usize = 0;
        while j < m
            invariant
                m == rec.tags@.len(),
                0 <= i < records@.len(),
                rec == &records@[i as int],
                0 <= j <= m,
                forall|k: int| 0 <= k < j ==> valid_facet(#[trigger] rec.tags@[k]@),
            decreases m - j,
        {
            if !is_valid_facet(rec.tags[j].as_str()) {
                assert(!valid_facet(records@[i as int].tags@[j as int]@));
                return Err(ErrorKind::InvalidManifest);
            }
            j = j + 1;
        }
        writer.add(rec.id, rec.parent_id, rec.path.as_str(), &rec.tags)?;
        i = i + 1;
    }
    Ok(())
}

} // verus!
