//! The tag-to-virtual-filesystem projection.
//!
//! An in-memory tree maps facet components to synthetic directories:
//! inode 1 is the root, document ids serve as file inodes, and synthetic
//! tag nodes take ids counting down from the top of the 64-bit space so
//! they never collide with document ids. Leaves carry the facet query
//! that resolves their listing against the index.

use std::collections::HashMap;
use vstd::prelude::*;

use crate::ErrorKind;
use crate::doctags::join_under;
use crate::doctags::string_eq_str;
use crate::search::doc_from_id;
use crate::search::doc_from_path;
use crate::store;
use crate::tags::is_valid_facet;
use crate::tags::valid_facet;

verus! {

/// The root inode of a mounted tag tree.
pub const FUSE_ROOT: u64 = 1;

/// How many entries one directory listing returns at most: every tagged
/// document is listed, up to the same cap that bounds an unlimited
/// search.
pub const LISTING_LIMIT: usize = 100_000;

/// Whether a virtual entry is a tag directory of the given name.
pub open spec fn names_tag(e: VfsEntry, name: Seq<char>) -> bool {
    e.entry is Tag && e.entry->Tag_0@ == name
}

/// One virtual entry: a synthetic tag directory, or a pass-through to a
/// real file's path.
#[derive(Debug)]
pub enum FsEntry {
    Tag(String),
    Path(String),
}

/// A virtual filesystem entry with its inode.
#[derive(Debug)]
pub struct VfsEntry {
    pub id: u64,
    pub entry: FsEntry,
}

impl FsEntry {
    /// An identical copy.
    pub fn duplicate(&self) -> (r: FsEntry)
        ensures
            r == *self,
    {
        match self {
            FsEntry::Tag(s) => FsEntry::Tag(s.clone()),
            FsEntry::Path(s) => FsEntry::Path(s.clone()),
        }
    }
}

impl VfsEntry {
    /// An identical copy.
    pub fn duplicate(&self) -> (r: VfsEntry)
        ensures
            r == *self,
    {
        VfsEntry { id: self.id, entry: self.entry.duplicate() }
    }
}

/// The projector: the index it reads, the synthetic entries by id, the
/// children lists by parent id, and the facet query of every leaf.
pub struct DoctagsFS {
    index: tantivy::Index,
    entries: HashMap<u64, VfsEntry>,
    children: HashMap<u64, Vec<u64>>,
    queries: HashMap<u64, String>,
}

impl DoctagsFS {
    /// The synthetic entries by id.
    pub closed spec fn entries_view(&self) -> Map<u64, VfsEntry> {
        self.entries@
    }

    /// The children lists by parent id.
    pub closed spec fn children_view(&self) -> Map<u64, Vec<u64>> {
        self.children@
    }

    /// The facet query of every leaf, by id.
    pub closed spec fn queries_view(&self) -> Map<u64, String> {
        self.queries@
    }

    /// The projector's invariant: every stored query is a well-formed
    /// facet path, every entry is a tag node sitting under its own id,
    /// every listed child id has an entry, and every parent of a children
    /// list and every carrier of a query is itself an entry.
    pub closed spec fn wf(&self) -> bool {
        &&& forall|id: u64|
            self.queries@.contains_key(id) ==> valid_facet(#[trigger] self.queries@[id]@)
        &&& forall|id: u64|
            self.entries@.contains_key(id) ==> (#[trigger] self.entries@[id]).id == id
        &&& forall|id: u64|
            self.entries@.contains_key(id) ==> (#[trigger] self.entries@[id]).entry is Tag
        &&& forall|p: u64| #[trigger]
            self.children@.contains_key(p) ==> self.entries@.contains_key(p)
        &&& forall|id: u64| #[trigger]
            self.queries@.contains_key(id) ==> self.entries@.contains_key(id)
        &&& forall|p: u64, j: int|
            self.children@.contains_key(p) && 0 <= j < self.children@[p]@.len()
                ==> self.entries@.contains_key(#[trigger] self.children@[p]@[j])
    }

    /// A projector over an index, with an empty tree.
    pub fn new(index: tantivy::Index) -> (r: DoctagsFS)
        ensures
            r.wf(),
            r.entries_view() == Map::<u64, VfsEntry>::empty(),
            r.children_view() == Map::<u64, Vec<u64>>::empty(),
            r.queries_view() == Map::<u64, String>::empty(),
    {
        DoctagsFS {
            index,
            entries: HashMap::new(),
            children: HashMap::new(),
            queries: HashMap::new(),
        }
    }

    /// Inserts a synthetic tag node under a parent that already has an
    /// entry: the node goes into the entries under its id, and its id is
    /// appended to the parent's children.
    fn add_tag_entry(&mut self, id: u64, parent_id: u64, tag: String)
        requires
            old(self).wf(),
            old(self).entries_view().contains_key(parent_id),
        ensures
            final (self).wf(),
            final (self).entries@ == old(self).entries@.insert(
                id,
                VfsEntry { id, entry: FsEntry::Tag(tag) },
            ),
            final (self).queries@ == old(self).queries@,
            final (self).index == old(self).index,
            final (self).children@.contains_key(parent_id),
            final (self).children@[parent_id]@ == (if old(self).children@.contains_key(
                parent_id,
            ) {
                old(self).children@[parent_id]@.push(id)
            } else {
                seq![id]
            }),
            final (self).children@.remove(parent_id) == old(self).children@.remove(parent_id),
    {
        self.entries.insert(id, VfsEntry { id, entry: FsEntry::Tag(tag) });
        let kids = self.children.get(&parent_id);
        let mut list: Vec<u64> = match kids {
            Some(v) => v.clone(),
            None => Vec::new(),
        };
        assert(list@ =~= (if old(self).children@.contains_key(parent_id) {
            old(self).children@[parent_id]@
        } else {
            Seq::<u64>::empty()
        }));
        list.push(id);
        self.children.insert(parent_id, list);
        assert(self.children@.remove(parent_id) =~= old(self).children@.remove(parent_id));
        assert forall|p: u64, j: int|
            self.children@.contains_key(p) && 0 <= j < self.children@[p]@.len()
                implies self.entries@.contains_key(#[trigger] self.children@[p]@[j]) by {
            if p != parent_id {
                assert(self.children@.remove(parent_id)[p] == old(self).children@.remove(
                    parent_id,
                )[p]);
                assert(self.children@[p] == old(self).children@[p]);
            }
        }
    }

    /// Installs one level of facet nodes: for the `k`-th well-formed facet
    /// of the given facet-count list, in order, a tag node named by the
    /// facet's last component is created with id `next_id - 1 - k`, under
    /// `parent_id`; malformed facet strings are skipped, and creation
    /// stops should the id allocation reach the document range. Returns
    /// the next unused id and the `(id, facet)` pairs created. Entries
    /// outside the allocated id range are untouched, and children lists of
    /// other parents are untouched.
    fn add_facet_level(
        &mut self,
        parent_id: u64,
        facets: &Vec<(String, u64)>,
        next_id: u64,
    ) -> (r: (u64, Vec<(u64, String)>))
        requires
            old(self).wf(),
            old(self).entries_view().contains_key(parent_id),
            next_id > 4,
        ensures
            final (self).wf(),
            final (self).queries@ == old(self).queries@,
            final (self).index == old(self).index,
            3 < r.0 <= next_id,
            forall|id: u64|
                #[trigger] final (self).entries@.contains_key(id) ==> old(
                    self,
                ).entries@.contains_key(id) || r.0 <= id < next_id,
            r.0 == next_id - r.1@.len(),
            forall|k: int| 0 <= k < r.1@.len() ==> (#[trigger] r.1@[k]).0 == next_id - 1 - k,
            forall|k: int| 0 <= k < r.1@.len() ==> valid_facet((#[trigger] r.1@[k]).1@),
            forall|k: int|
                0 <= k < r.1@.len() ==> final (self).entries_view().contains_key(
                    (#[trigger] r.1@[k]).0,
                ) && names_tag(
                    final (self).entries_view()[r.1@[k].0],
                    after_last_slash(r.1@[k].1@),
                ),
            final (self).children@.contains_key(parent_id) || r.1@.len() == 0,
            forall|k: int|
                0 <= k < r.1@.len() ==> final (self).children@[parent_id]@.contains(
                    (#[trigger] r.1@[k]).0,
                ),
            old(self).children@.contains_key(parent_id) ==> final (self).children@.contains_key(
                parent_id,
            ) && (forall|x: u64|
                old(self).children@[parent_id]@.contains(x)
                    ==> final (self).children@[parent_id]@.contains(x)),
            forall|id: u64|
                #[trigger] old(self).entries@.contains_key(id) && (id <= 2 || id >= next_id)
                    ==> final (self).entries@.contains_key(id) && final (self).entries@[id]
                    == old(self).entries@[id],
            final (self).children@.remove(parent_id) == old(self).children@.remove(parent_id),
    {
        let n = facets.len();
        let mut created: Vec<(u64, String)> = Vec::new();
        let mut id: u64 = next_id;
        let mut i: usize = 0;
        while i < n
            invariant
                n == facets@.len(),
                0 <= i <= n,
                self.wf(),
                self.entries_view().contains_key(parent_id),
                self.queries@ == old(self).queries@,
                self.index == old(self).index,
                next_id > 4,
                3 < id <= next_id,
                forall|idy: u64|
                    #[trigger] self.entries@.contains_key(idy) ==> old(
                        self,
                    ).entries@.contains_key(idy) || id <= idy < next_id,
                id == next_id - created@.len(),
                forall|k: int|
                    0 <= k < created@.len() ==> (#[trigger] created@[k]).0 == next_id - 1 - k,
                forall|k: int|
                    0 <= k < created@.len() ==> valid_facet((#[trigger] created@[k]).1@),
                forall|k: int|
                    0 <= k < created@.len() ==> self.entries_view().contains_key(
                        (#[trigger] created@[k]).0,
                    ) && names_tag(
                        self.entries_view()[created@[k].0],
                        after_last_slash(created@[k].1@),
                    ),
                self.children@.contains_key(parent_id) || created@.len() == 0,
                forall|k: int|
                    0 <= k < created@.len() ==> self.children@[parent_id]@.contains(
                        (#[trigger] created@[k]).0,
                    ),
                old(self).children@.contains_key(parent_id) ==> self.children@.contains_key(
                    parent_id,
                ) && (forall|x: u64|
                    old(self).children@[parent_id]@.contains(x)
                        ==> self.children@[parent_id]@.contains(x)),
                forall|idx: u64|
                    #[trigger] old(self).entries@.contains_key(idx) && (idx <= 2 || idx
                        >= next_id) ==> self.entries@.contains_key(idx) && self.entries@[idx]
                        == old(self).entries@[idx],
                self.children@.remove(parent_id) == old(self).children@.remove(parent_id),
            decreases n - i,
        {
            let facet = &facets[i].0;
            if id > 4 && is_valid_facet(facet.as_str()) {
                let ghost children0 = self.children@;
                let ghost entries0 = self.entries@;
                let ghost created0 = created@;
                id = id - 1;
                let name = facet_last_component(facet.as_str());
                let ghost name_val = name;
                self.add_tag_entry(id, parent_id, name);
                assert(self.entries@ == entries0.insert(
                    id,
                    VfsEntry { id, entry: FsEntry::Tag(name_val) },
                ));
                crate::doctags::push_pair_u64(&mut created, id, facet.clone());
                assert forall|k: int|
                    0 <= k < created@.len() implies self.entries_view().contains_key(
                    (#[trigger] created@[k]).0,
                ) && names_tag(
                    self.entries_view()[created@[k].0],
                    after_last_slash(created@[k].1@),
                ) by {
                    if k < created0.len() {
                        assert(created@[k] == created0[k]);
                        assert(created0[k].0 > id);
                        assert(self.entries@[created@[k].0] == entries0[created@[k].0]);
                    } else {
                        assert(created@[k] == (id, created@[k].1));
                    }
                }
                assert forall|k: int|
                    0 <= k < created@.len() implies self.children@[parent_id]@.contains(
                    (#[trigger] created@[k]).0,
                ) by {
                    if k < created0.len() {
                        assert(created@[k] == created0[k]);
                        if children0.contains_key(parent_id) {
                            assert(self.children@[parent_id]@ == children0[parent_id]@.push(id));
                            let w = choose|w: int|
                                0 <= w < children0[parent_id]@.len()
                                    && children0[parent_id]@[w] == created0[k].0;
                            assert(self.children@[parent_id]@[w] == created0[k].0);
                        }
                    } else {
                        assert(self.children@[parent_id]@.last() == id);
                    }
                }
                assert forall|idx: u64|
                    #[trigger] old(self).entries@.contains_key(idx) && (idx <= 2 || idx
                        >= next_id) implies self.entries@.contains_key(idx) && self.entries@[idx]
                    == old(self).entries@[idx] by {
                    assert(idx != id);
                    assert(entries0.contains_key(idx) && entries0[idx] == old(
                        self,
                    ).entries@[idx]);
                    assert(self.entries@[idx] == entries0[idx]);
                }
                assert forall|x: u64|
                    old(self).children@.contains_key(parent_id) && old(
                        self,
                    ).children@[parent_id]@.contains(x) implies self.children@[
                    parent_id
                ]@.contains(x) by {
                    assert(children0.contains_key(parent_id));
                    assert(children0[parent_id]@.contains(x));
                    assert(self.children@[parent_id]@ == children0[parent_id]@.push(id));
                    let w = choose|w: int|
                        0 <= w < children0[parent_id]@.len() && children0[parent_id]@[w] == x;
                    assert(self.children@[parent_id]@[w] == x);
                }
                assert(self.children@.remove(parent_id) == old(self).children@.remove(
                    parent_id,
                ));
            }
            i = i + 1;
        }
        (id, created)
    }

    /// Builds the tag tree from the index's facet aggregations: the root
    /// entry named FUSEROOT under inode 1, the `_` node at the top of the
    /// id space as a child of the root, one tag node per top-level facet
    /// of the index under the root, one per second-level facet under its
    /// top-level node — ids counting down, names and parents fixed by
    /// `add_facet_level` — and, for every created node without children,
    /// its facet as the node's query.
    pub fn create_vfs_tree(&mut self) -> (r: Result<(), ErrorKind>)
        requires
            old(self).wf(),
            old(self).entries_view() == Map::<u64, VfsEntry>::empty(),
            old(self).children_view() == Map::<u64, Vec<u64>>::empty(),
            old(self).queries_view() == Map::<u64, String>::empty(),
        ensures
            final (self).wf(),
            r is Err ==> r == Err::<(), ErrorKind>(ErrorKind::IndexIO),
            r is Ok ==> {
                &&& final (self).entries_view().contains_key(FUSE_ROOT)
                &&& names_tag(final (self).entries_view()[FUSE_ROOT], "FUSEROOT"@)
                &&& final (self).entries_view().contains_key(u64::MAX)
                &&& names_tag(final (self).entries_view()[u64::MAX], seq!['_'])
                &&& final (self).children_view().contains_key(FUSE_ROOT)
                &&& final (self).children_view()[FUSE_ROOT]@.contains(u64::MAX)
            },
            forall|id: u64|
                #[trigger] final (self).entries_view().contains_key(id) ==> id == FUSE_ROOT || id
                    > 3,
            !final (self).queries_view().contains_key(FUSE_ROOT),
            !final (self).queries_view().contains_key(u64::MAX),
    {
        let mut root_name = String::new();
        root_name.append("FUSEROOT");
        assert(root_name@ =~= "FUSEROOT"@);
        self.entries.insert(
            FUSE_ROOT,
            VfsEntry { id: FUSE_ROOT, entry: FsEntry::Tag(root_name) },
        );
        let mut underscore = String::new();
        underscore.push('_');
        assert(underscore@ =~= seq!['_']);
        self.add_tag_entry(u64::MAX, FUSE_ROOT, underscore);
        let top = match store::facet_counts(&self.index, "tags", "/") {
            Ok(t) => t,
            Err(_) => {
                return Err(ErrorKind::IndexIO);
            },
        };
        assert(self.entries@.contains_key(u64::MAX));
        assert(self.children@[FUSE_ROOT]@.contains(u64::MAX)) by {
            assert(self.children@[FUSE_ROOT]@.last() == u64::MAX);
        }
        let (mut next_id, facets) = self.add_facet_level(FUSE_ROOT, &top, u64::MAX);
        assert forall|id: u64| #[trigger] self.entries@.contains_key(id) implies id == FUSE_ROOT
            || id == u64::MAX || (3 < id < u64::MAX) by {}
        assert(self.queries@ == Map::<u64, String>::empty());
        assert(self.entries_view().contains_key(FUSE_ROOT));
        assert(names_tag(self.entries_view()[FUSE_ROOT], "FUSEROOT"@));
        assert(self.entries_view().contains_key(u64::MAX));
        assert(names_tag(self.entries_view()[u64::MAX], seq!['_']));
        assert(self.children_view().contains_key(FUSE_ROOT));
        assert(self.children_view()[FUSE_ROOT]@.contains(u64::MAX));
        // one level deeper: children of every top-level facet
        let mut facets2: Vec<(u64, String)> = Vec::new();
        let n1 = facets.len();
        let mut i1: usize = 0;
        while i1 < n1
            invariant
                n1 == facets@.len(),
                0 <= i1 <= n1,
                self.wf(),
                forall|k: int| 0 <= k < facets@.len() ==> valid_facet((#[trigger] facets@[k]).1@),
                forall|k: int|
                    0 <= k < facets@.len() ==> 3 < (#[trigger] facets@[k]).0 < u64::MAX,
                forall|k: int|
                    0 <= k < facets@.len() ==> self.entries_view().contains_key(
                        (#[trigger] facets@[k]).0,
                    ),
                forall|k: int| 0 <= k < facets@.len() ==> (#[trigger] facets@[k]).0 >= next_id,
                3 < next_id <= u64::MAX,
                forall|id: u64|
                    #[trigger] self.entries@.contains_key(id) ==> id == FUSE_ROOT || id
                        == u64::MAX || (3 < id < u64::MAX),
                self.queries@ == Map::<u64, String>::empty(),
                forall|k: int|
                    0 <= k < facets2@.len() ==> valid_facet((#[trigger] facets2@[k]).1@),
                forall|k: int|
                    0 <= k < facets2@.len() ==> 3 < (#[trigger] facets2@[k]).0 < u64::MAX,
                self.entries_view().contains_key(FUSE_ROOT),
                names_tag(self.entries_view()[FUSE_ROOT], "FUSEROOT"@),
                self.entries_view().contains_key(u64::MAX),
                names_tag(self.entries_view()[u64::MAX], seq!['_']),
                self.children_view().contains_key(FUSE_ROOT),
                self.children_view()[FUSE_ROOT]@.contains(u64::MAX),
            decreases n1 - i1,
        {
            let parent_id = facets[i1].0;
            let sub = match store::facet_counts(&self.index, "tags", facets[i1].1.as_str()) {
                Ok(t) => t,
                Err(_) => {
                    return Err(ErrorKind::IndexIO);
                },
            };
            if next_id > 4 {
                let ghost root_entry = self.entries_view()[FUSE_ROOT];
                let ghost underscore_entry = self.entries_view()[u64::MAX];
                let ghost facets2_0 = facets2@;
                let (next2, mut subs) = self.add_facet_level(parent_id, &sub, next_id);
                proof {
                    assert(parent_id != FUSE_ROOT);
                    assert(self.entries_view().contains_key(FUSE_ROOT));
                    assert(self.entries_view()[FUSE_ROOT] == root_entry);
                    assert(self.entries_view().contains_key(u64::MAX));
                    assert(self.entries_view()[u64::MAX] == underscore_entry);
                    assert(self.children@.remove(parent_id).contains_key(FUSE_ROOT)
                        ==> self.children@.contains_key(FUSE_ROOT));
                    assert(self.children_view().contains_key(FUSE_ROOT));
                    assert(self.children@.remove(parent_id)[FUSE_ROOT] == self.children@[
                        FUSE_ROOT
                    ]);
                    assert(self.children_view()[FUSE_ROOT]@.contains(u64::MAX));
                    assert forall|k: int|
                        0 <= k < facets@.len() implies self.entries_view().contains_key(
                        (#[trigger] facets@[k]).0,
                    ) by {
                        assert(facets@[k].0 >= next_id);
                    }
                }
                assert forall|id: u64| #[trigger] self.entries@.contains_key(id) implies id
                    == FUSE_ROOT || id == u64::MAX || (3 < id < u64::MAX) by {}
                let ghost subs_view = subs@;
                next_id = next2;
                facets2.append(&mut subs);
                assert forall|k: int|
                    0 <= k < facets2@.len() implies valid_facet((#[trigger] facets2@[k]).1@) && 3
                    < facets2@[k].0 < u64::MAX by {
                    assert(facets2@ == facets2_0 + subs_view);
                    if k < facets2_0.len() {
                        assert(facets2@[k] == facets2_0[k]);
                    } else {
                        assert(facets2@[k] == subs_view[k - facets2_0.len()]);
                    }
                }
            }
            i1 = i1 + 1;
        }
        // record the facet query of every created leaf
        self.record_leaf_queries(&facets);
        assert(!self.queries@.contains_key(FUSE_ROOT) && !self.queries@.contains_key(u64::MAX))
            by {
            if self.queries@.contains_key(FUSE_ROOT) {
                let k = choose|k: int| 0 <= k < facets@.len() && facets@[k].0 == FUSE_ROOT;
                assert(3 < facets@[k].0);
            }
            if self.queries@.contains_key(u64::MAX) {
                let k = choose|k: int| 0 <= k < facets@.len() && facets@[k].0 == u64::MAX;
                assert(facets@[k].0 < u64::MAX);
            }
        }
        self.record_leaf_queries(&facets2);
        assert(!self.queries@.contains_key(FUSE_ROOT) && !self.queries@.contains_key(u64::MAX))
            by {
            if self.queries@.contains_key(FUSE_ROOT) {
                let k = choose|k: int| 0 <= k < facets2@.len() && facets2@[k].0 == FUSE_ROOT;
                assert(3 < facets2@[k].0);
            }
            if self.queries@.contains_key(u64::MAX) {
                let k = choose|k: int| 0 <= k < facets2@.len() && facets2@[k].0 == u64::MAX;
                assert(facets2@[k].0 < u64::MAX);
            }
        }
        Ok(())
    }

    /// Stores, for every listed node that has no children, the node's
    /// facet as its query; nodes with children and unknown ids are left
    /// alone. Queries grow by listed nodes only, and every listed
    /// childless node ends up carrying a query.
    fn record_leaf_queries(&mut self, nodes: &Vec<(u64, String)>)
        requires
            old(self).wf(),
            forall|k: int| 0 <= k < nodes@.len() ==> valid_facet((#[trigger] nodes@[k]).1@),
        ensures
            final (self).wf(),
            final (self).entries@ == old(self).entries@,
            final (self).children@ == old(self).children@,
            final (self).index == old(self).index,
            forall|q: u64|
                final (self).queries@.contains_key(q) ==> old(self).queries@.contains_key(q) || (
                exists|k: int| 0 <= k < nodes@.len() && (#[trigger] nodes@[k]).0 == q),
            forall|k: int|
                0 <= k < nodes@.len() && old(self).entries@.contains_key((#[trigger] nodes@[k]).0)
                    && !old(self).children@.contains_key(nodes@[k].0)
                    ==> final (self).queries@.contains_key(nodes@[k].0),
    {
        let total = nodes.len();
        let mut t: usize = 0;
        while t < total
            invariant
                total == nodes@.len(),
                0 <= t <= total,
                self.wf(),
                forall|k: int| 0 <= k < nodes@.len() ==> valid_facet((#[trigger] nodes@[k]).1@),
                self.entries@ == old(self).entries@,
                self.children@ == old(self).children@,
                self.index == old(self).index,
                forall|q: u64|
                    self.queries@.contains_key(q) ==> old(self).queries@.contains_key(q) || (
                    exists|k: int| 0 <= k < nodes@.len() && (#[trigger] nodes@[k]).0 == q),
                forall|k: int|
                    0 <= k < t && old(self).entries@.contains_key((#[trigger] nodes@[k]).0)
                        && !old(self).children@.contains_key(nodes@[k].0)
                        ==> self.queries@.contains_key(nodes@[k].0),
            decreases total - t,
        {
            let nid = nodes[t].0;
            if self.entries.contains_key(&nid) && !self.children.contains_key(&nid) {
                self.queries.insert(nid, nodes[t].1.clone());
            }
            t = t + 1;
        }
    }
}

/// The text after the final slash, the whole text when it has none.
pub open spec fn after_last_slash(s: Seq<char>) -> Seq<char>
    decreases s.len(),
{
    if s.len() == 0 {
        s
    } else if s.last() == '/' {
        Seq::empty()
    } else {
        after_last_slash(s.drop_last()).push(s.last())
    }
}

proof fn lemma_after_last_slash_at(s: Seq<char>, k: int)
    requires
        0 <= k < s.len(),
        s[k] == '/',
        forall|j: int| k < j < s.len() ==> s[j] != '/',
    ensures
        after_last_slash(s) == s.skip(k + 1),
    decreases s.len(),
{
    if k == s.len() - 1 {
        assert(s.skip(k + 1) =~= Seq::<char>::empty());
    } else {
        lemma_after_last_slash_at(s.drop_last(), k);
        assert(s.drop_last().skip(k + 1).push(s.last()) =~= s.skip(k + 1));
    }
}

proof fn lemma_after_last_slash_none(s: Seq<char>)
    requires
        forall|j: int| 0 <= j < s.len() ==> s[j] != '/',
    ensures
        after_last_slash(s) == s,
    decreases s.len(),
{
    if s.len() > 0 {
        lemma_after_last_slash_none(s.drop_last());
        assert(s.drop_last().push(s.last()) =~= s);
    }
}

/// The last component of a facet path: the text after the final slash.
pub fn facet_last_component(facet: &str) -> (r: String)
    ensures
        r@ == after_last_slash(facet@),
{
    let n = facet.unicode_len();
    let mut last_slash: usize = 0;
    let mut seen: bool = false;
    let mut i: usize = 0;
    while i < n
        invariant
            n == facet@.len(),
            0 <= i <= n,
            seen ==> last_slash < i && facet@[last_slash as int] == '/',
            seen ==> (forall|j: int| last_slash < j < i ==> facet@[j] != '/'),
            !seen ==> (forall|j: int| 0 <= j < i ==> facet@[j] != '/'),
            !seen ==> last_slash == 0,
        decreases n - i,
    {
        if facet.get_char(i) == '/' {
            last_slash = i;
            seen = true;
        }
        i = i + 1;
    }
    if seen {
        proof {
            lemma_after_last_slash_at(facet@, last_slash as int);
        }
        facet.substring_char(last_slash + 1, n).to_owned()
    } else {
        proof {
            lemma_after_last_slash_none(facet@);
        }
        facet.substring_char(0, n).to_owned()
    }
}


impl DoctagsFS {
    /// Resolves an inode: a synthetic tag node when the projector holds
    /// one, else the document of that id from the index, else nothing.
    pub fn entry_from_id(&self, id: u64) -> (r: Result<Option<VfsEntry>, ErrorKind>)
        ensures
            self.entries_view().contains_key(id) ==> r == Ok::<Option<VfsEntry>, ErrorKind>(
                Some(self.entries_view()[id]),
            ),
            r is Err ==> r == Err::<Option<VfsEntry>, ErrorKind>(ErrorKind::IndexIO),
            !self.entries_view().contains_key(id) ==> (r matches Ok(Some(e)) ==> e.id == id
                && e.entry is Path),
            r == Ok::<Option<VfsEntry>, ErrorKind>(None) ==> !self.entries_view().contains_key(
                id,
            ),
    {
        match self.entries.get(&id) {
            Some(e) => Ok(Some(e.duplicate())),
            None => {
                match doc_from_id(&self.index, id) {
                    Ok(Some(hit)) => Ok(Some(VfsEntry { id, entry: FsEntry::Path(hit.path) })),
                    Ok(None) => Ok(None),
                    Err(_) => Err(ErrorKind::IndexIO),
                }
            },
        }
    }

    fn path_entries_for_query(&self, query: &store::BoundQuery) -> (r: Result<
        Vec<VfsEntry>,
        ErrorKind,
    >)
        ensures
            r matches Ok(v) ==> v@.len() <= LISTING_LIMIT,
            r is Err ==> r == Err::<Vec<VfsEntry>, ErrorKind>(ErrorKind::IndexIO),
    {
        let docs = match store::search_top_docs(query, LISTING_LIMIT) {
            Ok(d) => d,
            Err(_) => {
                return Err(ErrorKind::IndexIO);
            },
        };
        let schema = store::index_schema(&self.index);
        let id_field = match store::get_field(&schema, "id") {
            Ok(f) => f,
            Err(_) => {
                return Err(ErrorKind::IndexIO);
            },
        };
        let path_field = match store::get_field(&schema, "path") {
            Ok(f) => f,
            Err(_) => {
                return Err(ErrorKind::IndexIO);
            },
        };
        let mut docs = docs;
        let mut out: Vec<VfsEntry> = Vec::new();
        let ghost total = docs@.len();
        while docs.len() > 0
            invariant
                out@.len() + docs@.len() == total,
                total <= LISTING_LIMIT,
            decreases docs@.len(),
        {
            let doc = docs.remove(0);
            let id = match store::doc_get_u64(&doc, &id_field) {
                Some(v) => v,
                None => {
                    return Err(ErrorKind::IndexIO);
                },
            };
            let path = match store::doc_get_text(&doc, &path_field) {
                Some(p) => p,
                None => {
                    return Err(ErrorKind::IndexIO);
                },
            };
            out.push(VfsEntry { id, entry: FsEntry::Path(path) });
        }
        Ok(out)
    }

    /// Lists a directory: a leaf tag node lists the documents its facet
    /// query matches; an inner tag node lists its synthetic children; a
    /// document inode is taken for a real directory and lists the
    /// documents whose parent it is; an inode that is neither a synthetic
    /// node nor a document reports `EntryNotFound`, which the kernel
    /// adapter maps to its missing-entry error.
    pub fn entries_from_parent_id(&self, parent_id: u64) -> (r: Result<Vec<VfsEntry>, ErrorKind>)
        requires
            self.wf(),
        ensures
            r is Err ==> r == Err::<Vec<VfsEntry>, ErrorKind>(ErrorKind::IndexIO) || r == Err::<
                Vec<VfsEntry>,
                ErrorKind,
            >(ErrorKind::EntryNotFound),
            r == Err::<Vec<VfsEntry>, ErrorKind>(ErrorKind::EntryNotFound)
                ==> !self.entries_view().contains_key(parent_id),
            !self.queries_view().contains_key(parent_id) && self.children_view().contains_key(
                parent_id,
            ) ==> (r matches Ok(v) && v@.len() == self.children_view()[parent_id]@.len() && (
            forall|j: int|
                0 <= j < v@.len() ==> (#[trigger] v@[j]) == self.entries_view()[
                    self.children_view()[parent_id]@[j]
                ])),
    {
        match self.queries.get(&parent_id) {
            Some(query_facet) => {
                let query = match store::facet_term_query(
                    &self.index,
                    "tags",
                    query_facet.as_str(),
                ) {
                    Ok(q) => q,
                    Err(_) => {
                        return Err(ErrorKind::IndexIO);
                    },
                };
                self.path_entries_for_query(&query)
            },
            None => {
                match self.children.get(&parent_id) {
                    Some(ids) => {
                        let n = ids.len();
                        let mut out: Vec<VfsEntry> = Vec::new();
                        let mut j: usize = 0;
                        while j < n
                            invariant
                                self.wf(),
                                n == ids@.len(),
                                self.children_view().contains_key(parent_id),
                                ids == &self.children_view()[parent_id],
                                0 <= j <= n,
                                out@.len() == j,
                                forall|k: int|
                                    0 <= k < j ==> out@[k] == self.entries_view()[
                                        #[trigger] ids@[k]],
                            decreases n - j,
                        {
                            match self.entries.get(&ids[j]) {
                                Some(e) => {
                                    out.push(e.duplicate());
                                },
                                None => {
                                    proof {
                                        assert(false);
                                    }
                                },
                            }
                            j = j + 1;
                        }
                        Ok(out)
                    },
                    None => {
                        if !self.entries.contains_key(&parent_id) {
                            // neither a synthetic node nor, per the index,
                            // a known document: no such directory
                            match doc_from_id(&self.index, parent_id) {
                                Ok(Some(_)) => {},
                                Ok(None) => {
                                    return Err(ErrorKind::EntryNotFound);
                                },
                                Err(_) => {
                                    return Err(ErrorKind::IndexIO);
                                },
                            }
                        }
                        let query = match store::u64_term_query(
                            &self.index,
                            "parent_id",
                            parent_id,
                        ) {
                            Ok(q) => q,
                            Err(_) => {
                                return Err(ErrorKind::IndexIO);
                            },
                        };
                        self.path_entries_for_query(&query)
                    },
                }
            },
        }
    }

    /// Resolves a name under a parent inode: under an inner tag node, the
    /// synthetic child of that tag name; under a leaf tag node, the listed
    /// document whose path ends in the name; under a real directory, the
    /// document whose path is the parent path joined with the name. A name
    /// not found under its parent is `None`.
    pub fn entry_from_dir_entry(&self, parent_id: u64, name: &str) -> (r: Result<
        Option<VfsEntry>,
        ErrorKind,
    >)
        requires
            self.wf(),
        ensures
            r is Err ==> r == Err::<Option<VfsEntry>, ErrorKind>(ErrorKind::IndexIO),
            !self.children_view().contains_key(parent_id) && self.queries_view().contains_key(
                parent_id,
            ) ==> (r matches Ok(Some(e)) ==> e.entry is Path && after_last_slash(
                e.entry->Path_0@,
            ) == name@),
            self.children_view().contains_key(parent_id) ==> match r {
                Ok(Some(e)) => exists|j: int|
                    0 <= j < self.children_view()[parent_id]@.len() && e == self.entries_view()[
                        #[trigger] self.children_view()[parent_id]@[j]
                    ] && names_tag(e, name@),
                Ok(None) => forall|j: int|
                    0 <= j < self.children_view()[parent_id]@.len() ==> !names_tag(
                        self.entries_view()[#[trigger] self.children_view()[parent_id]@[j]],
                        name@,
                    ),
                Err(_) => false,
            },
    {
        match self.children.get(&parent_id) {
            Some(ids) => {
                let n = ids.len();
                let mut j: usize = 0;
                while j < n
                    invariant
                        self.wf(),
                        n == ids@.len(),
                        self.children_view().contains_key(parent_id),
                        ids == &self.children_view()[parent_id],
                        0 <= j <= n,
                        forall|k: int|
                            0 <= k < j ==> !names_tag(
                                self.entries_view()[#[trigger] ids@[k]],
                                name@,
                            ),
                    decreases n - j,
                {
                    match self.entries.get(&ids[j]) {
                        Some(e) => {
                            match &e.entry {
                                FsEntry::Tag(tag) => {
                                    if string_eq_str(tag, name) {
                                        assert(names_tag(*e, name@));
                                        return Ok(Some(e.duplicate()));
                                    }
                                },
                                FsEntry::Path(_) => {},
                            }
                            assert(!names_tag(*e, name@));
                        },
                        None => {
                            proof {
                                assert(false);
                            }
                        },
                    }
                    j = j + 1;
                }
                Ok(None)
            },
            None => {
                assert(!self.children_view().contains_key(parent_id));
                match self.queries.get(&parent_id) {
                    Some(query_facet) => {
                        let query = match store::facet_term_query(
                            &self.index,
                            "tags",
                            query_facet.as_str(),
                        ) {
                            Ok(q) => q,
                            Err(_) => {
                                return Err(ErrorKind::IndexIO);
                            },
                        };
                        let listed = self.path_entries_for_query(&query)?;
                        let m = listed.len();
                        let mut k: usize = 0;
                        while k < m
                            invariant
                                m == listed@.len(),
                                0 <= k <= m,
                                !self.children_view().contains_key(parent_id),
                                self.queries_view().contains_key(parent_id),
                            decreases m - k,
                        {
                            match &listed[k].entry {
                                FsEntry::Path(p) => {
                                    let base = facet_last_component(p.as_str());
                                    if string_eq_str(&base, name) {
                                        assert(listed@[k as int].entry is Path
                                            && after_last_slash(
                                            listed@[k as int].entry->Path_0@,
                                        ) == name@);
                                        return Ok(Some(listed[k].duplicate()));
                                    }
                                },
                                FsEntry::Tag(_) => {},
                            }
                            k = k + 1;
                        }
                        Ok(None)
                    },
                    None => {
                        if self.entries.contains_key(&parent_id) {
                            // a synthetic node with neither children nor a
                            // facet query, such as `_`: nothing to resolve
                            return Ok(None);
                        }
                        let parent = match doc_from_id(&self.index, parent_id) {
                            Ok(Some(hit)) => hit,
                            Ok(None) => {
                                return Ok(None);
                            },
                            Err(_) => {
                                return Err(ErrorKind::IndexIO);
                            },
                        };
                        let path = join_under(parent.path.as_str(), name);
                        match doc_from_path(&self.index, &path) {
                            Ok(Some(hit)) => Ok(
                                Some(VfsEntry { id: hit.id, entry: FsEntry::Path(hit.path) }),
                            ),
                            Ok(None) => Ok(None),
                            Err(_) => Err(ErrorKind::IndexIO),
                        }
                    },
                }
            },
        }
    }
}

/// One line of a paginated directory listing: the inode, the 1-based
/// stable index handed back as the next offset, whether the entry is a
/// synthetic tag directory, and the name shown.
pub struct DirEntryOut {
    pub id: u64,
    pub index: usize,
    pub is_tag: bool,
    pub name: String,
}

/// How many of the two dot lines a page starting at `offset` carries.
pub open spec fn dots_emitted(offset: usize) -> int {
    (if offset == 0 {
        1int
    } else {
        0int
    }) + (if offset <= 1 {
        1int
    } else {
        0int
    })
}

/// The position in the entry list where a page starting at `offset`
/// resumes.
pub open spec fn page_start(offset: usize) -> int {
    if offset > 2 {
        offset - 2
    } else {
        0
    }
}

/// The name a directory line shows for an entry: the tag itself, or the
/// last component of a real file's path.
pub open spec fn shown_name(e: VfsEntry) -> Seq<char> {
    match e.entry {
        FsEntry::Tag(t) => t@,
        FsEntry::Path(p) => after_last_slash(p@),
    }
}

/// Builds one page of a directory listing: `.` and `..` stand first at
/// indices 1 and 2 carrying the directory's inode, the directory's
/// entries follow at indices from 3, and the first `offset` lines of that
/// whole sequence are skipped — so the indices are stable across
/// paginated calls. Every remaining entry appears, in order, with its id,
/// its stable index, whether it is a tag directory, and the name shown:
/// the tag itself, or the last component of a real file's path.
pub fn readdir_page(ino: u64, entries: &Vec<VfsEntry>, offset: usize) -> (r: Vec<DirEntryOut>)
    requires
        entries@.len() + 3 <= usize::MAX,
    ensures
        r@.len() == dots_emitted(offset) + (if page_start(offset) < entries@.len() {
            entries@.len() - page_start(offset)
        } else {
            0
        }),
        offset == 0 ==> r@[0].id == ino && r@[0].index == 1 && r@[0].is_tag && r@[0].name@
            == seq!['.'],
        offset == 0 ==> r@[1].id == ino && r@[1].index == 2 && r@[1].is_tag && r@[1].name@ == seq![
            '.',
            '.',
        ],
        offset == 1 ==> r@[0].id == ino && r@[0].index == 2 && r@[0].is_tag && r@[0].name@ == seq![
            '.',
            '.',
        ],
        forall|k: int|
            dots_emitted(offset) <= k < r@.len() ==> {
                let e = entries@[page_start(offset) + (k - dots_emitted(offset))];
                &&& (#[trigger] r@[k]).id == e.id
                &&& r@[k].index == page_start(offset) + (k - dots_emitted(offset)) + 3
                &&& r@[k].is_tag == (e.entry is Tag)
                &&& r@[k].name@ == shown_name(e)
            },
{
    let mut r: Vec<DirEntryOut> = Vec::new();
    if offset == 0 {
        let mut dot = String::new();
        dot.push('.');
        assert(dot@ =~= seq!['.']);
        r.push(DirEntryOut { id: ino, index: 1, is_tag: true, name: dot });
    }
    if offset <= 1 {
        let mut dotdot = String::new();
        dotdot.push('.');
        dotdot.push('.');
        assert(dotdot@ =~= seq!['.', '.']);
        r.push(DirEntryOut { id: ino, index: 2, is_tag: true, name: dotdot });
    }
    let n = entries.len();
    let start: usize = if offset > 2 {
        offset - 2
    } else {
        0
    };
    let mut i: usize = start;
    while i < n
        invariant
            n == entries@.len(),
            n + 3 <= usize::MAX,
            start == page_start(offset),
            start <= i <= n || (start > n && i == start),
            r@.len() == dots_emitted(offset) + (i - start),
            offset == 0 ==> r@[0].id == ino && r@[0].index == 1 && r@[0].is_tag && r@[0].name@
                == seq!['.'],
            offset == 0 && r@.len() >= 2 ==> r@[1].id == ino && r@[1].index == 2 && r@[1].is_tag
                && r@[1].name@ == seq!['.', '.'],
            offset == 1 ==> r@[0].id == ino && r@[0].index == 2 && r@[0].is_tag && r@[0].name@
                == seq!['.', '.'],
            forall|k: int|
                dots_emitted(offset) <= k < r@.len() ==> {
                    let e = entries@[page_start(offset) + (k - dots_emitted(offset))];
                    &&& (#[trigger] r@[k]).id == e.id
                    &&& r@[k].index == page_start(offset) + (k - dots_emitted(offset)) + 3
                    &&& r@[k].is_tag == (e.entry is Tag)
                    &&& r@[k].name@ == shown_name(e)
                },
        decreases n - i,
    {
        let e = &entries[i];
        let (is_tag, name) = match &e.entry {
            FsEntry::Tag(t) => (true, t.clone()),
            FsEntry::Path(p) => (false, facet_last_component(p.as_str())),
        };
        r.push(DirEntryOut { id: e.id, index: i + 3, is_tag, name });
        i = i + 1;
    }
    r
}

} // verus!
