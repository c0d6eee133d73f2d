//! Per-directory sidecar manifests.
//!
//! A manifest carries `dirtags`, tags applied to the directory and every
//! descendant, and `filetags`, per-entry overrides keyed by the entry's
//! path (`.` stands for the directory itself). Reading a manifest
//! normalizes every tag to its facet path; file keys are joined under the
//! manifest directory.

use vstd::prelude::*;

use crate::ErrorKind;
use crate::tags::facet_of;
use crate::tags::is_valid_tag;
use crate::tags::lemma_facet_of_valid;
use crate::tags::tag_to_facet;
use crate::tags::valid_facet;
use crate::tags::valid_tag;

verus! {

/// The tags declared by one sidecar manifest.
///
/// `filetags` is an association list; a key occurs at most once in manifests
/// read from text, and lookups take the first match.
pub struct DocTags {
    pub dirtags: Vec<String>,
    pub filetags: Vec<(String, Vec<String>)>,
}

/// First-match lookup in a filetags association list.
pub open spec fn filetags_lookup(ft: Seq<(String, Vec<String>)>, path: Seq<char>) -> Seq<
    Seq<char>,
>
    decreases ft.len(),
{
    if ft.len() == 0 {
        Seq::empty()
    } else if ft[0].0@ == path {
        ft[0].1.deep_view()
    } else {
        filetags_lookup(ft.drop_first(), path)
    }
}

/// Whether a filetags association list has an entry for a path.
pub open spec fn filetags_contains(ft: Seq<(String, Vec<String>)>, path: Seq<char>) -> bool
    decreases ft.len(),
{
    if ft.len() == 0 {
        false
    } else {
        ft[0].0@ == path || filetags_contains(ft.drop_first(), path)
    }
}

impl DocTags {
    /// The directory-scoped tags, as sequences of characters.
    pub open spec fn dirtags_view(&self) -> Seq<Seq<char>> {
        self.dirtags.deep_view()
    }

    /// The file-scoped tags recorded for one path, empty when none are.
    pub open spec fn tags_for(&self, path: Seq<char>) -> Seq<Seq<char>> {
        filetags_lookup(self.filetags@, path)
    }

    /// Every tag held is a well-formed facet path.
    pub open spec fn wf(&self) -> bool {
        &&& forall|i: int|
            0 <= i < self.dirtags@.len() ==> valid_facet(#[trigger] self.dirtags@[i]@)
        &&& forall|i: int, j: int|
            0 <= i < self.filetags@.len() && 0 <= j < self.filetags@[i].1@.len() ==> valid_facet(
                #[trigger] self.filetags@[i].1@[j]@,
            )
    }

    /// A manifest with no tags at all.
    pub fn empty() -> (r: DocTags)
        ensures
            r.dirtags@.len() == 0,
            r.filetags@.len() == 0,
            r.wf(),
    {
        DocTags { dirtags: Vec::new(), filetags: Vec::new() }
    }

    /// Returns the file-scoped tags for a path, taking the first matching
    /// entry, or `None` when no entry names the path.
    pub fn filetags_get<'a>(&'a self, path: &str) -> (r: Option<&'a Vec<String>>)
        ensures
            match r {
                Some(v) => filetags_contains(self.filetags@, path@) && v.deep_view()
                    == self.tags_for(path@),
                None => !filetags_contains(self.filetags@, path@) && self.tags_for(path@)
                    == Seq::<Seq<char>>::empty(),
            },
    {
        let n = self.filetags.len();
        let mut i: usize = 0;
        assert(self.filetags@.skip(0) =~= self.filetags@);
        while i < n
            invariant
                n == self.filetags@.len(),
                0 <= i <= n,
                filetags_lookup(self.filetags@, path@) == filetags_lookup(
                    self.filetags@.skip(i as int),
                    path@,
                ),
                filetags_contains(self.filetags@, path@) == filetags_contains(
                    self.filetags@.skip(i as int),
                    path@,
                ),
            decreases n - i,
        {
            assert(self.filetags@.skip(i as int)[0] == self.filetags@[i as int]);
            if string_eq_str(&self.filetags[i].0, path) {
                return Some(&self.filetags[i].1);
            }
            assert(self.filetags@.skip(i as int).drop_first() =~= self.filetags@.skip(i + 1));
            i = i + 1;
        }
        assert(self.filetags@.skip(n as int) =~= Seq::<(String, Vec<String>)>::empty());
        None
    }
}

/// Appends a copy of a string to a vector, tracking the deep view.
pub fn push_clone(r: &mut Vec<String>, s: &String)
    ensures
        final (r)@ == old(r)@.push(*s),
        final (r).deep_view() == old(r).deep_view().push(s@),
{
    let ghost r0 = r@;
    let ghost dv0 = r.deep_view();
    assert(r.deep_view().len() == r@.len());
    r.push(s.clone());
    assert(r@ == r0.push(*s));
    assert(r.deep_view().len() == r@.len());
    assert forall|k: int| 0 <= k < r0.len() implies r.deep_view()[k] == dv0[k] by {
        assert(r.deep_view()[k] == r@[k].deep_view());
        assert(dv0[k] == r0[k].deep_view());
    }
    assert(r.deep_view()[r0.len() as int] == s@);
    assert(r.deep_view() =~~= dv0.push(s@));
}

/// Appends an owned string to a vector, tracking the deep view.
pub fn push_owned(r: &mut Vec<String>, s: String)
    ensures
        final (r)@ == old(r)@.push(s),
        final (r).deep_view() == old(r).deep_view().push(s@),
{
    let ghost r0 = r@;
    let ghost dv0 = r.deep_view();
    let ghost sv = s@;
    assert(r.deep_view().len() == r@.len());
    r.push(s);
    assert(r@ == r0.push(r@[r0.len() as int]));
    assert(r.deep_view().len() == r@.len());
    assert forall|k: int| 0 <= k < r0.len() implies r.deep_view()[k] == dv0[k] by {
        assert(r.deep_view()[k] == r@[k].deep_view());
        assert(dv0[k] == r0[k].deep_view());
    }
    assert(r.deep_view()[r0.len() as int] == sv);
    assert(r.deep_view() =~~= dv0.push(sv));
}

/// Appends an id with its text to a vector of pairs.
pub fn push_pair_u64(r: &mut Vec<(u64, String)>, id: u64, text: String)
    ensures
        final (r)@ == old(r)@.push((id, text)),
{
    r.push((id, text));
}

/// Compares a string with a string slice character by character.
pub fn string_eq_str(a: &String, b: &str) -> (r: bool)
    ensures
        r == (a@ == b@),
{
    let an: usize = a.as_str().unicode_len();
    let bn: usize = b.unicode_len();
    if an != bn {
        assert(a@ != b@);
        return false;
    }
    let mut i: usize = 0;
    while i < an
        invariant
            an == a@.len(),
            bn == b@.len(),
            an == bn,
            0 <= i <= an,
            forall|j: int| 0 <= j < i ==> a@[j] == b@[j],
        decreases an - i,
    {
        if a.as_str().get_char(i) != b.get_char(i) {
            return false;
        }
        i = i + 1;
    }
    assert(a@ =~= b@);
    true
}

/// Converts a list of tags to their facet paths.
///
/// Fails with `InvalidManifest` exactly when some tag is malformed; on
/// success, every element of the result is the facet path of the
/// corresponding tag.
pub fn facets_of_tags(tags: &Vec<String>) -> (r: Result<Vec<String>, ErrorKind>)
    ensures
        r is Ok <==> (forall|i: int| 0 <= i < tags@.len() ==> valid_tag(#[trigger] tags@[i]@)),
        match r {
            Ok(v) => {
                &&& v@.len() == tags@.len()
                &&& forall|i: int| 0 <= i < v@.len() ==> #[trigger] v@[i]@ == facet_of(tags@[i]@)
                &&& forall|i: int| 0 <= i < v@.len() ==> valid_facet(#[trigger] v@[i]@)
            },
            Err(e) => e == ErrorKind::InvalidManifest,
        },
{
    let n = tags.len();
    let mut out: Vec<String> = Vec::new();
    let mut i: usize = 0;
    while i < n
        invariant
            n == tags@.len(),
            0 <= i <= n,
            out@.len() == i,
            forall|j: int| 0 <= j < i ==> valid_tag(#[trigger] tags@[j]@),
            forall|j: int| 0 <= j < i ==> #[trigger] out@[j]@ == facet_of(tags@[j]@),
            forall|j: int| 0 <= j < i ==> valid_facet(#[trigger] out@[j]@),
        decreases n - i,
    {
        if !is_valid_tag(tags[i].as_str()) {
            return Err(ErrorKind::InvalidManifest);
        }
        proof {
            lemma_facet_of_valid(tags@[i as int]@);
        }
        let f = tag_to_facet(tags[i].as_str());
        out.push(f);
        i = i + 1;
    }
    Ok(out)
}

/// The textual join of a file key under a manifest directory: `.` names the
/// directory itself, any other key is appended after a slash.
pub open spec fn join_spec(dir: Seq<char>, fname: Seq<char>) -> Seq<char> {
    if fname == seq!['.'] {
        dir
    } else {
        dir + seq!['/'] + fname
    }
}

/// Joins a file key under a directory path, textually.
pub fn join_under(dir: &str, fname: &str) -> (r: String)
    ensures
        r@ == join_spec(dir@, fname@),
{
    let n: usize = fname.unicode_len();
    if n == 1 && fname.get_char(0) == '.' {
        assert(fname@ =~= seq!['.']);
        return fname_dir_owned(dir);
    }
    assert(fname@ != seq!['.']);
    let mut r = String::new();
    r.append(dir);
    r.push('/');
    r.append(fname);
    assert(r@ =~= dir@ + seq!['/'] + fname@);
    r
}

/// Copies a directory path into an owned string.
fn fname_dir_owned(dir: &str) -> (r: String)
    ensures
        r@ == dir@,
{
    let mut r = String::new();
    r.append(dir);
    assert(r@ =~= dir@);
    r
}

/// The raw content of a sidecar manifest, as a function of its text
/// alone: `None` when the text is not well-formed TOML, when a tag list is
/// not an array of strings, or when the `files` value is not a table of
/// string arrays; otherwise the `tags` strings and the `files` keys with
/// their string lists, in the parser's table order, absent parts empty.
/// `parse_manifest` is the one trusted function that applies this name.
pub uninterp spec fn manifest_content(text: Seq<char>) -> Option<
    (Seq<Seq<char>>, Seq<(Seq<char>, Seq<Seq<char>>)>),
>;

/// Relies on toml::from_str and the toml::Value accessors (get, as_array,
/// as_str, as_table, Map::iter): the manifest's raw content as plain
/// values, exactly `manifest_content` of the text.
#[verifier::external_body]
fn parse_manifest(text: &str) -> (r: Result<DocTags, ErrorKind>)
    ensures
        r is Ok <==> manifest_content(text@) is Some,
        r matches Ok(dt) ==> manifest_content(text@) == Some(
            (dt.dirtags.deep_view(), filetags_deep(dt.filetags@)),
        ),
        r matches Err(e) ==> e == ErrorKind::InvalidManifest,
{
    let bad = ErrorKind::InvalidManifest;
    let val: toml::Value = toml::from_str(text).map_err(|_| bad)?;
    let strs = |v: &toml::Value| -> Option<Vec<String>> {
        v.as_array()?.iter().map(|t| t.as_str().map(String::from)).collect()
    };
    let dirtags = val.get("tags").map_or(Some(vec![]), |v| strs(v)).ok_or(bad)?;
    let filetags = val
        .get("files")
        .map_or(Some(vec![]), |t| {
            t.as_table()?.iter().map(|(k, v)| Some((k.clone(), strs(v)?))).collect()
        })
        .ok_or(bad)?;
    Ok(DocTags { dirtags, filetags })
}

/// Whether every tag of a manifest's raw content is well formed.
pub open spec fn manifest_tags_valid(
    mc: (Seq<Seq<char>>, Seq<(Seq<char>, Seq<Seq<char>>)>),
) -> bool {
    &&& forall|i: int| 0 <= i < mc.0.len() ==> valid_tag(#[trigger] mc.0[i])
    &&& forall|i: int, j: int|
        0 <= i < mc.1.len() && 0 <= j < mc.1[i].1.len() ==> valid_tag(#[trigger] mc.1[i].1[j])
}

/// A tag list turned into facet paths.
pub open spec fn facets_of_view(tags: Seq<Seq<char>>) -> Seq<Seq<char>> {
    tags.map_values(|t: Seq<char>| facet_of(t))
}

/// A manifest's file entries normalized: every key joined under the
/// manifest directory, every tag turned into its facet path.
pub open spec fn normalized_filetags_view(
    dir: Seq<char>,
    fts: Seq<(Seq<char>, Seq<Seq<char>>)>,
) -> Seq<(Seq<char>, Seq<Seq<char>>)> {
    fts.map_values(|e: (Seq<char>, Seq<Seq<char>>)| (join_spec(dir, e.0), facets_of_view(e.1)))
}

/// Appends a key with its tag list to a filetags association list,
/// tracking the deep view.
fn push_pair(r: &mut Vec<(String, Vec<String>)>, k: String, v: Vec<String>)
    ensures
        final (r)@ == old(r)@.push((k, v)),
        filetags_deep(final (r)@) == filetags_deep(old(r)@).push((k@, v.deep_view())),
{
    let ghost r0 = r@;
    let ghost fd0 = filetags_deep(r@);
    let ghost kv = k@;
    let ghost vv = v.deep_view();
    assert(filetags_deep(r@).len() == r@.len());
    r.push((k, v));
    assert(r@ == r0.push(r@[r0.len() as int]));
    assert(filetags_deep(r@).len() == r@.len());
    assert forall|j: int| 0 <= j < r0.len() implies filetags_deep(r@)[j] == fd0[j] by {
        assert(r@[j] == r0[j]);
    }
    assert(filetags_deep(r@)[r0.len() as int] == (kv, vv));
    assert(filetags_deep(r@) =~~= fd0.push((kv, vv)));
}

impl DocTags {
    /// Interprets manifest text for the directory `dir`: the parsed
    /// content's tags become exactly their facet paths and every file key
    /// is joined under `dir`, in order. Unparsable text, a tag list that
    /// is not an array of strings, and a malformed tag all fail with
    /// `InvalidManifest`, and nothing else does.
    pub fn from_toml(dir: &str, toml_text: String) -> (r: Result<DocTags, ErrorKind>)
        ensures
            ({
                let m = manifest_content(toml_text@);
                &&& (m is None ==> r == Err::<DocTags, ErrorKind>(ErrorKind::InvalidManifest))
                &&& (m matches Some(mc) ==> (if manifest_tags_valid(mc) {
                    r matches Ok(dt) && dt.dirtags.deep_view() == facets_of_view(mc.0)
                        && filetags_deep(dt.filetags@) == normalized_filetags_view(dir@, mc.1)
                } else {
                    r == Err::<DocTags, ErrorKind>(ErrorKind::InvalidManifest)
                }))
            }),
            r matches Err(e) ==> e == ErrorKind::InvalidManifest,
            r matches Ok(dt) ==> dt.wf(),
    {
        let raw = parse_manifest(toml_text.as_str())?;
        let ghost mc = (raw.dirtags.deep_view(), filetags_deep(raw.filetags@));
        assert(manifest_content(toml_text@) == Some(mc));
        let dirtags = match facets_of_tags(&raw.dirtags) {
            Ok(v) => v,
            Err(e) => {
                proof {
                    assert(!manifest_tags_valid(mc)) by {
                        if manifest_tags_valid(mc) {
                            assert(raw.dirtags.deep_view().len() == raw.dirtags@.len());
                            assert forall|i: int|
                                0 <= i < raw.dirtags@.len() implies valid_tag(
                                #[trigger] raw.dirtags@[i]@,
                            ) by {
                                assert(mc.0[i] == raw.dirtags@[i]@);
                            }
                            assert(false);
                        }
                    }
                    assert(!manifest_tags_valid(mc));
                    assert(manifest_content(toml_text@) == Some(mc));
                    assert(e == ErrorKind::InvalidManifest);
                }
                return Err(e);
            },
        };
        assert(dirtags.deep_view().len() == dirtags@.len());
        assert(dirtags.deep_view() =~~= facets_of_view(mc.0)) by {
            assert(dirtags.deep_view().len() == dirtags@.len());
            assert(raw.dirtags.deep_view().len() == raw.dirtags@.len());
            assert forall|i: int|
                0 <= i < dirtags@.len() implies #[trigger] dirtags.deep_view()[i]
                == facets_of_view(mc.0)[i] by {
                assert(dirtags.deep_view()[i] == dirtags@[i]@);
                assert(mc.0[i] == raw.dirtags@[i]@);
            }
        }
        let n = raw.filetags.len();
        let mut filetags: Vec<(String, Vec<String>)> = Vec::new();
        let mut i: usize = 0;
        assert(filetags_deep(filetags@) =~= normalized_filetags_view(dir@, mc.1.take(0)));
        while i < n
            invariant
                n == raw.filetags@.len(),
                0 <= i <= n,
                mc == (raw.dirtags.deep_view(), filetags_deep(raw.filetags@)),
                manifest_content(toml_text@) == Some(mc),
                forall|a: int| 0 <= a < mc.0.len() ==> valid_tag(#[trigger] mc.0[a]),
                filetags_deep(filetags@) == normalized_filetags_view(dir@, mc.1.take(i as int)),
                forall|a: int, b: int|
                    0 <= a < i && 0 <= b < mc.1[a].1.len() ==> valid_tag(#[trigger] mc.1[a].1[b]),
                forall|a: int, b: int|
                    0 <= a < filetags@.len() && 0 <= b < filetags@[a].1@.len() ==> valid_facet(
                        #[trigger] filetags@[a].1@[b]@,
                    ),
            decreases n - i,
        {
            assert(mc.1[i as int] == (raw.filetags@[i as int].0@, raw.filetags@[
                i as int
            ].1.deep_view()));
            let facets = match facets_of_tags(&raw.filetags[i].1) {
                Ok(v) => v,
                Err(e) => {
                    proof {
                        assert(!manifest_tags_valid(mc)) by {
                            if manifest_tags_valid(mc) {
                                assert(raw.filetags@[i as int].1.deep_view().len()
                                    == raw.filetags@[i as int].1@.len());
                                assert forall|b: int|
                                    0 <= b < raw.filetags@[i as int].1@.len() implies valid_tag(
                                    #[trigger] raw.filetags@[i as int].1@[b]@,
                                ) by {
                                    assert(mc.1[i as int].1[b] == raw.filetags@[i as int].1@[b]@);
                                }
                                assert(false);
                            }
                        }
                    }
                    return Err(e);
                },
            };
            assert(facets.deep_view() =~~= facets_of_view(mc.1[i as int].1)) by {
                assert(facets.deep_view().len() == facets@.len());
                assert(raw.filetags@[i as int].1.deep_view().len() == raw.filetags@[
                    i as int
                ].1@.len());
                assert forall|b: int|
                    0 <= b < facets@.len() implies #[trigger] facets.deep_view()[b]
                    == facets_of_view(mc.1[i as int].1)[b] by {
                    assert(facets.deep_view()[b] == facets@[b]@);
                    assert(mc.1[i as int].1[b] == raw.filetags@[i as int].1@[b]@);
                }
            }
            let key = join_under(dir, raw.filetags[i].0.as_str());
            push_pair(&mut filetags, key, facets);
            assert(filetags_deep(filetags@) =~= normalized_filetags_view(
                dir@,
                mc.1.take(i + 1),
            )) by {
                assert(mc.1.take(i + 1) =~= mc.1.take(i as int).push(mc.1[i as int]));
            }
            i = i + 1;
        }
        assert(mc.1.take(n as int) =~= mc.1);
        assert(manifest_tags_valid(mc));
        let dt = DocTags { dirtags, filetags };
        assert(dt.wf()) by {
            assert(forall|a: int|
                0 <= a < dt.dirtags@.len() ==> valid_facet(#[trigger] dt.dirtags@[a]@));
        }
        Ok(dt)
    }
}

/// A filetags association list at the level of views: keys and their tag
/// lists as character sequences.
pub open spec fn filetags_deep(ft: Seq<(String, Vec<String>)>) -> Seq<(Seq<char>, Seq<Seq<char>>)> {
    ft.map_values(|e: (String, Vec<String>)| (e.0@, e.1.deep_view()))
}

/// A tag added to a filetags association list: the first entry of the key
/// gets the tag appended; a missing key gets a fresh entry at the end.
pub open spec fn add_file_tag_view(
    ft: Seq<(Seq<char>, Seq<Seq<char>>)>,
    key: Seq<char>,
    tag: Seq<char>,
) -> Seq<(Seq<char>, Seq<Seq<char>>)>
    decreases ft.len(),
{
    if ft.len() == 0 {
        seq![(key, seq![tag])]
    } else if ft[0].0 == key {
        seq![(ft[0].0, ft[0].1.push(tag))] + ft.drop_first()
    } else {
        seq![ft[0]] + add_file_tag_view(ft.drop_first(), key, tag)
    }
}

/// Adds one raw tag to a manifest: to the directory-scoped tags when
/// `dir_tag` holds, else to the file-scoped tags of `key`. The manifest
/// here carries raw tags as written in the sidecar, not facet paths.
pub fn add_tag_to(dt: &mut DocTags, key: String, tag: String, dir_tag: bool)
    ensures
        dir_tag ==> final (dt).dirtags@ == old(dt).dirtags@.push(tag) && final (dt).filetags@
            == old(dt).filetags@,
        !dir_tag ==> final (dt).dirtags@ == old(dt).dirtags@ && filetags_deep(final (dt).filetags@)
            == add_file_tag_view(filetags_deep(old(dt).filetags@), key@, tag@),
{
    if dir_tag {
        dt.dirtags.push(tag);
        return ;
    }
    let ghost ft0 = filetags_deep(dt.filetags@);
    let ghost key_view = key@;
    let ghost tag_view = tag@;
    let n = dt.filetags.len();
    let mut i: usize = 0;
    while i < n
        invariant
            n == dt.filetags@.len(),
            0 <= i <= n,
            dt.filetags@ == old(dt).filetags@,
            dt.dirtags@ == old(dt).dirtags@,
            !dir_tag,
            ft0 == filetags_deep(dt.filetags@),
            key_view == key@,
            tag_view == tag@,
            forall|j: int| 0 <= j < i ==> (#[trigger] dt.filetags@[j]).0@ != key_view,
        decreases n - i,
    {
        if string_eq_str(&dt.filetags[i].0, key.as_str()) {
            let pair = dt.filetags.remove(i);
            assert(pair == old(dt).filetags@[i as int]);
            let (pair_key, mut pair_tags) = pair;
            assert(pair_key == old(dt).filetags@[i as int].0);
            assert(pair_tags == old(dt).filetags@[i as int].1);
            push_owned(&mut pair_tags, tag);
            assert(pair_tags.deep_view() == old(dt).filetags@[i as int].1.deep_view().push(
                tag_view,
            ));
            let pair = (pair_key, pair_tags);
            dt.filetags.insert(i, pair);
            proof {
                assert(forall|j: int| 0 <= j < i ==> (#[trigger] ft0[j]).0 != key_view);
                assert(ft0[i as int].0 == key_view);
                lemma_add_file_tag_at(ft0, key_view, tag_view, i as int);
                let target = ft0.update(
                    i as int,
                    (ft0[i as int].0, ft0[i as int].1.push(tag_view)),
                );
                assert(dt.filetags@ =~= old(dt).filetags@.update(
                    i as int,
                    dt.filetags@[i as int],
                ));
                assert(filetags_deep(dt.filetags@).len() == dt.filetags@.len());
                assert forall|j: int|
                    0 <= j < filetags_deep(dt.filetags@).len() implies filetags_deep(
                    dt.filetags@,
                )[j] == target[j] by {
                    if j != i {
                        assert(dt.filetags@[j] == old(dt).filetags@[j]);
                        assert(ft0[j] == (old(dt).filetags@[j].0@, old(
                            dt,
                        ).filetags@[j].1.deep_view()));
                    } else {
                        assert(dt.filetags@[j] == pair);
                        assert(ft0[j] == (old(dt).filetags@[j].0@, old(
                            dt,
                        ).filetags@[j].1.deep_view()));
                        assert(pair.1.deep_view() == ft0[j].1.push(tag_view));
                    }
                }
                assert(filetags_deep(dt.filetags@) =~= target);
            }
            return ;
        }
        i = i + 1;
    }
    let mut fresh: Vec<String> = Vec::new();
    assert(fresh.deep_view() =~= Seq::<Seq<char>>::empty());
    push_owned(&mut fresh, tag);
    assert(fresh.deep_view() =~= seq![tag_view]);
    dt.filetags.push((key, fresh));
    proof {
        assert(forall|j: int| 0 <= j < ft0.len() ==> (#[trigger] ft0[j]).0 != key_view);
        lemma_add_file_tag_missing(ft0, key_view, tag_view);
        assert(filetags_deep(dt.filetags@) =~= ft0.push((key_view, seq![tag_view])));
    }
}

/// When the first `i` entries miss the key and entry `i` holds it, adding
/// the tag updates entry `i` in place.
proof fn lemma_add_file_tag_at(
    ft: Seq<(Seq<char>, Seq<Seq<char>>)>,
    key: Seq<char>,
    tag: Seq<char>,
    i: int,
)
    requires
        0 <= i < ft.len(),
        ft[i].0 == key,
        forall|j: int| 0 <= j < i ==> (#[trigger] ft[j]).0 != key,
    ensures
        add_file_tag_view(ft, key, tag) == ft.update(i, (ft[i].0, ft[i].1.push(tag))),
    decreases i,
{
    if i == 0 {
        assert(add_file_tag_view(ft, key, tag) =~= ft.update(0, (ft[0].0, ft[0].1.push(tag))));
    } else {
        lemma_add_file_tag_at(ft.drop_first(), key, tag, i - 1);
        assert(seq![ft[0]] + ft.drop_first().update(
            i - 1,
            (ft[i].0, ft[i].1.push(tag)),
        ) =~= ft.update(i, (ft[i].0, ft[i].1.push(tag))));
    }
}

/// When no entry holds the key, adding the tag appends a fresh entry.
proof fn lemma_add_file_tag_missing(
    ft: Seq<(Seq<char>, Seq<Seq<char>>)>,
    key: Seq<char>,
    tag: Seq<char>,
)
    requires
        forall|j: int| 0 <= j < ft.len() ==> (#[trigger] ft[j]).0 != key,
    ensures
        add_file_tag_view(ft, key, tag) == ft.push((key, seq![tag])),
    decreases ft.len(),
{
    if ft.len() == 0 {
        assert(add_file_tag_view(ft, key, tag) =~= ft.push((key, seq![tag])));
    } else {
        lemma_add_file_tag_missing(ft.drop_first(), key, tag);
        assert(seq![ft[0]] + ft.drop_first().push((key, seq![tag])) =~= ft.push((key, seq![tag])));
    }
}

/// Interprets manifest text, yielding the empty manifest when the text
/// does not parse or holds a malformed tag: a bad sidecar never aborts a
/// traversal. On parsable content with well-formed tags the result is
/// exactly `from_toml`'s: the facet paths of the tags, the file keys
/// joined under `dir`.
pub fn doctags_from_text(dir: &str, toml_text: String) -> (r: DocTags)
    ensures
        r.wf(),
        ({
            let m = manifest_content(toml_text@);
            &&& (m is None ==> r.dirtags@.len() == 0 && r.filetags@.len() == 0)
            &&& (m matches Some(mc) ==> (if manifest_tags_valid(mc) {
                r.dirtags.deep_view() == facets_of_view(mc.0) && filetags_deep(r.filetags@)
                    == normalized_filetags_view(dir@, mc.1)
            } else {
                r.dirtags@.len() == 0 && r.filetags@.len() == 0
            }))
        }),
{
    match DocTags::from_toml(dir, toml_text) {
        Ok(dt) => dt,
        Err(_) => DocTags::empty(),
    }
}

} // verus!
