//! Tags and facet paths.
//!
//! A tag is a colon-delimited hierarchical label such as `lang:rust`. Its
//! canonical form is a facet path: `/`-rooted, `/`-separated, `lang:rust`
//! becoming `/lang/rust`. Components are non-empty and drawn from
//! `[A-Za-z0-9_.-]`.

use vstd::prelude::*;

verus! {

/// Characters allowed inside a tag component.
pub open spec fn is_tag_char(c: char) -> bool {
    ('A' <= c && c <= 'Z') || ('a' <= c && c <= 'z') || ('0' <= c && c <= '9') || c == '_' || c
        == '-' || c == '.'
}

/// A well-formed tag: one or more non-empty components of tag characters,
/// separated by single colons.
pub open spec fn valid_tag(s: Seq<char>) -> bool {
    &&& s.len() > 0
    &&& forall|i: int| 0 <= i < s.len() ==> is_tag_char(#[trigger] s[i]) || s[i] == ':'
    &&& s[0] != ':'
    &&& s[s.len() - 1] != ':'
    &&& forall|i: int| 0 < i < s.len() ==> !(s[i - 1] == ':' && #[trigger] s[i] == ':')
}

/// A well-formed facet path: a leading `/`, then one or more non-empty
/// components of tag characters, separated by single slashes.
pub open spec fn valid_facet(s: Seq<char>) -> bool {
    &&& s.len() >= 2
    &&& s[0] == '/'
    &&& forall|i: int| 0 <= i < s.len() ==> is_tag_char(#[trigger] s[i]) || s[i] == '/'
    &&& s[s.len() - 1] != '/'
    &&& forall|i: int| 0 < i < s.len() ==> !(s[i - 1] == '/' && #[trigger] s[i] == '/')
}

/// The facet path denoted by a tag: a leading slash, and every colon turned
/// into a slash.
pub open spec fn facet_of(s: Seq<char>) -> Seq<char> {
    seq!['/'] + s.map(|i: int, c: char| if c == ':' { '/' } else { c })
}

/// The tag denoted by a facet path: the leading slash dropped, and every
/// remaining slash turned into a colon.
pub open spec fn tag_of(s: Seq<char>) -> Seq<char> {
    s.subrange(1, s.len() as int).map(|i: int, c: char| if c == '/' { ':' } else { c })
}

/// Converting a valid tag to its facet path and back yields the tag again.
pub proof fn lemma_facet_tag_round_trip(t: Seq<char>)
    requires
        valid_tag(t),
    ensures
        tag_of(facet_of(t)) == t,
{
    let f = facet_of(t);
    assert(f.subrange(1, f.len() as int) =~= t.map(
        |i: int, c: char| if c == ':' { '/' } else { c },
    ));
    assert(tag_of(f) =~= t);
}

/// A valid tag always converts to a valid facet path.
pub proof fn lemma_facet_of_valid(t: Seq<char>)
    requires
        valid_tag(t),
    ensures
        valid_facet(facet_of(t)),
{
    let f = facet_of(t);
    assert(forall|i: int|
        0 < i < f.len() ==> #[trigger] f[i] == (if t[i - 1] == ':' {
            '/'
        } else {
            t[i - 1]
        }));
}

/// Appends one character to a string.
///
/// Relies on String::push of std: the character is appended at the end.
pub assume_specification[ String::push ](s: &mut String, ch: char)
    ensures
        final (s)@ == old(s)@.push(ch),
;

/// Canonicalizes a tag to its facet path, `lang:rust` to `/lang/rust`.
pub fn tag_to_facet(tag: &str) -> (r: String)
    ensures
        r@ == facet_of(tag@),
{
    let n: usize = tag.unicode_len();
    let mut r = String::new();
    r.push('/');
    let mut i: usize = 0;
    while i < n
        invariant
            n == tag@.len(),
            0 <= i <= n,
            r@ == facet_of(tag@).subrange(0, 1 + i),
        decreases n - i,
    {
        let c = tag.get_char(i);
        if c == ':' {
            r.push('/');
        } else {
            r.push(c);
        }
        assert(r@ =~= facet_of(tag@).subrange(0, 1 + i + 1));
        i = i + 1;
    }
    assert(r@ =~= facet_of(tag@));
    r
}

/// Recovers the tag named by a facet path, `/lang/rust` to `lang:rust`.
pub fn facet_to_tag(facet: &str) -> (r: String)
    requires
        facet@.len() >= 1,
    ensures
        r@ == tag_of(facet@),
{
    let n: usize = facet.unicode_len();
    let mut r = String::new();
    let mut i: usize = 1;
    while i < n
        invariant
            n == facet@.len(),
            1 <= i <= n || (n == 0 && i == 1),
            n >= 1,
            r@ == tag_of(facet@).subrange(0, i - 1),
        decreases n - i,
    {
        let c = facet.get_char(i);
        if c == '/' {
            r.push(':');
        } else {
            r.push(c);
        }
        assert(r@ =~= tag_of(facet@).subrange(0, i as int));
        i = i + 1;
    }
    assert(r@ =~= tag_of(facet@));
    r
}

/// Decides whether a string is a well-formed tag.
pub fn is_valid_tag(tag: &str) -> (b: bool)
    ensures
        b == valid_tag(tag@),
{
    let n: usize = tag.unicode_len();
    if n == 0 {
        return false;
    }
    let mut i: usize = 0;
    let mut prev_colon = true;  // a colon may not stand first
    while i < n
        invariant
            n == tag@.len(),
            0 <= i <= n,
            forall|j: int| 0 <= j < i ==> is_tag_char(#[trigger] tag@[j]) || tag@[j] == ':',
            i > 0 ==> tag@[0] != ':',
            forall|j: int| 0 < j < i ==> !(tag@[j - 1] == ':' && #[trigger] tag@[j] == ':'),
            prev_colon == (if i == 0 {
                true
            } else {
                tag@[i - 1] == ':'
            }),
        decreases n - i,
    {
        let c = tag.get_char(i);
        let is_colon = c == ':';
        if is_colon {
            if prev_colon {
                return false;
            }
        } else {
            if !tag_char(c) {
                return false;
            }
        }
        prev_colon = is_colon;
        i = i + 1;
    }
    !prev_colon
}

/// Decides whether a string is a well-formed facet path.
pub fn is_valid_facet(facet: &str) -> (b: bool)
    ensures
        b == valid_facet(facet@),
{
    let n: usize = facet.unicode_len();
    if n < 2 {
        return false;
    }
    if facet.get_char(0) != '/' {
        return false;
    }
    let mut i: usize = 1;
    let mut prev_slash = true;
    while i < n
        invariant
            n == facet@.len(),
            1 <= i <= n,
            facet@[0] == '/',
            forall|j: int| 0 <= j < i ==> is_tag_char(#[trigger] facet@[j]) || facet@[j] == '/',
            forall|j: int| 0 < j < i ==> !(facet@[j - 1] == '/' && #[trigger] facet@[j] == '/'),
            prev_slash == (facet@[i - 1] == '/'),
        decreases n - i,
    {
        let c = facet.get_char(i);
        let is_slash = c == '/';
        if is_slash {
            if prev_slash {
                return false;
            }
        } else {
            if !tag_char(c) {
                return false;
            }
        }
        prev_slash = is_slash;
        i = i + 1;
    }
    !prev_slash
}

/// Decides whether one character may stand in a tag component.
fn tag_char(c: char) -> (b: bool)
    ensures
        b == is_tag_char(c),
{
    ('A' <= c && c <= 'Z') || ('a' <= c && c <= 'z') || ('0' <= c && c <= '9') || c == '_' || c
        == '-' || c == '.'
}

} // verus!
