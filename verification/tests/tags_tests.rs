use doctags::tags::facet_to_tag;
use doctags::tags::is_valid_facet;
use doctags::tags::is_valid_tag;
use doctags::tags::tag_to_facet;

#[test]
fn tag_facet_conversion() {
    assert_eq!(tag_to_facet("lang:rust"), "/lang/rust");
    assert_eq!(tag_to_facet("gitrepo"), "/gitrepo");
    assert_eq!(tag_to_facet("author:pka"), "/author/pka");
    assert_eq!(tag_to_facet("format:toml"), "/format/toml");
}

#[test]
fn facet_tag_round_trip() {
    let tags = ["lang:rust", "gitrepo", "author:pka", "a:b:c", "x.y-z_0:w"];
    for tag in tags.iter() {
        let facet = tag_to_facet(tag);
        assert_eq!(facet_to_tag(&facet), *tag);
    }
}

#[test]
fn tag_validity() {
    assert!(is_valid_tag("lang:rust"));
    assert!(is_valid_tag("gitrepo"));
    assert!(is_valid_tag("a.b-c_d:e"));
    assert!(!is_valid_tag(""));
    assert!(!is_valid_tag(":rust"));
    assert!(!is_valid_tag("rust:"));
    assert!(!is_valid_tag("a::b"));
    assert!(!is_valid_tag("a b"));
    assert!(!is_valid_tag("a/b"));
}

#[test]
fn facet_validity() {
    assert!(is_valid_facet("/lang/rust"));
    assert!(is_valid_facet("/gitrepo"));
    assert!(!is_valid_facet("/"));
    assert!(!is_valid_facet(""));
    assert!(!is_valid_facet("lang/rust"));
    assert!(!is_valid_facet("/lang/"));
    assert!(!is_valid_facet("//lang"));
    assert!(!is_valid_facet("/lang rust"));
}
