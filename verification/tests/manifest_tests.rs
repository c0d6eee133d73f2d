use doctags::ErrorKind;
use doctags::doctags::DocTags;
use doctags::doctags::add_tag_to;
use doctags::doctags::doctags_from_text;
use doctags::doctags::join_under;

fn repo_manifest() -> &'static str {
    "\n        tags = [\"lang:rust\", \"author:pka\"]\n\n        [files]\n        \".\" = [\"gitrepo\"]\n        \"Cargo.toml\" = [\"format:toml\"]\n    "
}

#[test]
fn parse_toml() {
    let doctags = DocTags::from_toml("/repo", repo_manifest().to_string());
    assert!(doctags.is_ok());
    let doctags = doctags.unwrap();
    assert_eq!(doctags.dirtags, vec!["/lang/rust", "/author/pka"]);

    let doctags = DocTags::from_toml("/repo", "tags =".to_string());
    assert!(matches!(doctags, Err(ErrorKind::InvalidManifest)));
}

#[test]
fn parse_toml_rejects_bad_tags() {
    // a non-string tag
    let r = DocTags::from_toml("/repo", "tags = [3]".to_string());
    assert!(matches!(r, Err(ErrorKind::InvalidManifest)));
    // a malformed tag
    let r = DocTags::from_toml("/repo", "tags = [\"a::b\"]".to_string());
    assert!(matches!(r, Err(ErrorKind::InvalidManifest)));
    // a non-array tag list
    let r = DocTags::from_toml("/repo", "tags = \"x\"".to_string());
    assert!(matches!(r, Err(ErrorKind::InvalidManifest)));
}

#[test]
fn empty_on_parse_failure() {
    let dt = doctags_from_text("/repo", "tags =".to_string());
    assert!(dt.dirtags.is_empty());
    assert!(dt.filetags.is_empty());
}

#[test]
fn filetags_keys_joined() {
    let dt = DocTags::from_toml("/repo", repo_manifest().to_string()).unwrap();
    let mut keys: Vec<String> = dt.filetags.iter().map(|e| e.0.clone()).collect();
    keys.sort();
    assert_eq!(keys, vec!["/repo", "/repo/Cargo.toml"]);
    let toml_tags = dt.filetags_get("/repo/Cargo.toml").unwrap();
    assert_eq!(toml_tags, &vec!["/format/toml"]);
    assert!(dt.filetags_get("/repo/Cargo.lock").is_none());
}

#[test]
fn join_under_cases() {
    assert_eq!(join_under("/repo", "Cargo.toml"), "/repo/Cargo.toml");
    assert_eq!(join_under("/repo", "."), "/repo");
}

#[test]
fn add_tag_to_directory() {
    let mut dt = DocTags {
        dirtags: vec!["lang:rust".to_string()],
        filetags: vec![],
    };
    add_tag_to(&mut dt, String::new(), "gitrepo".to_string(), true);
    assert_eq!(dt.dirtags, vec!["lang:rust", "gitrepo"]);
    assert!(dt.filetags.is_empty());
}

#[test]
fn add_tag_to_file() {
    let mut dt = DocTags {
        dirtags: vec![],
        filetags: vec![("a.txt".to_string(), vec!["x".to_string()])],
    };
    // augments the existing entry
    add_tag_to(&mut dt, "a.txt".to_string(), "y".to_string(), false);
    assert_eq!(dt.filetags.len(), 1);
    assert_eq!(dt.filetags[0].1, vec!["x", "y"]);
    // a fresh key is appended
    add_tag_to(&mut dt, "b.txt".to_string(), "z".to_string(), false);
    assert_eq!(dt.filetags.len(), 2);
    assert_eq!(dt.filetags[1].0, "b.txt");
    assert_eq!(dt.filetags[1].1, vec!["z"]);
}
