use doctags::ErrorKind;
use doctags::doctags::DocTags;
use doctags::index::CreateAction;
use doctags::index::create_in_ram;
use doctags::index::create_plan;
use doctags::index::write_records;
use doctags::search::doc_from_id;
use doctags::search::doc_from_path;
use doctags::search::intervals_ok;
use doctags::search::normalize_highlights;
use doctags::search::search;
use doctags::search::search_matches;
use doctags::search::stats;
use doctags::walk::Traversal;
use doctags::walk::WalkEvent;

fn event(path: &str, depth: usize, is_dir: bool, tags: &[&str]) -> WalkEvent {
    let doctags = DocTags {
        dirtags: tags.iter().map(|t| t.to_string()).collect(),
        filetags: vec![],
    };
    WalkEvent { path: path.to_string(), depth, is_dir, doctags }
}

fn repo_index() -> tantivy::Index {
    let (index, mut writer) = create_in_ram().unwrap();
    let mut machine = Traversal::new();
    let events = vec![
        event("/repo", 0, true, &["/lang/rust", "/author/pka"]),
        event("/repo/Cargo.toml", 1, false, &[]),
        event("/repo/Cargo.lock", 1, false, &[]),
        event("/repo/readme.md", 1, false, &[]),
    ];
    let records = machine.walk_base(events);
    write_records(&mut writer, &records).unwrap();
    writer.commit().unwrap();
    index
}

#[test]
fn index_create_index() {
    let (index, mut writer) = create_in_ram().unwrap();
    writer.add(3, 2, "/root", &vec![]).unwrap();
    writer.commit().unwrap();
    let s = stats(&index).unwrap();
    assert_eq!(s.total, 1);
}

#[test]
fn composite_query() {
    let index = repo_index();
    let hits = search(&index, ":lang:rust Cargo".to_string(), 10).unwrap();
    let mut hits = hits;
    hits.sort();
    assert_eq!(hits, vec!["/repo/Cargo.lock", "/repo/Cargo.toml"]);
}

#[test]
fn bad_query_recovery() {
    let index = repo_index();
    let r = search(&index, ":".to_string(), 10);
    assert!(matches!(r, Err(ErrorKind::BadQuery)));
    let r = search(&index, ":lang:rust".to_string(), 10);
    assert!(r.is_ok());
    assert_eq!(r.unwrap().len(), 4);
}

#[test]
fn query_idempotence() {
    let index = repo_index();
    let first = search(&index, ":lang:rust Cargo".to_string(), 10).unwrap();
    let second = search(&index, ":lang:rust Cargo".to_string(), 10).unwrap();
    assert_eq!(first, second);
}

#[test]
fn limit_respected() {
    let index = repo_index();
    let hits = search(&index, "*".to_string(), 2).unwrap();
    assert_eq!(hits.len(), 2);
    let all = search(&index, "*".to_string(), 0).unwrap();
    assert_eq!(all.len(), 4);
}

#[test]
fn reindex_clobber() {
    let index = repo_index();
    assert_eq!(stats(&index).unwrap().total, 4);
    // recreating replaces the whole document set
    let (index2, mut writer2) = create_in_ram().unwrap();
    let mut machine = Traversal::new();
    let records = machine.walk_base(vec![event("/other", 0, true, &["/x"])]);
    write_records(&mut writer2, &records).unwrap();
    writer2.commit().unwrap();
    let s = stats(&index2).unwrap();
    assert_eq!(s.total, 1);
    assert_eq!(s.facet_counts.len(), 1);
    assert_eq!(s.facet_counts[0].0, "/x");
}

#[test]
fn create_plan_policy() {
    assert_eq!(create_plan(true, true), Ok(CreateAction::Recreate));
    assert_eq!(create_plan(true, false), Err(ErrorKind::NotAnIndex));
    assert_eq!(create_plan(false, false), Ok(CreateAction::CreateNew));
    assert_eq!(create_plan(false, true), Ok(CreateAction::CreateNew));
}

#[test]
fn stats_facets() {
    let index = repo_index();
    let s = stats(&index).unwrap();
    assert_eq!(s.total, 4);
    let mut facets: Vec<String> = s.facet_counts.iter().map(|e| e.0.clone()).collect();
    facets.sort();
    assert_eq!(facets, vec!["/author", "/lang"]);
}

#[test]
fn point_lookups() {
    let index = repo_index();
    let hit = doc_from_id(&index, 3).unwrap().unwrap();
    assert_eq!(hit.id, 3);
    assert_eq!(hit.path, "/repo/Cargo.toml");
    assert!(doc_from_id(&index, 999).unwrap().is_none());

    let hit = doc_from_path(&index, &"/repo/readme.md".to_string())
        .unwrap()
        .unwrap();
    assert_eq!(hit.path, "/repo/readme.md");
}

#[test]
fn snippet_bounds() {
    let index = repo_index();
    let matches = search_matches(&index, &"Cargo".to_string(), 10).unwrap();
    assert!(!matches.is_empty());
    for m in matches.iter() {
        // intervals are sorted, disjoint and inside the path, and land on
        // the matched token
        let mut prev_end = 0usize;
        for (s, e) in m.highlights.iter() {
            assert!(*s < *e);
            assert!(*e <= m.text.len());
            assert!(*s >= prev_end);
            assert!(m.text[*s..*e].eq_ignore_ascii_case("Cargo"));
            prev_end = *e;
        }
        assert!(m.text.contains("Cargo"));
        assert!(!m.highlights.is_empty());
    }
}

#[test]
fn highlight_normalization() {
    // a well-formed list passes through unchanged
    let ok = vec![(0usize, 2usize), (3, 5), (5, 8)];
    assert!(intervals_ok(&ok, 8));
    assert_eq!(normalize_highlights(ok.clone(), 8), ok);
    // out-of-bounds, empty and overlapping intervals are dropped
    let bad = vec![(0usize, 2usize), (1, 3), (4, 4), (6, 12), (5, 7)];
    let fixed = normalize_highlights(bad, 8);
    assert_eq!(fixed, vec![(0, 2), (5, 7)]);
}
