use doctags::doctags::DocTags;
use doctags::walk::DocTagsStackEntry;
use doctags::walk::Record;
use doctags::walk::Traversal;
use doctags::walk::WalkEvent;
use doctags::walk::all_tags;

fn repo_doctags() -> DocTags {
    let toml = "\n        tags = [\"lang:rust\", \"author:pka\"]\n\n        [files]\n        \".\" = [\"gitrepo\"]\n        \"Cargo.toml\" = [\"format:toml\"]\n    ";
    DocTags::from_toml("/repo", toml.to_string()).unwrap()
}

#[test]
fn collect_tags() {
    let doctags = repo_doctags();
    let doctags_stack = vec![DocTagsStackEntry { id: 3, doctags }];

    assert_eq!(
        all_tags(&doctags_stack, "/repo"),
        vec!["/lang/rust", "/author/pka", "/gitrepo"]
    );
    assert_eq!(
        all_tags(&doctags_stack, "/repo/Cargo.toml"),
        vec!["/lang/rust", "/author/pka", "/format/toml"]
    );
    assert_eq!(
        all_tags(&doctags_stack, "/repo/Cargo.lock"),
        vec!["/lang/rust", "/author/pka"]
    );

    // without facet conversion: raw tags pass through unchanged
    let doctags = DocTags {
        dirtags: vec!["lang:rust".to_string(), "author:pka".to_string()],
        filetags: vec![],
    };
    let doctags_stack = vec![DocTagsStackEntry { id: 3, doctags }];
    assert_eq!(
        all_tags(&doctags_stack, "/repo"),
        vec!["lang:rust", "author:pka"]
    );
}

fn repo_events() -> Vec<WalkEvent> {
    vec![
        WalkEvent {
            path: "/repo".to_string(),
            depth: 0,
            is_dir: true,
            doctags: repo_doctags(),
        },
        WalkEvent {
            path: "/repo/Cargo.toml".to_string(),
            depth: 1,
            is_dir: false,
            doctags: DocTags { dirtags: vec![], filetags: vec![] },
        },
        WalkEvent {
            path: "/repo/Cargo.lock".to_string(),
            depth: 1,
            is_dir: false,
            doctags: DocTags { dirtags: vec![], filetags: vec![] },
        },
    ]
}

fn repo_records() -> Vec<Record> {
    let mut machine = Traversal::new();
    machine.walk_base(repo_events())
}

#[test]
fn manifest_interpretation() {
    let records = repo_records();
    assert_eq!(records.len(), 3);

    assert_eq!(records[0].id, 2);
    assert_eq!(records[0].parent_id, u64::MAX);
    assert_eq!(records[0].path, "/repo");
    assert_eq!(
        records[0].tags,
        vec!["/lang/rust", "/author/pka", "/gitrepo"]
    );

    assert_eq!(records[1].id, 3);
    assert_eq!(records[1].parent_id, 2);
    assert_eq!(records[1].path, "/repo/Cargo.toml");
    assert_eq!(
        records[1].tags,
        vec!["/lang/rust", "/author/pka", "/format/toml"]
    );

    assert_eq!(records[2].id, 4);
    assert_eq!(records[2].parent_id, 2);
    assert_eq!(records[2].path, "/repo/Cargo.lock");
    assert_eq!(records[2].tags, vec!["/lang/rust", "/author/pka"]);
}

#[test]
fn ids_unique_and_parents_close() {
    let mut machine = Traversal::new();
    let sub = DocTags {
        dirtags: vec!["/sub".to_string()],
        filetags: vec![],
    };
    let events = vec![
        WalkEvent {
            path: "/base".to_string(),
            depth: 0,
            is_dir: true,
            doctags: DocTags { dirtags: vec![], filetags: vec![] },
        },
        WalkEvent {
            path: "/base/a".to_string(),
            depth: 1,
            is_dir: true,
            doctags: sub,
        },
        WalkEvent {
            path: "/base/a/f".to_string(),
            depth: 2,
            is_dir: false,
            doctags: DocTags { dirtags: vec![], filetags: vec![] },
        },
        WalkEvent {
            path: "/base/b".to_string(),
            depth: 1,
            is_dir: false,
            doctags: DocTags { dirtags: vec![], filetags: vec![] },
        },
    ];
    let records = machine.walk_base(events);
    assert_eq!(records.len(), 4);
    // ids are unique
    for i in 0..records.len() {
        for j in 0..records.len() {
            if i != j {
                assert_ne!(records[i].id, records[j].id);
            }
        }
    }
    // every non-root parent id names an earlier record whose path is a
    // strict prefix at a separator
    for rec in records.iter() {
        if rec.parent_id != u64::MAX {
            let parent = records.iter().find(|p| p.id == rec.parent_id).unwrap();
            assert!(rec.path.starts_with(&format!("{}/", parent.path)));
        }
    }
    // the deeper file inherits the subdirectory's dirtags
    assert_eq!(records[2].tags, vec!["/sub"]);
    // the sibling after the subtree does not
    assert!(records[3].tags.is_empty());
}

#[test]
fn admissible_event_lists() {
    let machine = Traversal::new();
    // a real directory walk is admissible
    assert!(machine.admissible(&repo_events()));
    // a base that is a plain file is not: no manifest frame ever opens
    let lone_file = vec![WalkEvent {
        path: "/base.txt".to_string(),
        depth: 0,
        is_dir: false,
        doctags: DocTags { dirtags: vec![], filetags: vec![] },
    }];
    assert!(!machine.admissible(&lone_file));
}

#[test]
fn ids_continue_across_bases() {
    let mut machine = Traversal::new();
    let one = vec![WalkEvent {
        path: "/one".to_string(),
        depth: 0,
        is_dir: true,
        doctags: DocTags { dirtags: vec![], filetags: vec![] },
    }];
    let two = vec![WalkEvent {
        path: "/two".to_string(),
        depth: 0,
        is_dir: true,
        doctags: DocTags { dirtags: vec![], filetags: vec![] },
    }];
    let r1 = machine.walk_base(one);
    let r2 = machine.walk_base(two);
    assert_eq!(r1[0].id, 2);
    assert_eq!(r2[0].id, 3);
    assert_eq!(r1[0].parent_id, u64::MAX);
    assert_eq!(r2[0].parent_id, u64::MAX);
}
