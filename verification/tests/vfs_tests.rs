use doctags::doctags::DocTags;
use doctags::index::create_in_ram;
use doctags::index::write_records;
use doctags::vfs::DoctagsFS;
use doctags::vfs::FsEntry;
use doctags::vfs::VfsEntry;
use doctags::vfs::facet_last_component;
use doctags::vfs::readdir_page;
use doctags::walk::Traversal;
use doctags::walk::WalkEvent;

fn tagged_event(path: &str, depth: usize, is_dir: bool, tags: &[&str]) -> WalkEvent {
    let doctags = DocTags {
        dirtags: tags.iter().map(|t| t.to_string()).collect(),
        filetags: vec![],
    };
    WalkEvent { path: path.to_string(), depth, is_dir, doctags }
}

fn mounted_fs() -> DoctagsFS {
    let (index, mut writer) = create_in_ram().unwrap();
    let mut machine = Traversal::new();
    let events = vec![
        tagged_event("/code", 0, true, &[]),
        tagged_event("/code/rusty", 1, true, &["/lang/rust", "/author/pka"]),
        tagged_event("/code/rusty/main.rs", 2, false, &[]),
        tagged_event("/code/golly", 1, true, &["/lang/go"]),
        tagged_event("/code/golly/main.go", 2, false, &[]),
    ];
    let records = machine.walk_base(events);
    write_records(&mut writer, &records).unwrap();
    writer.commit().unwrap();
    let mut fs = DoctagsFS::new(index);
    fs.create_vfs_tree().unwrap();
    fs
}

fn names_of(entries: &[VfsEntry]) -> Vec<String> {
    let mut names: Vec<String> = entries
        .iter()
        .map(|e| match &e.entry {
            FsEntry::Tag(t) => t.clone(),
            FsEntry::Path(p) => p.clone(),
        })
        .collect();
    names.sort();
    names
}

#[test]
fn vfs_tree_generation() {
    let fs = mounted_fs();
    let root_entries = fs.entries_from_parent_id(1).unwrap();
    assert_eq!(names_of(&root_entries), vec!["_", "author", "lang"]);
}

#[test]
fn vfs_listing() {
    let fs = mounted_fs();
    // the lang directory lists its facet children
    let lang = fs.entry_from_dir_entry(1, "lang").unwrap().unwrap();
    assert!(matches!(&lang.entry, FsEntry::Tag(t) if t == "lang"));
    let lang_entries = fs.entries_from_parent_id(lang.id).unwrap();
    assert_eq!(names_of(&lang_entries), vec!["go", "rust"]);
    // a leaf tag directory lists the documents carrying the facet
    let rust = fs.entry_from_dir_entry(lang.id, "rust").unwrap().unwrap();
    let rust_entries = fs.entries_from_parent_id(rust.id).unwrap();
    let names = names_of(&rust_entries);
    assert_eq!(names, vec!["/code/rusty", "/code/rusty/main.rs"]);
}

#[test]
fn vfs_enoent() {
    let fs = mounted_fs();
    // an unknown inode resolves to nothing
    assert!(fs.entry_from_id(555).unwrap().is_none());
    // a name not under its parent resolves to nothing
    assert!(fs.entry_from_dir_entry(1, "nosuchtag").unwrap().is_none());
    // listing an inode that is neither synthetic nor a document is a miss
    assert!(matches!(
        fs.entries_from_parent_id(555),
        Err(doctags::ErrorKind::EntryNotFound)
    ));
}

#[test]
fn vfs_entry_from_id() {
    let fs = mounted_fs();
    // the root is a synthetic tag node
    let root = fs.entry_from_id(1).unwrap().unwrap();
    assert!(matches!(&root.entry, FsEntry::Tag(t) if t == "FUSEROOT"));
    // a document id resolves to its path
    let doc = fs.entry_from_id(2).unwrap().unwrap();
    assert!(matches!(&doc.entry, FsEntry::Path(p) if p == "/code"));
}

#[test]
fn readdir_pagination() {
    let fs = mounted_fs();
    let entries = fs.entries_from_parent_id(1).unwrap();
    let page = readdir_page(1, &entries, 0);
    assert_eq!(page.len(), 2 + entries.len());
    assert_eq!(page[0].name, ".");
    assert_eq!(page[0].index, 1);
    assert_eq!(page[1].name, "..");
    assert_eq!(page[1].index, 2);
    assert_eq!(page[2].index, 3);
    // resuming from an index continues right behind it, with stable indices
    let rest = readdir_page(1, &entries, 3);
    assert_eq!(rest.len(), entries.len() - 1);
    assert_eq!(rest[0].index, 4);
    assert_eq!(rest[0].name, page[3].name);
}

#[test]
fn last_component() {
    assert_eq!(facet_last_component("/lang/rust"), "rust");
    assert_eq!(facet_last_component("/gitrepo"), "gitrepo");
    assert_eq!(facet_last_component("plain"), "plain");
}
