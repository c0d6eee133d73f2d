use doctags::ErrorKind;
use doctags::config::Config;
use doctags::config::DocsetConfig;

fn sample_config() -> Config {
    Config {
        docsets: vec![
            DocsetConfig {
                name: "default".to_string(),
                index: "/tmp/idxdefault".to_string(),
                basedirs: vec!["/home/pi/Documents".to_string()],
            },
            DocsetConfig {
                name: "code".to_string(),
                index: "/tmp/idxcode".to_string(),
                basedirs: vec!["/home/pi/code".to_string()],
            },
        ],
        shortcuts: vec![],
    }
}

#[test]
fn config_read_config() {
    let config = sample_config();
    assert_eq!(config.docsets[0].name, "default");
    let cfg = config.docset_config(&"code".to_string()).unwrap();
    assert_eq!(cfg.index, "/tmp/idxcode");
}

#[test]
fn docset_config_missing() {
    let config = sample_config();
    let r = config.docset_config(&"nosuch".to_string());
    assert!(matches!(r, Err(ErrorKind::EntryNotFound)));
}

#[test]
fn update_docset_config_replaces() {
    let mut config = sample_config();
    let idx = config.update_docset_config(DocsetConfig {
        name: "code".to_string(),
        index: "/tmp/idxnew".to_string(),
        basedirs: vec!["/src".to_string()],
    });
    assert_eq!(idx, 1);
    assert_eq!(config.docsets.len(), 2);
    assert_eq!(config.docsets[1].index, "/tmp/idxnew");
}

#[test]
fn update_docset_config_appends() {
    let mut config = sample_config();
    let idx = config.update_docset_config(DocsetConfig {
        name: "notes".to_string(),
        index: "/tmp/idxnotes".to_string(),
        basedirs: vec!["/notes".to_string()],
    });
    assert_eq!(idx, 2);
    assert_eq!(config.docsets.len(), 3);
    assert_eq!(config.docsets[2].name, "notes");
}

#[test]
fn error_kinds_described() {
    assert_eq!(ErrorKind::InvalidManifest.describe(), "invalid manifest");
    assert_eq!(ErrorKind::NotAnIndex.describe(), "not a managed index directory");
    assert_eq!(ErrorKind::BadQuery.describe(), "unparsable query");
    assert_eq!(ErrorKind::IndexIO.describe(), "index read or write failure");
    assert_eq!(ErrorKind::FsError.describe(), "filesystem failure");
    assert_eq!(ErrorKind::EntryNotFound.describe(), "entry not found");
}
