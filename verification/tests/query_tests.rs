use doctags::query::compile_query;

#[test]
fn compile_tag_and_text() {
    let q = compile_query(":lang:rust readme");
    assert_eq!(q.facets, vec!["/lang/rust"]);
    assert_eq!(q.residual, "readme");
}

#[test]
fn compile_two_atoms() {
    let q = compile_query(":a :b");
    assert_eq!(q.facets, vec!["/a", "/b"]);
    assert_eq!(q.residual, "*");
}

#[test]
fn compile_text_only() {
    let q = compile_query("path:csv OR path:pdf");
    // a colon-prefixed run counts as a tag atom wherever it stands
    assert_eq!(q.facets, vec!["/csv", "/pdf"]);
    assert_eq!(q.residual, "path OR path");
}

#[test]
fn compile_plain_words() {
    let q = compile_query("readme notes");
    assert!(q.facets.is_empty());
    assert_eq!(q.residual, "readme notes");
}

#[test]
fn compile_lone_colon() {
    // a bare colon starts no atom and survives into the residual text
    let q = compile_query(":");
    assert!(q.facets.is_empty());
    assert_eq!(q.residual, ":");
}

#[test]
fn compile_empty_input() {
    let q = compile_query("");
    assert!(q.facets.is_empty());
    assert_eq!(q.residual, "*");
}

#[test]
fn compile_deep_atom() {
    let q = compile_query(":file_type:file html png");
    assert_eq!(q.facets, vec!["/file_type/file"]);
    assert_eq!(q.residual, "html png");
}
