use alps_writer::json::render_document;
use alps_writer::node::DescriptorType;
use alps_writer::walk::{walk_profile, FsEntry, ProfileError};

fn file(name: &str, content: &str) -> FsEntry {
    FsEntry::File { name: name.to_string(), content: content.to_string() }
}

fn dir(name: &str, entries: Vec<FsEntry>) -> FsEntry {
    FsEntry::Dir { name: name.to_string(), entries }
}

#[test]
fn missing_index_fails_the_walk() {
    let entries = vec![file("foo.md", "---\nid: a\n---\n")];
    assert_eq!(
        walk_profile(&entries),
        Err(ProfileError::MissingIndex { path: vec![] })
    );
}

#[test]
fn missing_index_in_subdirectory_names_it() {
    let entries = vec![
        file("index.md", "---\n---\n"),
        dir("sub", vec![file("foo.md", "")]),
    ];
    assert_eq!(
        walk_profile(&entries),
        Err(ProfileError::MissingIndex { path: vec!["sub".to_string()] })
    );
}

#[test]
fn empty_profile_has_no_descriptors() {
    let entries = vec![file("index.md", "---\nversion: \"1.0\"\n---\n")];
    let alps = walk_profile(&entries).unwrap();
    assert_eq!(alps.version, "1.0");
    assert!(alps.descriptor.is_empty());
}

#[test]
fn version_defaults_when_absent() {
    let entries = vec![file("index.md", "")];
    let alps = walk_profile(&entries).unwrap();
    assert_eq!(alps.version, "1.0");
}

#[test]
fn file_id_derived_from_base_name() {
    let entries = vec![file("index.md", ""), file("foo.md", "---\nname: n\n---\n")];
    let alps = walk_profile(&entries).unwrap();
    assert_eq!(alps.descriptor.len(), 1);
    assert_eq!(alps.descriptor[0].id.as_deref(), Some("foo"));
}

#[test]
fn explicit_id_wins_over_base_name() {
    let entries = vec![file("index.md", ""), file("foo.md", "---\nid: bar\n---\n")];
    let alps = walk_profile(&entries).unwrap();
    assert_eq!(alps.descriptor[0].id.as_deref(), Some("bar"));
}

#[test]
fn underscore_name_gets_no_derived_id() {
    let entries = vec![file("index.md", ""), file("_hidden.md", "---\nname: n\n---\n")];
    let alps = walk_profile(&entries).unwrap();
    assert_eq!(alps.descriptor[0].id, None);
}

#[test]
fn directory_name_overrides_its_index_id() {
    let entries = vec![
        file("index.md", ""),
        dir("widgets", vec![file("index.md", "---\nid: temp\n---\n")]),
    ];
    let alps = walk_profile(&entries).unwrap();
    assert_eq!(alps.descriptor[0].id.as_deref(), Some("widgets"));
}

#[test]
fn children_keep_entry_order() {
    let entries = vec![
        file("index.md", ""),
        file("b.md", ""),
        dir("a", vec![file("index.md", "")]),
        file("c.md", ""),
    ];
    let alps = walk_profile(&entries).unwrap();
    let ids: Vec<&str> = alps.descriptor.iter().map(|d| d.id.as_deref().unwrap()).collect();
    assert_eq!(ids, vec!["b", "a", "c"]);
}

#[test]
fn non_markdown_entries_are_ignored() {
    let entries = vec![file("index.md", ""), file("notes.txt", "whatever")];
    let alps = walk_profile(&entries).unwrap();
    assert!(alps.descriptor.is_empty());
}

#[test]
fn bad_child_header_fails_naming_the_file() {
    let entries = vec![file("index.md", ""), file("bad.md", "---\na: [oops\n---\n")];
    assert_eq!(
        walk_profile(&entries),
        Err(ProfileError::Decode { path: vec!["bad.md".to_string()] })
    );
}

#[test]
fn bad_file_shape_fails_naming_the_file() {
    let entries = vec![file("index.md", ""), file("bad.md", "---\nonly one delimiter")];
    assert_eq!(
        walk_profile(&entries),
        Err(ProfileError::Format { path: vec!["bad.md".to_string()] })
    );
}

#[test]
fn index_body_becomes_root_doc() {
    let entries = vec![file("index.md", "---\n---\nAbout this profile.")];
    let alps = walk_profile(&entries).unwrap();
    let doc = alps.doc.unwrap();
    assert_eq!(doc.format, "markdown");
    assert_eq!(doc.value, "About this profile.");
}

#[test]
fn empty_profile_renders_version_only() {
    let entries = vec![file("index.md", "")];
    let alps = walk_profile(&entries).unwrap();
    let doc = alps_writer::json::build_document(alps);
    let out = render_document(&doc).unwrap();
    assert_eq!(out, "{\n  \"alps\": {\n    \"version\": \"1.0\"\n  }\n}");
}

#[test]
fn three_level_tree_preserves_nesting_and_order() {
    let entries = vec![
        file("index.md", "---\nversion: \"1.0\"\n---\n"),
        file("leaf.md", "---\ntype: safe\n---\n"),
        dir(
            "branch",
            vec![file("index.md", ""), file("nested.md", "---\nname: deep\n---\n")],
        ),
    ];
    let alps = walk_profile(&entries).unwrap();
    assert_eq!(alps.descriptor.len(), 2);
    assert_eq!(alps.descriptor[0].id.as_deref(), Some("leaf"));
    assert_eq!(alps.descriptor[0].descriptor_type, DescriptorType::Safe);
    assert_eq!(alps.descriptor[1].id.as_deref(), Some("branch"));
    assert_eq!(alps.descriptor[1].descriptor.len(), 1);
    assert_eq!(alps.descriptor[1].descriptor[0].id.as_deref(), Some("nested"));

    let doc = alps_writer::json::build_document(alps);
    let out = render_document(&doc).unwrap();
    let parsed: serde_json::Value = serde_json::from_str(&out).unwrap();
    let root = parsed.get("alps").unwrap();
    assert_eq!(root.get("version").unwrap(), "1.0");
    let level1 = root.get("descriptor").unwrap().as_array().unwrap();
    assert_eq!(level1.len(), 2);
    assert_eq!(level1[0].get("id").unwrap(), "leaf");
    assert_eq!(level1[0].get("type").unwrap(), "safe");
    assert!(level1[0].get("descriptor").is_none());
    assert_eq!(level1[1].get("id").unwrap(), "branch");
    let level2 = level1[1].get("descriptor").unwrap().as_array().unwrap();
    assert_eq!(level2.len(), 1);
    assert_eq!(level2[0].get("id").unwrap(), "nested");
    assert_eq!(level2[0].get("name").unwrap(), "deep");
    assert!(level2[0].get("descriptor").is_none());
}

#[test]
fn absent_fields_are_omitted_entirely() {
    let entries = vec![file("index.md", ""), file("thing.md", "")];
    let alps = walk_profile(&entries).unwrap();
    let doc = alps_writer::json::build_document(alps);
    let out = render_document(&doc).unwrap();
    let parsed: serde_json::Value = serde_json::from_str(&out).unwrap();
    let d = &parsed["alps"]["descriptor"].as_array().unwrap()[0];
    assert_eq!(d.get("id").unwrap(), "thing");
    assert_eq!(d.get("type").unwrap(), "semantic");
    assert!(d.get("name").is_none());
    assert!(d.get("doc").is_none());
    assert!(d.get("link").is_none());
    assert!(!out.contains("null"));
}

#[test]
fn links_render_with_optional_title() {
    let entries = vec![file(
        "index.md",
        "---\nlink:\n  - rel: self\n    href: http://x\n---\n",
    )];
    let alps = walk_profile(&entries).unwrap();
    let doc = alps_writer::json::build_document(alps);
    let out = render_document(&doc).unwrap();
    let parsed: serde_json::Value = serde_json::from_str(&out).unwrap();
    let links = parsed["alps"]["link"].as_array().unwrap();
    assert_eq!(links.len(), 1);
    assert_eq!(links[0].get("rel").unwrap(), "self");
    assert_eq!(links[0].get("href").unwrap(), "http://x");
    assert!(links[0].get("title").is_none());
}

#[test]
fn nested_error_names_the_full_relative_path() {
    let entries = vec![
        file("index.md", ""),
        dir(
            "branch",
            vec![file("index.md", ""), file("bad.md", "---\n[oops\n---\n")],
        ),
    ];
    assert_eq!(
        walk_profile(&entries),
        Err(ProfileError::Decode { path: vec!["branch".to_string(), "bad.md".to_string()] })
    );
}

#[test]
fn header_and_body_are_trimmed() {
    let entries = vec![file("index.md", "---\nversion: \"2.0\"  \n---\n  Body.  \n")];
    let alps = walk_profile(&entries).unwrap();
    assert_eq!(alps.version, "2.0");
    assert_eq!(alps.doc.unwrap().value, "Body.");
}
