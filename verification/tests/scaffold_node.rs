use alps_writer::node::{Alps, Descriptor};
use alps_writer::scaffold::{
    frontmatter_from_prompts, plan_descriptor, stub_content, ScaffoldError, ScaffoldPlan,
};

#[test]
fn existing_target_is_fatal() {
    assert_eq!(
        plan_descriptor(true, false, true, false),
        Err(ScaffoldError::AlreadyExists)
    );
    assert_eq!(
        plan_descriptor(false, true, true, false),
        Err(ScaffoldError::AlreadyExists)
    );
}

#[test]
fn missing_parent_is_fatal() {
    assert_eq!(
        plan_descriptor(false, false, false, false),
        Err(ScaffoldError::MissingParent)
    );
}

#[test]
fn file_backed_parent_is_promoted() {
    assert_eq!(
        plan_descriptor(false, false, false, true),
        Ok(ScaffoldPlan { promote_parent: true })
    );
}

#[test]
fn directory_parent_needs_no_promotion() {
    assert_eq!(
        plan_descriptor(false, false, true, false),
        Ok(ScaffoldPlan { promote_parent: false })
    );
}

#[test]
fn stub_without_frontmatter() {
    assert_eq!(stub_content(""), "---\n---\n\n");
}

#[test]
fn stub_with_frontmatter() {
    assert_eq!(stub_content("name: x"), "---\nname: x\n---\n\n");
}

#[test]
fn all_empty_prompts_give_empty_frontmatter() {
    assert_eq!(frontmatter_from_prompts("", "", "", "", "", ""), "");
}

#[test]
fn non_empty_prompts_become_lines_in_order() {
    assert_eq!(
        frontmatter_from_prompts("N", "T", "", "", "", "a b"),
        "name: N\ntitle: T\ntag: a b"
    );
}

#[test]
fn single_prompt_has_no_newline() {
    assert_eq!(frontmatter_from_prompts("", "", "D", "", "", ""), "def: D");
}

#[test]
fn root_defaults() {
    let a = Alps::default();
    assert_eq!(a.version, "1.0");
    assert!(a.descriptor.is_empty());
    assert!(a.doc.is_none());
    assert!(a.link.is_none());
}

#[test]
fn children_append_in_order() {
    let mut a = Alps::default();
    let mut first = Descriptor::default();
    first.id = Some("one".to_string());
    let mut second = Descriptor::default();
    second.id = Some("two".to_string());
    a.add_descriptor(first);
    a.add_descriptor(second);
    assert_eq!(a.descriptor.len(), 2);
    assert_eq!(a.descriptor[0].id.as_deref(), Some("one"));
    assert_eq!(a.descriptor[1].id.as_deref(), Some("two"));
}

#[test]
fn add_doc_replaces_the_body() {
    let mut d = Descriptor::default();
    d.add_doc("markdown".to_string(), "first".to_string());
    d.add_doc("markdown".to_string(), "second".to_string());
    assert_eq!(d.doc.unwrap().value, "second");
}

#[test]
fn default_tags() {
    assert_eq!(alps_writer::node::default_version(), "1.0");
    assert_eq!(alps_writer::node::default_format(), "markdown");
}
