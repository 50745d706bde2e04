use alps_writer::decode::decode_descriptor;
use alps_writer::node::{Descriptor, DescriptorType, Doc, Link};
use alps_writer::text::split_frontmatter;

#[test]
fn split_two_delimiters() {
    let r = split_frontmatter("---\nid: x\n---\nBody text").unwrap();
    assert_eq!(r.0, "id: x");
    assert_eq!(r.1, "Body text");
}

#[test]
fn split_no_delimiter_is_all_body() {
    let r = split_frontmatter("just some text\n").unwrap();
    assert_eq!(r.0, "");
    assert_eq!(r.1, "just some text");
}

#[test]
fn split_blank_header() {
    let r = split_frontmatter("---\n\n---\n\nhello\n").unwrap();
    assert_eq!(r.0, "");
    assert_eq!(r.1, "hello");
}

#[test]
fn split_one_delimiter_fails() {
    assert!(split_frontmatter("---\nid: x\nno second delimiter").is_none());
}

#[test]
fn split_three_delimiters_fails() {
    assert!(split_frontmatter("---\na\n---\nb\n---\nc").is_none());
}

#[test]
fn split_hyphens_inside_a_line_are_no_delimiter() {
    let r = split_frontmatter("---\nid: x\n---\na --- b ----\n").unwrap();
    assert_eq!(r.0, "id: x");
    assert_eq!(r.1, "a --- b ----");
}

#[test]
fn split_rejoin_recovers_parts() {
    let header = "id: foo\nname: Foo";
    let body = "Some body.";
    let rejoined = format!("---\n{}\n---\n{}", header, body);
    let r = split_frontmatter(&rejoined).unwrap();
    assert_eq!(r.0, header);
    assert_eq!(r.1, body);
}

#[test]
fn empty_header_decodes_to_defaults() {
    let d = decode_descriptor("", "").unwrap();
    assert_eq!(d, Descriptor::default());
    assert_eq!(d.id, None);
    assert_eq!(d.descriptor_type, DescriptorType::Semantic);
    assert!(d.doc.is_none());
    assert!(d.descriptor.is_empty());
}

#[test]
fn empty_mapping_header_decodes_to_defaults() {
    let d = decode_descriptor("{}", "").unwrap();
    assert_eq!(d, Descriptor::default());
}

#[test]
fn header_fields_are_decoded() {
    let d = decode_descriptor("id: bar\nname: The Name\ntitle: A Title\nrel: self\nrt: other", "")
        .unwrap();
    assert_eq!(d.id.as_deref(), Some("bar"));
    assert_eq!(d.name.as_deref(), Some("The Name"));
    assert_eq!(d.title.as_deref(), Some("A Title"));
    assert_eq!(d.rel.as_deref(), Some("self"));
    assert_eq!(d.rt.as_deref(), Some("other"));
}

#[test]
fn unknown_header_fields_are_ignored() {
    let d = decode_descriptor("wibble: 3\nid: a", "").unwrap();
    assert_eq!(d.id.as_deref(), Some("a"));
}

#[test]
fn type_field_selects_kind() {
    let d = decode_descriptor("type: safe", "").unwrap();
    assert_eq!(d.descriptor_type, DescriptorType::Safe);
    let d = decode_descriptor("type: idempotent", "").unwrap();
    assert_eq!(d.descriptor_type, DescriptorType::Idempotent);
    let d = decode_descriptor("type: unsafe", "").unwrap();
    assert_eq!(d.descriptor_type, DescriptorType::Unsafe);
    let d = decode_descriptor("type: semantic", "").unwrap();
    assert_eq!(d.descriptor_type, DescriptorType::Semantic);
}

#[test]
fn unknown_kind_is_a_decode_error() {
    assert!(decode_descriptor("type: bogus", "").is_err());
}

#[test]
fn link_list_is_decoded() {
    let d = decode_descriptor(
        "link:\n  - rel: self\n    href: http://example.org\n  - rel: help\n    href: http://example.org/help\n    title: Help",
        "",
    )
    .unwrap();
    let links = d.link.unwrap();
    assert_eq!(
        links,
        vec![
            Link { rel: "self".to_string(), href: "http://example.org".to_string(), title: None },
            Link {
                rel: "help".to_string(),
                href: "http://example.org/help".to_string(),
                title: Some("Help".to_string()),
            },
        ]
    );
}

#[test]
fn link_without_href_is_a_decode_error() {
    assert!(decode_descriptor("link:\n  - rel: self", "").is_err());
}

#[test]
fn doc_from_header_defaults_its_format() {
    let d = decode_descriptor("doc:\n  value: hi", "").unwrap();
    assert_eq!(d.doc, Some(Doc { format: "markdown".to_string(), value: "hi".to_string() }));
}

#[test]
fn doc_without_value_is_a_decode_error() {
    assert!(decode_descriptor("doc:\n  format: text", "").is_err());
}

#[test]
fn non_empty_body_becomes_the_doc() {
    let d = decode_descriptor("id: a", "Hello there.").unwrap();
    assert_eq!(
        d.doc,
        Some(Doc { format: "markdown".to_string(), value: "Hello there.".to_string() })
    );
}

#[test]
fn body_overrides_header_doc() {
    let d = decode_descriptor("doc:\n  value: from header", "from body").unwrap();
    assert_eq!(d.doc.unwrap().value, "from body");
}

#[test]
fn invalid_yaml_is_a_decode_error() {
    assert!(decode_descriptor("a: [unterminated", "").is_err());
}

#[test]
fn number_for_string_field_is_a_decode_error() {
    assert!(decode_descriptor("id: 5", "").is_err());
}
