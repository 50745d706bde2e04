//! The header decoder: turns a parsed YAML header and a trimmed body into
//! a typed node, applying the field defaults. Unknown header keys are
//! ignored; a key whose value does not fit its field is a decode error.

use vstd::prelude::*;
use vstd::string::StrSliceExecFns;
use vstd::string::StringExecFns;

use crate::node::{
    default_alps_view, default_descriptor_view, default_format, default_version, link_seq_view,
    link_view, opt_doc_view, opt_links_view, opt_str_view, Alps, AlpsV, Descriptor,
    DescriptorType, DescriptorV, Doc, DocV, Link, LinkV,
};
use crate::text::str_eq;
use crate::yaml::{
    lemma_yaml_map_view, lemma_yaml_seq_view, parse_yaml, yaml_map_view, yaml_of, yaml_seq_view,
    Yaml, YamlV,
};

verus! {

/// The value under the first entry whose key is the string `key`.
pub open spec fn yaml_lookup(pairs: Seq<(YamlV, YamlV)>, key: Seq<char>) -> Option<YamlV>
    decreases pairs.len(),
{
    if pairs.len() == 0 {
        None
    } else if pairs[0].0 == YamlV::Str(key) {
        Some(pairs[0].1)
    } else {
        yaml_lookup(pairs.drop_first(), key)
    }
}

proof fn lemma_yaml_lookup_at(pairs: Seq<(YamlV, YamlV)>, key: Seq<char>, j: int)
    requires
        0 <= j < pairs.len(),
        pairs[j].0 == YamlV::Str(key),
        forall|k: int| 0 <= k < j ==> pairs[k].0 != YamlV::Str(key),
    ensures
        yaml_lookup(pairs, key) == Some(pairs[j].1),
    decreases j,
{
    if j > 0 {
        lemma_yaml_lookup_at(pairs.drop_first(), key, j - 1);
    }
}

proof fn lemma_yaml_lookup_absent(pairs: Seq<(YamlV, YamlV)>, key: Seq<char>)
    requires
        forall|k: int| 0 <= k < pairs.len() ==> pairs[k].0 != YamlV::Str(key),
    ensures
        yaml_lookup(pairs, key) is None,
    decreases pairs.len(),
{
    if pairs.len() > 0 {
        lemma_yaml_lookup_absent(pairs.drop_first(), key);
    }
}

/// An optional string field: absent or null is no value, a string is a
/// value, anything else is a decode error (the outer `None`).
pub open spec fn str_field(pairs: Seq<(YamlV, YamlV)>, key: Seq<char>) -> Option<
    Option<Seq<char>>,
> {
    match yaml_lookup(pairs, key) {
        None => Some(None),
        Some(YamlV::Null) => Some(None),
        Some(YamlV::Str(s)) => Some(Some(s)),
        Some(_) => None,
    }
}

/// A required string field: anything but a string is a decode error.
pub open spec fn req_str_field(pairs: Seq<(YamlV, YamlV)>, key: Seq<char>) -> Option<Seq<char>> {
    match yaml_lookup(pairs, key) {
        Some(YamlV::Str(s)) => Some(s),
        _ => None,
    }
}

/// One link out of a YAML mapping: `rel` and `href` are required strings,
/// `title` is optional.
pub open spec fn link_of_yaml(y: YamlV) -> Option<LinkV> {
    match y {
        YamlV::Mapping(pairs) => {
            if req_str_field(pairs, "rel"@) is Some && req_str_field(pairs, "href"@) is Some
                && str_field(pairs, "title"@) is Some {
                Some(
                    LinkV {
                        rel: req_str_field(pairs, "rel"@).unwrap(),
                        href: req_str_field(pairs, "href"@).unwrap(),
                        title: str_field(pairs, "title"@).unwrap(),
                    },
                )
            } else {
                None
            }
        },
        _ => None,
    }
}

/// The links of a YAML sequence, from position `i` on; one bad element
/// spoils the whole list.
pub open spec fn links_of_seq(items: Seq<YamlV>, i: int) -> Option<Seq<LinkV>>
    decreases items.len() - i,
{
    if i < 0 || i >= items.len() {
        Some(Seq::empty())
    } else {
        match link_of_yaml(items[i]) {
            None => None,
            Some(l) => match links_of_seq(items, i + 1) {
                None => None,
                Some(rest) => Some(seq![l] + rest),
            },
        }
    }
}

/// The optional `link` field: absent or null is no list, a sequence of
/// well-formed links is a list, anything else is a decode error.
pub open spec fn links_field(pairs: Seq<(YamlV, YamlV)>) -> Option<Option<Seq<LinkV>>> {
    match yaml_lookup(pairs, "link"@) {
        None => Some(None),
        Some(YamlV::Null) => Some(None),
        Some(YamlV::Sequence(items)) => match links_of_seq(items, 0) {
            None => None,
            Some(ls) => Some(Some(ls)),
        },
        Some(_) => None,
    }
}

/// A document body out of a YAML mapping: `value` is a required string,
/// `format` defaults to `markdown` when absent.
pub open spec fn doc_of_yaml(y: YamlV) -> Option<DocV> {
    match y {
        YamlV::Mapping(pairs) => {
            let format = match yaml_lookup(pairs, "format"@) {
                None => Some("markdown"@),
                Some(YamlV::Str(s)) => Some(s),
                Some(_) => None,
            };
            if format is Some && req_str_field(pairs, "value"@) is Some {
                Some(DocV { format: format.unwrap(), value: req_str_field(pairs, "value"@).unwrap() })
            } else {
                None
            }
        },
        _ => None,
    }
}

/// The optional `doc` field: absent or null is no body, a well-formed
/// mapping is a body, anything else is a decode error.
pub open spec fn doc_field(pairs: Seq<(YamlV, YamlV)>) -> Option<Option<DocV>> {
    match yaml_lookup(pairs, "doc"@) {
        None => Some(None),
        Some(YamlV::Null) => Some(None),
        Some(YamlV::Mapping(dp)) => match doc_of_yaml(YamlV::Mapping(dp)) {
            None => None,
            Some(d) => Some(Some(d)),
        },
        Some(_) => None,
    }
}

/// The `type` field: absent or null is the default kind `semantic`; one of
/// the four kind names selects that kind; anything else is a decode error.
pub open spec fn type_field(pairs: Seq<(YamlV, YamlV)>) -> Option<DescriptorType> {
    match yaml_lookup(pairs, "type"@) {
        None => Some(DescriptorType::Semantic),
        Some(YamlV::Null) => Some(DescriptorType::Semantic),
        Some(YamlV::Str(s)) => {
            if s == "idempotent"@ {
                Some(DescriptorType::Idempotent)
            } else if s == "semantic"@ {
                Some(DescriptorType::Semantic)
            } else if s == "safe"@ {
                Some(DescriptorType::Safe)
            } else if s == "unsafe"@ {
                Some(DescriptorType::Unsafe)
            } else {
                None
            }
        },
        Some(_) => None,
    }
}

/// The `version` field of the root: absent is the default version tag, a
/// string is kept, anything else is a decode error.
pub open spec fn version_field(pairs: Seq<(YamlV, YamlV)>) -> Option<Seq<char>> {
    match yaml_lookup(pairs, "version"@) {
        None => Some("1.0"@),
        Some(YamlV::Str(s)) => Some(s),
        Some(_) => None,
    }
}

/// Whether every descriptor field of the mapping decodes.
pub open spec fn descriptor_fields_ok(pairs: Seq<(YamlV, YamlV)>) -> bool {
    &&& str_field(pairs, "id"@) is Some
    &&& str_field(pairs, "name"@) is Some
    &&& str_field(pairs, "title"@) is Some
    &&& str_field(pairs, "rel"@) is Some
    &&& str_field(pairs, "rt"@) is Some
    &&& str_field(pairs, "def"@) is Some
    &&& str_field(pairs, "href"@) is Some
    &&& str_field(pairs, "tag"@) is Some
    &&& links_field(pairs) is Some
    &&& doc_field(pairs) is Some
    &&& type_field(pairs) is Some
}

/// A descriptor node out of a parsed header: the header must be a mapping
/// whose known keys all decode; unknown keys are ignored; children start
/// empty.
pub open spec fn descriptor_of_yaml(y: YamlV) -> Option<DescriptorV> {
    match y {
        YamlV::Mapping(pairs) => {
            if descriptor_fields_ok(pairs) {
                Some(
                    DescriptorV {
                        id: str_field(pairs, "id"@).unwrap(),
                        name: str_field(pairs, "name"@).unwrap(),
                        title: str_field(pairs, "title"@).unwrap(),
                        rel: str_field(pairs, "rel"@).unwrap(),
                        rt: str_field(pairs, "rt"@).unwrap(),
                        link: links_field(pairs).unwrap(),
                        doc: doc_field(pairs).unwrap(),
                        def: str_field(pairs, "def"@).unwrap(),
                        href: str_field(pairs, "href"@).unwrap(),
                        tag: str_field(pairs, "tag"@).unwrap(),
                        descriptor_type: type_field(pairs).unwrap(),
                        descriptor: Seq::empty(),
                    },
                )
            } else {
                None
            }
        },
        _ => None,
    }
}

/// A profile root out of a parsed header: the header must be a mapping;
/// `version` defaults; children start empty.
pub open spec fn alps_of_yaml(y: YamlV) -> Option<AlpsV> {
    match y {
        YamlV::Mapping(pairs) => {
            if version_field(pairs) is Some && doc_field(pairs) is Some && links_field(pairs)
                is Some {
                Some(
                    AlpsV {
                        version: version_field(pairs).unwrap(),
                        descriptor: Seq::empty(),
                        doc: doc_field(pairs).unwrap(),
                        link: links_field(pairs).unwrap(),
                    },
                )
            } else {
                None
            }
        },
        _ => None,
    }
}

/// A non-empty trimmed body becomes the node's document body, with the
/// `markdown` format tag, replacing any header-supplied body.
pub open spec fn descriptor_with_body(d: DescriptorV, body: Seq<char>) -> DescriptorV {
    if body.len() > 0 {
        DescriptorV { doc: Some(DocV { format: "markdown"@, value: body }), ..d }
    } else {
        d
    }
}

/// The root counterpart of `descriptor_with_body`.
pub open spec fn alps_with_body(a: AlpsV, body: Seq<char>) -> AlpsV {
    if body.len() > 0 {
        AlpsV { doc: Some(DocV { format: "markdown"@, value: body }), ..a }
    } else {
        a
    }
}

/// A descriptor from a trimmed header and a trimmed body: an empty header
/// yields every default; otherwise the header must parse as YAML and
/// decode as a mapping of descriptor fields.
pub open spec fn decode_descriptor_spec(header: Seq<char>, body: Seq<char>) -> Option<DescriptorV> {
    if header.len() == 0 {
        Some(descriptor_with_body(default_descriptor_view(), body))
    } else {
        match yaml_of(header) {
            None => None,
            Some(y) => match descriptor_of_yaml(y) {
                None => None,
                Some(d) => Some(descriptor_with_body(d, body)),
            },
        }
    }
}

/// The root counterpart of `decode_descriptor_spec`.
pub open spec fn decode_alps_spec(header: Seq<char>, body: Seq<char>) -> Option<AlpsV> {
    if header.len() == 0 {
        Some(alps_with_body(default_alps_view(), body))
    } else {
        match yaml_of(header) {
            None => None,
            Some(y) => match alps_of_yaml(y) {
                None => None,
                Some(a) => Some(alps_with_body(a, body)),
            },
        }
    }
}

/// Decoding an empty header never errs and yields every field default,
/// for a descriptor and for the profile root alike; the body, when
/// non-empty, becomes the node's document body.
pub proof fn lemma_empty_header_defaults(body: Seq<char>)
    ensures
        decode_descriptor_spec(Seq::empty(), body) == Some(
            descriptor_with_body(default_descriptor_view(), body),
        ),
        decode_alps_spec(Seq::empty(), body) == Some(alps_with_body(default_alps_view(), body)),
{
}

fn yaml_lookup_exec<'a>(pairs: &'a Vec<(Yaml, Yaml)>, key: &str) -> (r: Option<&'a Yaml>)
    ensures
        (match r {
            Some(v) => yaml_lookup(yaml_map_view(pairs@, 0), key@) == Some(v@),
            None => yaml_lookup(yaml_map_view(pairs@, 0), key@) is None,
        }),
{
    let ghost m = yaml_map_view(pairs@, 0);
    let mut i: usize = 0;
    while i < pairs.len()
        invariant
            i <= pairs@.len(),
            m == yaml_map_view(pairs@, 0),
            forall|k: int| 0 <= k < i ==> m[k].0 != YamlV::Str(key@),
        decreases pairs@.len() - i,
    {
        proof {
            lemma_yaml_map_view(pairs@, 0);
        }
        match &pairs[i].0 {
            Yaml::Str(s) => {
                if str_eq(s.as_str(), key) {
                    proof {
                        lemma_yaml_lookup_at(m, key@, i as int);
                    }
                    return Some(&pairs[i].1);
                }
            },
            _ => {},
        }
        i += 1;
    }
    proof {
        lemma_yaml_map_view(pairs@, 0);
        lemma_yaml_lookup_absent(m, key@);
    }
    None
}

fn str_field_exec(pairs: &Vec<(Yaml, Yaml)>, key: &str) -> (r: Result<Option<String>, ()>)
    ensures
        (r matches Ok(o) ==> str_field(yaml_map_view(pairs@, 0), key@) == Some(opt_str_view(o))),
        (r is Err <==> str_field(yaml_map_view(pairs@, 0), key@) is None),
{
    match yaml_lookup_exec(pairs, key) {
        None => Ok(None),
        Some(Yaml::Null) => Ok(None),
        Some(Yaml::Str(s)) => Ok(Some(s.clone())),
        Some(_) => Err(()),
    }
}

fn req_str_field_exec(pairs: &Vec<(Yaml, Yaml)>, key: &str) -> (r: Result<String, ()>)
    ensures
        (r matches Ok(s) ==> req_str_field(yaml_map_view(pairs@, 0), key@) == Some(s@)),
        (r is Err <==> req_str_field(yaml_map_view(pairs@, 0), key@) is None),
{
    match yaml_lookup_exec(pairs, key) {
        Some(Yaml::Str(s)) => Ok(s.clone()),
        _ => Err(()),
    }
}

fn link_of_yaml_exec(y: &Yaml) -> (r: Result<Link, ()>)
    ensures
        (r matches Ok(l) ==> link_of_yaml(y@) == Some(link_view(l))),
        (r is Err <==> link_of_yaml(y@) is None),
{
    match y {
        Yaml::Mapping(pairs) => {
            let rel = match req_str_field_exec(pairs, "rel") {
                Ok(s) => s,
                Err(()) => {
                    return Err(());
                },
            };
            let href = match req_str_field_exec(pairs, "href") {
                Ok(s) => s,
                Err(()) => {
                    return Err(());
                },
            };
            let title = match str_field_exec(pairs, "title") {
                Ok(o) => o,
                Err(()) => {
                    return Err(());
                },
            };
            Ok(Link { rel, href, title })
        },
        _ => Err(()),
    }
}

fn links_of_seq_exec(items: &Vec<Yaml>, i: usize) -> (r: Result<Vec<Link>, ()>)
    requires
        i <= items@.len(),
    ensures
        (r matches Ok(ls) ==> links_of_seq(yaml_seq_view(items@, 0), i as int) == Some(
            link_seq_view(ls@),
        )),
        (r is Err <==> links_of_seq(yaml_seq_view(items@, 0), i as int) is None),
    decreases items@.len() - i,
{
    proof {
        lemma_yaml_seq_view(items@, 0);
    }
    if i == items.len() {
        let ls: Vec<Link> = Vec::new();
        assert(link_seq_view(ls@) =~= Seq::<LinkV>::empty());
        Ok(ls)
    } else {
        let l = match link_of_yaml_exec(&items[i]) {
            Ok(l) => l,
            Err(()) => {
                return Err(());
            },
        };
        match links_of_seq_exec(items, i + 1) {
            Ok(mut rest) => {
                rest.insert(0, l);
                assert(link_seq_view(rest@) =~= seq![link_view(l)] + link_seq_view(
                    rest@.drop_first(),
                ));
                Ok(rest)
            },
            Err(()) => Err(()),
        }
    }
}

fn links_field_exec(pairs: &Vec<(Yaml, Yaml)>) -> (r: Result<Option<Vec<Link>>, ()>)
    ensures
        (r matches Ok(o) ==> links_field(yaml_map_view(pairs@, 0)) == Some(opt_links_view(o))),
        (r is Err <==> links_field(yaml_map_view(pairs@, 0)) is None),
{
    match yaml_lookup_exec(pairs, "link") {
        None => Ok(None),
        Some(Yaml::Null) => Ok(None),
        Some(Yaml::Sequence(items)) => match links_of_seq_exec(items, 0) {
            Ok(ls) => Ok(Some(ls)),
            Err(()) => Err(()),
        },
        Some(_) => Err(()),
    }
}

fn doc_field_exec(pairs: &Vec<(Yaml, Yaml)>) -> (r: Result<Option<Doc>, ()>)
    ensures
        (r matches Ok(o) ==> doc_field(yaml_map_view(pairs@, 0)) == Some(opt_doc_view(o))),
        (r is Err <==> doc_field(yaml_map_view(pairs@, 0)) is None),
{
    match yaml_lookup_exec(pairs, "doc") {
        None => Ok(None),
        Some(Yaml::Null) => Ok(None),
        Some(Yaml::Mapping(dp)) => {
            let format = match yaml_lookup_exec(dp, "format") {
                None => default_format(),
                Some(Yaml::Str(s)) => s.clone(),
                Some(_) => {
                    return Err(());
                },
            };
            let value = match req_str_field_exec(dp, "value") {
                Ok(s) => s,
                Err(()) => {
                    return Err(());
                },
            };
            Ok(Some(Doc { format, value }))
        },
        Some(_) => Err(()),
    }
}

fn type_field_exec(pairs: &Vec<(Yaml, Yaml)>) -> (r: Result<DescriptorType, ()>)
    ensures
        (r matches Ok(t) ==> type_field(yaml_map_view(pairs@, 0)) == Some(t)),
        (r is Err <==> type_field(yaml_map_view(pairs@, 0)) is None),
{
    match yaml_lookup_exec(pairs, "type") {
        None => Ok(DescriptorType::Semantic),
        Some(Yaml::Null) => Ok(DescriptorType::Semantic),
        Some(Yaml::Str(s)) => {
            if str_eq(s.as_str(), "idempotent") {
                Ok(DescriptorType::Idempotent)
            } else if str_eq(s.as_str(), "semantic") {
                Ok(DescriptorType::Semantic)
            } else if str_eq(s.as_str(), "safe") {
                Ok(DescriptorType::Safe)
            } else if str_eq(s.as_str(), "unsafe") {
                Ok(DescriptorType::Unsafe)
            } else {
                Err(())
            }
        },
        Some(_) => Err(()),
    }
}

fn version_field_exec(pairs: &Vec<(Yaml, Yaml)>) -> (r: Result<String, ()>)
    ensures
        (r matches Ok(s) ==> version_field(yaml_map_view(pairs@, 0)) == Some(s@)),
        (r is Err <==> version_field(yaml_map_view(pairs@, 0)) is None),
{
    match yaml_lookup_exec(pairs, "version") {
        None => Ok(default_version()),
        Some(Yaml::Str(s)) => Ok(s.clone()),
        Some(_) => Err(()),
    }
}

/// A descriptor node from a parsed header, following `descriptor_of_yaml`.
pub fn descriptor_from_yaml(y: &Yaml) -> (r: Result<Descriptor, ()>)
    ensures
        (r matches Ok(d) ==> descriptor_of_yaml(y@) == Some(d@)),
        (r is Err <==> descriptor_of_yaml(y@) is None),
{
    match y {
        Yaml::Mapping(pairs) => {
            let id = match str_field_exec(pairs, "id") {
                Ok(o) => o,
                Err(()) => {
                    return Err(());
                },
            };
            let name = match str_field_exec(pairs, "name") {
                Ok(o) => o,
                Err(()) => {
                    return Err(());
                },
            };
            let title = match str_field_exec(pairs, "title") {
                Ok(o) => o,
                Err(()) => {
                    return Err(());
                },
            };
            let rel = match str_field_exec(pairs, "rel") {
                Ok(o) => o,
                Err(()) => {
                    return Err(());
                },
            };
            let rt = match str_field_exec(pairs, "rt") {
                Ok(o) => o,
                Err(()) => {
                    return Err(());
                },
            };
            let def = match str_field_exec(pairs, "def") {
                Ok(o) => o,
                Err(()) => {
                    return Err(());
                },
            };
            let href = match str_field_exec(pairs, "href") {
                Ok(o) => o,
                Err(()) => {
                    return Err(());
                },
            };
            let tag = match str_field_exec(pairs, "tag") {
                Ok(o) => o,
                Err(()) => {
                    return Err(());
                },
            };
            let link = match links_field_exec(pairs) {
                Ok(o) => o,
                Err(()) => {
                    return Err(());
                },
            };
            let doc = match doc_field_exec(pairs) {
                Ok(o) => o,
                Err(()) => {
                    return Err(());
                },
            };
            let descriptor_type = match type_field_exec(pairs) {
                Ok(t) => t,
                Err(()) => {
                    return Err(());
                },
            };
            Ok(
                Descriptor {
                    id,
                    name,
                    title,
                    rel,
                    rt,
                    link,
                    doc,
                    def,
                    href,
                    tag,
                    descriptor_type,
                    descriptor: Vec::new(),
                },
            )
        },
        _ => Err(()),
    }
}

/// A profile root from a parsed header, following `alps_of_yaml`.
pub fn alps_from_yaml(y: &Yaml) -> (r: Result<Alps, ()>)
    ensures
        (r matches Ok(a) ==> alps_of_yaml(y@) == Some(a@)),
        (r is Err <==> alps_of_yaml(y@) is None),
{
    match y {
        Yaml::Mapping(pairs) => {
            let version = match version_field_exec(pairs) {
                Ok(s) => s,
                Err(()) => {
                    return Err(());
                },
            };
            let doc = match doc_field_exec(pairs) {
                Ok(o) => o,
                Err(()) => {
                    return Err(());
                },
            };
            let link = match links_field_exec(pairs) {
                Ok(o) => o,
                Err(()) => {
                    return Err(());
                },
            };
            Ok(Alps { version, descriptor: Vec::new(), doc, link })
        },
        _ => Err(()),
    }
}

/// Decodes a trimmed header and body into a descriptor node, following
/// `decode_descriptor_spec`.
pub fn decode_descriptor(header: &str, body: &str) -> (r: Result<Descriptor, ()>)
    ensures
        (r matches Ok(d) ==> decode_descriptor_spec(header@, body@) == Some(d@)),
        (r is Err <==> decode_descriptor_spec(header@, body@) is None),
{
    let mut d = if header.unicode_len() == 0 {
        Descriptor::default()
    } else {
        match parse_yaml(header) {
            None => {
                return Err(());
            },
            Some(y) => match descriptor_from_yaml(&y) {
                Ok(d) => d,
                Err(()) => {
                    return Err(());
                },
            },
        }
    };
    if body.unicode_len() > 0 {
        d.add_doc(default_format(), body.to_owned());
    }
    Ok(d)
}

/// Decodes a trimmed header and body into a profile root, following
/// `decode_alps_spec`.
pub fn decode_alps(header: &str, body: &str) -> (r: Result<Alps, ()>)
    ensures
        (r matches Ok(a) ==> decode_alps_spec(header@, body@) == Some(a@)),
        (r is Err <==> decode_alps_spec(header@, body@) is None),
{
    let mut a = if header.unicode_len() == 0 {
        Alps::default()
    } else {
        match parse_yaml(header) {
            None => {
                return Err(());
            },
            Some(y) => match alps_from_yaml(&y) {
                Ok(a) => a,
                Err(()) => {
                    return Err(());
                },
            },
        }
    };
    if body.unicode_len() > 0 {
        a.add_doc(default_format(), body.to_owned());
    }
    Ok(a)
}

} // verus!
