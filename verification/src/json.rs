//! The document assembler: lays a node tree out as a JSON-shaped value
//! and renders it. Absent optional fields are omitted entirely; the
//! required version and kind fields always appear; a node's child list
//! appears only when it has children.

use vstd::prelude::*;
use vstd::string::StringExecFns;

use crate::node::{
    descriptor_seq_view, descriptor_view, doc_view, link_seq_view, link_view, opt_links_view,
    opt_str_view, Alps, AlpsDocument, AlpsDocumentV, AlpsV, Descriptor, DescriptorType,
    DescriptorV, Doc, DocV, LinkV,
};

verus! {

/// A JSON-shaped value: the profile document needs only strings, arrays
/// and objects with ordered fields.
#[derive(Debug)]
pub enum JsonValue {
    Str(String),
    Arr(Vec<JsonValue>),
    Obj(Vec<(String, JsonValue)>),
}

/// The view of a `JsonValue`.
pub enum JsonV {
    Str(Seq<char>),
    Arr(Seq<JsonV>),
    Obj(Seq<(Seq<char>, JsonV)>),
}

/// The view of a run of array elements, from position `i` on.
pub open spec fn json_val_seq_view(items: Seq<JsonValue>, i: int) -> Seq<JsonV>
    decreases items, items.len() - i + 1,
{
    if i < 0 || i >= items.len() {
        Seq::empty()
    } else {
        seq![json_view(items[i])] + json_val_seq_view(items, i + 1)
    }
}

/// The view of a run of object fields, from position `i` on.
pub open spec fn json_field_seq_view(fields: Seq<(String, JsonValue)>, i: int) -> Seq<
    (Seq<char>, JsonV),
>
    decreases fields, fields.len() - i + 1,
{
    if i < 0 || i >= fields.len() {
        Seq::empty()
    } else {
        seq![(fields[i].0@, json_view(fields[i].1))] + json_field_seq_view(fields, i + 1)
    }
}

/// The view of a JSON value.
pub open spec fn json_view(v: JsonValue) -> JsonV
    decreases v, 0int,
{
    match v {
        JsonValue::Str(s) => JsonV::Str(s@),
        JsonValue::Arr(items) => JsonV::Arr(json_val_seq_view(items@, 0)),
        JsonValue::Obj(fields) => JsonV::Obj(json_field_seq_view(fields@, 0)),
    }
}

impl View for JsonValue {
    type V = JsonV;

    open spec fn view(&self) -> JsonV {
        json_view(*self)
    }
}

/// The element view is pointwise the view of the elements.
pub proof fn lemma_json_val_seq_view(items: Seq<JsonValue>, i: int)
    requires
        0 <= i <= items.len(),
    ensures
        json_val_seq_view(items, i).len() == items.len() - i,
        forall|k: int|
            0 <= k < items.len() - i ==> json_val_seq_view(items, i)[k] == json_view(items[i + k]),
    decreases items.len() - i,
{
    if i < items.len() {
        lemma_json_val_seq_view(items, i + 1);
    }
}

/// The field view is pointwise the view of the fields.
pub proof fn lemma_json_field_seq_view(fields: Seq<(String, JsonValue)>, i: int)
    requires
        0 <= i <= fields.len(),
    ensures
        json_field_seq_view(fields, i).len() == fields.len() - i,
        forall|k: int|
            0 <= k < fields.len() - i ==> json_field_seq_view(fields, i)[k] == (
            fields[i + k].0@,
            json_view(fields[i + k].1),
            ),
    decreases fields.len() - i,
{
    if i < fields.len() {
        lemma_json_field_seq_view(fields, i + 1);
    }
}

/// Appending a field extends the field view by that field.
pub proof fn lemma_json_field_seq_view_push(fields: Seq<(String, JsonValue)>, e: (
    String,
    JsonValue,
))
    ensures
        json_field_seq_view(fields.push(e), 0) == json_field_seq_view(fields, 0).push(
            (e.0@, json_view(e.1)),
        ),
{
    lemma_json_field_seq_view(fields, 0);
    lemma_json_field_seq_view(fields.push(e), 0);
    assert(json_field_seq_view(fields.push(e), 0) =~= json_field_seq_view(fields, 0).push(
        (e.0@, json_view(e.1)),
    ));
}

/// The serialized name of a descriptor kind.
pub open spec fn kind_name(t: DescriptorType) -> Seq<char> {
    match t {
        DescriptorType::Idempotent => "idempotent"@,
        DescriptorType::Semantic => "semantic"@,
        DescriptorType::Safe => "safe"@,
        DescriptorType::Unsafe => "unsafe"@,
    }
}

/// An optional string field: one entry when set, none when absent.
pub open spec fn opt_str_entry(key: Seq<char>, v: Option<Seq<char>>) -> Seq<(Seq<char>, JsonV)> {
    match v {
        Some(s) => seq![(key, JsonV::Str(s))],
        None => Seq::empty(),
    }
}

/// A link as a JSON object: `rel` and `href` always, `title` when set.
pub open spec fn json_of_link(l: LinkV) -> JsonV {
    JsonV::Obj(
        seq![("rel"@, JsonV::Str(l.rel)), ("href"@, JsonV::Str(l.href))] + opt_str_entry(
            "title"@,
            l.title,
        ),
    )
}

/// The links of a list, each as a JSON object.
pub open spec fn links_json(ls: Seq<LinkV>) -> Seq<JsonV> {
    Seq::new(ls.len(), |i: int| json_of_link(ls[i]))
}

/// The optional `link` field: one array entry when set, none when absent.
pub open spec fn links_entry(v: Option<Seq<LinkV>>) -> Seq<(Seq<char>, JsonV)> {
    match v {
        Some(ls) => seq![("link"@, JsonV::Arr(links_json(ls)))],
        None => Seq::empty(),
    }
}

/// A document body as a JSON object: both its fields always appear.
pub open spec fn json_of_doc(d: DocV) -> JsonV {
    JsonV::Obj(seq![("format"@, JsonV::Str(d.format)), ("value"@, JsonV::Str(d.value))])
}

/// The optional `doc` field: one object entry when set, none when absent.
pub open spec fn doc_entry(v: Option<DocV>) -> Seq<(Seq<char>, JsonV)> {
    match v {
        Some(d) => seq![("doc"@, json_of_doc(d))],
        None => Seq::empty(),
    }
}

/// The child descriptors, from position `i` on, each as a JSON object.
pub open spec fn descriptors_json(ds: Seq<DescriptorV>, i: int) -> Seq<JsonV>
    decreases ds, ds.len() - i + 2,
{
    if i < 0 || i >= ds.len() {
        Seq::empty()
    } else {
        seq![json_of_descriptor(ds[i])] + descriptors_json(ds, i + 1)
    }
}

/// The `descriptor` field: an array entry only when there are children.
pub open spec fn descriptor_list_entry(ds: Seq<DescriptorV>) -> Seq<(Seq<char>, JsonV)>
    decreases ds, ds.len() + 3,
{
    if ds.len() > 0 {
        seq![("descriptor"@, JsonV::Arr(descriptors_json(ds, 0)))]
    } else {
        Seq::empty()
    }
}

/// The fields of a descriptor, in declaration order: every optional field
/// only when set, the kind always, the children only when present.
pub open spec fn descriptor_fields_json(d: DescriptorV) -> Seq<(Seq<char>, JsonV)>
    decreases d, 0int,
{
    opt_str_entry("id"@, d.id) + opt_str_entry("name"@, d.name) + opt_str_entry("title"@, d.title)
        + opt_str_entry("rel"@, d.rel) + opt_str_entry("rt"@, d.rt) + links_entry(d.link)
        + doc_entry(d.doc) + opt_str_entry("def"@, d.def) + opt_str_entry("href"@, d.href)
        + opt_str_entry("tag"@, d.tag) + seq![("type"@, JsonV::Str(kind_name(d.descriptor_type)))]
        + descriptor_list_entry(d.descriptor)
}

/// A descriptor as a JSON object.
pub open spec fn json_of_descriptor(d: DescriptorV) -> JsonV
    decreases d, 1int,
{
    JsonV::Obj(descriptor_fields_json(d))
}

/// The profile root as a JSON object: the version always, then children,
/// document body and links as for a descriptor.
pub open spec fn json_of_alps(a: AlpsV) -> JsonV {
    JsonV::Obj(
        seq![("version"@, JsonV::Str(a.version))] + descriptor_list_entry(a.descriptor) + doc_entry(
            a.doc,
        ) + links_entry(a.link),
    )
}

/// The document envelope: a single `alps` field holding the root.
pub open spec fn json_of_document(d: AlpsDocumentV) -> JsonV {
    JsonV::Obj(seq![("alps"@, json_of_alps(d.alps))])
}

fn kind_string(t: DescriptorType) -> (r: String)
    ensures
        r@ == kind_name(t),
{
    match t {
        DescriptorType::Idempotent => String::from_str("idempotent"),
        DescriptorType::Semantic => String::from_str("semantic"),
        DescriptorType::Safe => String::from_str("safe"),
        DescriptorType::Unsafe => String::from_str("unsafe"),
    }
}

fn push_opt_str_field(fields: &mut Vec<(String, JsonValue)>, key: &str, v: &Option<String>)
    ensures
        json_field_seq_view(final (fields)@, 0) == json_field_seq_view(old(fields)@, 0)
            + opt_str_entry(key@, opt_str_view(*v)),
{
    match v {
        Some(s) => {
            let e = (String::from_str(key), JsonValue::Str(s.clone()));
            proof {
                lemma_json_field_seq_view_push(fields@, e);
            }
            fields.push(e);
            assert(json_field_seq_view(fields@, 0) =~= json_field_seq_view(old(fields)@, 0)
                + opt_str_entry(key@, opt_str_view(*v)));
        },
        None => {
            assert(json_field_seq_view(fields@, 0) =~= json_field_seq_view(fields@, 0)
                + opt_str_entry(key@, opt_str_view(*v)));
        },
    }
}

fn doc_json(d: &Doc) -> (r: JsonValue)
    ensures
        r@ == json_of_doc(doc_view(*d)),
{
    let mut fields: Vec<(String, JsonValue)> = Vec::new();
    fields.push((String::from_str("format"), JsonValue::Str(d.format.clone())));
    fields.push((String::from_str("value"), JsonValue::Str(d.value.clone())));
    let r = JsonValue::Obj(fields);
    proof {
        lemma_json_field_seq_view(r->Obj_0@, 0);
        assert(json_field_seq_view(r->Obj_0@, 0) =~= seq![
            ("format"@, JsonV::Str(d.format@)),
            ("value"@, JsonV::Str(d.value@)),
        ]);
    }
    r
}

fn links_json_exec(ls: &Vec<crate::node::Link>) -> (r: Vec<JsonValue>)
    ensures
        json_val_seq_view(r@, 0) == links_json(link_seq_view(ls@)),
{
    let mut out: Vec<JsonValue> = Vec::new();
    let mut i: usize = 0;
    while i < ls.len()
        invariant
            i <= ls@.len(),
            out@.len() == i,
            forall|k: int| 0 <= k < i ==> json_view(out@[k]) == json_of_link(link_view(ls@[k])),
        decreases ls@.len() - i,
    {
        let l = &ls[i];
        let mut fields: Vec<(String, JsonValue)> = Vec::new();
        fields.push((String::from_str("rel"), JsonValue::Str(l.rel.clone())));
        fields.push((String::from_str("href"), JsonValue::Str(l.href.clone())));
        match &l.title {
            Some(t) => {
                fields.push((String::from_str("title"), JsonValue::Str(t.clone())));
            },
            None => {},
        }
        let v = JsonValue::Obj(fields);
        proof {
            lemma_json_field_seq_view(v->Obj_0@, 0);
            assert(json_field_seq_view(v->Obj_0@, 0) =~= seq![
                ("rel"@, JsonV::Str(l.rel@)),
                ("href"@, JsonV::Str(l.href@)),
            ] + opt_str_entry("title"@, opt_str_view(l.title)));
        }
        out.push(v);
        i += 1;
    }
    proof {
        lemma_json_val_seq_view(out@, 0);
        assert(json_val_seq_view(out@, 0) =~= links_json(link_seq_view(ls@)));
    }
    out
}

fn descriptors_json_exec(ds: &Vec<Descriptor>, i: usize) -> (r: Vec<JsonValue>)
    requires
        i <= ds@.len(),
    ensures
        json_val_seq_view(r@, 0) == descriptors_json(descriptor_seq_view(ds@, 0), i as int),
    decreases ds@, ds@.len() - i + 1,
{
    proof {
        crate::node::lemma_descriptor_seq_view(ds@, 0);
    }
    if i == ds.len() {
        let out: Vec<JsonValue> = Vec::new();
        assert(json_val_seq_view(out@, 0) =~= Seq::<JsonV>::empty());
        out
    } else {
        let v = descriptor_json(&ds[i]);
        let mut rest = descriptors_json_exec(ds, i + 1);
        proof {
            lemma_json_val_seq_view(rest@, 0);
            lemma_json_val_seq_view(rest@.insert(0, v), 0);
        }
        rest.insert(0, v);
        assert(json_val_seq_view(rest@, 0) =~= seq![
            json_of_descriptor(descriptor_seq_view(ds@, 0)[i as int]),
        ] + descriptors_json(descriptor_seq_view(ds@, 0), i as int + 1));
        rest
    }
}

/// A descriptor laid out as a JSON object, following `json_of_descriptor`.
#[verifier::rlimit(100)]
pub fn descriptor_json(d: &Descriptor) -> (r: JsonValue)
    ensures
        r@ == json_of_descriptor(descriptor_view(*d)),
    decreases d, 2int,
{
    let mut fields: Vec<(String, JsonValue)> = Vec::new();
    push_opt_str_field(&mut fields, "id", &d.id);
    push_opt_str_field(&mut fields, "name", &d.name);
    push_opt_str_field(&mut fields, "title", &d.title);
    push_opt_str_field(&mut fields, "rel", &d.rel);
    push_opt_str_field(&mut fields, "rt", &d.rt);
    match &d.link {
        Some(ls) => {
            let arr = links_json_exec(ls);
            let e = (String::from_str("link"), JsonValue::Arr(arr));
            proof {
                lemma_json_field_seq_view_push(fields@, e);
            }
            fields.push(e);
        },
        None => {},
    }
    assert(json_field_seq_view(fields@, 0) =~= opt_str_entry("id"@, opt_str_view(d.id))
        + opt_str_entry("name"@, opt_str_view(d.name)) + opt_str_entry(
        "title"@,
        opt_str_view(d.title),
    ) + opt_str_entry("rel"@, opt_str_view(d.rel)) + opt_str_entry("rt"@, opt_str_view(d.rt))
        + links_entry(opt_links_view(d.link)));
    match &d.doc {
        Some(doc) => {
            let e = (String::from_str("doc"), doc_json(doc));
            proof {
                lemma_json_field_seq_view_push(fields@, e);
            }
            fields.push(e);
        },
        None => {},
    }
    push_opt_str_field(&mut fields, "def", &d.def);
    push_opt_str_field(&mut fields, "href", &d.href);
    push_opt_str_field(&mut fields, "tag", &d.tag);
    let e = (String::from_str("type"), JsonValue::Str(kind_string(d.descriptor_type)));
    proof {
        lemma_json_field_seq_view_push(fields@, e);
    }
    fields.push(e);
    if d.descriptor.len() > 0 {
        let kids = descriptors_json_exec(&d.descriptor, 0);
        let e = (String::from_str("descriptor"), JsonValue::Arr(kids));
        proof {
            lemma_json_field_seq_view_push(fields@, e);
        }
        fields.push(e);
    }
    let r = JsonValue::Obj(fields);
    proof {
        crate::node::lemma_descriptor_seq_view(d.descriptor@, 0);
        assert(json_field_seq_view(r->Obj_0@, 0) =~= descriptor_fields_json(descriptor_view(*d)));
    }
    r
}

/// The profile root laid out as a JSON object, following `json_of_alps`.
pub fn alps_json(a: &Alps) -> (r: JsonValue)
    ensures
        r@ == json_of_alps(a@),
{
    let mut fields: Vec<(String, JsonValue)> = Vec::new();
    let e = (String::from_str("version"), JsonValue::Str(a.version.clone()));
    proof {
        lemma_json_field_seq_view_push(fields@, e);
    }
    fields.push(e);
    if a.descriptor.len() > 0 {
        let kids = descriptors_json_exec(&a.descriptor, 0);
        let e = (String::from_str("descriptor"), JsonValue::Arr(kids));
        proof {
            lemma_json_field_seq_view_push(fields@, e);
        }
        fields.push(e);
    }
    match &a.doc {
        Some(doc) => {
            let e = (String::from_str("doc"), doc_json(doc));
            proof {
                lemma_json_field_seq_view_push(fields@, e);
            }
            fields.push(e);
        },
        None => {},
    }
    match &a.link {
        Some(ls) => {
            let arr = links_json_exec(ls);
            let e = (String::from_str("link"), JsonValue::Arr(arr));
            proof {
                lemma_json_field_seq_view_push(fields@, e);
            }
            fields.push(e);
        },
        None => {},
    }
    let r = JsonValue::Obj(fields);
    proof {
        crate::node::lemma_descriptor_seq_view(a.descriptor@, 0);
        assert(json_field_seq_view(r->Obj_0@, 0) =~= seq![
            ("version"@, JsonV::Str(a.version@)),
        ] + descriptor_list_entry(a@.descriptor) + doc_entry(a@.doc) + links_entry(a@.link));
    }
    r
}

/// Wraps a finished profile root in the document envelope.
pub fn build_document(alps: Alps) -> (r: AlpsDocument)
    ensures
        r@ == (AlpsDocumentV { alps: alps@ }),
{
    AlpsDocument { alps }
}

/// The whole document envelope laid out as a JSON object.
pub fn document_json(d: &AlpsDocument) -> (r: JsonValue)
    ensures
        r@ == json_of_document(d@),
{
    let mut fields: Vec<(String, JsonValue)> = Vec::new();
    let e = (String::from_str("alps"), alps_json(&d.alps));
    proof {
        lemma_json_field_seq_view_push(fields@, e);
    }
    fields.push(e);
    let r = JsonValue::Obj(fields);
    proof {
        assert(json_field_seq_view(r->Obj_0@, 0) =~= seq![("alps"@, json_of_alps(d@.alps))]);
    }
    r
}

/// Declares serde_json::Value, the serializer's own document type, so that
/// the conversion below may return it; the type stays opaque.
#[verifier::external_type_specification]
#[verifier::external_body]
pub struct ExJsonValue(serde_json::Value);

/// What pretty-printing a JSON value yields: the text is a function of the
/// value alone.
pub uninterp spec fn pretty_of(v: JsonV) -> Seq<char>;

/// Relies on the shape of serde_json::Value: each variant of the library's
/// JSON value is carried over one for one, fields in order. Field order
/// survives only because the `preserve_order` feature backs the map with
/// an insertion-ordered map; without that feature the keys would be
/// re-sorted and the output order would silently change.
#[verifier::external_body]
fn serde_value_of(v: JsonValue) -> serde_json::Value {
    match v {
        JsonValue::Str(s) => serde_json::Value::String(s),
        JsonValue::Arr(items) => serde_json::Value::Array(
            items.into_iter().map(serde_value_of).collect(),
        ),
        JsonValue::Obj(fields) => serde_json::Value::Object(
            fields.into_iter().map(|e| (e.0, serde_value_of(e.1))).collect(),
        ),
    }
}

/// Relies on serde_json::to_string_pretty: the pretty-printed text is a
/// function of the value alone, and the call succeeds. Its documentation
/// and source reserve failure for maps with non-string keys and for
/// `Serialize` impls that fail; the conversion above builds only
/// string-keyed objects, and the in-memory writer cannot fail.
#[verifier::external_body]
pub fn render_json(v: JsonValue) -> (r: Option<String>)
    ensures
        r is Some,
        (r matches Some(s) ==> s@ == pretty_of(v@)),
{
    serde_json::to_string_pretty(&serde_value_of(v)).ok()
}

/// Renders the document envelope as pretty-printed JSON text: every
/// successfully walked profile is serialized.
pub fn render_document(d: &AlpsDocument) -> (r: Option<String>)
    ensures
        r is Some,
        (r matches Some(s) ==> s@ == pretty_of(json_of_document(d@))),
{
    render_json(document_json(d))
}

/// The serialized children are pointwise the children's serialization.
pub proof fn lemma_descriptors_json(ds: Seq<DescriptorV>, i: int)
    requires
        0 <= i <= ds.len(),
    ensures
        descriptors_json(ds, i).len() == ds.len() - i,
        forall|k: int|
            0 <= k < ds.len() - i ==> descriptors_json(ds, i)[k] == json_of_descriptor(ds[i + k]),
    decreases ds.len() - i,
{
    if i < ds.len() {
        lemma_descriptors_json(ds, i + 1);
    }
}

/// Children are never lost in serialization: with no children the
/// `descriptor` entry is omitted entirely, and with children it is an
/// array holding exactly the children's serializations, in order.
pub proof fn lemma_children_serialization(ds: Seq<DescriptorV>)
    ensures
        ds.len() == 0 ==> descriptor_list_entry(ds) == Seq::<(Seq<char>, JsonV)>::empty(),
        ds.len() > 0 ==> descriptor_list_entry(ds) == seq![
            ("descriptor"@, JsonV::Arr(descriptors_json(ds, 0))),
        ],
        descriptors_json(ds, 0).len() == ds.len(),
        forall|k: int| 0 <= k < ds.len() ==> descriptors_json(ds, 0)[k] == json_of_descriptor(
            ds[k],
        ),
{
    lemma_descriptors_json(ds, 0);
}

/// A profile root with no descriptors serializes to an envelope whose
/// `descriptor` entry is omitted, the other fields untouched; one with
/// descriptors keeps them all, in order, at the next nesting level.
pub proof fn lemma_root_children_serialization(a: AlpsV)
    ensures
        a.descriptor.len() == 0 ==> json_of_alps(a) == JsonV::Obj(
            seq![("version"@, JsonV::Str(a.version))] + doc_entry(a.doc) + links_entry(a.link),
        ),
        a.descriptor.len() > 0 ==> json_of_alps(a) == JsonV::Obj(
            seq![
                ("version"@, JsonV::Str(a.version)),
                ("descriptor"@, JsonV::Arr(descriptors_json(a.descriptor, 0))),
            ] + doc_entry(a.doc) + links_entry(a.link),
        ),
{
    lemma_children_serialization(a.descriptor);
    if a.descriptor.len() == 0 {
        assert(seq![("version"@, JsonV::Str(a.version))] + descriptor_list_entry(a.descriptor)
            =~= seq![("version"@, JsonV::Str(a.version))]);
    } else {
        assert(seq![("version"@, JsonV::Str(a.version))] + descriptor_list_entry(a.descriptor)
            =~= seq![
            ("version"@, JsonV::Str(a.version)),
            ("descriptor"@, JsonV::Arr(descriptors_json(a.descriptor, 0))),
        ]);
    }
}

/// Nesting is preserved: a descriptor's serialization carries its
/// children as the value of its last field, pointwise and in order, so a
/// deeper tree serializes to a deeper object.
pub proof fn lemma_nesting_preserved(d: DescriptorV)
    requires
        d.descriptor.len() > 0,
    ensures
        json_of_descriptor(d) == JsonV::Obj(
            descriptor_fields_json(DescriptorV { descriptor: Seq::empty(), ..d }) + seq![
                ("descriptor"@, JsonV::Arr(descriptors_json(d.descriptor, 0))),
            ],
        ),
        descriptors_json(d.descriptor, 0).len() == d.descriptor.len(),
        forall|k: int| 0 <= k < d.descriptor.len() ==> descriptors_json(d.descriptor, 0)[k]
            == json_of_descriptor(d.descriptor[k]),
{
    lemma_children_serialization(d.descriptor);
    let stripped = DescriptorV { descriptor: Seq::empty(), ..d };
    assert(descriptor_fields_json(d) =~= descriptor_fields_json(stripped) + seq![
        ("descriptor"@, JsonV::Arr(descriptors_json(d.descriptor, 0))),
    ]);
}

} // verus!
