//! The node tree: the profile root, descriptor nodes, links, document
//! bodies and the descriptor-kind classification, with their mathematical
//! views and the field defaults.

use vstd::prelude::*;
use vstd::string::StringExecFns;

verus! {

/// The closed descriptor-kind classification.
#[derive(Debug, PartialEq, Eq, Clone, Copy)]
pub enum DescriptorType {
    Idempotent,
    Semantic,
    Safe,
    Unsafe,
}

/// A link: a relation, a target reference and an optional title.
#[derive(Debug, PartialEq, Eq)]
pub struct Link {
    pub rel: String,
    pub href: String,
    pub title: Option<String>,
}

/// The view of a `Link`.
pub struct LinkV {
    pub rel: Seq<char>,
    pub href: Seq<char>,
    pub title: Option<Seq<char>>,
}

/// A document body: a format tag and the text it carries.
#[derive(Debug, PartialEq, Eq)]
pub struct Doc {
    pub format: String,
    pub value: String,
}

/// The view of a `Doc`.
pub struct DocV {
    pub format: Seq<char>,
    pub value: Seq<char>,
}

/// One semantic element, recursively nestable.
#[derive(Debug, PartialEq, Eq)]
pub struct Descriptor {
    pub id: Option<String>,
    pub name: Option<String>,
    pub title: Option<String>,
    pub rel: Option<String>,
    pub rt: Option<String>,
    pub link: Option<Vec<Link>>,
    pub doc: Option<Doc>,
    pub def: Option<String>,
    pub href: Option<String>,
    pub tag: Option<String>,
    pub descriptor_type: DescriptorType,
    pub descriptor: Vec<Descriptor>,
}

/// The view of a `Descriptor`.
pub struct DescriptorV {
    pub id: Option<Seq<char>>,
    pub name: Option<Seq<char>>,
    pub title: Option<Seq<char>>,
    pub rel: Option<Seq<char>>,
    pub rt: Option<Seq<char>>,
    pub link: Option<Seq<LinkV>>,
    pub doc: Option<DocV>,
    pub def: Option<Seq<char>>,
    pub href: Option<Seq<char>>,
    pub tag: Option<Seq<char>>,
    pub descriptor_type: DescriptorType,
    pub descriptor: Seq<DescriptorV>,
}

/// The profile root.
#[derive(Debug, PartialEq, Eq)]
pub struct Alps {
    pub version: String,
    pub descriptor: Vec<Descriptor>,
    pub doc: Option<Doc>,
    pub link: Option<Vec<Link>>,
}

/// The view of an `Alps` root.
pub struct AlpsV {
    pub version: Seq<char>,
    pub descriptor: Seq<DescriptorV>,
    pub doc: Option<DocV>,
    pub link: Option<Seq<LinkV>>,
}

/// The document envelope holding exactly one profile root.
#[derive(Debug, PartialEq, Eq)]
pub struct AlpsDocument {
    pub alps: Alps,
}

/// The view of an `AlpsDocument`.
pub struct AlpsDocumentV {
    pub alps: AlpsV,
}

/// The view of an optional string field.
pub open spec fn opt_str_view(o: Option<String>) -> Option<Seq<char>> {
    match o {
        Some(s) => Some(s@),
        None => None,
    }
}

/// The view of a link.
pub open spec fn link_view(l: Link) -> LinkV {
    LinkV { rel: l.rel@, href: l.href@, title: opt_str_view(l.title) }
}

/// The view of a link list.
pub open spec fn link_seq_view(ls: Seq<Link>) -> Seq<LinkV> {
    Seq::new(ls.len(), |i: int| link_view(ls[i]))
}

/// The view of an optional link list.
pub open spec fn opt_links_view(o: Option<Vec<Link>>) -> Option<Seq<LinkV>> {
    match o {
        Some(ls) => Some(link_seq_view(ls@)),
        None => None,
    }
}

/// The view of a document body.
pub open spec fn doc_view(d: Doc) -> DocV {
    DocV { format: d.format@, value: d.value@ }
}

/// The view of an optional document body.
pub open spec fn opt_doc_view(o: Option<Doc>) -> Option<DocV> {
    match o {
        Some(d) => Some(doc_view(d)),
        None => None,
    }
}

/// The view of the children of a descriptor, from position `i` on.
pub open spec fn descriptor_seq_view(ds: Seq<Descriptor>, i: int) -> Seq<DescriptorV>
    decreases ds, ds.len() - i + 1,
{
    if i < 0 || i >= ds.len() {
        Seq::empty()
    } else {
        seq![descriptor_view(ds[i])] + descriptor_seq_view(ds, i + 1)
    }
}

/// The view of a descriptor node.
pub open spec fn descriptor_view(d: Descriptor) -> DescriptorV
    decreases d, 0int,
{
    DescriptorV {
        id: opt_str_view(d.id),
        name: opt_str_view(d.name),
        title: opt_str_view(d.title),
        rel: opt_str_view(d.rel),
        rt: opt_str_view(d.rt),
        link: opt_links_view(d.link),
        doc: opt_doc_view(d.doc),
        def: opt_str_view(d.def),
        href: opt_str_view(d.href),
        tag: opt_str_view(d.tag),
        descriptor_type: d.descriptor_type,
        descriptor: descriptor_seq_view(d.descriptor@, 0),
    }
}

impl View for Descriptor {
    type V = DescriptorV;

    open spec fn view(&self) -> DescriptorV {
        descriptor_view(*self)
    }
}

impl View for Alps {
    type V = AlpsV;

    open spec fn view(&self) -> AlpsV {
        AlpsV {
            version: self.version@,
            descriptor: descriptor_seq_view(self.descriptor@, 0),
            doc: opt_doc_view(self.doc),
            link: opt_links_view(self.link),
        }
    }
}

impl View for AlpsDocument {
    type V = AlpsDocumentV;

    open spec fn view(&self) -> AlpsDocumentV {
        AlpsDocumentV { alps: self.alps@ }
    }
}

/// The child-sequence view is pointwise the view of the children.
pub proof fn lemma_descriptor_seq_view(ds: Seq<Descriptor>, i: int)
    requires
        0 <= i <= ds.len(),
    ensures
        descriptor_seq_view(ds, i).len() == ds.len() - i,
        forall|k: int|
            0 <= k < ds.len() - i ==> descriptor_seq_view(ds, i)[k] == descriptor_view(ds[i + k]),
    decreases ds.len() - i,
{
    if i < ds.len() {
        lemma_descriptor_seq_view(ds, i + 1);
    }
}

/// Appending a child extends the child-sequence view by the child's view.
pub proof fn lemma_descriptor_seq_view_push(ds: Seq<Descriptor>, d: Descriptor)
    ensures
        descriptor_seq_view(ds.push(d), 0) == descriptor_seq_view(ds, 0).push(descriptor_view(d)),
{
    lemma_descriptor_seq_view(ds, 0);
    lemma_descriptor_seq_view(ds.push(d), 0);
    assert(descriptor_seq_view(ds.push(d), 0) =~= descriptor_seq_view(ds, 0).push(
        descriptor_view(d),
    ));
}

/// Prepending a child extends the child-sequence view at the front.
pub proof fn lemma_descriptor_seq_view_prepend(ds: Seq<Descriptor>, d: Descriptor)
    ensures
        descriptor_seq_view(ds.insert(0, d), 0) == seq![descriptor_view(d)]
            + descriptor_seq_view(ds, 0),
{
    lemma_descriptor_seq_view(ds, 0);
    lemma_descriptor_seq_view(ds.insert(0, d), 0);
    assert(descriptor_seq_view(ds.insert(0, d), 0) =~= seq![descriptor_view(d)]
        + descriptor_seq_view(ds, 0));
}

/// The version tag a profile root carries when its header names none.
pub fn default_version() -> (r: String)
    ensures
        r@ == "1.0"@,
{
    String::from_str("1.0")
}

/// The format tag a document body carries when none is named.
pub fn default_format() -> (r: String)
    ensures
        r@ == "markdown"@,
{
    String::from_str("markdown")
}

/// The view of a descriptor with every field defaulted: no children, no
/// optional field set, kind `semantic`.
pub open spec fn default_descriptor_view() -> DescriptorV {
    DescriptorV {
        id: None,
        name: None,
        title: None,
        rel: None,
        rt: None,
        link: None,
        doc: None,
        def: None,
        href: None,
        tag: None,
        descriptor_type: DescriptorType::Semantic,
        descriptor: Seq::empty(),
    }
}

/// The view of a profile root with every field defaulted.
pub open spec fn default_alps_view() -> AlpsV {
    AlpsV { version: "1.0"@, descriptor: Seq::empty(), doc: None, link: None }
}

impl Default for DescriptorType {
    /// The kind when unspecified.
    fn default() -> (r: Self)
        ensures
            r == DescriptorType::Semantic,
    {
        DescriptorType::Semantic
    }
}

impl Default for Descriptor {
    /// A descriptor with every field defaulted.
    fn default() -> (r: Self)
        ensures
            r@ == default_descriptor_view(),
    {
        Descriptor {
            id: None,
            name: None,
            title: None,
            rel: None,
            rt: None,
            link: None,
            doc: None,
            def: None,
            href: None,
            tag: None,
            descriptor_type: DescriptorType::Semantic,
            descriptor: Vec::new(),
        }
    }
}

impl Default for Alps {
    /// A profile root with every field defaulted.
    fn default() -> (r: Self)
        ensures
            r@ == default_alps_view(),
    {
        Alps { version: default_version(), descriptor: Vec::new(), doc: None, link: None }
    }
}

impl Descriptor {
    /// Appends a child descriptor, keeping every other field.
    pub fn add_descriptor(&mut self, d: Descriptor)
        ensures
            final (self)@ == (DescriptorV {
                descriptor: old(self)@.descriptor.push(d@),
                ..old(self)@
            }),
    {
        let ghost before = self.descriptor@;
        self.descriptor.push(d);
        proof {
            lemma_descriptor_seq_view_push(before, d);
        }
    }

    /// Attaches a document body, replacing any present one.
    pub fn add_doc(&mut self, format: String, value: String)
        ensures
            final (self)@ == (DescriptorV {
                doc: Some(DocV { format: format@, value: value@ }),
                ..old(self)@
            }),
    {
        self.doc = Some(Doc { format, value });
    }
}

impl Alps {
    /// Appends a child descriptor, keeping every other field.
    pub fn add_descriptor(&mut self, d: Descriptor)
        ensures
            final (self)@ == (AlpsV { descriptor: old(self)@.descriptor.push(d@), ..old(self)@ }),
    {
        let ghost before = self.descriptor@;
        self.descriptor.push(d);
        proof {
            lemma_descriptor_seq_view_push(before, d);
        }
    }

    /// Attaches a document body, replacing any present one.
    pub fn add_doc(&mut self, format: String, value: String)
        ensures
            final (self)@ == (AlpsV {
                doc: Some(DocV { format: format@, value: value@ }),
                ..old(self)@
            }),
    {
        self.doc = Some(Doc { format, value });
    }
}

} // verus!
