//! The directory walker: turns an in-memory directory tree into a
//! populated node tree, or fails with the first error met.
//!
//! Each directory must hold an index file named `index.md` supplying the
//! node's own fields. Sibling `*.md` files become child descriptors; an
//! identifier absent from such a file's header is derived from its base
//! name, unless that name starts with an underscore. Subdirectories become
//! child descriptor subtrees whose identifier is always the directory's
//! name. Children are attached in the order the entries are given; other
//! entries are ignored.

use vstd::prelude::*;
use vstd::string::StrSliceExecFns;
use vstd::string::StringExecFns;

use crate::decode::{decode_alps, decode_alps_spec, decode_descriptor, decode_descriptor_spec};
use crate::node::{
    descriptor_seq_view, lemma_descriptor_seq_view_prepend, Alps, AlpsV, Descriptor, DescriptorV,
};
use crate::text::{split_frontmatter, split_spec, str_eq};

verus! {

/// One entry of an in-memory directory tree: a regular file with its text,
/// or a subdirectory with its own entries.
#[derive(Debug)]
pub enum FsEntry {
    File { name: String, content: String },
    Dir { name: String, entries: Vec<FsEntry> },
}

/// The view of an `FsEntry`.
pub enum FsEntryV {
    File { name: Seq<char>, content: Seq<char> },
    Dir { name: Seq<char>, entries: Seq<FsEntryV> },
}

/// The view of a run of entries, from position `i` on.
pub open spec fn entry_seq_view(es: Seq<FsEntry>, i: int) -> Seq<FsEntryV>
    decreases es, es.len() - i + 1,
{
    if i < 0 || i >= es.len() {
        Seq::empty()
    } else {
        seq![entry_view(es[i])] + entry_seq_view(es, i + 1)
    }
}

/// The view of one entry.
pub open spec fn entry_view(e: FsEntry) -> FsEntryV
    decreases e, 0int,
{
    match e {
        FsEntry::File { name, content } => FsEntryV::File { name: name@, content: content@ },
        FsEntry::Dir { name, entries } => FsEntryV::Dir {
            name: name@,
            entries: entry_seq_view(entries@, 0),
        },
    }
}

impl View for FsEntry {
    type V = FsEntryV;

    open spec fn view(&self) -> FsEntryV {
        entry_view(*self)
    }
}

/// The entry-sequence view is pointwise the view of the entries.
pub proof fn lemma_entry_seq_view(es: Seq<FsEntry>, i: int)
    requires
        0 <= i <= es.len(),
    ensures
        entry_seq_view(es, i).len() == es.len() - i,
        forall|k: int| 0 <= k < es.len() - i ==> entry_seq_view(es, i)[k] == entry_view(es[i + k]),
    decreases es.len() - i,
{
    if i < es.len() {
        lemma_entry_seq_view(es, i + 1);
    }
}

/// An error that aborts a walk, naming the offending path relative to the
/// walk's root as its segments.
#[derive(Debug, PartialEq, Eq)]
pub enum ProfileError {
    /// The directory lacks its mandatory `index.md`.
    MissingIndex { path: Vec<String> },
    /// The file's text cannot be split into header and body.
    Format { path: Vec<String> },
    /// The file's header is not valid structured data for the schema.
    Decode { path: Vec<String> },
}

/// The view of a `ProfileError`.
pub enum ProfileErrorV {
    MissingIndex { path: Seq<Seq<char>> },
    Format { path: Seq<Seq<char>> },
    Decode { path: Seq<Seq<char>> },
}

/// The view of a path as its segments' character sequences.
pub open spec fn path_view(p: Seq<String>) -> Seq<Seq<char>> {
    Seq::new(p.len(), |i: int| p[i]@)
}

impl View for ProfileError {
    type V = ProfileErrorV;

    open spec fn view(&self) -> ProfileErrorV {
        match self {
            ProfileError::MissingIndex { path } => ProfileErrorV::MissingIndex {
                path: path_view(path@),
            },
            ProfileError::Format { path } => ProfileErrorV::Format { path: path_view(path@) },
            ProfileError::Decode { path } => ProfileErrorV::Decode { path: path_view(path@) },
        }
    }
}

/// The content of the first file named `index.md`, from position `i` on.
pub open spec fn find_index_spec(entries: Seq<FsEntryV>, i: int) -> Option<Seq<char>>
    decreases entries.len() - i,
{
    if i < 0 || i >= entries.len() {
        None
    } else {
        match entries[i] {
            FsEntryV::File { name, content } => if name == "index.md"@ {
                Some(content)
            } else {
                find_index_spec(entries, i + 1)
            },
            FsEntryV::Dir { .. } => find_index_spec(entries, i + 1),
        }
    }
}

/// Whether a file name carries the Markdown extension.
pub open spec fn is_md_name(name: Seq<char>) -> bool {
    &&& name.len() >= 3
    &&& name[name.len() - 3] == '.'
    &&& name[name.len() - 2] == 'm'
    &&& name[name.len() - 1] == 'd'
}

/// The file's base name: the name with the Markdown extension stripped.
pub open spec fn md_stem(name: Seq<char>) -> Seq<char> {
    name.subrange(0, name.len() - 3)
}

/// Identity precedence: an explicit identifier is kept; otherwise the
/// identifier is derived from the file's base name — unless that base name
/// starts with an underscore, which exempts the file from derivation.
pub open spec fn derive_id(id: Option<Seq<char>>, name: Seq<char>) -> Option<Seq<char>> {
    if md_stem(name).len() > 0 && md_stem(name)[0] == '_' {
        id
    } else if id is Some {
        id
    } else {
        Some(md_stem(name))
    }
}

/// One sibling `*.md` file decoded as a child descriptor, with the
/// identity-derivation rule applied; an error names the file's path.
pub open spec fn file_descriptor_spec(
    name: Seq<char>,
    content: Seq<char>,
    path: Seq<Seq<char>>,
) -> Result<DescriptorV, ProfileErrorV> {
    match split_spec(content) {
        None => Err(ProfileErrorV::Format { path: path.push(name) }),
        Some(hb) => match decode_descriptor_spec(hb.0, hb.1) {
            None => Err(ProfileErrorV::Decode { path: path.push(name) }),
            Some(d) => Ok(DescriptorV { id: derive_id(d.id, name), ..d }),
        },
    }
}

/// The children of a directory, from entry `i` on, in entry order: `*.md`
/// files and subdirectories become descriptors, the index file and other
/// entries are skipped, and the first error aborts the walk.
pub open spec fn walk_children_spec(
    entries: Seq<FsEntryV>,
    i: int,
    path: Seq<Seq<char>>,
) -> Result<Seq<DescriptorV>, ProfileErrorV>
    decreases entries, entries.len() - i + 1,
{
    if i < 0 || i >= entries.len() {
        Ok(Seq::empty())
    } else {
        match entries[i] {
            FsEntryV::File { name, content } => {
                if name == "index.md"@ || !is_md_name(name) {
                    walk_children_spec(entries, i + 1, path)
                } else {
                    match file_descriptor_spec(name, content, path) {
                        Err(e) => Err(e),
                        Ok(d) => match walk_children_spec(entries, i + 1, path) {
                            Err(e) => Err(e),
                            Ok(rest) => Ok(seq![d] + rest),
                        },
                    }
                }
            },
            FsEntryV::Dir { name, entries: sub } => {
                if name == "index.md"@ {
                    walk_children_spec(entries, i + 1, path)
                } else {
                    match walk_dir_spec(sub, path.push(name)) {
                        Err(e) => Err(e),
                        Ok(d) => match walk_children_spec(entries, i + 1, path) {
                            Err(e) => Err(e),
                            Ok(rest) => Ok(seq![DescriptorV { id: Some(name), ..d }] + rest),
                        },
                    }
                }
            },
        }
    }
}

/// A directory walked as a descriptor subtree: its `index.md` supplies the
/// node's own fields, its other entries the children; the caller overrides
/// the identifier with the directory's name.
pub open spec fn walk_dir_spec(entries: Seq<FsEntryV>, path: Seq<Seq<char>>) -> Result<
    DescriptorV,
    ProfileErrorV,
>
    decreases entries, entries.len() + 2,
{
    match find_index_spec(entries, 0) {
        None => Err(ProfileErrorV::MissingIndex { path }),
        Some(content) => match split_spec(content) {
            None => Err(ProfileErrorV::Format { path: path.push("index.md"@) }),
            Some(hb) => match decode_descriptor_spec(hb.0, hb.1) {
                None => Err(ProfileErrorV::Decode { path: path.push("index.md"@) }),
                Some(d) => match walk_children_spec(entries, 0, path) {
                    Err(e) => Err(e),
                    Ok(kids) => Ok(DescriptorV { descriptor: kids, ..d }),
                },
            },
        },
    }
}

/// A directory walked as the profile root.
pub open spec fn walk_root_spec(entries: Seq<FsEntryV>, path: Seq<Seq<char>>) -> Result<
    AlpsV,
    ProfileErrorV,
> {
    match find_index_spec(entries, 0) {
        None => Err(ProfileErrorV::MissingIndex { path }),
        Some(content) => match split_spec(content) {
            None => Err(ProfileErrorV::Format { path: path.push("index.md"@) }),
            Some(hb) => match decode_alps_spec(hb.0, hb.1) {
                None => Err(ProfileErrorV::Decode { path: path.push("index.md"@) }),
                Some(a) => match walk_children_spec(entries, 0, path) {
                    Err(e) => Err(e),
                    Ok(kids) => Ok(AlpsV { descriptor: kids, ..a }),
                },
            },
        },
    }
}

fn clone_path(path: &Vec<String>) -> (r: Vec<String>)
    ensures
        r@ == path@,
{
    let mut out: Vec<String> = Vec::new();
    let mut i: usize = 0;
    while i < path.len()
        invariant
            i <= path@.len(),
            out@.len() == i,
            forall|k: int| 0 <= k < i ==> out@[k] == path@[k],
        decreases path@.len() - i,
    {
        out.push(path[i].clone());
        i += 1;
    }
    assert(out@ =~= path@);
    out
}

fn child_path(path: &Vec<String>, name: &String) -> (r: Vec<String>)
    ensures
        path_view(r@) == path_view(path@).push(name@),
{
    let mut out = clone_path(path);
    out.push(name.clone());
    assert(path_view(out@) =~= path_view(path@).push(name@));
    out
}

fn find_index<'a>(entries: &'a Vec<FsEntry>, i: usize) -> (r: Option<&'a String>)
    requires
        i <= entries@.len(),
    ensures
        (r matches Some(c) ==> find_index_spec(entry_seq_view(entries@, 0), i as int) == Some(c@)),
        (r is None ==> find_index_spec(entry_seq_view(entries@, 0), i as int) is None),
    decreases entries@.len() - i,
{
    proof {
        lemma_entry_seq_view(entries@, 0);
    }
    if i == entries.len() {
        None
    } else {
        match &entries[i] {
            FsEntry::File { name, content } => {
                if str_eq(name.as_str(), "index.md") {
                    Some(content)
                } else {
                    find_index(entries, i + 1)
                }
            },
            FsEntry::Dir { .. } => find_index(entries, i + 1),
        }
    }
}

fn is_md_name_exec(name: &String) -> (r: bool)
    ensures
        r == is_md_name(name@),
{
    let len = name.as_str().unicode_len();
    len >= 3 && name.as_str().get_char(len - 3) == '.' && name.as_str().get_char(len - 2) == 'm'
        && name.as_str().get_char(len - 1) == 'd'
}

/// Decodes one sibling `*.md` file as a child descriptor, following
/// `file_descriptor_spec`.
pub fn file_descriptor(name: &String, content: &String, path: &Vec<String>) -> (r: Result<
    Descriptor,
    ProfileError,
>)
    requires
        is_md_name(name@),
    ensures
        (r matches Ok(d) ==> file_descriptor_spec(name@, content@, path_view(path@)) == Ok::<DescriptorV, ProfileErrorV>(d@)),
        (r matches Err(e) ==> file_descriptor_spec(name@, content@, path_view(path@)) == Err::<DescriptorV, ProfileErrorV>(e@)),
{
    match split_frontmatter(content.as_str()) {
        None => Err(ProfileError::Format { path: child_path(path, name) }),
        Some(hb) => {
            match decode_descriptor(hb.0.as_str(), hb.1.as_str()) {
                Ok(d) => {
                    let mut d = d;
                    let len = name.as_str().unicode_len();
                    let stem = name.as_str().substring_char(0, len - 3);
                    let exempt = stem.unicode_len() > 0 && stem.get_char(0) == '_';
                    if !exempt && d.id.is_none() {
                        d.id = Some(stem.to_owned());
                    }
                    Ok(d)
                },
                Err(()) => Err(ProfileError::Decode { path: child_path(path, name) }),
            }
        },
    }
}

/// Collects the children of a directory from entry `i` on, following
/// `walk_children_spec`.
pub fn walk_children(entries: &Vec<FsEntry>, i: usize, path: &Vec<String>) -> (r: Result<
    Vec<Descriptor>,
    ProfileError,
>)
    requires
        i <= entries@.len(),
    ensures
        (r matches Ok(ds) ==> walk_children_spec(entry_seq_view(entries@, 0), i as int, path_view(path@))
            == Ok::<Seq<DescriptorV>, ProfileErrorV>(descriptor_seq_view(ds@, 0))),
        (r matches Err(e) ==> walk_children_spec(entry_seq_view(entries@, 0), i as int, path_view(path@))
            == Err::<Seq<DescriptorV>, ProfileErrorV>(e@)),
    decreases entries@, entries@.len() - i + 1,
{
    proof {
        lemma_entry_seq_view(entries@, 0);
    }
    if i == entries.len() {
        let ds: Vec<Descriptor> = Vec::new();
        assert(descriptor_seq_view(ds@, 0) =~= Seq::<DescriptorV>::empty());
        return Ok(ds);
    }
    match &entries[i] {
        FsEntry::File { name, content } => {
            if str_eq(name.as_str(), "index.md") || !is_md_name_exec(name) {
                walk_children(entries, i + 1, path)
            } else {
                match file_descriptor(name, content, path) {
                    Err(e) => Err(e),
                    Ok(d) => match walk_children(entries, i + 1, path) {
                        Err(e) => Err(e),
                        Ok(rest) => {
                            let mut rest = rest;
                            proof {
                                lemma_descriptor_seq_view_prepend(rest@, d);
                            }
                            rest.insert(0, d);
                            Ok(rest)
                        },
                    },
                }
            }
        },
        FsEntry::Dir { name, entries: sub } => {
            if str_eq(name.as_str(), "index.md") {
                walk_children(entries, i + 1, path)
            } else {
                proof {
                    assert(decreases_to!(entries@ => entries@[i as int]));
                }
                let cp = child_path(path, name);
                match walk_dir(sub, cp) {
                    Err(e) => Err(e),
                    Ok(d) => {
                        let mut d = d;
                        d.id = Some(name.clone());
                        match walk_children(entries, i + 1, path) {
                            Err(e) => Err(e),
                            Ok(rest) => {
                                let mut rest = rest;
                                proof {
                                    lemma_descriptor_seq_view_prepend(rest@, d);
                                }
                                rest.insert(0, d);
                                Ok(rest)
                            },
                        }
                    },
                }
            }
        },
    }
}

/// Walks a directory as a descriptor subtree, following `walk_dir_spec`;
/// `path` names the directory relative to the walk's root, for errors.
pub fn walk_dir(entries: &Vec<FsEntry>, path: Vec<String>) -> (r: Result<Descriptor, ProfileError>)
    ensures
        (r matches Ok(d) ==> walk_dir_spec(entry_seq_view(entries@, 0), path_view(path@)) == Ok::<DescriptorV, ProfileErrorV>(
            d@,
        )),
        (r matches Err(e) ==> walk_dir_spec(entry_seq_view(entries@, 0), path_view(path@)) == Err::<DescriptorV, ProfileErrorV>(
            e@,
        )),
    decreases entries@, entries@.len() + 2,
{
    let index_name = String::from_str("index.md");
    match find_index(entries, 0) {
        None => Err(ProfileError::MissingIndex { path }),
        Some(content) => {
            let content = content.clone();
            match split_frontmatter(content.as_str()) {
                None => Err(ProfileError::Format { path: child_path(&path, &index_name) }),
                Some(hb) => match decode_descriptor(hb.0.as_str(), hb.1.as_str()) {
                    Err(()) => Err(ProfileError::Decode { path: child_path(&path, &index_name) }),
                    Ok(d) => match walk_children(entries, 0, &path) {
                        Err(e) => Err(e),
                        Ok(kids) => {
                            let mut d = d;
                            d.descriptor = kids;
                            Ok(d)
                        },
                    },
                },
            }
        },
    }
}

/// Walks a directory's entries as the profile root, following
/// `walk_root_spec` with an empty path: error paths are relative to this
/// directory.
pub fn walk_profile(entries: &Vec<FsEntry>) -> (r: Result<Alps, ProfileError>)
    ensures
        (r matches Ok(a) ==> walk_root_spec(entry_seq_view(entries@, 0), Seq::empty()) == Ok::<AlpsV, ProfileErrorV>(a@)),
        (r matches Err(e) ==> walk_root_spec(entry_seq_view(entries@, 0), Seq::empty()) == Err::<AlpsV, ProfileErrorV>(
            e@,
        )),
{
    let path: Vec<String> = Vec::new();
    let index_name = String::from_str("index.md");
    proof {
        assert(path_view(path@) =~= Seq::<Seq<char>>::empty());
    }
    match find_index(entries, 0) {
        None => Err(ProfileError::MissingIndex { path }),
        Some(content) => {
            let content = content.clone();
            match split_frontmatter(content.as_str()) {
                None => Err(ProfileError::Format { path: child_path(&path, &index_name) }),
                Some(hb) => match decode_alps(hb.0.as_str(), hb.1.as_str()) {
                    Err(()) => Err(ProfileError::Decode { path: child_path(&path, &index_name) }),
                    Ok(a) => match walk_children(entries, 0, &path) {
                        Err(e) => Err(e),
                        Ok(kids) => {
                            let mut a = a;
                            a.descriptor = kids;
                            Ok(a)
                        },
                    },
                },
            }
        },
    }
}

/// A directory without its index file fails with the missing-index error
/// naming that directory, and produces no node — for a subtree walk and
/// for the root walk alike.
pub proof fn lemma_missing_index(entries: Seq<FsEntryV>, path: Seq<Seq<char>>)
    requires
        find_index_spec(entries, 0) is None,
    ensures
        walk_dir_spec(entries, path) == Err::<DescriptorV, ProfileErrorV>(
            ProfileErrorV::MissingIndex { path },
        ),
        walk_root_spec(entries, path) == Err::<AlpsV, ProfileErrorV>(
            ProfileErrorV::MissingIndex { path },
        ),
{
}

/// Identity precedence for a file-backed descriptor whose base name does
/// not start with an underscore: an identifier from the header is kept;
/// absent one, the identifier is the base name. The derivation never
/// overwrites an explicit value.
pub proof fn lemma_id_precedence(id: Option<Seq<char>>, name: Seq<char>)
    requires
        md_stem(name).len() == 0 || md_stem(name)[0] != '_',
    ensures
        id is Some ==> derive_id(id, name) == id,
        id is None ==> derive_id(id, name) == Some(md_stem(name)),
{
}

/// A base name starting with an underscore exempts the file: no
/// identifier is injected.
pub proof fn lemma_id_underscore_exempt(id: Option<Seq<char>>, name: Seq<char>)
    requires
        md_stem(name).len() > 0,
        md_stem(name)[0] == '_',
    ensures
        derive_id(id, name) == id,
{
}

/// A directory-backed descriptor's identifier is always the directory's
/// name: whatever its own index file supplied is overridden.
pub proof fn lemma_dir_id_wins(
    entries: Seq<FsEntryV>,
    i: int,
    path: Seq<Seq<char>>,
    name: Seq<char>,
    sub: Seq<FsEntryV>,
)
    requires
        0 <= i < entries.len(),
        entries[i] == (FsEntryV::Dir { name, entries: sub }),
        name != "index.md"@,
        walk_children_spec(entries, i, path) is Ok,
    ensures
        walk_children_spec(entries, i, path)->Ok_0.len() > 0,
        walk_children_spec(entries, i, path)->Ok_0[0].id == Some(name),
{
    assert(walk_dir_spec(sub, path.push(name)) is Ok);
}

/// A file whose header is not valid structured data fails with the decode
/// error naming that file.
pub proof fn lemma_undecodable_header(
    name: Seq<char>,
    content: Seq<char>,
    path: Seq<Seq<char>>,
    h: Seq<char>,
    b: Seq<char>,
)
    requires
        split_spec(content) == Some((h, b)),
        h.len() > 0,
        crate::yaml::yaml_of(h) is None,
    ensures
        file_descriptor_spec(name, content, path) == Err::<DescriptorV, ProfileErrorV>(
            ProfileErrorV::Decode { path: path.push(name) },
        ),
{
}

/// The walk surfaces the first failing entry's error: a failing `*.md`
/// file aborts the whole children collection with exactly its error.
pub proof fn lemma_walk_stops_at_bad_file(
    entries: Seq<FsEntryV>,
    i: int,
    path: Seq<Seq<char>>,
    name: Seq<char>,
    content: Seq<char>,
    e: ProfileErrorV,
)
    requires
        0 <= i < entries.len(),
        entries[i] == (FsEntryV::File { name, content }),
        name != "index.md"@,
        is_md_name(name),
        file_descriptor_spec(name, content, path) == Err::<DescriptorV, ProfileErrorV>(e),
    ensures
        walk_children_spec(entries, i, path) == Err::<Seq<DescriptorV>, ProfileErrorV>(e),
{
}

/// A file's text is bad as a descriptor source: it cannot be split into
/// header and body, or its header is not valid structured data for the
/// descriptor schema.
pub open spec fn descriptor_content_bad(content: Seq<char>) -> bool {
    match split_spec(content) {
        None => true,
        Some(hb) => decode_descriptor_spec(hb.0, hb.1) is None,
    }
}

/// The index file the walk would consult in this directory is bad.
pub open spec fn index_content_bad(entries: Seq<FsEntryV>) -> bool {
    match find_index_spec(entries, 0) {
        Some(content) => descriptor_content_bad(content),
        None => false,
    }
}

/// Somewhere among these entries, from position `i` on and at any depth,
/// lies a file the walk consults whose text is bad: a sibling `*.md`
/// descriptor file, or inside a subdirectory its index file or anything
/// deeper.
pub open spec fn bad_descriptor_file_at(entries: Seq<FsEntryV>, i: int) -> bool
    decreases entries, entries.len() - i + 1,
{
    if i < 0 || i >= entries.len() {
        false
    } else {
        (match entries[i] {
            FsEntryV::File { name, content } => name != "index.md"@ && is_md_name(name)
                && descriptor_content_bad(content),
            FsEntryV::Dir { name, entries: sub } => name != "index.md"@ && (index_content_bad(sub)
                || bad_descriptor_file_at(sub, 0)),
        }) || bad_descriptor_file_at(entries, i + 1)
    }
}

/// A bad file among the children fails the whole collection: no partial
/// child list is returned.
pub proof fn lemma_bad_file_fails_children(entries: Seq<FsEntryV>, i: int, path: Seq<Seq<char>>)
    requires
        0 <= i,
        bad_descriptor_file_at(entries, i),
    ensures
        walk_children_spec(entries, i, path) is Err,
    decreases entries, entries.len() - i + 1,
{
    match entries[i] {
        FsEntryV::File { name, content } => {
            if name != "index.md"@ && is_md_name(name) && descriptor_content_bad(content) {
            } else {
                lemma_bad_file_fails_children(entries, i + 1, path);
            }
        },
        FsEntryV::Dir { name, entries: sub } => {
            if name != "index.md"@ && (index_content_bad(sub) || bad_descriptor_file_at(sub, 0)) {
                lemma_bad_file_fails_dir(sub, path.push(name));
            } else {
                lemma_bad_file_fails_children(entries, i + 1, path);
            }
        },
    }
}

/// A bad index file, or a bad file anywhere deeper, fails the whole
/// subtree walk: no node is produced for it.
pub proof fn lemma_bad_file_fails_dir(entries: Seq<FsEntryV>, path: Seq<Seq<char>>)
    requires
        index_content_bad(entries) || bad_descriptor_file_at(entries, 0),
    ensures
        walk_dir_spec(entries, path) is Err,
    decreases entries, entries.len() + 2,
{
    match find_index_spec(entries, 0) {
        None => {
        },
        Some(content) => {
            if !descriptor_content_bad(content) {
                lemma_bad_file_fails_children(entries, 0, path);
            }
        },
    }
}

/// A bad file anywhere in the tree fails the whole build with the first
/// error met: no profile root is produced, so nothing can be serialized.
pub proof fn lemma_bad_file_fails_build(entries: Seq<FsEntryV>, path: Seq<Seq<char>>)
    requires
        bad_descriptor_file_at(entries, 0),
    ensures
        walk_root_spec(entries, path) is Err,
{
    lemma_bad_file_fails_children(entries, 0, path);
}

} // verus!
