//! The descriptor-scaffolding core: decides what creating a new descriptor
//! stub may do, and builds the stub file's text. The filesystem work
//! itself (existence checks, directory promotion, writing) stays outside;
//! this module turns the observed state into a plan or a fatal error, and
//! plain prompt answers into the stub's frontmatter.

use vstd::prelude::*;
use vstd::string::StringExecFns;

verus! {

/// A fatal scaffolding error, decided before any filesystem mutation.
#[derive(Debug, PartialEq, Eq, Clone, Copy)]
pub enum ScaffoldError {
    /// The target descriptor already exists, as a file or a directory.
    AlreadyExists,
    /// The parent descriptor exists in no form.
    MissingParent,
}

/// What creating the descriptor requires of the filesystem.
#[derive(Debug, PartialEq, Eq, Clone, Copy)]
pub struct ScaffoldPlan {
    /// The parent exists as a sibling `.md` file: promote it into a
    /// directory whose `index.md` is that file, before writing the stub.
    pub promote_parent: bool,
}

/// Decides the scaffolding outcome from the observed filesystem state:
/// an existing target is fatal; a parent present in no form is fatal;
/// otherwise the stub may be written, promoting a file-backed parent
/// into a directory first.
pub fn plan_descriptor(
    target_dir_exists: bool,
    target_file_exists: bool,
    parent_dir_exists: bool,
    parent_md_exists: bool,
) -> (r: Result<ScaffoldPlan, ScaffoldError>)
    ensures
        r == (if target_dir_exists || target_file_exists {
            Err::<ScaffoldPlan, ScaffoldError>(ScaffoldError::AlreadyExists)
        } else if !parent_dir_exists && !parent_md_exists {
            Err::<ScaffoldPlan, ScaffoldError>(ScaffoldError::MissingParent)
        } else {
            Ok::<ScaffoldPlan, ScaffoldError>(ScaffoldPlan { promote_parent: parent_md_exists })
        }),
{
    if target_dir_exists || target_file_exists {
        Err(ScaffoldError::AlreadyExists)
    } else if !parent_dir_exists && !parent_md_exists {
        Err(ScaffoldError::MissingParent)
    } else {
        Ok(ScaffoldPlan { promote_parent: parent_md_exists })
    }
}

/// The text of a new stub file: an empty frontmatter block, or the given
/// frontmatter between the delimiters, followed by an empty body.
pub open spec fn stub_content_spec(frontmatter: Seq<char>) -> Seq<char> {
    if frontmatter.len() == 0 {
        "---\n---\n\n"@
    } else {
        "---\n"@ + frontmatter + "\n---\n\n"@
    }
}

/// Builds the stub file's text, following `stub_content_spec`.
pub fn stub_content(frontmatter: &str) -> (r: String)
    ensures
        r@ == stub_content_spec(frontmatter@),
{
    if frontmatter.unicode_len() == 0 {
        String::from_str("---\n---\n\n")
    } else {
        let mut s = String::from_str("---\n");
        s.append(frontmatter);
        s.append("\n---\n\n");
        s
    }
}

/// The view of a list of strings.
pub open spec fn str_seq_view(ss: Seq<String>) -> Seq<Seq<char>> {
    Seq::new(ss.len(), |i: int| ss[i]@)
}

/// Lines joined by single newlines, with no trailing newline.
pub open spec fn join_lines(lines: Seq<Seq<char>>) -> Seq<char>
    decreases lines.len(),
{
    if lines.len() == 0 {
        Seq::empty()
    } else if lines.len() == 1 {
        lines[0]
    } else {
        lines[0] + seq!['\n'] + join_lines(lines.drop_first())
    }
}

proof fn lemma_join_lines_push(lines: Seq<Seq<char>>, l: Seq<char>)
    ensures
        join_lines(lines.push(l)) == if lines.len() == 0 {
            l
        } else {
            join_lines(lines) + seq!['\n'] + l
        },
    decreases lines.len(),
{
    if lines.len() == 0 {
        assert(lines.push(l)[0] == l);
    } else {
        let p = lines.push(l);
        assert(p.drop_first() =~= lines.drop_first().push(l));
        lemma_join_lines_push(lines.drop_first(), l);
        if lines.len() == 1 {
            assert(join_lines(p) == p[0] + seq!['\n'] + join_lines(p.drop_first()));
            assert(p[0] == lines[0]);
        }
    }
}

/// One prompt answer as a frontmatter line, when the answer is non-empty.
pub open spec fn prompt_line(key: Seq<char>, v: Seq<char>) -> Seq<Seq<char>> {
    if v.len() == 0 {
        Seq::empty()
    } else {
        seq![key + ": "@ + v]
    }
}

/// The frontmatter lines collected from the prompt answers, in prompt
/// order, keeping only the non-empty answers.
pub open spec fn prompt_lines(
    name: Seq<char>,
    title: Seq<char>,
    def: Seq<char>,
    href: Seq<char>,
    rel: Seq<char>,
    tag: Seq<char>,
) -> Seq<Seq<char>> {
    prompt_line("name"@, name) + prompt_line("title"@, title) + prompt_line("def"@, def)
        + prompt_line("href"@, href) + prompt_line("rel"@, rel) + prompt_line("tag"@, tag)
}

fn push_prompt_line(lines: &mut Vec<String>, key: &str, v: &str)
    ensures
        str_seq_view(final (lines)@) == str_seq_view(old(lines)@) + prompt_line(key@, v@),
{
    if v.unicode_len() > 0 {
        let mut s = String::from_str(key);
        s.append(": ");
        s.append(v);
        lines.push(s);
        assert(str_seq_view(lines@) =~= str_seq_view(old(lines)@) + prompt_line(key@, v@));
    } else {
        assert(str_seq_view(lines@) =~= str_seq_view(old(lines)@) + prompt_line(key@, v@));
    }
}

/// Assembles the stub frontmatter from the six prompt answers: one
/// `key: value` line for each non-empty answer, in prompt order, joined
/// by newlines.
pub fn frontmatter_from_prompts(
    name: &str,
    title: &str,
    def: &str,
    href: &str,
    rel: &str,
    tag: &str,
) -> (r: String)
    ensures
        r@ == join_lines(prompt_lines(name@, title@, def@, href@, rel@, tag@)),
{
    let mut lines: Vec<String> = Vec::new();
    push_prompt_line(&mut lines, "name", name);
    push_prompt_line(&mut lines, "title", title);
    push_prompt_line(&mut lines, "def", def);
    push_prompt_line(&mut lines, "href", href);
    push_prompt_line(&mut lines, "rel", rel);
    push_prompt_line(&mut lines, "tag", tag);
    assert(str_seq_view(lines@) =~= prompt_lines(name@, title@, def@, href@, rel@, tag@));
    let ghost lv = str_seq_view(lines@);
    let mut out = String::new();
    let mut i: usize = 0;
    while i < lines.len()
        invariant
            i <= lines@.len(),
            lv == str_seq_view(lines@),
            out@ == join_lines(lv.subrange(0, i as int)),
        decreases lines@.len() - i,
    {
        proof {
            reveal_strlit("\n");
            assert("\n"@ =~= seq!['\n']);
            assert(lv.subrange(0, i as int + 1) =~= lv.subrange(0, i as int).push(lv[i as int]));
            lemma_join_lines_push(lv.subrange(0, i as int), lv[i as int]);
        }
        if i > 0 {
            out.append("\n");
        } else {
            assert(out@ =~= Seq::<char>::empty());
        }
        out.append(lines[i].as_str());
        i += 1;
    }
    assert(lv.subrange(0, lv.len() as int) =~= lv);
    out
}

} // verus!
