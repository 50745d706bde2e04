//! Character-level text utilities: string equality over characters,
//! whitespace trimming, and the frontmatter splitter.
//!
//! A file is split on delimiter lines (a line consisting solely of three
//! hyphens). No delimiter line: the whole text is the body. Exactly two:
//! the region between them is the header and the region after the second
//! is the body, both trimmed. Any other count is a format error.

use vstd::prelude::*;
use vstd::string::StrSliceExecFns;

verus! {

/// Compares two string slices character by character.
pub fn str_eq(a: &str, b: &str) -> (r: bool)
    ensures
        r == (a@ == b@),
{
    let alen = a.unicode_len();
    let blen = b.unicode_len();
    if alen != blen {
        assert(a@ != b@);
        return false;
    }
    let mut i: usize = 0;
    while i < alen
        invariant
            alen == a@.len(),
            blen == b@.len(),
            alen == blen,
            i <= alen,
            forall|k: int| 0 <= k < i ==> a@[k] == b@[k],
        decreases alen - i,
    {
        if a.get_char(i) != b.get_char(i) {
            return false;
        }
        i += 1;
    }
    assert(a@ =~= b@);
    true
}

/// The whitespace characters stripped from header and body edges.
pub open spec fn is_ws(c: char) -> bool {
    c == ' ' || c == '\t' || c == '\r' || c == '\n'
}

/// `s` with leading whitespace removed.
pub open spec fn trim_start_spec(s: Seq<char>) -> Seq<char>
    decreases s.len(),
{
    if s.len() > 0 && is_ws(s[0]) {
        trim_start_spec(s.drop_first())
    } else {
        s
    }
}

/// `s` with trailing whitespace removed.
pub open spec fn trim_end_spec(s: Seq<char>) -> Seq<char>
    decreases s.len(),
{
    if s.len() > 0 && is_ws(s.last()) {
        trim_end_spec(s.drop_last())
    } else {
        s
    }
}

/// `s` with both leading and trailing whitespace removed.
pub open spec fn trim_spec(s: Seq<char>) -> Seq<char> {
    trim_end_spec(trim_start_spec(s))
}

proof fn lemma_trim_start_subrange(s: Seq<char>, a: int)
    requires
        0 <= a <= s.len(),
        forall|k: int| 0 <= k < a ==> is_ws(s[k]),
        a == s.len() || !is_ws(s[a]),
    ensures
        trim_start_spec(s) == s.subrange(a, s.len() as int),
    decreases a,
{
    if a == 0 {
        assert(s.subrange(0, s.len() as int) =~= s);
    } else {
        assert(is_ws(s[0]));
        let t = s.drop_first();
        assert(forall|k: int| 0 <= k < a - 1 ==> is_ws(#[trigger] t[k]));
        lemma_trim_start_subrange(t, a - 1);
        assert(t.subrange(a - 1, t.len() as int) =~= s.subrange(a, s.len() as int));
    }
}

proof fn lemma_trim_end_subrange(s: Seq<char>, b: int)
    requires
        0 <= b <= s.len(),
        forall|k: int| b <= k < s.len() ==> is_ws(s[k]),
        b == 0 || !is_ws(s[b - 1]),
    ensures
        trim_end_spec(s) == s.subrange(0, b),
    decreases s.len() - b,
{
    if b == s.len() {
        if s.len() == 0 {
            assert(s.subrange(0, 0) =~= s);
        } else {
            assert(!is_ws(s.last()));
            assert(s.subrange(0, s.len() as int) =~= s);
        }
    } else {
        assert(is_ws(s.last()));
        let t = s.drop_last();
        assert(forall|k: int| b <= k < t.len() ==> is_ws(#[trigger] t[k]));
        lemma_trim_end_subrange(t, b);
        assert(t.subrange(0, b) =~= s.subrange(0, b));
    }
}

/// The whole trim characterized by the first and last non-whitespace
/// positions: everything before `a` and from `b` on is whitespace, and when
/// the result is non-empty its edges are not whitespace.
pub proof fn lemma_trim_subrange(s: Seq<char>, a: int, b: int)
    requires
        0 <= a <= b <= s.len(),
        forall|k: int| 0 <= k < a ==> is_ws(s[k]),
        forall|k: int| b <= k < s.len() ==> is_ws(s[k]),
        a < b ==> !is_ws(s[a]) && !is_ws(s[b - 1]),
        a == b ==> a == s.len(),
    ensures
        trim_spec(s) == s.subrange(a, b),
{
    if a == b {
        lemma_trim_start_subrange(s, s.len() as int);
        assert(trim_start_spec(s) =~= Seq::<char>::empty());
        assert(trim_spec(s) =~= s.subrange(a, b));
    } else {
        lemma_trim_start_subrange(s, a);
        let t = s.subrange(a, s.len() as int);
        assert(forall|k: int| b - a <= k < t.len() ==> is_ws(#[trigger] t[k]));
        assert(!is_ws(t[b - a - 1]));
        lemma_trim_end_subrange(t, b - a);
        assert(t.subrange(0, b - a) =~= s.subrange(a, b));
    }
}

fn is_ws_char(c: char) -> (r: bool)
    ensures
        r == is_ws(c),
{
    c == ' ' || c == '\t' || c == '\r' || c == '\n'
}

/// Strips leading and trailing whitespace.
pub fn trim(s: &str) -> (r: &str)
    ensures
        r@ == trim_spec(s@),
{
    let len = s.unicode_len();
    let mut a: usize = 0;
    while a < len && is_ws_char(s.get_char(a))
        invariant
            len == s@.len(),
            a <= len,
            forall|k: int| 0 <= k < a ==> is_ws(s@[k]),
        decreases len - a,
    {
        a += 1;
    }
    let mut b: usize = len;
    while b > a && is_ws_char(s.get_char(b - 1))
        invariant
            len == s@.len(),
            a <= b <= len,
            forall|k: int| b <= k < len ==> is_ws(s@[k]),
        decreases b,
    {
        b -= 1;
    }
    proof {
        lemma_trim_subrange(s@, a as int, b as int);
    }
    s.substring_char(a, b)
}

/// A delimiter line starts at `i`: three hyphens bounded by the text's ends
/// or newlines.
pub open spec fn is_delim_at(s: Seq<char>, i: int) -> bool {
    &&& 0 <= i
    &&& i + 3 <= s.len()
    &&& s[i] == '-'
    &&& s[i + 1] == '-'
    &&& s[i + 2] == '-'
    &&& (i == 0 || s[i - 1] == '\n')
    &&& (i + 3 == s.len() || s[i + 3] == '\n')
}

/// The first delimiter line at or after position `i`, if any.
pub open spec fn find_delim_from(s: Seq<char>, i: int) -> Option<int>
    decreases s.len() - i,
{
    if i < 0 || i + 3 > s.len() {
        None
    } else if is_delim_at(s, i) {
        Some(i)
    } else {
        find_delim_from(s, i + 1)
    }
}

/// What `find_delim_from` returns: the least delimiter position at or
/// after `i`, or nothing when no such position exists.
pub proof fn lemma_find_delim_props(s: Seq<char>, i: int)
    requires
        0 <= i,
    ensures
        find_delim_from(s, i) matches Some(p) ==> i <= p && is_delim_at(s, p) && forall|j: int|
            i <= j < p ==> !is_delim_at(s, j),
        find_delim_from(s, i) is None ==> forall|j: int| j >= i ==> !is_delim_at(s, j),
    decreases s.len() - i,
{
    if i + 3 > s.len() {
        assert forall|j: int| j >= i implies !is_delim_at(s, j) by {
            assert(j + 3 > s.len());
        }
    } else if is_delim_at(s, i) {
    } else {
        lemma_find_delim_props(s, i + 1);
    }
}

/// Two delimiter lines cannot overlap: a later one starts at least four
/// characters after an earlier one.
pub proof fn lemma_delims_apart(s: Seq<char>, p1: int, p2: int)
    requires
        is_delim_at(s, p1),
        is_delim_at(s, p2),
        p1 < p2,
    ensures
        p2 >= p1 + 4,
{
    if p2 <= p1 + 3 {
        assert(s[p2 - 1] == '\n');
        assert(s[p2 - 1] == '-');
    }
}

/// Splits text into a trimmed header and a trimmed body.
///
/// No delimiter line: the header is empty and the whole text is the body.
/// Exactly two delimiter lines: the header lies between them and the body
/// after the second; text before the first delimiter is discarded. Any
/// other count: no result (a format error).
pub open spec fn split_spec(s: Seq<char>) -> Option<(Seq<char>, Seq<char>)> {
    match find_delim_from(s, 0) {
        None => Some((Seq::empty(), trim_spec(s))),
        Some(p1) => match find_delim_from(s, p1 + 1) {
            None => None,
            Some(p2) => match find_delim_from(s, p2 + 1) {
                Some(_) => None,
                None => Some(
                    (
                        trim_spec(s.subrange(p1 + 3, p2)),
                        trim_spec(s.subrange(p2 + 3, s.len() as int)),
                    ),
                ),
            },
        },
    }
}

proof fn lemma_trim_start_len(s: Seq<char>)
    ensures
        trim_start_spec(s).len() <= s.len(),
    decreases s.len(),
{
    if s.len() > 0 && is_ws(s[0]) {
        lemma_trim_start_len(s.drop_first());
    }
}

proof fn lemma_trim_end_len(s: Seq<char>)
    ensures
        trim_end_spec(s).len() <= s.len(),
    decreases s.len(),
{
    if s.len() > 0 && is_ws(s.last()) {
        lemma_trim_end_len(s.drop_last());
    }
}

/// A non-empty text that equals its own trim has no whitespace at either
/// edge.
pub proof fn lemma_trimmed_edges(s: Seq<char>)
    requires
        trim_spec(s) == s,
        s.len() > 0,
    ensures
        !is_ws(s[0]),
        !is_ws(s[s.len() - 1]),
{
    if is_ws(s[0]) {
        lemma_trim_start_len(s.drop_first());
        lemma_trim_end_len(trim_start_spec(s));
        assert(trim_spec(s).len() < s.len());
    } else {
        if is_ws(s[s.len() - 1]) {
            assert(trim_start_spec(s) == s);
            lemma_trim_end_len(s.drop_last());
            assert(trim_spec(s).len() < s.len());
        }
    }
}

/// `find_delim_from` finds a delimiter position that nothing earlier
/// shadows.
pub proof fn lemma_find_delim_finds(s: Seq<char>, i: int, p: int)
    requires
        0 <= i <= p,
        is_delim_at(s, p),
        forall|j: int| i <= j < p ==> !is_delim_at(s, j),
    ensures
        find_delim_from(s, i) == Some(p),
    decreases p - i,
{
    if i < p {
        lemma_find_delim_finds(s, i + 1, p);
    }
}

/// `find_delim_from` finds nothing where no delimiter stands.
pub proof fn lemma_find_delim_none(s: Seq<char>, i: int)
    requires
        0 <= i,
        forall|j: int| j >= i ==> !is_delim_at(s, j),
    ensures
        find_delim_from(s, i) is None,
    decreases s.len() - i,
{
    if i + 3 <= s.len() {
        lemma_find_delim_none(s, i + 1);
    }
}

fn delim_at(s: &str, len: usize, i: usize) -> (r: bool)
    requires
        len == s@.len(),
        i + 3 <= len,
    ensures
        r == is_delim_at(s@, i as int),
{
    s.get_char(i) == '-' && s.get_char(i + 1) == '-' && s.get_char(i + 2) == '-' && (i == 0
        || s.get_char(i - 1) == '\n') && (i + 3 == len || s.get_char(i + 3) == '\n')
}

fn find_delim(s: &str, len: usize, i: usize) -> (r: Option<usize>)
    requires
        len == s@.len(),
        i <= len,
    ensures
        match r {
            Some(p) => find_delim_from(s@, i as int) == Some(p as int),
            None => find_delim_from(s@, i as int) is None,
        },
    decreases len - i,
{
    if len < 3 || i > len - 3 {
        None
    } else if delim_at(s, len, i) {
        Some(i)
    } else {
        find_delim(s, len, i + 1)
    }
}

/// Splitting recovers a document rejoined from its parts: for any trimmed
/// header and body free of delimiter lines, the text made of a delimiter
/// line, the header, a delimiter line and the body splits back into
/// exactly that header and body.
pub proof fn lemma_split_round_trip(h: Seq<char>, b: Seq<char>)
    requires
        trim_spec(h) == h,
        trim_spec(b) == b,
        forall|j: int| !is_delim_at(h, j),
        forall|j: int| !is_delim_at(b, j),
    ensures
        split_spec(seq!['-', '-', '-', '\n'] + h + seq!['\n', '-', '-', '-', '\n'] + b) == Some(
            (h, b),
        ),
{
    let s = seq!['-', '-', '-', '\n'] + h + seq!['\n', '-', '-', '-', '\n'] + b;
    let hl = h.len() as int;
    let bl = b.len() as int;
    let p2 = hl + 5;
    assert(s.len() == hl + bl + 9);
    assert(s[0] == '-' && s[1] == '-' && s[2] == '-' && s[3] == '\n');
    assert(forall|k: int| 0 <= k < hl ==> s[4 + k] == h[k]);
    assert(s[4 + hl] == '\n' && s[5 + hl] == '-' && s[6 + hl] == '-' && s[7 + hl] == '-' && s[8
        + hl] == '\n');
    assert(forall|k: int| 0 <= k < bl ==> s[9 + hl + k] == b[k]);
    assert(is_delim_at(s, 0));
    assert(is_delim_at(s, p2));
    assert forall|j: int| j != 0 && j != p2 implies !is_delim_at(s, j) by {
        if is_delim_at(s, j) && j != 0 && j != p2 {
            if 1 <= j <= 3 {
                assert(s[3] == '\n');
                assert(false);
            } else if 4 <= j && j + 3 <= 4 + hl {
                assert(h[j - 4] == '-' && h[j - 3] == '-' && h[j - 2] == '-');
                assert(j - 4 == 0 || h[j - 5] == '\n');
                assert(j - 4 + 3 == hl || h[j - 1] == '\n');
                assert(is_delim_at(h, j - 4));
                assert(false);
            } else if 4 <= j <= 4 + hl {
                assert(j <= 4 + hl < j + 3);
                assert(s[4 + hl] == '\n');
                assert(false);
            } else if 6 + hl <= j <= 8 + hl {
                assert(s[8 + hl] == '\n');
                assert(false);
            } else {
                assert(j >= 9 + hl);
                assert(b[j - 9 - hl] == '-' && b[j - 8 - hl] == '-' && b[j - 7 - hl] == '-');
                assert(j - 9 - hl == 0 || b[j - 10 - hl] == '\n');
                assert(j - 9 - hl + 3 == bl || b[j - 6 - hl] == '\n');
                assert(is_delim_at(b, j - 9 - hl));
                assert(false);
            }
        }
    }
    assert(find_delim_from(s, 0) == Some(0int));
    lemma_find_delim_finds(s, 1, p2);
    lemma_find_delim_none(s, p2 + 1);
    let th = s.subrange(3, p2);
    assert(th =~= seq!['\n'] + h + seq!['\n']);
    if hl > 0 {
        lemma_trimmed_edges(h);
        lemma_trim_subrange(th, 1, 1 + hl);
        assert(th.subrange(1, 1 + hl) =~= h);
    } else {
        lemma_trim_subrange(th, 2, 2);
        assert(th.subrange(2, 2) =~= h);
    }
    let tb = s.subrange(p2 + 3, s.len() as int);
    assert(tb =~= seq!['\n'] + b);
    if bl > 0 {
        lemma_trimmed_edges(b);
        lemma_trim_subrange(tb, 1, 1 + bl);
        assert(tb.subrange(1, 1 + bl) =~= b);
    } else {
        lemma_trim_subrange(tb, 1, 1);
        assert(tb.subrange(1, 1) =~= b);
    }
}

/// Partitions file text into a trimmed header and a trimmed body, following
/// `split_spec`; `None` is a format error.
pub fn split_frontmatter(s: &str) -> (r: Option<(String, String)>)
    ensures
        r is Some <==> split_spec(s@) is Some,
        r matches Some(p) ==> split_spec(s@) == Some((p.0@, p.1@)),
{
    let len = s.unicode_len();
    match find_delim(s, len, 0) {
        None => Some((String::new(), trim(s).to_owned())),
        Some(p1) => {
            proof {
                lemma_find_delim_props(s@, 0);
            }
            match find_delim(s, len, p1 + 1) {
                None => None,
                Some(p2) => {
                    proof {
                        lemma_find_delim_props(s@, p1 + 1);
                        lemma_delims_apart(s@, p1 as int, p2 as int);
                    }
                    match find_delim(s, len, p2 + 1) {
                        Some(_) => None,
                        None => {
                            let header = trim(s.substring_char(p1 + 3, p2)).to_owned();
                            let body = trim(s.substring_char(p2 + 3, len)).to_owned();
                            Some((header, body))
                        },
                    }
                },
            }
        },
    }
}

} // verus!
