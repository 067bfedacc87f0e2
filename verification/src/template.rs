//! Bulk-provisioning template documents.
//!
//! A template document is a YAML list of entries, each with a `permission`
//! field (a pattern, optionally `-`-prefixed to deny) and an integer
//! `priority` field. Because a literal permission value may begin with the
//! wildcard character, which a YAML parser would misread as an alias
//! reference, the raw text is pre-normalized: an unquoted value beginning
//! with `*` on a `- permission:` line is wrapped in double quotes before
//! structural parsing; already-quoted values pass through unchanged.
//! Application walks the entries in document order as independent idempotent
//! upserts: a failed entry is skipped, never halting the rest, and re-running
//! a document after a partial failure is always safe.

use vstd::prelude::*;

use crate::manager::PermissionManager;
use crate::node::{spec_from_string, PermissionNode};
use crate::store::{key_faulted, rows_without_owner, spec_upsert, KeyView, RowView};
use crate::text::{split_chars, split_on_char};

verus! {

/// The template document text could not be parsed, or a parsed entry was
/// invalid: a priority outside the 32-bit range, or a permission that is
/// empty once a leading `-` is stripped.
#[derive(Debug, PartialEq, Eq, Structural, Clone, Copy)]
pub struct ParseError;

/// One template entry: the raw permission text (a leading `-` denotes a
/// denying node) and its priority.
#[derive(Debug)]
pub struct PermissionTemplateItem {
    pub permission: String,
    pub priority: i32,
}

/// The mathematical content of a template entry.
pub ghost struct ItemView {
    pub permission: Seq<char>,
    pub priority: int,
}

impl View for PermissionTemplateItem {
    type V = ItemView;

    open spec fn view(&self) -> ItemView {
        ItemView { permission: self.permission@, priority: self.priority as int }
    }
}

/// A parsed template document: an ordered sequence of entries.
#[derive(Debug)]
pub struct PermissionTemplate {
    pub permissions: Vec<PermissionTemplateItem>,
}

/// Whitespace as trimming removes it at either end of a text.
pub open spec fn spec_is_space(c: char) -> bool {
    c == ' ' || c == '\t' || c == '\r' || c == '\n'
}

/// `s` without leading whitespace.
pub open spec fn spec_trim_start(s: Seq<char>) -> Seq<char>
    decreases s.len(),
{
    if s.len() > 0 && spec_is_space(s[0]) {
        spec_trim_start(s.drop_first())
    } else {
        s
    }
}

/// `s` without trailing whitespace.
pub open spec fn spec_trim_end(s: Seq<char>) -> Seq<char>
    decreases s.len(),
{
    if s.len() > 0 && spec_is_space(s.last()) {
        spec_trim_end(s.drop_last())
    } else {
        s
    }
}

/// `s` without leading or trailing whitespace.
pub open spec fn spec_trim(s: Seq<char>) -> Seq<char> {
    spec_trim_end(spec_trim_start(s))
}

/// Whether `s` begins with `prefix`.
pub open spec fn spec_starts_with(s: Seq<char>, prefix: Seq<char>) -> bool {
    s.len() >= prefix.len() && s.take(prefix.len() as int) == prefix
}

/// The index of the first occurrence of `c` in `s`, or -1 when absent.
pub open spec fn spec_find(s: Seq<char>, c: char) -> int
    decreases s.len(),
{
    if s.len() == 0 {
        -1
    } else if s[0] == c {
        0
    } else {
        let r = spec_find(s.drop_first(), c);
        if r == -1 {
            -1
        } else {
            r + 1
        }
    }
}

/// What `spec_find` finds: -1 means the character is absent; a non-negative
/// result is the first index holding it.
pub proof fn lemma_spec_find(s: Seq<char>, c: char)
    ensures
        spec_find(s, c) == -1 ==> forall|j: int| 0 <= j < s.len() ==> s[j] != c,
        spec_find(s, c) != -1 ==> {
            &&& 0 <= spec_find(s, c) < s.len()
            &&& s[spec_find(s, c)] == c
            &&& forall|j: int| 0 <= j < spec_find(s, c) ==> s[j] != c
        },
    decreases s.len(),
{
    if s.len() > 0 && s[0] != c {
        lemma_spec_find(s.drop_first(), c);
        let t = s.drop_first();
        assert(forall|j: int| 0 <= j < t.len() ==> t[j] == s[j + 1]);
        let r = spec_find(t, c);
        if r == -1 {
            assert forall|j: int| 0 <= j < s.len() implies s[j] != c by {
                if j > 0 {
                    assert(t[j - 1] != c);
                }
            }
        } else {
            assert(s[r + 1] == t[r]);
            assert forall|j: int| 0 <= j < r + 1 implies s[j] != c by {
                if j > 0 {
                    assert(t[j - 1] != c);
                }
            }
        }
    }
}

/// Trimming from the front skips exactly the leading whitespace.
proof fn lemma_trim_start_at(s: Seq<char>, i: int)
    requires
        0 <= i <= s.len(),
        forall|j: int| 0 <= j < i ==> spec_is_space(s[j]),
        i < s.len() ==> !spec_is_space(s[i]),
    ensures
        spec_trim_start(s) == s.skip(i),
    decreases i,
{
    if i == 0 {
        if s.len() > 0 {
            assert(!spec_is_space(s[0]));
        }
        assert(s.skip(0) =~= s);
    } else {
        assert(spec_is_space(s[0]));
        lemma_trim_start_at(s.drop_first(), i - 1);
        assert(s.drop_first().skip(i - 1) =~= s.skip(i));
    }
}

/// Trimming from the back keeps exactly the prefix before the trailing
/// whitespace.
proof fn lemma_trim_end_at(s: Seq<char>, e: int)
    requires
        0 <= e <= s.len(),
        forall|j: int| e <= j < s.len() ==> spec_is_space(s[j]),
        e > 0 ==> !spec_is_space(s[e - 1]),
    ensures
        spec_trim_end(s) == s.take(e),
    decreases s.len() - e,
{
    if e == s.len() {
        if s.len() > 0 {
            assert(!spec_is_space(s.last()));
        }
        assert(s.take(e) =~= s);
    } else {
        assert(spec_is_space(s.last()));
        lemma_trim_end_at(s.drop_last(), e);
        assert(s.drop_last().take(e) =~= s.take(e));
    }
}

/// Trims whitespace from both ends of a character vector.
pub fn trim_chars(s: &Vec<char>) -> (r: Vec<char>)
    ensures
        r@ == spec_trim(s@),
{
    let mut start: usize = 0;
    while start < s.len() && (s[start] == ' ' || s[start] == '\t' || s[start] == '\r' || s[start]
        == '\n')
        invariant
            0 <= start <= s@.len(),
            forall|j: int| 0 <= j < start ==> spec_is_space(s@[j]),
        decreases s@.len() - start,
    {
        start += 1;
    }
    proof {
        lemma_trim_start_at(s@, start as int);
    }
    let mut end: usize = s.len();
    while end > start && (s[end - 1] == ' ' || s[end - 1] == '\t' || s[end - 1] == '\r' || s[end
        - 1] == '\n')
        invariant
            start <= end <= s@.len(),
            forall|j: int| end <= j < s@.len() ==> spec_is_space(s@[j]),
        decreases end,
    {
        end -= 1;
    }
    proof {
        let skipped = s@.skip(start as int);
        assert(forall|j: int|
            end - start <= j < skipped.len() ==> spec_is_space(#[trigger] skipped[j]));
        if end > start {
            assert(skipped[end - start - 1] == s@[end - 1]);
        }
        lemma_trim_end_at(skipped, end - start);
    }
    let mut r: Vec<char> = Vec::new();
    let mut i: usize = start;
    proof {
        assert(r@ =~= s@.subrange(start as int, start as int));
    }
    while i < end
        invariant
            start <= i <= end <= s@.len(),
            r@ == s@.subrange(start as int, i as int),
        decreases end - i,
    {
        r.push(s[i]);
        proof {
            assert(r@ =~= s@.subrange(start as int, i + 1));
        }
        i += 1;
    }
    proof {
        assert(s@.subrange(start as int, end as int) =~= s@.skip(start as int).take(
            end - start as int,
        ));
    }
    r
}

/// Whether the character vector `s` begins with the string `prefix`.
pub fn chars_start_with(s: &Vec<char>, prefix: &str) -> (r: bool)
    ensures
        r == spec_starts_with(s@, prefix@),
{
    let n = prefix.unicode_len();
    if s.len() < n {
        return false;
    }
    let mut i: usize = 0;
    while i < n
        invariant
            0 <= i <= n,
            n == prefix@.len(),
            n <= s@.len(),
            forall|j: int| 0 <= j < i ==> s@[j] == prefix@[j],
        decreases n - i,
    {
        if s[i] != prefix.get_char(i) {
            proof {
                assert(s@.take(n as int)[i as int] != prefix@[i as int]);
            }
            return false;
        }
        i += 1;
    }
    proof {
        assert(s@.take(n as int) =~= prefix@);
    }
    true
}

/// Finds the first occurrence of `c` in `s`.
pub fn find_char(s: &Vec<char>, c: char) -> (r: Option<usize>)
    ensures
        match r {
            Some(i) => i as int == spec_find(s@, c),
            None => spec_find(s@, c) == -1,
        },
{
    proof {
        lemma_spec_find(s@, c);
    }
    let mut i: usize = 0;
    while i < s.len()
        invariant
            0 <= i <= s@.len(),
            forall|j: int| 0 <= j < i ==> s@[j] != c,
        decreases s@.len() - i,
    {
        if s[i] == c {
            proof {
                lemma_spec_find(s@, c);
                assert(spec_find(s@, c) != -1);
            }
            return Some(i);
        }
        i += 1;
    }
    proof {
        lemma_spec_find(s@, c);
        if spec_find(s@, c) != -1 {
            assert(s@[spec_find(s@, c)] == c);
        }
    }
    None
}

/// What the normalizer makes of one line: on a `- permission:` line whose
/// value begins with the wildcard `*` and is unquoted, the value is wrapped
/// in double quotes; every other line passes through unchanged.
pub open spec fn spec_normalize_line(line: Seq<char>) -> Seq<char> {
    if spec_starts_with(spec_trim(line), "- permission:"@) {
        let ci = spec_find(line, ':');
        if ci >= 0 {
            let value = spec_trim(line.skip(ci + 1));
            if value.len() > 0 && value[0] == '*' {
                line.take(ci + 1) + " \""@ + value + "\""@
            } else {
                line
            }
        } else {
            line
        }
    } else {
        line
    }
}

/// Normalizes one line as [`spec_normalize_line`] says.
pub fn normalize_line(line: &Vec<char>) -> (r: Vec<char>)
    ensures
        r@ == spec_normalize_line(line@),
{
    let trimmed = trim_chars(line);
    if !chars_start_with(&trimmed, "- permission:") {
        return line.clone();
    }
    let ci = match find_char(line, ':') {
        Some(ci) => ci,
        None => {
            return line.clone();
        },
    };
    let line_len = line.len();
    proof {
        lemma_spec_find(line@, ':');
        assert(ci < line_len);
    }
    let mut tail: Vec<char> = Vec::new();
    let mut i: usize = ci + 1;
    proof {
        assert(tail@ =~= line@.subrange(ci + 1, ci + 1));
    }
    while i < line.len()
        invariant
            ci + 1 <= i <= line@.len(),
            tail@ == line@.subrange(ci + 1, i as int),
        decreases line@.len() - i,
    {
        tail.push(line[i]);
        proof {
            assert(tail@ =~= line@.subrange(ci + 1, i + 1));
        }
        i += 1;
    }
    proof {
        assert(line@.subrange(ci + 1, line@.len() as int) =~= line@.skip(ci + 1));
    }
    let value = trim_chars(&tail);
    if !(value.len() > 0 && value[0] == '*') {
        return line.clone();
    }
    let mut out: Vec<char> = Vec::new();
    let mut j: usize = 0;
    proof {
        assert(out@ =~= line@.subrange(0, 0));
    }
    while j <= ci
        invariant
            0 <= j <= ci + 1,
            ci < line@.len(),
            line@.len() == line_len,
            out@ == line@.subrange(0, j as int),
        decreases ci + 1 - j,
    {
        out.push(line[j]);
        proof {
            assert(out@ =~= line@.subrange(0, j + 1));
        }
        j += 1;
    }
    out.push(' ');
    out.push('"');
    let mut k: usize = 0;
    let ghost mid = out@;
    while k < value.len()
        invariant
            0 <= k <= value@.len(),
            out@ == mid + value@.take(k as int),
        decreases value@.len() - k,
    {
        out.push(value[k]);
        proof {
            assert(out@ =~= mid + value@.take(k + 1));
        }
        k += 1;
    }
    out.push('"');
    proof {
        reveal_strlit(" \"");
        reveal_strlit("\"");
        assert(line@.subrange(0, ci + 1) =~= line@.take(ci + 1));
        assert(value@.take(value@.len() as int) =~= value@);
        assert(out@ =~= line@.take(ci + 1) + " \""@ + value@ + "\""@);
    }
    out
}

/// The lines joined with the separator `sep` between them.
pub open spec fn spec_join(lines: Seq<Seq<char>>, sep: char) -> Seq<char>
    decreases lines.len(),
{
    if lines.len() == 0 {
        Seq::empty()
    } else if lines.len() == 1 {
        lines[0]
    } else {
        spec_join(lines.drop_last(), sep) + seq![sep] + lines.last()
    }
}

/// The whole document text after normalization: every line normalized, the
/// line structure kept.
pub open spec fn spec_normalize_text(text: Seq<char>) -> Seq<char> {
    spec_join(split_chars(text, '\n').map_values(|l: Seq<char>| spec_normalize_line(l)), '\n')
}

/// Pre-normalizes a raw template document: any unquoted leading-`*` value on
/// a `- permission:` line is quoted so that structural parsing cannot misread
/// it as an alias reference; already-quoted values pass through unchanged.
pub fn normalize_template_text(text: &str) -> (r: String)
    ensures
        r@ == spec_normalize_text(text@),
{
    let lines = split_on_char(text, '\n');
    let ghost normalized = split_chars(text@, '\n').map_values(
        |l: Seq<char>| spec_normalize_line(l),
    );
    let mut out: Vec<char> = Vec::new();
    let mut i: usize = 0;
    proof {
        assert(normalized.take(0) =~= Seq::<Seq<char>>::empty());
    }
    while i < lines.len()
        invariant
            0 <= i <= lines@.len(),
            lines@.map_values(|seg: Vec<char>| seg@) == split_chars(text@, '\n'),
            normalized == split_chars(text@, '\n').map_values(
                |l: Seq<char>| spec_normalize_line(l),
            ),
            normalized.len() == lines@.len(),
            out@ == spec_join(normalized.take(i as int), '\n'),
        decreases lines@.len() - i,
    {
        proof {
            assert(normalized.take(i + 1).drop_last() =~= normalized.take(i as int));
            assert(normalized.take(i + 1).last() == normalized[i as int]);
            assert(normalized[i as int] == spec_normalize_line(lines@[i as int]@));
        }
        if i > 0 {
            out.push('\n');
        }
        let ghost mid = out@;
        let line = normalize_line(&lines[i]);
        let mut k: usize = 0;
        while k < line.len()
            invariant
                0 <= k <= line@.len(),
                out@ == mid + line@.take(k as int),
            decreases line@.len() - k,
        {
            out.push(line[k]);
            proof {
                assert(out@ =~= mid + line@.take(k + 1));
            }
            k += 1;
        }
        proof {
            assert(line@.take(line@.len() as int) =~= line@);
            if i == 0 {
                assert(out@ =~= spec_join(normalized.take(1), '\n'));
            } else {
                assert(out@ =~= spec_join(normalized.take(i as int), '\n') + seq!['\n']
                    + normalized[i as int]);
                assert(out@ =~= spec_join(normalized.take(i + 1), '\n'));
            }
        }
        i += 1;
    }
    proof {
        assert(normalized.take(lines@.len() as int) =~= normalized);
    }
    crate::text::chars_to_string(&out)
}

/// The first occurrence of `c` is at `i` when `c` stands there and nowhere
/// earlier.
pub proof fn lemma_spec_find_at(s: Seq<char>, c: char, i: int)
    requires
        0 <= i < s.len(),
        s[i] == c,
        forall|j: int| 0 <= j < i ==> s[j] != c,
    ensures
        spec_find(s, c) == i,
    decreases i,
{
    if i > 0 {
        let t = s.drop_first();
        assert(forall|j: int| 0 <= j < t.len() ==> t[j] == s[j + 1]);
        lemma_spec_find_at(t, c, i - 1);
        assert(s[0] != c);
    }
}

/// Joining separator-free lines and splitting again gives the lines back.
pub proof fn lemma_split_join(lines: Seq<Seq<char>>, sep: char)
    requires
        lines.len() >= 1,
        forall|k: int, j: int|
            0 <= k < lines.len() && 0 <= j < lines[k].len() ==> lines[k][j] != sep,
    ensures
        split_chars(spec_join(lines, sep), sep) == lines,
    decreases lines.len(),
{
    if lines.len() == 1 {
        crate::text::lemma_split_of_sep_free(lines[0], sep);
        assert(split_chars(spec_join(lines, sep), sep) =~~= lines);
    } else {
        lemma_split_join(lines.drop_last(), sep);
        assert(forall|k: int| 0 <= k < lines.len() - 1 ==> lines.drop_last()[k] == lines[k]);
        crate::text::lemma_split_append_seg(spec_join(lines.drop_last(), sep), lines.last(), sep);
        assert(split_chars(spec_join(lines, sep), sep) =~~= lines.drop_last().push(lines.last()));
        assert(lines.drop_last().push(lines.last()) =~~= lines);
    }
}

/// Law: line normalization is idempotent. A line the normalizer rewrote
/// carries a quoted value, which the pass-through branch keeps; every other
/// line passes through twice unchanged.
pub proof fn lemma_normalize_line_idempotent(line: Seq<char>)
    ensures
        spec_normalize_line(spec_normalize_line(line)) == spec_normalize_line(line),
{
    reveal_strlit(" \"");
    reveal_strlit("\"");
    let out = spec_normalize_line(line);
    if out != line {
        let ci = spec_find(line, ':');
        lemma_spec_find(line, ':');
        let value = spec_trim(line.skip(ci + 1));
        assert(out == line.take(ci + 1) + " \""@ + value + "\""@);
        assert(out[ci] == ':');
        assert forall|j: int| 0 <= j < ci implies out[j] != ':' by {
            assert(out[j] == line[j]);
        }
        lemma_spec_find_at(out, ':', ci);
        let tail = out.skip(ci + 1);
        assert(tail =~= " \""@ + value + "\""@);
        assert(tail[0] == ' ');
        assert(spec_trim_start(tail) == spec_trim_start(tail.drop_first()));
        assert(tail.drop_first()[0] == '"');
        assert(spec_trim_start(tail.drop_first()) == tail.drop_first());
        assert(tail.drop_first().last() == '"');
        assert(spec_trim_end(tail.drop_first()) == tail.drop_first());
        let value2 = spec_trim(out.skip(ci + 1));
        assert(value2 == tail.drop_first());
        assert(value2[0] == '"');
        assert(value2[0] != '*');
        assert(spec_normalize_line(out) == out);
    }
}

/// A line without newlines normalizes to a line without newlines.
proof fn lemma_normalize_line_nl_free(line: Seq<char>)
    requires
        forall|j: int| 0 <= j < line.len() ==> line[j] != '\n',
    ensures
        forall|j: int|
            0 <= j < spec_normalize_line(line).len() ==> spec_normalize_line(line)[j] != '\n',
{
    reveal_strlit(" \"");
    reveal_strlit("\"");
    let out = spec_normalize_line(line);
    if out != line {
        let ci = spec_find(line, ':');
        lemma_spec_find(line, ':');
        let value = spec_trim(line.skip(ci + 1));
        lemma_trim_subrange(line.skip(ci + 1));
        assert forall|j: int| 0 <= j < out.len() implies out[j] != '\n' by {
            if j <= ci {
                assert(out[j] == line[j]);
            } else if j <= ci + 2 {
            } else if j < ci + 3 + value.len() {
                assert(out[j] == value[j - ci - 3]);
            } else {
                assert(out[j] == '"');
            }
        }
    }
}

/// Every character of a trimmed text is a character of the text.
proof fn lemma_trim_subrange(s: Seq<char>)
    ensures
        forall|j: int|
            0 <= j < spec_trim(s).len() ==> exists|k: int|
                0 <= k < s.len() && s[k] == #[trigger] spec_trim(s)[j],
{
    lemma_trim_start_subrange(s);
    lemma_trim_end_subrange(spec_trim_start(s));
    assert forall|j: int| 0 <= j < spec_trim(s).len() implies exists|k: int|
        0 <= k < s.len() && s[k] == #[trigger] spec_trim(s)[j] by {
        let m = choose|m: int|
            0 <= m < spec_trim_start(s).len() && spec_trim_start(s)[m] == #[trigger] spec_trim(
                s,
            )[j];
        let k = choose|k: int| 0 <= k < s.len() && s[k] == spec_trim_start(s)[m];
        assert(0 <= k < s.len() && s[k] == spec_trim(s)[j]);
    }
}

/// Every character of a front-trimmed text is a character of the text.
proof fn lemma_trim_start_subrange(s: Seq<char>)
    ensures
        forall|j: int|
            0 <= j < spec_trim_start(s).len() ==> exists|k: int|
                0 <= k < s.len() && s[k] == #[trigger] spec_trim_start(s)[j],
    decreases s.len(),
{
    if s.len() > 0 && spec_is_space(s[0]) {
        let t = s.drop_first();
        lemma_trim_start_subrange(t);
        assert(spec_trim_start(s) == spec_trim_start(t));
        assert forall|j: int| 0 <= j < spec_trim_start(s).len() implies exists|k: int|
            0 <= k < s.len() && s[k] == #[trigger] spec_trim_start(s)[j] by {
            assert(spec_trim_start(t)[j] == spec_trim_start(s)[j]);
            let k = choose|k: int|
                0 <= k < t.len() && t[k] == #[trigger] spec_trim_start(t)[j];
            assert(s[k + 1] == t[k]);
            assert(0 <= k + 1 < s.len() && s[k + 1] == spec_trim_start(s)[j]);
        }
    }
}

/// Every character of a back-trimmed text is a character of the text.
proof fn lemma_trim_end_subrange(s: Seq<char>)
    ensures
        forall|j: int|
            0 <= j < spec_trim_end(s).len() ==> exists|k: int|
                0 <= k < s.len() && s[k] == #[trigger] spec_trim_end(s)[j],
    decreases s.len(),
{
    if s.len() > 0 && spec_is_space(s.last()) {
        let t = s.drop_last();
        lemma_trim_end_subrange(t);
        assert(spec_trim_end(s) == spec_trim_end(t));
        assert forall|j: int| 0 <= j < spec_trim_end(s).len() implies exists|k: int|
            0 <= k < s.len() && s[k] == #[trigger] spec_trim_end(s)[j] by {
            assert(spec_trim_end(t)[j] == spec_trim_end(s)[j]);
            let k = choose|k: int| 0 <= k < t.len() && t[k] == #[trigger] spec_trim_end(t)[j];
            assert(s[k] == t[k]);
            assert(0 <= k < s.len() && s[k] == spec_trim_end(s)[j]);
        }
    }
}

/// Law: normalization of the whole document is idempotent — a normalized
/// document passes through normalization unchanged, since every value the
/// first pass quoted stays quoted.
pub proof fn lemma_normalize_text_idempotent(text: Seq<char>)
    ensures
        spec_normalize_text(spec_normalize_text(text)) == spec_normalize_text(text),
{
    let lines = split_chars(text, '\n');
    let normalized = lines.map_values(|l: Seq<char>| spec_normalize_line(l));
    crate::text::lemma_split_nonempty(text, '\n');
    crate::text::lemma_split_sep_free(text, '\n');
    assert forall|k: int, j: int|
        0 <= k < normalized.len() && 0 <= j < normalized[k].len() implies normalized[k][j]
        != '\n' by {
        assert(normalized[k] == spec_normalize_line(lines[k]));
        lemma_normalize_line_nl_free(lines[k]);
    }
    lemma_split_join(normalized, '\n');
    assert(split_chars(spec_normalize_text(text), '\n') == normalized);
    let twice = normalized.map_values(|l: Seq<char>| spec_normalize_line(l));
    assert forall|k: int| 0 <= k < twice.len() implies twice[k] == normalized[k] by {
        assert(normalized[k] == spec_normalize_line(lines[k]));
        lemma_normalize_line_idempotent(lines[k]);
    }
    assert(twice =~~= normalized);
}

/// What a template document text parses to: the `permission` and `priority`
/// fields of the entries of its `permissions` list, in document order, or
/// nothing where structural parsing fails.
pub uninterp spec fn yaml_template_entries(text: Seq<char>) -> Option<Seq<(Seq<char>, int)>>;

/// Relies on `serde_yaml::from_str` and `serde_yaml::Value`'s accessors
/// (`get`, `as_sequence`, `as_str`, `as_i64`): what a given document text
/// parses to is a function of the text alone, named by
/// [`yaml_template_entries`].
#[verifier::external_body]
fn parse_template_entries(text: &str) -> (r: Option<Vec<(String, i64)>>)
    ensures
        r is Some <==> yaml_template_entries(text@) is Some,
        r matches Some(v) ==> v@.map_values(|e: (String, i64)| (e.0@, e.1 as int))
            == yaml_template_entries(text@).unwrap(),
{
    let root: serde_yaml::Value = serde_yaml::from_str(text).ok()?;
    let items = root.get("permissions")?.as_sequence()?;
    let mut out: Vec<(String, i64)> = Vec::new();
    for item in items {
        let permission = item.get("permission")?.as_str()?.to_string();
        let priority = item.get("priority")?.as_i64()?;
        out.push((permission, priority));
    }
    Some(out)
}

/// Whether every parsed entry is valid: the priority fits in 32 bits and the
/// permission, once a leading `-` is stripped, is a non-empty pattern.
pub open spec fn entries_valid(es: Seq<(Seq<char>, int)>) -> bool {
    forall|k: int|
        0 <= k < es.len() ==> {
            &&& i32::MIN <= (#[trigger] es[k]).1 <= i32::MAX
            &&& spec_from_string(es[k].0, es[k].1).pattern.len() > 0
        }
}

/// The template entries a sequence of parsed entries yields.
pub open spec fn items_of(es: Seq<(Seq<char>, int)>) -> Seq<ItemView> {
    es.map_values(|e: (Seq<char>, int)| ItemView { permission: e.0, priority: e.1 })
}

impl PermissionTemplate {
    /// The entries of the template.
    pub open spec fn items(self) -> Seq<ItemView> {
        self.permissions@.map_values(|it: PermissionTemplateItem| it@)
    }

    /// Well-formedness: every entry's effective pattern is non-empty.
    pub open spec fn wf(self) -> bool {
        forall|k: int|
            0 <= k < self.items().len() ==> spec_from_string(
                (#[trigger] self.items()[k]).permission,
                self.items()[k].priority,
            ).pattern.len() > 0
    }

    /// Builds a template from parsed entries, rejecting any entry whose
    /// priority does not fit in 32 bits or whose permission is empty once a
    /// leading `-` is stripped.
    pub fn from_entries(entries: &Vec<(String, i64)>) -> (r: Result<PermissionTemplate, ParseError>)
        ensures
            r is Ok <==> entries_valid(
                entries@.map_values(|e: (String, i64)| (e.0@, e.1 as int)),
            ),
            r matches Ok(t) ==> t.items() == items_of(
                entries@.map_values(|e: (String, i64)| (e.0@, e.1 as int)),
            ) && t.wf(),
    {
        let ghost es = entries@.map_values(|e: (String, i64)| (e.0@, e.1 as int));
        let mut permissions: Vec<PermissionTemplateItem> = Vec::new();
        let mut i: usize = 0;
        while i < entries.len()
            invariant
                0 <= i <= entries@.len(),
                es == entries@.map_values(|e: (String, i64)| (e.0@, e.1 as int)),
                es.len() == entries@.len(),
                forall|k: int|
                    0 <= k < entries@.len() ==> (#[trigger] es[k]) == (
                    entries@[k].0@,
                    entries@[k].1 as int,
                ),
                forall|k: int|
                    0 <= k < i ==> {
                        &&& i32::MIN <= (#[trigger] es[k]).1 <= i32::MAX
                        &&& spec_from_string(es[k].0, es[k].1).pattern.len() > 0
                    },
                permissions@.map_values(|it: PermissionTemplateItem| it@) =~= items_of(
                    es.take(i as int),
                ),
            decreases entries@.len() - i,
        {
            let priority64 = entries[i].1;
            if priority64 < i32::MIN as i64 || priority64 > i32::MAX as i64 {
                proof {
                    assert(es[i as int].1 == priority64 as int);
                    assert(!(i32::MIN <= es[i as int].1 <= i32::MAX));
                }
                return Err(ParseError);
            }
            let priority = priority64 as i32;
            let node = PermissionNode::from_string(entries[i].0.as_str(), priority);
            if node.permission.unicode_len() == 0 {
                proof {
                    assert(priority as int == priority64 as int);
                    assert(node@ == spec_from_string(es[i as int].0, es[i as int].1));
                    assert(node@.pattern.len() == 0);
                }
                return Err(ParseError);
            }
            let ghost prev_items = permissions@.map_values(|it: PermissionTemplateItem| it@);
            permissions.push(
                PermissionTemplateItem { permission: entries[i].0.clone(), priority },
            );
            proof {
                assert(es.take(i + 1).drop_last() =~= es.take(i as int));
                assert(priority as int == es[i as int].1);
                assert(permissions@.map_values(|it: PermissionTemplateItem| it@) =~= prev_items.push(
                    permissions@.last()@,
                ));
                assert(items_of(es.take(i + 1)) =~= items_of(es.take(i as int)).push(
                    ItemView { permission: es[i as int].0, priority: es[i as int].1 },
                ));
                assert(permissions@.last()@ == (ItemView {
                    permission: es[i as int].0,
                    priority: es[i as int].1,
                }));
                assert(permissions@.map_values(|it: PermissionTemplateItem| it@) =~= items_of(
                    es.take(i + 1),
                ));
            }
            i += 1;
        }
        proof {
            assert(es.take(entries@.len() as int) =~= es);
        }
        Ok(PermissionTemplate { permissions })
    }

    /// Parses a template document from raw text: the text is pre-normalized
    /// as [`normalize_template_text`] says, structurally parsed, and each
    /// entry validated. Fails exactly when structural parsing fails or some
    /// entry is invalid; parsing completes fully before any write begins,
    /// since application is a separate call on the parsed value.
    pub fn from_yaml_str(yaml_content: &str) -> (r: Result<PermissionTemplate, ParseError>)
        ensures
            r is Ok <==> (yaml_template_entries(spec_normalize_text(yaml_content@)) is Some
                && entries_valid(yaml_template_entries(spec_normalize_text(yaml_content@)).unwrap())),
            r matches Ok(t) ==> t.items() == items_of(
                yaml_template_entries(spec_normalize_text(yaml_content@)).unwrap(),
            ) && t.wf(),
    {
        let normalized = normalize_template_text(yaml_content);
        match parse_template_entries(normalized.as_str()) {
            Option::None => Err(ParseError),
            Option::Some(entries) => PermissionTemplate::from_entries(&entries),
        }
    }
}

/// The owner's rows after applying `items` in document order: each entry
/// becomes a node by [`spec_from_string`]; a non-faulted key is upserted, a
/// faulted key is skipped and the rest still applied.
pub open spec fn spec_apply_fold(
    rows: Seq<RowView>,
    faults: Seq<KeyView>,
    owner: Seq<char>,
    items: Seq<ItemView>,
) -> Seq<RowView>
    decreases items.len(),
{
    if items.len() == 0 {
        rows
    } else {
        let prev = spec_apply_fold(rows, faults, owner, items.drop_last());
        let node = spec_from_string(items.last().permission, items.last().priority);
        if key_faulted(faults, owner, node.pattern) {
            prev
        } else {
            spec_upsert(prev, owner, node)
        }
    }
}

/// How many of the entries' writes succeed for `owner`: those whose key is
/// not faulted.
pub open spec fn spec_applied_count(
    faults: Seq<KeyView>,
    owner: Seq<char>,
    items: Seq<ItemView>,
) -> int
    decreases items.len(),
{
    if items.len() == 0 {
        0int
    } else {
        spec_applied_count(faults, owner, items.drop_last()) + if key_faulted(
            faults,
            owner,
            spec_from_string(items.last().permission, items.last().priority).pattern,
        ) {
            0int
        } else {
            1int
        }
    }
}

/// Whether every entry's write succeeds for `owner`.
pub open spec fn spec_apply_ok(faults: Seq<KeyView>, owner: Seq<char>, items: Seq<ItemView>) -> bool {
    forall|k: int|
        0 <= k < items.len() ==> !key_faulted(
            faults,
            owner,
            spec_from_string((#[trigger] items[k]).permission, items[k].priority).pattern,
        )
}

/// The applied count reaches the entry count exactly when every write
/// succeeds, and never exceeds it.
pub proof fn lemma_applied_count_full(faults: Seq<KeyView>, owner: Seq<char>, items: Seq<ItemView>)
    ensures
        0 <= spec_applied_count(faults, owner, items) <= items.len(),
        spec_applied_count(faults, owner, items) == items.len() <==> spec_apply_ok(
            faults,
            owner,
            items,
        ),
    decreases items.len(),
{
    if items.len() > 0 {
        lemma_applied_count_full(faults, owner, items.drop_last());
        assert(forall|k: int| 0 <= k < items.len() - 1 ==> items.drop_last()[k] == items[k]);
        if spec_applied_count(faults, owner, items) == items.len() {
            assert(spec_apply_ok(faults, owner, items.drop_last()));
            assert forall|k: int| 0 <= k < items.len() implies !key_faulted(
                faults,
                owner,
                spec_from_string((#[trigger] items[k]).permission, items[k].priority).pattern,
            ) by {
                if k < items.len() - 1 {
                    assert(items.drop_last()[k] == items[k]);
                }
            }
        }
        if spec_apply_ok(faults, owner, items) {
            assert(spec_apply_ok(faults, owner, items.drop_last()));
        }
    }
}

/// The store's principal rows after fanning the document across
/// `principals`, in order.
pub open spec fn spec_fanout_fold(
    rows: Seq<RowView>,
    faults: Seq<KeyView>,
    principals: Seq<Seq<char>>,
    items: Seq<ItemView>,
) -> Seq<RowView>
    decreases principals.len(),
{
    if principals.len() == 0 {
        rows
    } else {
        spec_apply_fold(
            spec_fanout_fold(rows, faults, principals.drop_last(), items),
            faults,
            principals.last(),
            items,
        )
    }
}

/// How many principals of the fan-out take the whole document: those for
/// which every entry's write succeeds.
pub open spec fn spec_fanout_ok_count(
    faults: Seq<KeyView>,
    principals: Seq<Seq<char>>,
    items: Seq<ItemView>,
) -> int
    decreases principals.len(),
{
    if principals.len() == 0 {
        0int
    } else {
        spec_fanout_ok_count(faults, principals.drop_last(), items) + if spec_apply_ok(
            faults,
            principals.last(),
            items,
        ) {
            1int
        } else {
            0int
        }
    }
}

impl PermissionTemplate {
    /// Applies the document to `role`: every entry in document order, each an
    /// independent idempotent upsert of a role-owned node. A failed entry is
    /// skipped and the rest still applied; the count of successful entries is
    /// returned. Re-running the document is always safe.
    pub fn apply_to_role(&self, manager: &mut PermissionManager, role: &str) -> (applied: usize)
        requires
            old(manager).wf(),
            self.wf(),
        ensures
            final(manager).wf(),
            final(manager).directory == old(manager).directory,
            final(manager).store.principals() == old(manager).store.principals(),
            final(manager).store.role_faults() == old(manager).store.role_faults(),
            final(manager).store.principal_faults() == old(manager).store.principal_faults(),
            final(manager).store.roles() == spec_apply_fold(
                old(manager).store.roles(),
                old(manager).store.role_faults(),
                role@,
                self.items(),
            ),
            applied as int == spec_applied_count(
                old(manager).store.role_faults(),
                role@,
                self.items(),
            ),
    {
        let ghost items = self.items();
        proof {
            assert(items.take(0) =~= Seq::<ItemView>::empty());
        }
        let mut applied: usize = 0;
        let mut i: usize = 0;
        while i < self.permissions.len()
            invariant
                0 <= i <= self.permissions@.len(),
                items == self.items(),
                items.len() == self.permissions@.len(),
                self.wf(),
                manager.wf(),
                manager.directory == old(manager).directory,
                manager.store.principals() == old(manager).store.principals(),
                manager.store.role_faults() == old(manager).store.role_faults(),
                manager.store.principal_faults() == old(manager).store.principal_faults(),
                manager.store.roles() == spec_apply_fold(
                    old(manager).store.roles(),
                    old(manager).store.role_faults(),
                    role@,
                    items.take(i as int),
                ),
                applied <= i,
                applied as int == spec_applied_count(
                    old(manager).store.role_faults(),
                    role@,
                    items.take(i as int),
                ),
            decreases self.permissions@.len() - i,
        {
            proof {
                assert(items.take(i + 1).drop_last() =~= items.take(i as int));
                assert(items.take(i + 1).last() == items[i as int]);
                assert(items[i as int] == self.permissions@[i as int]@);
            }
            let node = PermissionNode::from_string(
                self.permissions[i].permission.as_str(),
                self.permissions[i].priority,
            );
            match manager.store.upsert_role_node(role, node) {
                Ok(()) => {
                    applied = applied + 1;
                },
                Err(_) => {},
            }
            i += 1;
        }
        proof {
            assert(items.take(self.permissions@.len() as int) =~= items);
        }
        applied
    }

    /// Applies the document to one principal: every entry in document order,
    /// each an independent idempotent upsert of a principal-owned node, a
    /// failed entry skipped and the rest still applied. Returns the count of
    /// successful entries.
    pub fn apply_to_user(&self, manager: &mut PermissionManager, principal: &str) -> (applied:
        usize)
        requires
            old(manager).wf(),
            self.wf(),
        ensures
            final(manager).wf(),
            final(manager).directory == old(manager).directory,
            final(manager).store.roles() == old(manager).store.roles(),
            final(manager).store.role_faults() == old(manager).store.role_faults(),
            final(manager).store.principal_faults() == old(manager).store.principal_faults(),
            final(manager).store.principals() == spec_apply_fold(
                old(manager).store.principals(),
                old(manager).store.principal_faults(),
                principal@,
                self.items(),
            ),
            applied as int == spec_applied_count(
                old(manager).store.principal_faults(),
                principal@,
                self.items(),
            ),
    {
        let ghost items = self.items();
        proof {
            assert(items.take(0) =~= Seq::<ItemView>::empty());
        }
        let mut applied: usize = 0;
        let mut i: usize = 0;
        while i < self.permissions.len()
            invariant
                0 <= i <= self.permissions@.len(),
                items == self.items(),
                items.len() == self.permissions@.len(),
                self.wf(),
                manager.wf(),
                manager.directory == old(manager).directory,
                manager.store.roles() == old(manager).store.roles(),
                manager.store.role_faults() == old(manager).store.role_faults(),
                manager.store.principal_faults() == old(manager).store.principal_faults(),
                manager.store.principals() == spec_apply_fold(
                    old(manager).store.principals(),
                    old(manager).store.principal_faults(),
                    principal@,
                    items.take(i as int),
                ),
                applied <= i,
                applied as int == spec_applied_count(
                    old(manager).store.principal_faults(),
                    principal@,
                    items.take(i as int),
                ),
            decreases self.permissions@.len() - i,
        {
            proof {
                assert(items.take(i + 1).drop_last() =~= items.take(i as int));
                assert(items.take(i + 1).last() == items[i as int]);
                assert(items[i as int] == self.permissions@[i as int]@);
            }
            let node = PermissionNode::from_string(
                self.permissions[i].permission.as_str(),
                self.permissions[i].priority,
            );
            match manager.store.upsert_principal_node(principal, node) {
                Ok(()) => {
                    applied = applied + 1;
                },
                Err(_) => {},
            }
            i += 1;
        }
        proof {
            assert(items.take(self.permissions@.len() as int) =~= items);
        }
        applied
    }

    /// Fans the document across many principals. A principal whose
    /// application loses any entry does not halt the fan-out; the returned
    /// count is the number of principals that took the whole document.
    pub fn apply_to_principals(&self, manager: &mut PermissionManager, principals: &Vec<String>)
        -> (succeeded: usize)
        requires
            old(manager).wf(),
            self.wf(),
        ensures
            final(manager).wf(),
            final(manager).directory == old(manager).directory,
            final(manager).store.roles() == old(manager).store.roles(),
            final(manager).store.role_faults() == old(manager).store.role_faults(),
            final(manager).store.principal_faults() == old(manager).store.principal_faults(),
            final(manager).store.principals() == spec_fanout_fold(
                old(manager).store.principals(),
                old(manager).store.principal_faults(),
                principals@.map_values(|p: String| p@),
                self.items(),
            ),
            succeeded as int == spec_fanout_ok_count(
                old(manager).store.principal_faults(),
                principals@.map_values(|p: String| p@),
                self.items(),
            ),
    {
        let ghost pviews = principals@.map_values(|p: String| p@);
        proof {
            assert(pviews.take(0) =~= Seq::<Seq<char>>::empty());
        }
        let mut succeeded: usize = 0;
        let mut i: usize = 0;
        while i < principals.len()
            invariant
                0 <= i <= principals@.len(),
                pviews == principals@.map_values(|p: String| p@),
                pviews.len() == principals@.len(),
                self.wf(),
                manager.wf(),
                manager.directory == old(manager).directory,
                manager.store.roles() == old(manager).store.roles(),
                manager.store.role_faults() == old(manager).store.role_faults(),
                manager.store.principal_faults() == old(manager).store.principal_faults(),
                manager.store.principals() == spec_fanout_fold(
                    old(manager).store.principals(),
                    old(manager).store.principal_faults(),
                    pviews.take(i as int),
                    self.items(),
                ),
                succeeded <= i,
                succeeded as int == spec_fanout_ok_count(
                    old(manager).store.principal_faults(),
                    pviews.take(i as int),
                    self.items(),
                ),
            decreases principals@.len() - i,
        {
            proof {
                assert(pviews.take(i + 1).drop_last() =~= pviews.take(i as int));
                assert(pviews.take(i + 1).last() == principals@[i as int]@);
                lemma_applied_count_full(
                    manager.store.principal_faults(),
                    principals@[i as int]@,
                    self.items(),
                );
            }
            let applied = self.apply_to_user(manager, principals[i].as_str());
            if applied == self.permissions.len() {
                succeeded = succeeded + 1;
            }
            i += 1;
        }
        proof {
            assert(pviews.take(principals@.len() as int) =~= pviews);
        }
        succeeded
    }
}

/// The bulk-apply target: one role, an explicit principal list, or every
/// principal the identity directory knows.
#[derive(Debug)]
pub enum ApplyTarget {
    Role(String),
    Principals(Vec<String>),
    AllPrincipals,
}

/// The bulk-apply merge strategy: merge into the existing nodes, or delete
/// the target's pre-existing nodes first.
#[derive(Debug, PartialEq, Eq, Structural, Clone, Copy)]
pub enum MergeStrategy {
    Merge,
    Overwrite,
}

/// The principal rows after the overwrite-delete step for a principal list.
pub open spec fn spec_clear_principals(rows: Seq<RowView>, principals: Seq<Seq<char>>) -> Seq<
    RowView,
>
    decreases principals.len(),
{
    if principals.len() == 0 {
        rows
    } else {
        rows_without_owner(
            spec_clear_principals(rows, principals.drop_last()),
            principals.last(),
        )
    }
}

/// What one bulk application does: the overwrite-delete step where the
/// strategy asks for it (never for the all-principals fan-out), then the
/// entries applied to each target, and the count of targets that took the
/// whole document.
pub open spec fn spec_apply_outcome(
    m0: PermissionManager,
    m1: PermissionManager,
    applied: int,
    target: ApplyTarget,
    strategy: MergeStrategy,
    items: Seq<ItemView>,
) -> bool {
    &&& m1.directory == m0.directory
    &&& m1.store.role_faults() == m0.store.role_faults()
    &&& m1.store.principal_faults() == m0.store.principal_faults()
    &&& match target {
        ApplyTarget::Role(role) => {
            let start = if strategy == MergeStrategy::Overwrite {
                rows_without_owner(m0.store.roles(), role@)
            } else {
                m0.store.roles()
            };
            &&& m1.store.roles() == spec_apply_fold(start, m0.store.role_faults(), role@, items)
            &&& m1.store.principals() == m0.store.principals()
            &&& applied == (if spec_apply_ok(m0.store.role_faults(), role@, items) {
                1int
            } else {
                0int
            })
        },
        ApplyTarget::Principals(ps) => {
            let start = if strategy == MergeStrategy::Overwrite {
                spec_clear_principals(m0.store.principals(), ps@.map_values(|p: String| p@))
            } else {
                m0.store.principals()
            };
            &&& m1.store.principals() == spec_fanout_fold(
                start,
                m0.store.principal_faults(),
                ps@.map_values(|p: String| p@),
                items,
            )
            &&& m1.store.roles() == m0.store.roles()
            &&& applied == spec_fanout_ok_count(
                m0.store.principal_faults(),
                ps@.map_values(|p: String| p@),
                items,
            )
        },
        ApplyTarget::AllPrincipals => {
            let ps = m0.directory.bindings().map_values(
                |b: crate::identity::BindingView| b.principal,
            );
            &&& m1.store.principals() == spec_fanout_fold(
                m0.store.principals(),
                m0.store.principal_faults(),
                ps,
                items,
            )
            &&& m1.store.roles() == m0.store.roles()
            &&& applied == spec_fanout_ok_count(m0.store.principal_faults(), ps, items)
        },
    }
}

/// Applies a parsed document to the selected target. Overwrite mode deletes
/// the target's pre-existing nodes first; fanning across all known
/// principals never performs the overwrite-delete step, whatever the flag,
/// as a mass-data-loss guard. Returns how many targets took the whole
/// document.
pub fn apply_template(
    manager: &mut PermissionManager,
    template: &PermissionTemplate,
    target: &ApplyTarget,
    strategy: MergeStrategy,
) -> (applied: usize)
    requires
        old(manager).wf(),
        template.wf(),
    ensures
        final(manager).wf(),
        spec_apply_outcome(
            *old(manager),
            *final(manager),
            applied as int,
            *target,
            strategy,
            template.items(),
        ),
{
    match target {
        ApplyTarget::Role(role) => {
            if strategy == MergeStrategy::Overwrite {
                manager.store.clear_role_nodes(role.as_str());
            }
            proof {
                lemma_applied_count_full(
                    manager.store.role_faults(),
                    role@,
                    template.items(),
                );
            }
            let count = template.apply_to_role(manager, role.as_str());
            if count == template.permissions.len() {
                1
            } else {
                0
            }
        },
        ApplyTarget::Principals(ps) => {
            if strategy == MergeStrategy::Overwrite {
                let ghost pviews = ps@.map_values(|p: String| p@);
                proof {
                    assert(pviews.take(0) =~= Seq::<Seq<char>>::empty());
                }
                let mut i: usize = 0;
                while i < ps.len()
                    invariant
                        0 <= i <= ps@.len(),
                        pviews == ps@.map_values(|p: String| p@),
                        pviews.len() == ps@.len(),
                        manager.wf(),
                        manager.directory == old(manager).directory,
                        manager.store.roles() == old(manager).store.roles(),
                        manager.store.role_faults() == old(manager).store.role_faults(),
                        manager.store.principal_faults() == old(
                            manager,
                        ).store.principal_faults(),
                        manager.store.principals() == spec_clear_principals(
                            old(manager).store.principals(),
                            pviews.take(i as int),
                        ),
                    decreases ps@.len() - i,
                {
                    proof {
                        assert(pviews.take(i + 1).drop_last() =~= pviews.take(i as int));
                        assert(pviews.take(i + 1).last() == ps@[i as int]@);
                    }
                    manager.store.clear_principal_nodes(ps[i].as_str());
                    i += 1;
                }
                proof {
                    assert(pviews.take(ps@.len() as int) =~= pviews);
                }
            }
            template.apply_to_principals(manager, ps)
        },
        ApplyTarget::AllPrincipals => {
            let all = manager.directory.all_principals();
            template.apply_to_principals(manager, &all)
        },
    }
}

/// Parses a template document and applies it to the selected target, as
/// [`PermissionTemplate::from_yaml_str`] and [`apply_template`] do. Parsing
/// completes fully, and fails the whole call, before any write begins.
pub fn apply_yaml_template(
    manager: &mut PermissionManager,
    yaml_content: &str,
    target: &ApplyTarget,
    strategy: MergeStrategy,
) -> (r: Result<usize, ParseError>)
    requires
        old(manager).wf(),
    ensures
        final(manager).wf(),
        final(manager).directory == old(manager).directory,
        r is Ok <==> (yaml_template_entries(spec_normalize_text(yaml_content@)) is Some
            && entries_valid(yaml_template_entries(spec_normalize_text(yaml_content@)).unwrap())),
        r matches Ok(applied) ==> spec_apply_outcome(
            *old(manager),
            *final(manager),
            applied as int,
            *target,
            strategy,
            items_of(yaml_template_entries(spec_normalize_text(yaml_content@)).unwrap()),
        ),
        r is Err ==> *final(manager) == *old(manager),
    {
        let template = match PermissionTemplate::from_yaml_str(yaml_content) {
            Ok(template) => template,
            Err(e) => {
                return Err(e);
            },
        };
        Ok(apply_template(manager, &template, target, strategy))
    }

} // verus!
