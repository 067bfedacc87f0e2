//! Small verified helpers over strings of characters.

use vstd::prelude::*;

verus! {

/// The segments of `s`, split on the separator `sep`, as `str::split` yields
/// them: the empty string has one empty segment, and a separator at either
/// end produces an empty segment there.
pub open spec fn split_chars(s: Seq<char>, sep: char) -> Seq<Seq<char>>
    decreases s.len(),
{
    if s.len() == 0 {
        seq![Seq::<char>::empty()]
    } else if s.last() == sep {
        split_chars(s.drop_last(), sep).push(Seq::empty())
    } else {
        let rest = split_chars(s.drop_last(), sep);
        rest.update(rest.len() - 1, rest.last().push(s.last()))
    }
}

/// Splitting yields at least one segment, whatever the input.
pub proof fn lemma_split_nonempty(s: Seq<char>, sep: char)
    ensures
        split_chars(s, sep).len() >= 1,
    decreases s.len(),
{
    if s.len() != 0 {
        lemma_split_nonempty(s.drop_last(), sep);
    }
}

/// Splits `s` on the separator `sep` into its segments, each as a vector
/// of characters.
pub fn split_on_char(s: &str, sep: char) -> (segs: Vec<Vec<char>>)
    ensures
        segs@.map_values(|seg: Vec<char>| seg@) == split_chars(s@, sep),
        segs@.len() >= 1,
{
    let n = s.unicode_len();
    let mut done: Vec<Vec<char>> = Vec::new();
    let mut cur: Vec<char> = Vec::new();
    let mut i: usize = 0;
    while i < n
        invariant
            0 <= i <= n,
            n == s@.len(),
            done@.map_values(|seg: Vec<char>| seg@).push(cur@) =~= split_chars(
                s@.take(i as int),
                sep,
            ),
        decreases n - i,
    {
        let c = s.get_char(i);
        proof {
            assert(s@.take(i + 1).drop_last() =~= s@.take(i as int));
        }
        if c == sep {
            done.push(cur);
            cur = Vec::new();
        } else {
            cur.push(c);
        }
        proof {
            assert(done@.map_values(|seg: Vec<char>| seg@).push(cur@) =~= split_chars(
                s@.take(i + 1),
                sep,
            ));
        }
        i += 1;
    }
    proof {
        assert(s@.take(n as int) =~= s@);
    }
    done.push(cur);
    proof {
        assert(done@.map_values(|seg: Vec<char>| seg@) =~= split_chars(s@, sep));
    }
    done
}

/// No segment of a split holds the separator.
pub proof fn lemma_split_sep_free(s: Seq<char>, sep: char)
    ensures
        forall|k: int, j: int|
            0 <= k < split_chars(s, sep).len() && 0 <= j < split_chars(s, sep)[k].len()
                ==> split_chars(s, sep)[k][j] != sep,
    decreases s.len(),
{
    if s.len() > 0 {
        lemma_split_sep_free(s.drop_last(), sep);
        lemma_split_nonempty(s.drop_last(), sep);
        let rest = split_chars(s.drop_last(), sep);
        if s.last() == sep {
            let out = rest.push(Seq::<char>::empty());
            assert forall|k: int, j: int|
                0 <= k < out.len() && 0 <= j < out[k].len() implies out[k][j] != sep by {
                assert(out[k] == rest[k]);
            }
        } else {
            let out = rest.update(rest.len() - 1, rest.last().push(s.last()));
            assert forall|k: int, j: int|
                0 <= k < out.len() && 0 <= j < out[k].len() implies out[k][j] != sep by {
                if k < rest.len() - 1 {
                    assert(out[k] == rest[k]);
                } else {
                    assert(out[k] == rest.last().push(s.last()));
                    if j < rest.last().len() {
                        assert(out[k][j] == rest[rest.len() - 1][j]);
                    } else {
                        assert(out[k][j] == s.last());
                    }
                }
            }
        }
    }
}

/// A separator-free text splits into itself alone.
pub proof fn lemma_split_of_sep_free(l: Seq<char>, sep: char)
    requires
        forall|j: int| 0 <= j < l.len() ==> l[j] != sep,
    ensures
        split_chars(l, sep) == seq![l],
    decreases l.len(),
{
    if l.len() == 0 {
        assert(split_chars(l, sep) =~~= seq![l]);
    } else {
        lemma_split_of_sep_free(l.drop_last(), sep);
        assert(l.last() != sep);
        assert(split_chars(l, sep) =~= seq![l.drop_last().push(l.last())]);
        assert(l.drop_last().push(l.last()) =~= l);
        assert(split_chars(l, sep) =~= seq![l]);
    }
}

/// Appending a separator and a separator-free segment appends exactly that
/// segment to the split.
pub proof fn lemma_split_append_seg(a: Seq<char>, b: Seq<char>, sep: char)
    requires
        forall|j: int| 0 <= j < b.len() ==> b[j] != sep,
    ensures
        split_chars(a + seq![sep] + b, sep) == split_chars(a, sep).push(b),
    decreases b.len(),
{
    let s = a + seq![sep] + b;
    if b.len() == 0 {
        assert(s =~= a + seq![sep]);
        assert(s.last() == sep);
        assert(s.drop_last() =~= a);
        assert(split_chars(s, sep) =~~= split_chars(a, sep).push(b));
    } else {
        lemma_split_append_seg(a, b.drop_last(), sep);
        assert(s.last() == b.last());
        assert(b.last() != sep);
        assert(s.drop_last() =~= a + seq![sep] + b.drop_last());
        let rest = split_chars(s.drop_last(), sep);
        assert(rest == split_chars(a, sep).push(b.drop_last()));
        lemma_split_nonempty(a, sep);
        assert(rest.last() == b.drop_last());
        assert(split_chars(s, sep) == rest.update(rest.len() - 1, rest.last().push(s.last())));
        assert(rest.last().push(s.last()) =~= b);
        assert(rest.update(rest.len() - 1, b) =~= split_chars(a, sep).push(b));
    }
}


/// Whether two string slices hold the same characters.
pub fn str_eq(a: &str, b: &str) -> (r: bool)
    ensures
        r == (a@ == b@),
{
    let an = a.unicode_len();
    let bn = b.unicode_len();
    if an != bn {
        return false;
    }
    let mut i: usize = 0;
    while i < an
        invariant
            0 <= i <= an,
            an == a@.len(),
            an == b@.len(),
            forall|j: int| 0 <= j < i ==> a@[j] == b@[j],
        decreases an - i,
    {
        if a.get_char(i) != b.get_char(i) {
            return false;
        }
        i += 1;
    }
    proof {
        assert(a@ =~= b@);
    }
    true
}

/// Whether `list` holds a string equal to `s`.
pub fn string_list_contains(list: &Vec<String>, s: &str) -> (r: bool)
    ensures
        r == exists|i: int| 0 <= i < list@.len() && (#[trigger] list@[i])@ == s@,
{
    let mut i: usize = 0;
    while i < list.len()
        invariant
            0 <= i <= list@.len(),
            forall|j: int| 0 <= j < i ==> (#[trigger] list@[j])@ != s@,
        decreases list@.len() - i,
    {
        if str_eq(list[i].as_str(), s) {
            return true;
        }
        i += 1;
    }
    false
}

/// Relies on `String`'s `FromIterator<char>`: collecting characters yields
/// the string of exactly those characters, in order.
#[verifier::external_body]
pub fn chars_to_string(chars: &Vec<char>) -> (r: String)
    ensures
        r@ == chars@,
{
    chars.iter().collect()
}

} // verus!
