//! Character sequences: the model that every field transformation is stated over,
//! and the executable operations on `[char]` that realise it.
//!
//! A field of an event is read as the sequence of its characters. Searching for
//! a pattern, cutting at a pattern, gluing pieces and trimming white space are
//! defined here once, as functions on `Seq<char>`, and each executable function
//! is proved to compute its counterpart.

use vstd::prelude::*;
use vstd::slice::{slice_subrange, slice_to_vec};

verus! {

/// White space as Unicode defines it (the property `White_Space`).
pub open spec fn is_whitespace(c: char) -> bool {
    let u = c as u32;
    ||| 0x09 <= u <= 0x0D
    ||| u == 0x20
    ||| u == 0x85
    ||| u == 0xA0
    ||| u == 0x1680
    ||| 0x2000 <= u <= 0x200A
    ||| u == 0x2028
    ||| u == 0x2029
    ||| u == 0x202F
    ||| u == 0x205F
    ||| u == 0x3000
}

/// Whether `pat` stands in `s` at position `i`.
pub open spec fn occurs_at(s: Seq<char>, pat: Seq<char>, i: int) -> bool {
    &&& 0 <= i
    &&& i + pat.len() <= s.len()
    &&& s.subrange(i, i + pat.len()) == pat
}

/// Whether `i` is the leftmost position at which `pat` stands in `s`.
pub open spec fn is_first_occurrence(s: Seq<char>, pat: Seq<char>, i: int) -> bool {
    &&& occurs_at(s, pat, i)
    &&& forall|j: int| 0 <= j < i ==> !occurs_at(s, pat, j)
}

/// The leftmost position at which `pat` stands in `s`, if it stands anywhere.
pub open spec fn first_occurrence(s: Seq<char>, pat: Seq<char>) -> Option<int> {
    if exists|i: int| occurs_at(s, pat, i) {
        Some(choose|i: int| is_first_occurrence(s, pat, i))
    } else {
        None
    }
}

/// `s` cut at the leftmost `pat`: what stands before it and what stands after.
pub open spec fn split_pair(s: Seq<char>, pat: Seq<char>) -> Option<(Seq<char>, Seq<char>)> {
    match first_occurrence(s, pat) {
        Some(i) => Some((s.take(i), s.skip(i + pat.len()))),
        None => None,
    }
}

/// `s` cut at every `pat`, found from left to right without overlap. An empty
/// pattern cuts nowhere.
pub open spec fn pieces(s: Seq<char>, pat: Seq<char>) -> Seq<Seq<char>>
    decreases s.len(),
    via pieces_decreases
{
    let at = first_occurrence(s, pat);
    if pat.len() > 0 && at is Some {
        seq![s.take(at.unwrap())] + pieces(s.skip(at.unwrap() + pat.len()), pat)
    } else {
        seq![s]
    }
}

#[via_fn]
proof fn pieces_decreases(s: Seq<char>, pat: Seq<char>) {
    lemma_first_occurrence(s, pat);
}

/// The pieces glued together with `sep` between each two neighbours.
pub open spec fn joined(parts: Seq<Seq<char>>, sep: Seq<char>) -> Seq<char>
    decreases parts.len(),
{
    if parts.len() == 0 {
        Seq::empty()
    } else if parts.len() == 1 {
        parts[0]
    } else {
        joined(parts.drop_last(), sep) + sep + parts.last()
    }
}

/// `s` with every `pat` taken out, found from left to right without overlap.
pub open spec fn without(s: Seq<char>, pat: Seq<char>) -> Seq<char> {
    joined(pieces(s, pat), Seq::empty())
}

/// `s` without the white space it starts with.
pub open spec fn trimmed_start(s: Seq<char>) -> Seq<char>
    decreases s.len(),
{
    if s.len() > 0 && is_whitespace(s.first()) {
        trimmed_start(s.drop_first())
    } else {
        s
    }
}

/// `s` without the white space it ends with.
pub open spec fn trimmed_end(s: Seq<char>) -> Seq<char>
    decreases s.len(),
{
    if s.len() > 0 && is_whitespace(s.last()) {
        trimmed_end(s.drop_last())
    } else {
        s
    }
}

/// `s` without the white space at either end.
pub open spec fn trimmed(s: Seq<char>) -> Seq<char> {
    trimmed_end(trimmed_start(s))
}

/// Whether `trimmed(s)` is `s` from position `a` up to position `b`, with
/// nothing but white space before `a` and from `b` on, and no white space at
/// either end of what is between.
pub open spec fn trims_to(s: Seq<char>, a: int, b: int) -> bool {
    &&& 0 <= a <= b <= s.len()
    &&& trimmed(s) == s.subrange(a, b)
    &&& forall|i: int| 0 <= i < a ==> is_whitespace(s[i])
    &&& forall|i: int| b <= i < s.len() ==> is_whitespace(s[i])
    &&& a < b ==> !is_whitespace(s[a]) && !is_whitespace(s[b - 1])
}

/// Among the positions where `pat` stands in `s` there is a leftmost one.
proof fn lemma_leftmost_exists(s: Seq<char>, pat: Seq<char>, k: int)
    requires
        occurs_at(s, pat, k),
    ensures
        exists|i: int| is_first_occurrence(s, pat, i),
    decreases k,
{
    if exists|j: int| 0 <= j < k && occurs_at(s, pat, j) {
        let j = choose|j: int| 0 <= j < k && occurs_at(s, pat, j);
        lemma_leftmost_exists(s, pat, j);
    } else {
        assert(is_first_occurrence(s, pat, k));
    }
}

/// What `first_occurrence` returns: the leftmost position, or nothing exactly
/// when `pat` stands nowhere in `s`.
pub proof fn lemma_first_occurrence(s: Seq<char>, pat: Seq<char>)
    ensures
        match first_occurrence(s, pat) {
            Some(i) => is_first_occurrence(s, pat, i),
            None => forall|i: int| !occurs_at(s, pat, i),
        },
{
    if exists|i: int| occurs_at(s, pat, i) {
        let k = choose|i: int| occurs_at(s, pat, i);
        lemma_leftmost_exists(s, pat, k);
    }
}

/// A leftmost position is the one that `first_occurrence` returns.
pub proof fn lemma_first_occurrence_is(s: Seq<char>, pat: Seq<char>, i: int)
    requires
        is_first_occurrence(s, pat, i),
    ensures
        first_occurrence(s, pat) == Some(i),
{
}

/// An occurrence in what follows position `from` is an occurrence in `s`,
/// `from` places further on.
pub proof fn lemma_occurs_at_skip(s: Seq<char>, pat: Seq<char>, from: int, i: int)
    requires
        0 <= from <= s.len(),
        0 <= i,
    ensures
        occurs_at(s.skip(from), pat, i) == occurs_at(s, pat, from + i),
{
    if i + pat.len() <= s.len() - from {
        assert(s.skip(from).subrange(i, i + pat.len()) =~= s.subrange(
            from + i,
            from + i + pat.len(),
        ));
    }
}

/// What `trimmed_start` takes away is white space, and what it leaves does not
/// start with white space.
proof fn lemma_trimmed_start(s: Seq<char>) -> (a: int)
    ensures
        0 <= a <= s.len(),
        trimmed_start(s) == s.skip(a),
        forall|i: int| 0 <= i < a ==> is_whitespace(s[i]),
        a < s.len() ==> !is_whitespace(s[a]),
    decreases s.len(),
{
    if s.len() > 0 && is_whitespace(s.first()) {
        let rest = s.drop_first();
        let a = lemma_trimmed_start(rest);
        assert forall|i: int| 0 <= i < a + 1 implies is_whitespace(s[i]) by {
            if i > 0 {
                assert(s[i] == rest[i - 1]);
            }
        }
        a + 1
    } else {
        0
    }
}

/// What `trimmed_end` takes away is white space, and what it leaves does not
/// end with white space.
proof fn lemma_trimmed_end(s: Seq<char>) -> (b: int)
    ensures
        0 <= b <= s.len(),
        trimmed_end(s) == s.take(b),
        forall|i: int| b <= i < s.len() ==> is_whitespace(s[i]),
        0 < b ==> !is_whitespace(s[b - 1]),
    decreases s.len(),
{
    if s.len() > 0 && is_whitespace(s.last()) {
        let rest = s.drop_last();
        let b = lemma_trimmed_end(rest);
        assert forall|i: int| b <= i < s.len() implies is_whitespace(s[i]) by {
            if i < s.len() - 1 {
                assert(s[i] == rest[i]);
            }
        }
        b
    } else {
        s.len() as int
    }
}

/// Trimming cuts white space off both ends and nothing else: it returns two
/// positions `a` and `b` with `trims_to(s, a, b)`.
pub proof fn lemma_trimmed(s: Seq<char>) -> (bounds: (int, int))
    ensures
        trims_to(s, bounds.0, bounds.1),
{
    let a = lemma_trimmed_start(s);
    let rest = s.skip(a);
    let b = lemma_trimmed_end(rest);
    assert(rest.take(b) == s.subrange(a, a + b));
    assert forall|i: int| a + b <= i < s.len() implies is_whitespace(s[i]) by {
        assert(s[i] == rest[i - a]);
    }
    (a, a + b)
}

/// The deep view of a vector of vectors of characters holds the view of each.
pub proof fn lemma_deep_views(parts: Vec<Vec<char>>)
    ensures
        parts.deep_view().len() == parts.len(),
        forall|i: int| 0 <= i < parts.len() ==> #[trigger] parts.deep_view()[i] == parts@[i]@,
{
    assert forall|i: int| 0 <= i < parts.len() implies #[trigger] parts.deep_view()[i]
        == parts@[i]@ by {
        assert(parts@[i].deep_view() =~= parts@[i]@);
    }
}

/// The characters of `s`, in order.
pub fn to_chars(s: &str) -> (v: Vec<char>)
    ensures
        v@ == s@,
{
    let mut v: Vec<char> = Vec::new();
    for c in it: s.chars()
        invariant
            v@ == it.seq().take(it.index() as int),
            it.seq() == s@,
    {
        v.push(c);
    }
    v
}

/// `String::push` of the standard library, which appends one character: the
/// string afterwards is the string before, followed by `ch`. This is stated,
/// not proved.
pub assume_specification[ String::push ](s: &mut String, ch: char)
    ensures
        final(s)@ == old(s)@.push(ch),
;

/// The string that holds the characters of `s`, in order.
pub fn to_string(s: &[char]) -> (r: String)
    ensures
        r@ == s@,
{
    let mut r = String::new();
    let mut i: usize = 0;
    while i < s.len()
        invariant
            i <= s.len(),
            r@ == s@.take(i as int),
        decreases s.len() - i,
    {
        r.push(s[i]);
        i += 1;
    }
    r
}

/// A copy of the characters of `s` from position `from` up to, not including, `to`.
pub fn copy_range(s: &[char], from: usize, to: usize) -> (v: Vec<char>)
    requires
        from <= to <= s.len(),
    ensures
        v@ == s@.subrange(from as int, to as int),
{
    slice_to_vec(slice_subrange(s, from, to))
}

/// Appends the characters of `s` to `v`.
pub fn append(v: &mut Vec<char>, s: &[char])
    ensures
        final(v)@ == old(v)@ + s@,
{
    let mut i: usize = 0;
    while i < s.len()
        invariant
            i <= s.len(),
            v@ == old(v)@ + s@.take(i as int),
        decreases s.len() - i,
    {
        v.push(s[i]);
        i += 1;
    }
}

/// Whether `c` is white space.
pub fn char_is_whitespace(c: char) -> (b: bool)
    ensures
        b == is_whitespace(c),
{
    let u: u32 = c as u32;
    (0x09 <= u && u <= 0x0D) || u == 0x20 || u == 0x85 || u == 0xA0 || u == 0x1680 || (0x2000 <= u
        && u <= 0x200A) || u == 0x2028 || u == 0x2029 || u == 0x202F || u == 0x205F || u == 0x3000
}

/// Whether `a` and `b` hold the same characters.
pub fn same_chars(a: &[char], b: &[char]) -> (r: bool)
    ensures
        r == (a@ == b@),
{
    if a.len() != b.len() {
        return false;
    }
    let mut i: usize = 0;
    while i < a.len()
        invariant
            i <= a.len(),
            a.len() == b.len(),
            a@.take(i as int) == b@.take(i as int),
        decreases a.len() - i,
    {
        if a[i] != b[i] {
            return false;
        }
        i += 1;
    }
    assert(a@ == a@.take(a.len() as int));
    assert(b@ == b@.take(b.len() as int));
    true
}

/// Whether `pat` stands in `s` at position `i`.
pub fn matches_at(s: &[char], pat: &[char], i: usize) -> (b: bool)
    ensures
        b == occurs_at(s@, pat@, i as int),
{
    if i > s.len() || pat.len() > s.len() - i {
        return false;
    }
    let ghost window = s@.subrange(i as int, i + pat.len());
    let mut k: usize = 0;
    while k < pat.len()
        invariant
            k <= pat.len(),
            i + pat.len() <= s.len(),
            window == s@.subrange(i as int, i + pat.len()),
            window.take(k as int) == pat@.take(k as int),
        decreases pat.len() - k,
    {
        if s[i + k] != pat[k] {
            return false;
        }
        k += 1;
    }
    assert(window == window.take(pat.len() as int));
    assert(pat@ == pat@.take(pat.len() as int));
    true
}

/// The leftmost position at or after `from` at which `pat` stands in `s`.
pub fn find(s: &[char], pat: &[char], from: usize) -> (r: Option<usize>)
    requires
        from <= s.len(),
    ensures
        match r {
            Some(i) => {
                &&& from <= i
                &&& i + pat.len() <= s.len()
                &&& first_occurrence(s@.skip(from as int), pat@) == Some(i - from)
            },
            None => first_occurrence(s@.skip(from as int), pat@) is None,
        },
{
    let ghost rest = s@.skip(from as int);
    if pat.len() > s.len() - from {
        return None;
    }
    let last: usize = s.len() - pat.len();
    let mut i: usize = from;
    loop
        invariant
            from <= i <= last,
            last == s.len() - pat.len(),
            rest == s@.skip(from as int),
            forall|j: int| 0 <= j < i - from ==> !occurs_at(rest, pat@, j),
        decreases last - i,
    {
        proof {
            lemma_occurs_at_skip(s@, pat@, from as int, i - from);
        }
        if matches_at(s, pat, i) {
            proof {
                lemma_first_occurrence_is(rest, pat@, i - from);
            }
            return Some(i);
        }
        if i == last {
            return None;
        }
        i += 1;
    }
}

/// `s` cut at the leftmost `pat`: what stands before it and what stands after,
/// or nothing where `pat` does not occur.
pub fn split_once(s: &[char], pat: &[char]) -> (r: Option<(Vec<char>, Vec<char>)>)
    ensures
        match r {
            Some((before, after)) => split_pair(s@, pat@) == Some((before@, after@)),
            None => split_pair(s@, pat@) is None,
        },
{
    assert(s@.skip(0) == s@);
    match find(s, pat, 0) {
        Some(i) => {
            let before = copy_range(s, 0, i);
            let after = copy_range(s, i + pat.len(), s.len());
            Some((before, after))
        },
        None => None,
    }
}

/// `s` cut at every `pat`, found from left to right without overlap.
pub fn split(s: &[char], pat: &[char]) -> (parts: Vec<Vec<char>>)
    ensures
        parts.deep_view() == pieces(s@, pat@),
{
    let mut parts: Vec<Vec<char>> = Vec::new();
    let mut start: usize = 0;
    assert(s@.skip(0) == s@);
    if pat.len() > 0 {
        loop
            invariant_except_break
                start <= s.len(),
                pat.len() > 0,
                pieces(s@, pat@) == parts.deep_view() + pieces(s@.skip(start as int), pat@),
            ensures
                start <= s.len(),
                pieces(s@, pat@) == parts.deep_view() + seq![s@.skip(start as int)],
            decreases s.len() - start,
        {
            let ghost rest = s@.skip(start as int);
            match find(s, pat, start) {
                Some(i) => {
                    let piece = copy_range(s, start, i);
                    parts.push(piece);
                    proof {
                        lemma_deep_views(parts);
                        assert(rest.take(i - start) == piece@);
                        assert(rest.skip(i - start + pat.len()) == s@.skip(i + pat.len()));
                    }
                    start = i + pat.len();
                },
                None => {
                    break ;
                },
            }
        }
    }
    let piece = copy_range(s, start, s.len());
    parts.push(piece);
    proof {
        lemma_deep_views(parts);
    }
    parts
}

/// The pieces glued together with `sep` between each two neighbours.
pub fn join(parts: &Vec<Vec<char>>, sep: &[char]) -> (r: Vec<char>)
    ensures
        r@ == joined(parts.deep_view(), sep@),
{
    let ghost all = parts.deep_view();
    let mut r: Vec<char> = Vec::new();
    let mut k: usize = 0;
    while k < parts.len()
        invariant
            k <= parts.len(),
            all == parts.deep_view(),
            r@ == joined(all.take(k as int), sep@),
        decreases parts.len() - k,
    {
        proof {
            assert(all.take(k + 1).drop_last() == all.take(k as int));
        }
        if k > 0 {
            append(&mut r, sep);
        }
        append(&mut r, parts[k].as_slice());
        k += 1;
    }
    assert(all.take(parts.len() as int) == all);
    r
}

/// `s` with every `pat` taken out, found from left to right without overlap.
pub fn remove_all(s: &[char], pat: &[char]) -> (r: Vec<char>)
    ensures
        r@ == without(s@, pat@),
{
    let parts = split(s, pat);
    let nothing: Vec<char> = Vec::new();
    join(&parts, nothing.as_slice())
}

/// `s` without the white space at either end.
pub fn trim(s: &[char]) -> (r: Vec<char>)
    ensures
        r@ == trimmed(s@),
{
    let mut start: usize = 0;
    assert(s@.skip(0) == s@);
    while start < s.len() && char_is_whitespace(s[start])
        invariant
            start <= s.len(),
            trimmed_start(s@) == trimmed_start(s@.skip(start as int)),
        decreases s.len() - start,
    {
        assert(s@.skip(start as int).drop_first() == s@.skip(start + 1));
        start += 1;
    }
    let mut end: usize = s.len();
    while end > start && char_is_whitespace(s[end - 1])
        invariant
            start <= end <= s.len(),
            trimmed(s@) == trimmed_end(s@.subrange(start as int, end as int)),
        decreases end - start,
    {
        assert(s@.subrange(start as int, end as int).drop_last() == s@.subrange(
            start as int,
            end - 1,
        ));
        end -= 1;
    }
    copy_range(s, start, end)
}

} // verus!
