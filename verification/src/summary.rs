//! The summary of a course event: its course number and its course name.
//!
//! A summary arrives as `<course number> <course name>` and leaves as
//! `<course name> <course number>`.

use crate::text::{
    append, first_occurrence, lemma_first_occurrence, lemma_first_occurrence_is, occurs_at,
    split_once, split_pair, to_chars, to_string,
};
use vstd::prelude::*;

verus! {

/// The summary `s` with its course number moved behind its course name. The
/// course number is what stands before the first space of `s`, the course name
/// what stands after it; a summary without a space has neither.
pub open spec fn reordered(s: Seq<char>) -> Option<Seq<char>> {
    match split_pair(s, " "@) {
        Some((number, name)) => Some(name + " "@ + number),
        None => None,
    }
}

/// Moves the course number of `summary` behind its course name, or returns
/// nothing where `summary` holds no space.
pub fn translate_summary(summary: &str) -> (r: Option<String>)
    ensures
        r.deep_view() == reordered(summary@),
{
    let chars = to_chars(summary);
    let space = to_chars(" ");
    match split_once(chars.as_slice(), space.as_slice()) {
        Some((number, name)) => {
            let mut text = name;
            append(&mut text, space.as_slice());
            append(&mut text, number.as_slice());
            Some(to_string(text.as_slice()))
        },
        None => None,
    }
}

/// A single space stands at position `i` of `s` exactly when the character
/// there is a space.
proof fn lemma_space_at(s: Seq<char>, i: int)
    ensures
        occurs_at(s, " "@, i) <==> 0 <= i < s.len() && s[i] == ' ',
{
    reveal_strlit(" ");
    if 0 <= i < s.len() {
        assert(s.subrange(i, i + 1)[0] == s[i]);
        if s[i] == ' ' {
            assert(s.subrange(i, i + 1) =~= " "@);
        }
    }
}

/// What reordering a second time gives. Of a summary `number name`, the
/// first reordering gives `name number`. Where the course name holds no space,
/// the second gives `number name` back. Where it does, the second moves the
/// first word of the course name behind the course number.
pub proof fn lemma_reordered_again(s: Seq<char>)
    requires
        reordered(s) is Some,
    ensures
        ({
            let (number, name) = split_pair(s, " "@).unwrap();
            reordered(reordered(s).unwrap()) == match split_pair(name, " "@) {
                Some((word, rest)) => Some(rest + " "@ + number + " "@ + word),
                None => Some(number + " "@ + name),
            }
        }),
{
    let space = " "@;
    let (number, name) = split_pair(s, space).unwrap();
    let t = name + space + number;
    lemma_first_occurrence(name, space);
    let k = match first_occurrence(name, space) {
        Some(k) => k,
        None => name.len() as int,
    };
    reveal_strlit(" ");
    lemma_space_at(name, k);
    lemma_space_at(t, k);
    assert forall|j: int| 0 <= j < k implies !occurs_at(t, space, j) by {
        lemma_space_at(name, j);
        lemma_space_at(t, j);
    }
    lemma_first_occurrence_is(t, space, k);
}

/// Reordering twice gives the summary back exactly when its course name holds
/// no space, or when the summary stays as it is with its first two words moved
/// to its end (as `a a a` does).
pub proof fn lemma_reordered_twice(s: Seq<char>)
    requires
        reordered(s) is Some,
    ensures
        ({
            let (number, name) = split_pair(s, " "@).unwrap();
            reordered(reordered(s).unwrap()) == Some(s) <==> match split_pair(name, " "@) {
                Some((word, rest)) => rest + " "@ + number + " "@ + word == s,
                None => true,
            }
        }),
        !split_pair(s, " "@).unwrap().1.contains(' ') ==> reordered(reordered(s).unwrap()) == Some(
            s,
        ),
{
    let space = " "@;
    let (number, name) = split_pair(s, space).unwrap();
    lemma_reordered_again(s);
    lemma_first_occurrence(s, space);
    assert(number + space + name == s);
    lemma_first_occurrence(name, space);
    if first_occurrence(name, space) is Some {
        let k = first_occurrence(name, space).unwrap();
        lemma_space_at(name, k);
    }
}

} // verus!
