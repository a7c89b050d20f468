//! The description of a course event: its class type and its instructors.
//!
//! A description arrives as `<prefix>,[<class type>],taught by <Last, First, ...>`
//! and leaves as `Class Type: <class type> | Professor(s): <First Last, ...>`.

use crate::text::{
    append, copy_range, first_occurrence, joined, lemma_first_occurrence, lemma_trimmed,
    occurs_at, pieces, remove_all, split, split_once, split_pair, to_chars, to_string, trim,
    trimmed, without,
};
use vstd::prelude::*;
use vstd::string::StringExecFns;

verus! {

/// Why a description could not be read.
#[derive(Clone, Copy, Debug, PartialEq, Eq, Structural)]
pub enum DescriptionError {
    /// The description holds fewer than two commas.
    MissingComma,
    /// The class type has fewer than the two characters that enclose it.
    ShortClassType,
    /// The instructor list holds an odd number of names: a last name without
    /// a first name.
    UnpairedName,
}

/// What a description says, as sequences of characters.
pub struct DescriptionModel {
    /// The class type, without the characters that enclosed it.
    pub class_type: Seq<char>,
    /// The instructors in the order given, each as first name, space, last name.
    pub instructors: Seq<Seq<char>>,
}

/// What a description says.
#[derive(Debug, PartialEq, Eq)]
pub struct ParsedDescription {
    /// The class type, without the characters that enclosed it.
    pub class_type: String,
    /// The instructors in the order given, each as first name, space, last name.
    pub instructors: Vec<String>,
}

impl View for ParsedDescription {
    type V = DescriptionModel;

    open spec fn view(&self) -> DescriptionModel {
        DescriptionModel {
            class_type: self.class_type@,
            instructors: self.instructors.deep_view(),
        }
    }
}

impl DeepView for ParsedDescription {
    type V = DescriptionModel;

    open spec fn deep_view(&self) -> DescriptionModel {
        self@
    }
}

/// The instructors named by `tokens`, which alternate last name, first name.
/// A last name left without a first name names nobody.
pub open spec fn paired_names(tokens: Seq<Seq<char>>) -> Seq<Seq<char>> {
    Seq::new(tokens.len() / 2, |k: int| tokens[2 * k + 1] + seq![' '] + tokens[2 * k])
}

/// What the description `s` says, or why it cannot be read.
///
/// The text before the first comma is dropped and what follows is trimmed. Up
/// to its next comma stands the class type, which loses the white space around
/// it and then its first and last character. After that comma stands the
/// instructor clause: every `taught by` is taken out, the rest is trimmed and
/// cut at each `, ` into names.
pub open spec fn parsed(s: Seq<char>) -> Result<DescriptionModel, DescriptionError> {
    match split_pair(s, ","@) {
        None => Err(DescriptionError::MissingComma),
        Some((_, rest)) => match split_pair(trimmed(rest), ","@) {
            None => Err(DescriptionError::MissingComma),
            Some((tag, clause)) => {
                let tag = trimmed(tag);
                let names = pieces(trimmed(without(clause, "taught by"@)), ", "@);
                if tag.len() < 2 {
                    Err(DescriptionError::ShortClassType)
                } else if names.len() % 2 != 0 {
                    Err(DescriptionError::UnpairedName)
                } else {
                    Ok(
                        DescriptionModel {
                            class_type: tag.subrange(1, tag.len() - 1),
                            instructors: paired_names(names),
                        },
                    )
                }
            },
        },
    }
}

/// The text that stands for `d` in a rewritten event.
pub open spec fn formatted(d: DescriptionModel) -> Seq<char> {
    "Class Type: "@ + d.class_type + " | Professor(s): "@ + joined(d.instructors, ", "@)
}

/// The rewritten form of the description `s`, or why `s` cannot be read.
pub open spec fn translated(s: Seq<char>) -> Result<Seq<char>, DescriptionError> {
    match parsed(s) {
        Ok(d) => Ok(formatted(d)),
        Err(e) => Err(e),
    }
}

impl ParsedDescription {
    /// The text that stands for this description in a rewritten event.
    pub fn format(&self) -> (r: String)
        ensures
            r@ == formatted(self@),
    {
        let ghost names = self.instructors.deep_view();
        let mut list = String::new();
        let mut k: usize = 0;
        while k < self.instructors.len()
            invariant
                k <= self.instructors.len(),
                names == self.instructors.deep_view(),
                list@ == joined(names.take(k as int), ", "@),
            decreases self.instructors.len() - k,
        {
            assert(names.take(k + 1).drop_last() == names.take(k as int));
            if k > 0 {
                list.append(", ");
            }
            list.append(self.instructors[k].as_str());
            k += 1;
        }
        assert(names.take(names.len() as int) == names);
        let mut r = String::from_str("Class Type: ");
        r.append(self.class_type.as_str());
        r.append(" | Professor(s): ");
        r.append(list.as_str());
        r
    }
}

/// Reads the description `original`, or says why it cannot be read.
pub fn parse_description(original: &str) -> (r: Result<ParsedDescription, DescriptionError>)
    ensures
        match parsed(original@) {
            Ok(model) => r matches Ok(d) && d@ == model,
            Err(reason) => r matches Err(e) && e == reason,
        },
{
    let chars = to_chars(original);
    let comma = to_chars(",");
    let rest = match split_once(chars.as_slice(), comma.as_slice()) {
        Some((_, rest)) => trim(rest.as_slice()),
        None => {
            return Err(DescriptionError::MissingComma);
        },
    };
    let (tag, clause) = match split_once(rest.as_slice(), comma.as_slice()) {
        Some((tag, clause)) => (trim(tag.as_slice()), clause),
        None => {
            return Err(DescriptionError::MissingComma);
        },
    };
    if tag.len() < 2 {
        return Err(DescriptionError::ShortClassType);
    }
    let taught_by = to_chars("taught by");
    let separator = to_chars(", ");
    let clause = remove_all(clause.as_slice(), taught_by.as_slice());
    let clause = trim(clause.as_slice());
    let names = split(clause.as_slice(), separator.as_slice());
    if names.len() % 2 != 0 {
        return Err(DescriptionError::UnpairedName);
    }
    let class_type = copy_range(tag.as_slice(), 1, tag.len() - 1);
    let ghost paired = paired_names(names.deep_view());
    let mut instructors: Vec<String> = Vec::new();
    let mut k: usize = 0;
    while k < names.len() / 2
        invariant
            k <= names.len() / 2,
            paired == paired_names(names.deep_view()),
            instructors.deep_view() == paired.take(k as int),
        decreases names.len() / 2 - k,
    {
        let mut name: Vec<char> = Vec::new();
        append(&mut name, names[2 * k + 1].as_slice());
        name.push(' ');
        append(&mut name, names[2 * k].as_slice());
        let name = to_string(name.as_slice());
        assert(name@ == paired[k as int]);
        instructors.push(name);
        assert(paired.take(k + 1) == paired.take(k as int).push(paired[k as int]));
        k += 1;
    }
    assert(paired.take(paired.len() as int) == paired);
    Ok(ParsedDescription { class_type: to_string(class_type.as_slice()), instructors })
}

/// Rewrites the description `original` as `Class Type: <class type> |
/// Professor(s): <First Last, ...>`, or says why `original` cannot be read.
pub fn translate_description(original: &str) -> (r: Result<String, DescriptionError>)
    ensures
        match translated(original@) {
            Ok(text) => r matches Ok(t) && t@ == text,
            Err(reason) => r matches Err(e) && e == reason,
        },
{
    match parse_description(original) {
        Ok(d) => Ok(d.format()),
        Err(e) => Err(e),
    }
}

/// Whether `s` holds at least two commas.
pub open spec fn has_two_commas(s: Seq<char>) -> bool {
    exists|i: int, j: int| 0 <= i < j < s.len() && s[i] == ',' && s[j] == ','
}

/// A comma stands at position `i` of `s` exactly when the character there is a
/// comma.
proof fn lemma_comma_at(s: Seq<char>, i: int)
    ensures
        occurs_at(s, ","@, i) <==> 0 <= i < s.len() && s[i] == ',',
{
    reveal_strlit(",");
    if 0 <= i < s.len() {
        assert(s.subrange(i, i + 1)[0] == s[i]);
        if s[i] == ',' {
            assert(s.subrange(i, i + 1) =~= ","@);
        }
    }
}

/// A description fails for want of a comma exactly when it holds fewer than two
/// commas. It is then neither read nor rewritten.
pub proof fn lemma_missing_comma(s: Seq<char>)
    ensures
        parsed(s) matches Err(DescriptionError::MissingComma) <==> !has_two_commas(s),
        translated(s) matches Err(DescriptionError::MissingComma) <==> !has_two_commas(s),
{
    let comma = ","@;
    lemma_first_occurrence(s, comma);
    match first_occurrence(s, comma) {
        None => {
            if has_two_commas(s) {
                let (i, j) = choose|i: int, j: int|
                    0 <= i < j < s.len() && s[i] == ',' && s[j] == ',';
                lemma_comma_at(s, i);
            }
        },
        Some(i) => {
            reveal_strlit(",");
            lemma_comma_at(s, i);
            let rest = s.skip(i + 1);
            let (a, b) = lemma_trimmed(rest);
            let inner = trimmed(rest);
            lemma_first_occurrence(inner, comma);
            match first_occurrence(inner, comma) {
                None => {
                    if has_two_commas(s) {
                        let (p, q) = choose|p: int, q: int|
                            0 <= p < q < s.len() && s[p] == ',' && s[q] == ',';
                        if p < i {
                            lemma_comma_at(s, p);
                        }
                        let k = q - i - 1;
                        assert(rest[k] == ',');
                        lemma_comma_at(inner, k - a);
                    }
                },
                Some(j) => {
                    lemma_comma_at(inner, j);
                },
            }
        },
    }
}

} // verus!
