//! The buildings of the campus and their codes.

use crate::text::{same_chars, to_chars};
use vstd::prelude::*;
use vstd::string::StringExecFns;

verus! {

/// The buildings that have a code: each full name with its code.
pub open spec fn building_table() -> Seq<(Seq<char>, Seq<char>)> {
    seq![
        ("Engineering and Science Ctr"@, "ENS"@),
        ("Health Sciences Center"@, "HSC"@),
        ("Ctr for Bib and Theo Studies"@, "BTS"@),
        ("Milner"@, "MIL"@),
        ("Scharnberg Bus and Comm Center"@, "SBCC"@),
        ("Callan Athletic Center"@, "CAL"@),
        ("Tyler Digital Comm Center"@, "TYL"@),
        ("Apple Technology Resource Ctr"@, "APP"@),
    ]
}

/// The code that the first entry of `table` named `name` gives, if there is
/// such an entry.
pub open spec fn lookup(table: Seq<(Seq<char>, Seq<char>)>, name: Seq<char>) -> Option<Seq<char>>
    decreases table.len(),
{
    if table.len() == 0 {
        None
    } else if table.first().0 == name {
        Some(table.first().1)
    } else {
        lookup(table.drop_first(), name)
    }
}

/// The code of the building named `name`, if it has one.
pub open spec fn building_code(name: Seq<char>) -> Option<Seq<char>> {
    lookup(building_table(), name)
}

/// What stands for the building named `name` in a rewritten location: its
/// code, or the name itself where it has no code.
pub open spec fn building_label(name: Seq<char>) -> Seq<char> {
    match building_code(name) {
        Some(code) => code,
        None => name,
    }
}

/// The buildings that have a code: each full name with its code.
pub fn buildings() -> (entries: Vec<(&'static str, &'static str)>)
    ensures
        entries.deep_view() == building_table(),
{
    let entries = vec![
        ("Engineering and Science Ctr", "ENS"),
        ("Health Sciences Center", "HSC"),
        ("Ctr for Bib and Theo Studies", "BTS"),
        ("Milner", "MIL"),
        ("Scharnberg Bus and Comm Center", "SBCC"),
        ("Callan Athletic Center", "CAL"),
        ("Tyler Digital Comm Center", "TYL"),
        ("Apple Technology Resource Ctr", "APP"),
    ];
    entries
}

/// The code that the first entry of `entries` named `name` gives, or nothing
/// where no entry has that name.
pub fn find_code<'a>(entries: &[(&'a str, &'a str)], name: &str) -> (r: Option<&'a str>)
    ensures
        r.deep_view() == lookup(entries.deep_view(), name@),
{
    let wanted = to_chars(name);
    let ghost table = entries.deep_view();
    let mut i: usize = 0;
    assert(table.skip(0) == table);
    while i < entries.len()
        invariant
            i <= entries.len(),
            wanted@ == name@,
            table == entries.deep_view(),
            lookup(table, name@) == lookup(table.skip(i as int), name@),
        decreases entries.len() - i,
    {
        let (full_name, code) = entries[i];
        let candidate = to_chars(full_name);
        if same_chars(candidate.as_slice(), wanted.as_slice()) {
            return Some(code);
        }
        assert(table.skip(i as int).drop_first() == table.skip(i + 1));
        i += 1;
    }
    None
}

/// The line that tells a reader that the building named `name` has no code.
pub open spec fn miss_text(name: Seq<char>) -> Seq<char> {
    "Unable to find acronym for building "@ + name + "."@
}

/// The line that tells a reader that the building named `original` has no
/// code. It is due whenever `translate_building` finds none.
pub fn miss_message(original: &str) -> (r: String)
    ensures
        r@ == miss_text(original@),
{
    let mut r = String::from_str("Unable to find acronym for building ");
    r.append(original);
    r.append(".");
    r
}

/// The code of the building named `original`, or nothing where the building
/// has no code. It writes nothing: `miss_message` gives the line that is due
/// where there is no code.
pub fn translate_building(original: &str) -> (r: Option<&'static str>)
    ensures
        r.deep_view() == building_code(original@),
{
    let entries = buildings();
    find_code(entries.as_slice(), original)
}

/// No two entries of the table have the same name.
pub proof fn lemma_names_differ()
    ensures
        forall|i: int, j: int|
            0 <= i < j < building_table().len() ==> building_table()[i].0 != building_table()[j].0,
{
    reveal_strlit("Engineering and Science Ctr");
    reveal_strlit("Health Sciences Center");
    reveal_strlit("Ctr for Bib and Theo Studies");
    reveal_strlit("Milner");
    reveal_strlit("Scharnberg Bus and Comm Center");
    reveal_strlit("Callan Athletic Center");
    reveal_strlit("Tyler Digital Comm Center");
    reveal_strlit("Apple Technology Resource Ctr");
    let table = building_table();
    assert(table[1].0.len() == 22 && table[1].0[0] == 'H');
    assert(table[2].0.len() == 28);
    assert(table[3].0.len() == 6);
    assert(table[4].0.len() == 30);
    assert(table[5].0.len() == 22 && table[5].0[0] == 'C');
    assert(table[6].0.len() == 25);
    assert(table[7].0.len() == 29);
}

/// Looking up a name gives the code of the first entry with that name.
proof fn lemma_lookup_first(table: Seq<(Seq<char>, Seq<char>)>, i: int)
    requires
        0 <= i < table.len(),
        forall|j: int| 0 <= j < i ==> table[j].0 != table[i].0,
    ensures
        lookup(table, table[i].0) == Some(table[i].1),
    decreases i,
{
    if i > 0 {
        let rest = table.drop_first();
        lemma_lookup_first(rest, i - 1);
    }
}

/// Looking up a name that no entry has gives nothing.
proof fn lemma_lookup_absent(table: Seq<(Seq<char>, Seq<char>)>, name: Seq<char>)
    requires
        forall|j: int| 0 <= j < table.len() ==> table[j].0 != name,
    ensures
        lookup(table, name) is None,
    decreases table.len(),
{
    if table.len() > 0 {
        let rest = table.drop_first();
        lemma_lookup_absent(rest, name);
    }
}

/// Every building of the table has the code that its entry gives, and that
/// code stands for it in a rewritten location.
pub proof fn lemma_known_building(i: int)
    requires
        0 <= i < building_table().len(),
    ensures
        building_code(building_table()[i].0) == Some(building_table()[i].1),
        building_label(building_table()[i].0) == building_table()[i].1,
{
    lemma_names_differ();
    lemma_lookup_first(building_table(), i);
}

/// A building that the table does not name has no code, and its name stands
/// unchanged in a rewritten location.
pub proof fn lemma_unknown_building(name: Seq<char>)
    requires
        forall|i: int| 0 <= i < building_table().len() ==> building_table()[i].0 != name,
    ensures
        building_code(name) is None,
        building_label(name) == name,
{
    lemma_lookup_absent(building_table(), name);
}

} // verus!
