use course_ics::building::{buildings, find_code, miss_message, translate_building};

#[test]
fn every_building_of_the_table_has_its_code() {
    assert_eq!(translate_building("Engineering and Science Ctr"), Some("ENS"));
    assert_eq!(translate_building("Health Sciences Center"), Some("HSC"));
    assert_eq!(translate_building("Ctr for Bib and Theo Studies"), Some("BTS"));
    assert_eq!(translate_building("Milner"), Some("MIL"));
    assert_eq!(translate_building("Scharnberg Bus and Comm Center"), Some("SBCC"));
    assert_eq!(translate_building("Callan Athletic Center"), Some("CAL"));
    assert_eq!(translate_building("Tyler Digital Comm Center"), Some("TYL"));
    assert_eq!(translate_building("Apple Technology Resource Ctr"), Some("APP"));
}

#[test]
fn the_table_agrees_with_the_lookup() {
    let table = buildings();
    assert_eq!(table.len(), 8);
    for (name, code) in table {
        assert_eq!(translate_building(name), Some(code));
    }
}

#[test]
fn no_two_buildings_share_a_name() {
    let table = buildings();
    for i in 0..table.len() {
        for j in (i + 1)..table.len() {
            assert_ne!(table[i].0, table[j].0);
        }
    }
}

#[test]
fn a_building_outside_the_table_has_no_code() {
    assert_eq!(translate_building("Unknown Hall"), None);
    assert_eq!(translate_building(""), None);
    assert_eq!(translate_building("milner"), None);
    assert_eq!(translate_building("Milner "), None);
    assert_eq!(translate_building("Milne"), None);
    assert_eq!(translate_building("ENS"), None);
}

#[test]
fn find_code_reads_any_table() {
    let table = [("North Hall", "NH"), ("South Hall", "SH"), ("North Hall", "N2")];
    assert_eq!(find_code(&table, "North Hall"), Some("NH"));
    assert_eq!(find_code(&table, "South Hall"), Some("SH"));
    assert_eq!(find_code(&table, "East Hall"), None);
    assert_eq!(find_code(&table, "Milner"), None);
    assert_eq!(find_code(&[], "North Hall"), None);
}

#[test]
fn the_line_for_a_building_without_a_code_names_it() {
    assert_eq!(miss_message("Unknown Hall"), "Unable to find acronym for building Unknown Hall.");
    assert_eq!(miss_message(""), "Unable to find acronym for building .");
}
