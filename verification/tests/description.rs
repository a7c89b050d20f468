use course_ics::description::{
    parse_description, translate_description, DescriptionError, ParsedDescription,
};

#[test]
fn class_type_and_instructors_are_rewritten() {
    assert_eq!(
        translate_description("REG,[LEC],taught by Smith, Jane, Doe, John"),
        Ok(String::from("Class Type: LEC | Professor(s): Jane Smith, John Doe"))
    );
    assert_eq!(
        translate_description("REG,[LEC],taught by Doe, John"),
        Ok(String::from("Class Type: LEC | Professor(s): John Doe"))
    );
}

#[test]
fn parse_description_tells_class_type_and_instructors() {
    assert_eq!(
        parse_description("REG,[LAB],taught by Smith, Jane, Doe, John"),
        Ok(ParsedDescription {
            class_type: String::from("LAB"),
            instructors: vec![String::from("Jane Smith"), String::from("John Doe")],
        })
    );
}

#[test]
fn fewer_than_two_commas_fail() {
    assert_eq!(translate_description("no commas here"), Err(DescriptionError::MissingComma));
    assert_eq!(translate_description("one, comma"), Err(DescriptionError::MissingComma));
    assert_eq!(translate_description(""), Err(DescriptionError::MissingComma));
    assert_eq!(translate_description("REG,   "), Err(DescriptionError::MissingComma));
    assert_eq!(parse_description("REG[LEC]taught by Doe"), Err(DescriptionError::MissingComma));
}

#[test]
fn a_class_type_of_fewer_than_two_characters_fails() {
    for s in ["REG,,taught by Doe, John", "REG,L,taught by Doe, John", "REG, [ ,taught by Doe, John"] {
        assert_eq!(translate_description(s), Err(DescriptionError::ShortClassType), "{:?}", s);
    }
}

#[test]
fn a_last_name_without_a_first_name_fails() {
    assert_eq!(
        translate_description("REG,[LEC],taught by Smith"),
        Err(DescriptionError::UnpairedName)
    );
    assert_eq!(
        translate_description("REG,[LEC],taught by Smith, Jane, Doe"),
        Err(DescriptionError::UnpairedName)
    );
    assert_eq!(translate_description("REG,[LEC],taught by"), Err(DescriptionError::UnpairedName));
    assert_eq!(translate_description("REG,[LEC],"), Err(DescriptionError::UnpairedName));
}

#[test]
fn the_class_type_is_checked_before_the_names() {
    assert_eq!(
        translate_description("REG,L,taught by Smith"),
        Err(DescriptionError::ShortClassType)
    );
}

#[test]
fn the_class_type_loses_its_first_and_last_character() {
    assert_eq!(
        translate_description("REG,(LEC),taught by Doe, John"),
        Ok(String::from("Class Type: LEC | Professor(s): John Doe"))
    );
    assert_eq!(
        translate_description("REG,[],taught by Doe, John"),
        Ok(String::from("Class Type:  | Professor(s): John Doe"))
    );
    assert_eq!(
        translate_description("REG, [LEC] ,taught by Doe, John"),
        Ok(String::from("Class Type: LEC | Professor(s): John Doe"))
    );
    assert_eq!(
        translate_description("REG,[é越],taught by Doe, John"),
        Ok(String::from("Class Type: é越 | Professor(s): John Doe"))
    );
}

#[test]
fn what_stands_before_the_first_comma_is_dropped() {
    assert_eq!(
        translate_description(",[SEM],taught by Doe, John"),
        Ok(String::from("Class Type: SEM | Professor(s): John Doe"))
    );
    assert_eq!(
        translate_description("anything at all,   [SEM],taught by Doe, John"),
        Ok(String::from("Class Type: SEM | Professor(s): John Doe"))
    );
}

#[test]
fn taught_by_is_taken_out_wherever_it_stands() {
    assert_eq!(
        translate_description("REG,[LEC],Doe, John taught by"),
        Ok(String::from("Class Type: LEC | Professor(s): John Doe"))
    );
    assert_eq!(
        translate_description("REG,[LEC],   taught by    Doe, John   "),
        Ok(String::from("Class Type: LEC | Professor(s): John Doe"))
    );
    assert_eq!(
        translate_description("REG,[LEC],Doe,taught by John"),
        Ok(String::from("Class Type: LEC | Professor(s): John Doe"))
    );
}

#[test]
fn names_are_cut_at_comma_and_space_only() {
    assert_eq!(
        translate_description("REG,[LEC],taught by Smith,Jane, Doe,John"),
        Ok(String::from("Class Type: LEC | Professor(s): Doe,John Smith,Jane"))
    );
    assert_eq!(
        translate_description("REG,[LEC],taught by van der Berg, Anna Maria"),
        Ok(String::from("Class Type: LEC | Professor(s): Anna Maria van der Berg"))
    );
    assert_eq!(
        translate_description("REG,[LEC],taught by , "),
        Err(DescriptionError::UnpairedName)
    );
    assert_eq!(
        translate_description("REG,[LEC],taught by x, , y, z"),
        Ok(String::from("Class Type: LEC | Professor(s):  x, z y"))
    );
}

#[test]
fn format_writes_class_type_and_instructors() {
    let d = ParsedDescription {
        class_type: String::from("LEC"),
        instructors: vec![String::from("Jane Smith"), String::from("John Doe")],
    };
    assert_eq!(d.format(), "Class Type: LEC | Professor(s): Jane Smith, John Doe");
    let nobody = ParsedDescription { class_type: String::from("LAB"), instructors: vec![] };
    assert_eq!(nobody.format(), "Class Type: LAB | Professor(s): ");
}
