use course_ics::summary::translate_summary;

#[test]
fn the_course_number_moves_behind_the_course_name() {
    assert_eq!(
        translate_summary("101 Intro to Widgets"),
        Some(String::from("Intro to Widgets 101"))
    );
    assert_eq!(
        translate_summary("250 Data Structures"),
        Some(String::from("Data Structures 250"))
    );
}

#[test]
fn a_summary_without_a_space_is_not_reordered() {
    assert_eq!(translate_summary("101"), None);
    assert_eq!(translate_summary(""), None);
    assert_eq!(translate_summary("Intro\tto"), None);
}

#[test]
fn only_the_first_space_counts() {
    assert_eq!(translate_summary(" 101"), Some(String::from("101 ")));
    assert_eq!(translate_summary("101 "), Some(String::from(" 101")));
    assert_eq!(translate_summary("101  Intro"), Some(String::from(" Intro 101")));
    assert_eq!(translate_summary(" "), Some(String::from(" ")));
}

#[test]
fn reordering_twice_gives_a_one_word_name_back() {
    for s in ["101 Widgets", "CS250 Algorithms", "x y"] {
        let once = translate_summary(s).unwrap();
        assert_eq!(translate_summary(&once), Some(String::from(s)));
    }
}

#[test]
fn reordering_again_moves_the_first_word_of_the_name() {
    let once = translate_summary("101 Intro to Widgets").unwrap();
    assert_eq!(once, "Intro to Widgets 101");
    assert_eq!(translate_summary(&once), Some(String::from("to Widgets 101 Intro")));
}
