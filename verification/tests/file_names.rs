use link_archive::slug::{file_name, file_name_for_slug};

#[test]
fn title_becomes_a_lower_case_slug_with_the_extension() {
    assert_eq!(file_name("Hello World"), "hello-world.org");
    assert_eq!(file_name("1000 reasons you are #1"), "1000-reasons-you-are-1.org");
}

#[test]
fn letters_outside_ascii_are_transliterated() {
    assert_eq!(file_name("Æúű--cool?"), "aeuu-cool.org");
    assert_eq!(file_name("影師嗎"), "ying-shi-ma.org");
}

#[test]
fn path_separators_do_not_reach_the_name() {
    let name = file_name("../etc/passwd \\ C:\\temp");
    assert_eq!(name, "etc-passwd-c-temp.org");
    assert!(!name.contains('/'));
    assert!(!name.contains('\\'));
}

#[test]
fn slug_is_cut_to_fifty_characters() {
    let title = "a".repeat(120);
    let name = file_name(&title);
    assert_eq!(name, format!("{}.org", "a".repeat(50)));
    assert_eq!(name.len(), 54);
}

#[test]
fn slug_of_fifty_characters_is_kept_whole() {
    let title = "b".repeat(50);
    assert_eq!(file_name(&title), format!("{}.org", title));
    let title = "b".repeat(51);
    assert_eq!(file_name(&title), format!("{}.org", "b".repeat(50)));
}

#[test]
fn cut_slug_may_end_in_a_hyphen() {
    let title = format!("{} tail", "c".repeat(49));
    assert_eq!(file_name(&title), format!("{}-.org", "c".repeat(49)));
}

#[test]
fn titles_that_agree_in_their_first_fifty_characters_collide() {
    let first = format!("{} one", "d".repeat(60));
    let second = format!("{} two", "d".repeat(60));
    assert_eq!(file_name(&first), file_name(&second));
}

#[test]
fn title_without_letters_or_digits_leaves_the_extension_alone() {
    assert_eq!(file_name("???"), ".org");
    assert_eq!(file_name(""), ".org");
}

#[test]
fn file_name_for_a_ready_slug_only_cuts_and_extends() {
    assert_eq!(file_name_for_slug("hello-world"), "hello-world.org");
    assert_eq!(file_name_for_slug(""), ".org");
    let slug = "e".repeat(77);
    assert_eq!(file_name_for_slug(&slug), format!("{}.org", "e".repeat(50)));
}
