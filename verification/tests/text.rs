use usaidwat::text::{convert_html_entities, RegexReplaceable};

#[test]
fn replace_all_matches_using_a_regex() {
    let before = String::from("I HAAAAAAAATE REGEXES!");
    let after = before.replace_all("(?i)ha+te", "LOVE");
    assert_eq!(after, "I LOVE REGEXES!");
}

#[test]
fn replace_all_works_even_if_needle_is_not_a_valid_regex() {
    let before = String::from("I HAAAAAAAATE REGEXES!");
    let after = before.replace_all("(?i)ha{?}te", "LOVE");
    assert_eq!(after, before);
}

#[test]
fn replace_all_replaces_fixed_strings() {
    let before = String::from("I HAAAAAAAATE REGEXES!");
    let after = before.replace_all("HAAAAAAAATE", "LOVE");
    assert_eq!(after, "I LOVE REGEXES!");
}

#[test]
fn invalid_regexes_are_replaced_as_fixed_strings() {
    let before = String::from("a{?} b a{?}");
    assert_eq!(before.replace_all("a{?}", "c"), "c b c");
}

#[test]
fn replace_all_uses_capture_groups() {
    let before = String::from("2025-05-28");
    assert_eq!(before.replace_all("(?<y>\\d+)-(?<m>\\d+)-(?<d>\\d+)", "$d/$m/$y"), "28/05/2025");
}

#[test]
fn html_entities_are_converted_and_trimmed() {
    assert_eq!(convert_html_entities("  Tom &amp; Jerry &gt; &lt;  "), "Tom & Jerry > <");
}
