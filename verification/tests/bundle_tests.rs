use speller_pool::bundle::language_of;

#[test]
fn language_is_the_part_before_the_first_dot() {
    assert_eq!(language_of("se.zhfst").unwrap(), "se");
    assert_eq!(language_of("sme.bhfst").unwrap(), "sme");
    assert_eq!(language_of("a.b.c").unwrap(), "a");
}

#[test]
fn name_without_a_dot_is_taken_whole() {
    assert_eq!(language_of("nodot").unwrap(), "nodot");
}

#[test]
fn leading_dot_gives_the_empty_language() {
    assert_eq!(language_of(".hidden").unwrap(), "");
}

#[test]
fn multibyte_language_names_survive() {
    assert_eq!(language_of("sm\u{e5}.zhfst").unwrap(), "sm\u{e5}");
}
