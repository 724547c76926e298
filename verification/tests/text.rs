use opds_catalog::text::{chars_of, decimal_string, replace_char};

#[test]
fn numbers_are_written_in_decimal() {
    assert_eq!(decimal_string(0), "0");
    assert_eq!(decimal_string(7), "7");
    assert_eq!(decimal_string(10), "10");
    assert_eq!(decimal_string(109), "109");
    assert_eq!(decimal_string(1000), "1000");
    assert_eq!(decimal_string(749883), "749883");
    assert_eq!(decimal_string(4294967295), "4294967295");
    for n in [1u32, 9, 11, 99, 100, 101, 65535, 65536, 999999999, 1000000000, 4294967294] {
        assert_eq!(decimal_string(n), n.to_string());
    }
}

#[test]
fn a_text_is_its_characters() {
    assert_eq!(chars_of(""), Vec::<char>::new());
    assert_eq!(chars_of("fb2"), vec!['f', 'b', '2']);
    assert_eq!(chars_of("Ёж-1"), vec!['Ё', 'ж', '-', '1']);
    for text in ["", "a", "Иванов", "中文 and more"] {
        assert_eq!(chars_of(text), text.chars().collect::<Vec<char>>());
    }
}

#[test]
fn every_occurrence_of_a_character_is_replaced() {
    assert_eq!(replace_char("/opds/authors", '/', ':'), ":opds:authors");
    assert_eq!(replace_char("", '/', ':'), "");
    assert_eq!(replace_char("//", '/', ':'), "::");
    assert_eq!(replace_char("no slash", '/', ':'), "no slash");
    assert_eq!(replace_char("a:b/c", '/', ':'), "a:b:c");
    assert_eq!(replace_char("Ёж/ёж", 'ж', 'Ж'), "ЁЖ/ёЖ");
    assert_eq!(replace_char("/opds/a", '/', ':'), "/opds/a".replace("/", ":"));
}
