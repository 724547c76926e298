use opds_catalog::collation::{fb2cmp, fb2sort, is_cyrillic, sorted};
use std::cmp::Ordering;

fn strings(items: &[&str]) -> Vec<String> {
    items.iter().map(|s| String::from(*s)).collect()
}

#[test]
fn test_sorted_1_and_0() {
    let vec = vec![String::from("b"), String::from("")];
    let exp = vec![String::from(""), String::from("b")];
    assert_eq!(sorted(vec), exp);
}

#[test]
fn test_sorted_1_and_1() {
    let vec = vec![String::from("b"), String::from("a")];
    let exp = vec![String::from("a"), String::from("b")];
    assert_eq!(sorted(vec), exp);
}

#[test]
fn test_sorted_2_and_1() {
    let vec = vec![String::from("ab"), String::from("a")];
    let exp = vec![String::from("a"), String::from("ab")];
    assert_eq!(sorted(vec), exp);
}

#[test]
fn test_sorted_1_and_2() {
    let vec = vec![String::from("b"), String::from("ac")];
    let exp = vec![String::from("ac"), String::from("b")];
    assert_eq!(sorted(vec), exp);
}

#[test]
fn test_sorted_2_and_2() {
    let vec = vec![String::from("ab"), String::from("aa")];
    let exp = vec![String::from("aa"), String::from("ab")];
    assert_eq!(sorted(vec), exp);
}

#[test]
fn test_sorted_cyr_and_ascii_1() {
    let vec = vec![String::from("a"), String::from("я")];
    let exp = vec![String::from("я"), String::from("a")];
    assert_eq!(sorted(vec), exp);
}

#[test]
fn test_sorted_cyr_and_ascii_2() {
    let vec = vec![String::from("aя"), String::from("яя")];
    let exp = vec![String::from("яя"), String::from("aя")];
    assert_eq!(sorted(vec), exp);
}

#[test]
fn test_sorted_cyr_lc() {
    let vec = vec![String::from("яя"), String::from("ая")];
    let exp = vec![String::from("ая"), String::from("яя")];
    assert_eq!(sorted(vec), exp);
}

#[test]
fn test_sorted_cyr_uc() {
    let vec = vec![String::from("ЫЫ"), String::from("АЫ")];
    let exp = vec![String::from("АЫ"), String::from("ЫЫ")];
    assert_eq!(sorted(vec), exp);
}

#[test]
fn test_sorted_cyr_mc() {
    let vec = vec![String::from("Ыа"), String::from("АЫ")];
    let exp = vec![String::from("АЫ"), String::from("Ыа")];
    assert_eq!(sorted(vec), exp);
}

#[test]
fn test_sorted_cyr_case_1() {
    let vec = vec![String::from("Кя"), String::from("Ка")];
    let exp = vec![String::from("Ка"), String::from("Кя")];
    assert_eq!(sorted(vec), exp);
}

#[test]
fn test_sorted_cyr_case_2() {
    let vec = vec![
        String::from("Дви"),
        String::from("Дво"),
        String::from("Дву"),
        String::from("Два"),
    ];
    let exp = vec![
        String::from("Два"),
        String::from("Дви"),
        String::from("Дво"),
        String::from("Дву"),
    ];
    assert_eq!(sorted(vec), exp);
}

#[test]
fn cyrillic_table_holds_both_cases_and_yo() {
    for ch in "АБВГДЕЁЖЗИЙКЛМНОПРСТУФХЦЧШЩЪЫЬЭЮЯ".chars() {
        assert!(is_cyrillic(&ch));
    }
    for ch in "абвгдеёжзийклмнопрстуфхцчшщъыьэюя".chars() {
        assert!(is_cyrillic(&ch));
    }
    for ch in ['a', 'Z', '0', '-', 'é', 'Ѐ', 'ѐ', 'Ђ', 'ђ', 'Џ', 'ѝ', 'Ѡ', '中'] {
        assert!(!is_cyrillic(&ch));
    }
}

#[test]
fn characters_compare_by_rank_then_code_point() {
    assert_eq!(fb2cmp(&'a', &'я'), Ordering::Greater);
    assert_eq!(fb2cmp(&'я', &'a'), Ordering::Less);
    assert_eq!(fb2cmp(&'я', &'é'), Ordering::Less);
    assert_eq!(fb2cmp(&'é', &'Я'), Ordering::Greater);
    assert_eq!(fb2cmp(&'я', &'Ѐ'), Ordering::Less);
    assert_eq!(fb2cmp(&'中', &'ё'), Ordering::Greater);
    assert_eq!(fb2cmp(&'a', &'é'), Ordering::Less);
    assert_eq!(fb2cmp(&'é', &'a'), Ordering::Greater);
    assert_eq!(fb2cmp(&'é', &'ü'), Ordering::Less);
    assert_eq!(fb2cmp(&'~', &'Ѐ'), Ordering::Less);
    assert_eq!(fb2cmp(&'A', &'a'), Ordering::Less);
    assert_eq!(fb2cmp(&'Я', &'а'), Ordering::Less);
    assert_eq!(fb2cmp(&'Ё', &'А'), Ordering::Less);
    assert_eq!(fb2cmp(&'ё', &'я'), Ordering::Greater);
    assert_eq!(fb2cmp(&'ж', &'ж'), Ordering::Equal);
    assert_eq!(fb2cmp(&'-', &'-'), Ordering::Equal);
}

#[test]
fn a_name_equals_itself() {
    for name in ["", "a", "Иванов", "Smith-Ёж", "中文"] {
        let name = String::from(name);
        assert_eq!(fb2sort(&name, &name), Ordering::Equal);
    }
}

#[test]
fn swapping_the_names_inverts_the_order() {
    let names = strings(&["", "a", "ab", "b", "я", "Я", "яя", "aя", "é", "Иванов", "Иваньков"]);
    for a in &names {
        for b in &names {
            let forth = fb2sort(a, b);
            let back = fb2sort(b, a);
            assert_eq!(forth, back.reverse());
            assert_eq!(forth == Ordering::Equal, a == b);
        }
    }
}

#[test]
fn the_empty_name_lists_first() {
    let empty = String::new();
    assert_eq!(fb2sort(&empty, &empty), Ordering::Equal);
    assert_eq!(fb2sort(&empty, &String::from("a")), Ordering::Less);
    assert_eq!(fb2sort(&String::from("я"), &empty), Ordering::Greater);
}

#[test]
fn a_prefix_lists_before_its_extensions() {
    assert_eq!(fb2sort(&String::from("Иван"), &String::from("Иванов")), Ordering::Less);
    assert_eq!(fb2sort(&String::from("Иванов"), &String::from("Иван")), Ordering::Greater);
}

#[test]
fn a_cyrillic_letter_lists_before_any_other_character() {
    for other in ["Xa", "Xz", "X0", "Xé", "X中", "X-"] {
        for cyr in ["Xя", "XЯ", "Xё", "XА"] {
            assert_eq!(fb2sort(&String::from(cyr), &String::from(other)), Ordering::Less);
            assert_eq!(fb2sort(&String::from(other), &String::from(cyr)), Ordering::Greater);
        }
    }
}

#[test]
fn sorted_keeps_every_name_it_was_given() {
    let given = strings(&["b", "я", "a", "я", "", "Б", "é", "a"]);
    let listed = sorted(given);
    assert_eq!(listed, strings(&["", "Б", "я", "я", "a", "a", "b", "é"]));
}

#[test]
fn sorted_of_nothing_is_nothing() {
    assert_eq!(sorted(Vec::new()), Vec::<String>::new());
}
