use opds_catalog::listing::{compare_code_points, compare_keys, SortKey};
use std::cmp::Ordering;

fn name(text: &str) -> SortKey {
    SortKey::Name(String::from(text))
}

fn latest(text: &str) -> SortKey {
    SortKey::Latest(String::from(text))
}

#[test]
fn texts_compare_as_std_compares_them() {
    let texts = ["", "a", "ab", "b", "я", "Я", "é", "2023-02-24", "2023-02-23", "中"];
    for a in texts {
        for b in texts {
            assert_eq!(
                compare_code_points(&String::from(a), &String::from(b)),
                a.cmp(b),
                "{a} {b}"
            );
        }
    }
}

#[test]
fn names_compare_in_catalogue_order() {
    assert_eq!(compare_keys(&name("я"), &name("a")), Ordering::Less);
    assert_eq!(compare_keys(&name("a"), &name("я")), Ordering::Greater);
    assert_eq!(compare_keys(&name("a"), &name("a")), Ordering::Equal);
}

#[test]
fn numbers_compare_by_size() {
    assert_eq!(compare_keys(&SortKey::Number(1), &SortKey::Number(2)), Ordering::Less);
    assert_eq!(compare_keys(&SortKey::Number(10), &SortKey::Number(9)), Ordering::Greater);
    assert_eq!(compare_keys(&SortKey::Number(0), &SortKey::Number(0)), Ordering::Equal);
}

#[test]
fn the_latest_date_comes_first() {
    assert_eq!(compare_keys(&latest("2023-02-24"), &latest("2023-02-23")), Ordering::Less);
    assert_eq!(compare_keys(&latest("2022-12-31"), &latest("2023-01-01")), Ordering::Greater);
    assert_eq!(compare_keys(&latest("2023-02-24"), &latest("2023-02-24")), Ordering::Equal);
    assert_eq!(compare_keys(&latest("я"), &latest("a")), Ordering::Less);
}

#[test]
fn names_come_before_numbers_and_numbers_before_dates() {
    let keys = [name("z"), SortKey::Number(0), latest("a")];
    for (i, a) in keys.iter().enumerate() {
        for (j, b) in keys.iter().enumerate() {
            assert_eq!(compare_keys(a, b), i.cmp(&j));
        }
    }
}

#[test]
fn swapping_two_keys_inverts_their_order() {
    let keys = [
        name(""),
        name("я"),
        name("a"),
        SortKey::Number(3),
        SortKey::Number(4),
        latest("2023"),
        latest("2024"),
    ];
    for a in &keys {
        for b in &keys {
            assert_eq!(compare_keys(a, b), compare_keys(b, a).reverse());
        }
    }
}
