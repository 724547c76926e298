use opds_catalog::navigator::{
    decide, same_ignoring_case, search_by_mask, split_candidates, step, Navigator, Step,
};

fn strings(items: &[&str]) -> Vec<String> {
    items.iter().map(|s| String::from(*s)).collect()
}

fn fetcher(mask: &String) -> anyhow::Result<Vec<String>> {
    let out = match mask.as_str() {
        "A" => vec!["A", "Ab", "Ac"],
        "B" => vec!["B", "BB"],
        "BB" => vec!["BBB"],
        "BBB" => vec!["BBBB"],
        "BBBB" => vec!["BBBB"],
        "C" => vec!["CC", "cc"],
        "CC" => vec!["CCC", "ccc"],
        "CCC" => vec!["CCC", "ccc"],
        "ccc" => vec!["ccc"],
        _ => vec![],
    };
    if out.is_empty() {
        Err(anyhow::Error::msg(format!("Unexpected mask '{mask}'")))
    } else {
        Ok(out.into_iter().map(|s| String::from(s)).collect())
    }
}

/// The distinct prefixes one character longer than `prefix` among the names
/// of `store` that begin with `prefix`, and `prefix` itself where it is one
/// of the names.
fn bucket_prefixes(store: &[&str], prefix: &String) -> Vec<String> {
    let length = prefix.chars().count() + 1;
    let mut out: Vec<String> = Vec::new();
    for name in store {
        if name.starts_with(prefix.as_str()) {
            let bucket: String = name.chars().take(length).collect();
            if !out.contains(&bucket) {
                out.push(bucket);
            }
        }
    }
    out
}

#[test]
fn test_a() -> anyhow::Result<()> {
    let (exact, tail) = search_by_mask("A", fetcher)?;
    assert_eq!(
        vec!["A"],
        exact.iter().map(|a| a.as_str()).collect::<Vec<_>>()
    );
    assert_eq!(
        vec!["Ab", "Ac"],
        tail.iter().map(|a| a.as_str()).collect::<Vec<_>>()
    );
    Ok(())
}

#[test]
fn test_b() -> anyhow::Result<()> {
    let empty: Vec<&str> = Vec::new();
    let (exact, tail) = search_by_mask("B", fetcher)?;
    assert_eq!(
        vec!["B", "BBBB"],
        exact.iter().map(|a| a.as_str()).collect::<Vec<_>>()
    );
    assert_eq!(empty, tail.iter().map(|a| a.as_str()).collect::<Vec<_>>());
    Ok(())
}

#[test]
fn test_c() -> anyhow::Result<()> {
    let empty: Vec<&str> = Vec::new();
    let (exact, tail) = search_by_mask("C", fetcher)?;
    assert_eq!(
        vec!["CCC", "ccc"],
        exact.iter().map(|a| a.as_str()).collect::<Vec<_>>()
    );
    assert_eq!(empty, tail.iter().map(|a| a.as_str()).collect::<Vec<_>>());
    Ok(())
}

#[test]
fn case_variants_are_offered_where_the_policy_is_off() {
    let navigator = Navigator::new(false);
    let found = navigator.resolve("C", fetcher).unwrap();
    assert_eq!(found.exact, Vec::<String>::new());
    assert_eq!(found.continuations, strings(&["CC", "cc"]));
}

#[test]
fn case_variants_are_followed_where_the_policy_is_on() {
    let navigator = Navigator::new(true);
    let found = navigator.resolve("C", fetcher).unwrap();
    assert_eq!(found.exact, strings(&["CCC", "ccc"]));
    assert_eq!(found.continuations, Vec::<String>::new());
}

#[test]
fn both_policies_agree_where_no_candidates_differ_in_case_only() {
    for collapse in [false, true] {
        let navigator = Navigator::new(collapse);
        let found = navigator.resolve("A", fetcher).unwrap();
        assert_eq!(found.exact, strings(&["A"]));
        assert_eq!(found.continuations, strings(&["Ab", "Ac"]));
        let found = navigator.resolve("B", fetcher).unwrap();
        assert_eq!(found.exact, strings(&["B", "BBBB"]));
        assert_eq!(found.continuations, Vec::<String>::new());
    }
}

#[test]
fn a_failure_of_the_oracle_is_handed_back() {
    let failed = search_by_mask("Z", fetcher);
    assert_eq!(failed.unwrap_err().to_string(), "Unexpected mask 'Z'");
    let navigator = Navigator::new(false);
    let failed = navigator.resolve("", fetcher);
    assert_eq!(failed.err().unwrap().to_string(), "Unexpected mask ''");
}

#[test]
fn a_failure_in_a_later_round_is_handed_back() {
    let oracle = |mask: &String| -> Result<Vec<String>, String> {
        match mask.as_str() {
            "a" => Ok(strings(&["a", "ab"])),
            other => Err(format!("no answer for {other}")),
        }
    };
    let failed = search_by_mask("a", oracle);
    assert_eq!(failed, Err(String::from("no answer for ab")));
}

#[test]
fn two_names_under_one_letter_are_offered_from_the_empty_mask() {
    let store = ["Aa", "Ab"];
    let oracle = |mask: &String| -> Result<Vec<String>, String> { Ok(bucket_prefixes(&store, mask)) };
    for collapse in [false, true] {
        let found = Navigator::new(collapse).resolve("", oracle).unwrap();
        assert_eq!(found.exact, Vec::<String>::new());
        assert_eq!(found.continuations, strings(&["Aa", "Ab"]));
    }
}

#[test]
fn a_chain_without_choice_is_walked_to_its_end() {
    let store = ["B", "BBBB"];
    let oracle = |mask: &String| -> Result<Vec<String>, String> { Ok(bucket_prefixes(&store, mask)) };
    for collapse in [false, true] {
        let found = Navigator::new(collapse).resolve("B", oracle).unwrap();
        assert_eq!(found.exact, strings(&["B", "BBBB"]));
        assert_eq!(found.continuations, Vec::<String>::new());
    }
}

#[test]
fn an_exact_oracle_keeps_names_of_another_case_apart() {
    let store = ["CCC", "ccc"];
    let oracle = |mask: &String| -> Result<Vec<String>, String> { Ok(bucket_prefixes(&store, mask)) };
    for collapse in [false, true] {
        let found = Navigator::new(collapse).resolve("C", oracle).unwrap();
        assert_eq!(found.exact, strings(&["CCC"]));
        assert_eq!(found.continuations, Vec::<String>::new());
    }
    let found = Navigator::new(false).resolve("", oracle).unwrap();
    assert_eq!(found.exact, Vec::<String>::new());
    assert_eq!(found.continuations, strings(&["C", "c"]));
    let found = Navigator::new(true).resolve("", oracle).unwrap();
    assert_eq!(found.exact, strings(&["CCC"]));
    assert_eq!(found.continuations, Vec::<String>::new());
}

#[test]
fn surnames_are_narrowed_letter_by_letter() {
    let store = ["Иванов", "Иваньков", "Петров"];
    let oracle = |mask: &String| -> Result<Vec<String>, String> { Ok(bucket_prefixes(&store, mask)) };
    let navigator = Navigator::new(false);

    let found = navigator.resolve("", oracle).unwrap();
    assert_eq!(found.exact, Vec::<String>::new());
    assert_eq!(found.continuations, strings(&["И", "П"]));

    let found = navigator.resolve("Ив", oracle).unwrap();
    assert_eq!(found.exact, Vec::<String>::new());
    assert_eq!(found.continuations, strings(&["Ивано", "Ивань"]));

    let found = navigator.resolve("Иванов", oracle).unwrap();
    assert_eq!(found.exact, strings(&["Иванов"]));
    assert_eq!(found.continuations, Vec::<String>::new());

    let found = navigator.resolve("П", oracle).unwrap();
    assert_eq!(found.exact, strings(&["Петров"]));
    assert_eq!(found.continuations, Vec::<String>::new());
}

#[test]
fn surnames_in_buckets_of_two_letters_and_of_whole_names() {
    let oracle = |mask: &String| -> Result<Vec<String>, String> {
        match mask.as_str() {
            "" => Ok(strings(&["Ив", "Пе"])),
            "Ив" => Ok(strings(&["Иванов", "Иваньков"])),
            "Иванов" => Ok(strings(&["Иванов"])),
            other => Err(format!("no bucket for {other}")),
        }
    };
    let navigator = Navigator::new(false);

    let found = navigator.resolve("", oracle).unwrap();
    assert_eq!(found.exact, Vec::<String>::new());
    assert_eq!(found.continuations, strings(&["Ив", "Пе"]));

    let found = navigator.resolve("Ив", oracle).unwrap();
    assert_eq!(found.exact, Vec::<String>::new());
    assert_eq!(found.continuations, strings(&["Иванов", "Иваньков"]));

    let found = navigator.resolve("Иванов", oracle).unwrap();
    assert_eq!(found.exact, strings(&["Иванов"]));
    assert_eq!(found.continuations, Vec::<String>::new());
}

#[test]
fn the_root_mask_is_never_offered() {
    let store = ["A", "Aa", "Ab", "B"];
    let oracle = |mask: &String| -> Result<Vec<String>, String> { Ok(bucket_prefixes(&store, mask)) };
    for root in ["", "A", "Aa", "B"] {
        let found = Navigator::new(true).resolve(root, oracle).unwrap();
        assert!(!found.continuations.contains(&String::from(root)));
    }
    let found = Navigator::new(true).resolve("A", oracle).unwrap();
    assert_eq!(found.exact, strings(&["A"]));
    assert_eq!(found.continuations, strings(&["Aa", "Ab"]));
}

#[test]
fn candidates_part_into_the_mask_and_the_rest() {
    let mask = String::from("Ab");
    let (exact, tail) = split_candidates(&mask, strings(&["Aa", "Ab", "Ac", "Ab", "ab"]));
    assert_eq!(exact, strings(&["Ab", "Ab"]));
    assert_eq!(tail, strings(&["Aa", "Ac", "ab"]));
    let (exact, tail) = split_candidates(&mask, Vec::new());
    assert!(exact.is_empty());
    assert!(tail.is_empty());
}

#[test]
fn the_rule_of_a_round() {
    assert!(matches!(decide(Vec::new(), false), Step::Resolved));
    assert!(matches!(decide(Vec::new(), true), Step::Resolved));
    match decide(strings(&["Ab"]), false) {
        Step::Descend(next) => assert_eq!(next, "Ab"),
        _ => panic!("a single candidate is followed"),
    }
    match decide(strings(&["Ab", "aB"]), true) {
        Step::Descend(next) => assert_eq!(next, "Ab"),
        _ => panic!("two candidates that count as one are followed"),
    }
    match decide(strings(&["Ab", "aB"]), false) {
        Step::Offer(tail) => assert_eq!(tail, strings(&["Ab", "aB"])),
        _ => panic!("two candidates are offered"),
    }
    match decide(strings(&["Ab", "aB", "AB"]), true) {
        Step::Offer(tail) => assert_eq!(tail, strings(&["Ab", "aB", "AB"])),
        _ => panic!("three candidates are offered"),
    }
}

#[test]
fn one_round() {
    let mask = String::from("C");
    let (exact, next) = step(&mask, strings(&["C", "CC", "cc"]), true);
    assert_eq!(exact, strings(&["C"]));
    match next {
        Step::Descend(next) => assert_eq!(next, "CC"),
        _ => panic!("case variants are followed"),
    }
    let (exact, next) = step(&mask, strings(&["C", "CC", "cc"]), false);
    assert_eq!(exact, strings(&["C"]));
    match next {
        Step::Offer(tail) => assert_eq!(tail, strings(&["CC", "cc"])),
        _ => panic!("case variants are offered"),
    }
    let (exact, next) = step(&mask, strings(&["CC", "cd"]), true);
    assert!(exact.is_empty());
    match next {
        Step::Offer(tail) => assert_eq!(tail, strings(&["CC", "cd"])),
        _ => panic!("different names are offered"),
    }
}

#[test]
fn names_that_differ_in_case_only() {
    assert!(same_ignoring_case(&String::from("CC"), &String::from("cc")));
    assert!(same_ignoring_case(&String::from("Ёж"), &String::from("ёЖ")));
    assert!(!same_ignoring_case(&String::from("CC"), &String::from("cd")));
    assert!(!same_ignoring_case(&String::from("CC"), &String::from("c")));
}
