use xlsx2csv::{filter_names, FilterError};

fn names(list: &[&str]) -> Vec<String> {
    list.iter().map(|name| name.to_string()).collect()
}

fn pattern(text: &str) -> Option<String> {
    Some(text.to_string())
}

#[test]
fn exclude_pattern_takes_out_what_the_include_pattern_let_in() {
    let sheets = names(&["Sheet1", "Data", "SheetX"]);
    let kept = filter_names(&sheets, &pattern("Sheet"), &pattern("X"), false).unwrap();
    assert_eq!(kept, ["Sheet1"]);
}

#[test]
fn include_pattern_alone_keeps_what_it_matches() {
    let sheets = names(&["Sheet1", "Data", "SheetX"]);
    let kept = filter_names(&sheets, &pattern("Sheet"), &None, false).unwrap();
    assert_eq!(kept, ["Sheet1", "SheetX"]);
}

#[test]
fn exclude_pattern_alone_keeps_what_it_does_not_match() {
    let sheets = names(&["Sheet1", "Data", "SheetX"]);
    let kept = filter_names(&sheets, &None, &pattern("Sheet"), false).unwrap();
    assert_eq!(kept, ["Data"]);
}

#[test]
fn no_pattern_keeps_every_name_in_order() {
    let sheets = names(&["b", "a", "c", "a"]);
    let kept = filter_names(&sheets, &None, &None, false).unwrap();
    assert_eq!(kept, sheets);
}

#[test]
fn exclude_pattern_cannot_bring_back_what_was_not_let_in() {
    let sheets = names(&["Sheet1", "Data", "SheetX"]);
    let kept = filter_names(&sheets, &pattern("^S"), &pattern("^D"), false).unwrap();
    assert_eq!(kept, ["Sheet1", "SheetX"]);
    let none = filter_names(&sheets, &pattern("^Z"), &pattern("^Z"), false).unwrap();
    assert!(none.is_empty());
}

#[test]
fn case_counts_unless_it_is_to_be_ignored() {
    let sheets = names(&["Sheet1", "DATA", "sheetx"]);
    let exact = filter_names(&sheets, &pattern("sheet"), &pattern("data"), false).unwrap();
    assert_eq!(exact, ["sheetx"]);
    let loose = filter_names(&sheets, &pattern("SHEET"), &pattern("X"), true).unwrap();
    assert_eq!(loose, ["Sheet1"]);
    let all_gone = filter_names(&sheets, &None, &pattern("[a-z]"), true).unwrap();
    assert!(all_gone.is_empty());
}

#[test]
fn patterns_are_regular_expressions() {
    let sheets = names(&["ab", "Sheet", "x1", "2024-01", "10"]);
    let kept = filter_names(&sheets, &pattern(r"\S{3,}"), &pattern("Sheet"), false).unwrap();
    assert_eq!(kept, ["2024-01"]);
    let digits = filter_names(&sheets, &pattern(r"^\d+$"), &None, false).unwrap();
    assert_eq!(digits, ["10"]);
}

#[test]
fn include_pattern_that_is_no_regular_expression_is_refused() {
    let sheets = names(&["Sheet1"]);
    let refused = filter_names(&sheets, &pattern("("), &None, false).unwrap_err();
    assert!(matches!(refused, FilterError::Include(regex::Error::Syntax(_))));
}

#[test]
fn exclude_pattern_that_is_no_regular_expression_is_refused() {
    let sheets = names(&["Sheet1"]);
    let refused = filter_names(&sheets, &pattern("Data"), &pattern("[a"), false).unwrap_err();
    assert!(matches!(refused, FilterError::Exclude(regex::Error::Syntax(_))));
}

#[test]
fn include_pattern_is_tried_before_the_exclude_pattern() {
    let sheets = names(&["Sheet1"]);
    let refused = filter_names(&sheets, &pattern("("), &pattern(")"), true).unwrap_err();
    assert!(matches!(refused, FilterError::Include(_)));
}

#[test]
fn patterns_are_tried_even_without_names() {
    let none: Vec<String> = Vec::new();
    assert!(matches!(
        filter_names(&none, &pattern("*"), &None, false),
        Err(FilterError::Include(_))
    ));
    assert!(matches!(
        filter_names(&none, &None, &pattern("*"), false),
        Err(FilterError::Exclude(_))
    ));
    assert!(filter_names(&none, &pattern("a"), &pattern("b"), false)
        .unwrap()
        .is_empty());
}

#[test]
fn filter_agrees_with_the_expressions_built_once() {
    let sheets = names(&["Alpha", "beta", "Gamma 2", "delta_3", "", "ALPHA"]);
    for (wanted, unwanted, ignore_case) in [
        ("a", "2", false),
        ("A", "^$", true),
        ("^[A-Z]", "a$", false),
        ("", "alpha", true),
        (r"\d", r"\s", false),
    ] {
        let wanted_regex = regex::RegexBuilder::new(wanted)
            .case_insensitive(ignore_case)
            .build()
            .unwrap();
        let unwanted_regex = regex::RegexBuilder::new(unwanted)
            .case_insensitive(ignore_case)
            .build()
            .unwrap();
        let expected: Vec<String> = sheets
            .iter()
            .filter(|name| wanted_regex.is_match(name))
            .filter(|name| !unwanted_regex.is_match(name))
            .cloned()
            .collect();
        let kept = filter_names(&sheets, &pattern(wanted), &pattern(unwanted), ignore_case);
        assert_eq!(kept.unwrap(), expected);
    }
}
