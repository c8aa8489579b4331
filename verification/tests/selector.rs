use xlsx2csv::SheetSelector;

fn names(list: &[&str]) -> Vec<String> {
    list.iter().map(|name| name.to_string()).collect()
}

#[test]
fn id_in_range_picks_the_name_at_that_position() {
    let sheets = names(&["Sheet1", "Data", "SheetX"]);
    for id in 0..sheets.len() {
        let found = SheetSelector::ById(id).find_in(&sheets);
        assert_eq!(found, Ok(&sheets[id]));
        assert!(std::ptr::eq(found.unwrap(), &sheets[id]));
    }
}

#[test]
fn id_at_the_number_of_sheets_is_out_of_range() {
    let sheets = names(&["Sheet1", "Data", "SheetX"]);
    let found = SheetSelector::ById(3).find_in(&sheets);
    assert_eq!(
        found,
        Err("sheet id `3` is not valid - only **3** sheets avaliable!".to_string())
    );
}

#[test]
fn id_far_beyond_the_sheets_is_out_of_range() {
    let sheets = names(&["only"]);
    let found = SheetSelector::ById(1234567890).find_in(&sheets);
    assert_eq!(
        found,
        Err("sheet id `1234567890` is not valid - only **1** sheets avaliable!".to_string())
    );
}

#[test]
fn any_id_is_out_of_range_without_sheets() {
    let sheets: Vec<String> = Vec::new();
    let found = SheetSelector::ById(0).find_in(&sheets);
    assert_eq!(
        found,
        Err("sheet id `0` is not valid - only **0** sheets avaliable!".to_string())
    );
}

#[test]
fn name_that_is_present_picks_itself() {
    let sheets = names(&["Sheet1", "Data", "SheetX"]);
    for name in &sheets {
        let found = SheetSelector::ByName(name.clone()).find_in(&sheets);
        assert_eq!(found, Ok(name));
    }
}

#[test]
fn name_that_occurs_twice_picks_the_first() {
    let sheets = names(&["a", "twin", "b", "twin"]);
    let found = SheetSelector::ByName("twin".to_string())
        .find_in(&sheets)
        .unwrap();
    assert!(std::ptr::eq(found, &sheets[1]));
}

#[test]
fn name_that_is_absent_is_answered_with_all_names() {
    let sheets = names(&["Sheet1", "Data", "SheetX"]);
    let found = SheetSelector::ByName("Nope".to_string()).find_in(&sheets);
    let message = found.unwrap_err();
    assert_eq!(message, "sheet name `Nope` is not in (Sheet1, Data, SheetX)");
    for name in &sheets {
        assert!(message.contains(name.as_str()));
    }
}

#[test]
fn name_is_absent_without_sheets() {
    let sheets: Vec<String> = Vec::new();
    let found = SheetSelector::ByName("x".to_string()).find_in(&sheets);
    assert_eq!(found, Err("sheet name `x` is not in ()".to_string()));
}

#[test]
fn name_is_compared_with_regard_to_case_and_space() {
    let sheets = names(&["Data"]);
    assert!(SheetSelector::ByName("data".to_string())
        .find_in(&sheets)
        .is_err());
    assert!(SheetSelector::ByName("Data ".to_string())
        .find_in(&sheets)
        .is_err());
    assert!(SheetSelector::ByName("Data".to_string())
        .find_in(&sheets)
        .is_ok());
}

fn parsed(word: &str) -> SheetSelector {
    SheetSelector::from_str(word).unwrap()
}

#[test]
fn word_of_digits_reads_as_an_id() {
    assert!(matches!(parsed("0"), SheetSelector::ById(0)));
    assert!(matches!(parsed("3"), SheetSelector::ById(3)));
    assert!(matches!(parsed("007"), SheetSelector::ById(7)));
    assert!(matches!(parsed("+12"), SheetSelector::ById(12)));
    assert!(matches!(parsed("4294967295"), SheetSelector::ById(4294967295)));
}

#[test]
fn largest_index_reads_as_an_id_and_the_next_number_as_a_name() {
    let largest = usize::MAX.to_string();
    assert!(matches!(parsed(&largest), SheetSelector::ById(usize::MAX)));
    let beyond = format!("{}0", largest);
    assert!(matches!(parsed(&beyond), SheetSelector::ByName(name) if name == beyond));
    let next = "18446744073709551616";
    if usize::MAX as u128 == u64::MAX as u128 {
        assert!(matches!(parsed(next), SheetSelector::ByName(name) if name == next));
    }
}

#[test]
fn any_other_word_reads_as_a_name() {
    for word in [
        "", "+", "-", "-1", "-0", "1a", "a1", " 1", "1 ", "++1", "1+", "Sheet1", "1.5", "0x10",
        "١٢", "é", "１",
    ] {
        assert!(
            matches!(parsed(word), SheetSelector::ByName(name) if name == word),
            "{:?}",
            word
        );
    }
}

#[test]
fn reading_agrees_with_the_standard_parse() {
    let words = [
        "", "0", "1", "42", "+42", "-42", "+", "-", "00", "+00", "9999999999999999999",
        "18446744073709551615", "18446744073709551616", "99999999999999999999999", "12 ", " 12",
        "1_000", "abc", "+a", "a+", "４２", "1\n",
    ];
    for word in words {
        match (word.parse::<usize>(), parsed(word)) {
            (Ok(expected), SheetSelector::ById(id)) => assert_eq!(id, expected, "{:?}", word),
            (Err(_), SheetSelector::ByName(name)) => assert_eq!(name, word),
            (expected, got) => panic!("{:?}: {:?} but {:?}", word, expected, got),
        }
    }
}

#[test]
fn sheet_named_like_a_number_is_not_reached_by_its_name() {
    let sheets = names(&["first", "3"]);
    let selector = parsed("3");
    assert!(matches!(selector, SheetSelector::ById(3)));
    assert_eq!(
        selector.find_in(&sheets),
        Err("sheet id `3` is not valid - only **2** sheets avaliable!".to_string())
    );
    assert_eq!(
        SheetSelector::ByName("3".to_string()).find_in(&sheets),
        Ok(&sheets[1])
    );
}

#[test]
fn selector_parses_through_the_standard_trait() {
    let by_id: SheetSelector = "2".parse().unwrap();
    assert!(matches!(by_id, SheetSelector::ById(2)));
    let by_name: SheetSelector = "Totals".parse().unwrap();
    assert!(matches!(by_name, SheetSelector::ByName(name) if name == "Totals"));
}

#[test]
fn clone_of_a_selector_says_the_same() {
    let by_id = SheetSelector::ById(5).clone();
    assert!(matches!(by_id, SheetSelector::ById(5)));
    let by_name = SheetSelector::ByName("Data".to_string()).clone();
    assert!(matches!(by_name, SheetSelector::ByName(name) if name == "Data"));
}
