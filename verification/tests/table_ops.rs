use word_table::CustomError;
use word_table::Table;
use word_table::WordTable;

#[test]
fn add_fresh_word_finds_exactly_one() {
    let mut t = WordTable::new();
    let r = t.add_word("hello", &3);
    match r {
        Ok(row) => {
            assert_eq!(row.word, "hello");
            assert_eq!(row.count, 3);
        }
        Err(_) => panic!("adding a fresh word must succeed"),
    }
    let rows = t.dump_word_table(-1);
    assert_eq!(rows.len(), 1);
    assert_eq!(rows[0].word, "hello");
    assert_eq!(rows[0].count, 3);
}

#[test]
fn add_same_word_twice_fails_with_add_error() {
    let mut t = WordTable::new();
    assert!(t.add_word("dog", &2).is_ok());
    let r = t.add_word("dog", &5);
    match r {
        Err(CustomError::AddError(w, c)) => {
            assert_eq!(w, "dog");
            assert_eq!(c, 5);
        }
        _ => panic!("the second add of the same word must fail with the add error"),
    }
    let rows = t.dump_word_table(-1);
    assert_eq!(rows.len(), 2);
    assert_eq!(rows[0].word, "dog");
    assert_eq!(rows[1].word, "dog");
}

#[test]
fn add_word_contained_in_stored_word_fails() {
    let mut t = WordTable::new();
    assert!(t.add_word("category", &1).is_ok());
    let r = t.add_word("cat", &1);
    match r {
        Err(CustomError::AddError(w, c)) => {
            assert_eq!(w, "cat");
            assert_eq!(c, 1);
        }
        _ => panic!("adding a word contained in a stored word must fail"),
    }
    assert_eq!(t.dump_word_table(-1).len(), 2);
}

#[test]
fn search_is_exact_within_the_page() {
    let mut t = WordTable::new();
    assert!(t.add_word("category", &9).is_ok());
    assert!(t.search_word("cat").is_none());
    assert!(t.search_word("category").is_some());
}

#[test]
fn search_misses_a_word_beyond_row_five() {
    let mut t = WordTable::new();
    for (w, c) in [
        ("alpha", 1),
        ("bravo", 2),
        ("charlie", 3),
        ("delta", 4),
        ("echo", 5),
        ("foxtrot", 6),
    ] {
        assert!(t.add_word(w, &c).is_ok());
    }
    assert_eq!(t.dump_word_table(-1).len(), 6);
    assert!(t.search_word("foxtrot").is_none());
    match t.search_word("echo") {
        Some(row) => {
            assert_eq!(row.word, "echo");
            assert_eq!(row.count, 5);
        }
        None => panic!("the fifth row is still within the searched page"),
    }
    match t.search_word("alpha") {
        Some(row) => {
            assert_eq!(row.word, "alpha");
            assert_eq!(row.count, 1);
        }
        None => panic!("a word within the first five rows must be found"),
    }
}

#[test]
fn search_returns_first_of_duplicate_words() {
    let mut t = WordTable::new();
    assert!(t.add_word("x", &1).is_ok());
    assert!(t.add_word("x", &2).is_err());
    match t.search_word("x") {
        Some(row) => assert_eq!(row.count, 1),
        None => panic!("a stored word within the page must be found"),
    }
}

#[test]
fn dump_respects_the_limit() {
    let mut t = WordTable::new();
    assert!(t.add_word("one", &1).is_ok());
    assert!(t.add_word("two", &2).is_ok());
    assert!(t.add_word("three", &3).is_ok());
    assert_eq!(t.dump_word_table(2).len(), 2);
    assert!(t.dump_word_table(0).is_empty());
    assert_eq!(t.dump_word_table(10).len(), 3);
    let all = t.dump_word_table(-1);
    assert_eq!(all.len(), 3);
    assert_eq!(all[0].word, "one");
    assert_eq!(all[1].word, "two");
    assert_eq!(all[2].word, "three");
}

#[test]
fn delete_removes_every_substring_match() {
    let mut t = WordTable::new();
    assert!(t.add_word("cat", &1).is_ok());
    assert!(t.add_word("category", &2).is_ok());
    assert!(t.add_word("dog", &3).is_ok());
    assert!(t.del_word("cat").is_ok());
    let rows = t.dump_word_table(-1);
    assert_eq!(rows.len(), 1);
    assert_eq!(rows[0].word, "dog");
}

#[test]
fn delete_of_an_absent_word_still_succeeds() {
    let mut t = WordTable::new();
    assert!(t.add_word("keep", &1).is_ok());
    assert!(t.del_word("nothing-like-this").is_ok());
    let rows = t.dump_word_table(-1);
    assert_eq!(rows.len(), 1);
    assert_eq!(rows[0].word, "keep");
}

#[test]
fn delete_of_the_empty_word_clears_the_table() {
    let mut t = WordTable::new();
    assert!(t.add_word("a", &1).is_ok());
    assert!(t.add_word("b", &2).is_ok());
    assert!(t.del_word("").is_ok());
    assert!(t.dump_word_table(-1).is_empty());
}

#[test]
fn edit_of_an_absent_word_fails_and_changes_nothing() {
    let mut t = WordTable::new();
    assert!(t.add_word("alpha", &1).is_ok());
    let r = t.edit_word("zeta", 9);
    match r {
        Err(CustomError::EditError(w, c)) => {
            assert_eq!(w, "zeta");
            assert_eq!(c, 9);
        }
        _ => panic!("editing an absent word must fail with the edit error"),
    }
    let rows = t.dump_word_table(-1);
    assert_eq!(rows.len(), 1);
    assert_eq!(rows[0].word, "alpha");
    assert_eq!(rows[0].count, 1);
}

#[test]
fn edit_verification_accepts_a_substring_accident() {
    // The verification re-read matches by substring: editing "cat" when
    // only "category" is stored reports success whenever that single
    // match already carries the new count, though no row was updated.
    let mut t = WordTable::new();
    assert!(t.add_word("category", &2).is_ok());
    assert!(t.edit_word("cat", 2).is_ok());
    let rows = t.dump_word_table(-1);
    assert_eq!(rows.len(), 1);
    assert_eq!(rows[0].word, "category");
    assert_eq!(rows[0].count, 2);
}

#[test]
fn edit_with_several_substring_matches_updates_then_fails() {
    let mut t = WordTable::new();
    assert!(t.add_word("cat", &1).is_ok());
    assert!(t.add_word("category", &5).is_ok());
    let r = t.edit_word("cat", 7);
    match r {
        Err(CustomError::EditError(w, c)) => {
            assert_eq!(w, "cat");
            assert_eq!(c, 7);
        }
        _ => panic!("an edit whose re-read selects two rows must fail"),
    }
    let rows = t.dump_word_table(-1);
    assert_eq!(rows.len(), 2);
    assert_eq!(rows[0].word, "cat");
    assert_eq!(rows[0].count, 7);
    assert_eq!(rows[1].word, "category");
    assert_eq!(rows[1].count, 5);
}

#[test]
fn add_search_edit_delete_round_trip() {
    let mut t = WordTable::new();
    assert!(t.add_word("x", &1).is_ok());
    match t.search_word("x") {
        Some(row) => {
            assert_eq!(row.word, "x");
            assert_eq!(row.count, 1);
        }
        None => panic!("the added word must be found"),
    }
    assert!(t.edit_word("x", 2).is_ok());
    match t.search_word("x") {
        Some(row) => {
            assert_eq!(row.word, "x");
            assert_eq!(row.count, 2);
        }
        None => panic!("the edited word must be found"),
    }
    assert!(t.del_word("x").is_ok());
    assert!(t.search_word("x").is_none());
}

#[test]
fn scan_page_returns_the_first_exact_match() {
    let rows = vec![
        Table { word: String::from("aa"), count: 1 },
        Table { word: String::from("bb"), count: 2 },
        Table { word: String::from("bb"), count: 3 },
    ];
    match word_table::table::scan_page(&rows, "bb") {
        Some(row) => assert_eq!(row.count, 2),
        None => panic!("an exact match in the given rows must be found"),
    }
    assert!(word_table::table::scan_page(&rows, "b").is_none());
}

#[test]
fn check_add_and_check_edit_decide_on_the_loaded_rows() {
    let one = vec![Table { word: String::from("tea"), count: 4 }];
    match word_table::table::check_add(one, "tea", &4) {
        Ok(row) => {
            assert_eq!(row.word, "tea");
            assert_eq!(row.count, 4);
        }
        Err(_) => panic!("one loaded row means the add is confirmed"),
    }
    let none: Vec<Table> = Vec::new();
    assert!(word_table::table::check_add(none, "tea", &4).is_err());
    let wrong_count = vec![Table { word: String::from("tea"), count: 9 }];
    assert!(word_table::table::check_edit(&wrong_count, "tea", 4).is_err());
    let right_count = vec![Table { word: String::from("tea"), count: 4 }];
    assert!(word_table::table::check_edit(&right_count, "tea", 4).is_ok());
}

#[test]
fn substring_containment_matches_inner_runs() {
    assert!(word_table::substring::str_contains("category", "cat"));
    assert!(word_table::substring::str_contains("category", "egor"));
    assert!(word_table::substring::str_contains("category", "category"));
    assert!(word_table::substring::str_contains("category", ""));
    assert!(!word_table::substring::str_contains("cat", "category"));
    assert!(!word_table::substring::str_contains("category", "tac"));
    assert!(word_table::substring::str_contains("h\u{e9}llo", "\u{e9}ll"));
}
