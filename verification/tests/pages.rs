use pdf_images::error::AppError;
use pdf_images::pages::{pages_in_order, PageSelection};

fn reason(input: &str) -> String {
    match PageSelection::from_str(input) {
        Err(AppError::InvalidPageRange(reason)) => reason,
        other => panic!("{:?} was not refused as a page range: {:?}", input, other),
    }
}

fn selected(input: &str, limit: usize) -> Vec<usize> {
    let selection = PageSelection::from_str(input).expect("a valid page expression");
    (0..limit).filter(|page| selection.contains(*page)).collect()
}

#[test]
fn single_pages_and_ranges_are_counted_from_zero() {
    assert_eq!(selected("2,4-5", 10), vec![1, 3, 4]);
    assert_eq!(selected("1", 10), vec![0]);
    assert_eq!(selected("3-3", 10), vec![2]);
    assert_eq!(selected("1-10", 12), vec![0, 1, 2, 3, 4, 5, 6, 7, 8, 9]);
}

#[test]
fn pages_two_four_to_five_of_six() {
    let selection = PageSelection::from_str("2,4-5").unwrap();
    assert!(selection.validate(6).is_ok());
    assert_eq!(pages_in_order(&Some(selection), 6), vec![1, 3, 4]);
}

#[test]
fn repeated_and_overlapping_pages_count_once() {
    let selection = PageSelection::from_str("3,1-4,2,3-5,3").unwrap();
    assert_eq!(pages_in_order(&Some(selection), 8), vec![0, 1, 2, 3, 4]);
}

#[test]
fn order_of_tokens_does_not_matter() {
    assert_eq!(selected("5,1,3", 6), selected("1,3,5", 6));
    assert_eq!(selected("5,1,3", 6), vec![0, 2, 4]);
}

#[test]
fn white_space_around_tokens_is_ignored() {
    assert_eq!(selected(" 2 , 4 - 5 ", 10), vec![1, 3, 4]);
    assert_eq!(selected("\t1\n,\r\n3", 10), vec![0, 2]);
    assert_eq!(selected("\u{a0}2\u{3000},\u{2003}4\u{2028}-\u{85}5", 10), vec![1, 3, 4]);
}

#[test]
fn empty_tokens_are_skipped() {
    assert_eq!(selected("1,,3", 10), vec![0, 2]);
    assert_eq!(selected(",1,", 10), vec![0]);
    assert_eq!(selected(" , 2 , , ", 10), vec![1]);
}

#[test]
fn a_plus_sign_and_leading_zeros_are_read() {
    assert_eq!(selected("+2", 10), vec![1]);
    assert_eq!(selected("007", 10), vec![6]);
    assert_eq!(selected("+1-+3", 10), vec![0, 1, 2]);
}

#[test]
fn zero_is_refused() {
    assert_eq!(reason("0"), "page numbers must be 1 or greater");
    assert_eq!(reason("0-2"), "page numbers must be 1 or greater");
    assert_eq!(reason("2-0"), "page numbers must be 1 or greater");
    assert_eq!(reason("1,0"), "page numbers must be 1 or greater");
}

#[test]
fn a_token_that_is_no_number_is_named() {
    assert_eq!(reason("abc"), "invalid number: abc");
    assert_eq!(reason("1,x2"), "invalid number: x2");
    assert_eq!(reason(" 1 2 "), "invalid number: 1 2");
    assert_eq!(reason("1.5"), "invalid number: 1.5");
    assert_eq!(reason("+"), "invalid number: +");
    assert_eq!(reason("++1"), "invalid number: ++1");
    assert_eq!(reason("1_000"), "invalid number: 1_000");
    assert_eq!(reason("\u{663}"), "invalid number: \u{663}");
}

#[test]
fn the_ends_of_a_range_are_named_as_written() {
    assert_eq!(reason("a-3"), "invalid number: a");
    assert_eq!(reason("a - 3"), "invalid number: a ");
    assert_eq!(reason("3 - b"), "invalid number:  b");
    assert_eq!(reason("-5"), "invalid number: ");
    assert_eq!(reason("5-"), "invalid number: ");
    assert_eq!(reason("1-2-3"), "invalid number: 2-3");
    assert_eq!(reason("x-y"), "invalid number: x");
    assert_eq!(reason("0-y"), "invalid number: y");
}

#[test]
fn a_range_that_runs_backwards_is_refused() {
    assert_eq!(reason("5-2"), "invalid range: start (5) > end (2)");
    assert_eq!(reason("120 - 13"), "invalid range: start (120) > end (13)");
}

#[test]
fn an_expression_without_pages_is_refused() {
    assert_eq!(reason(""), "no valid pages specified");
    assert_eq!(reason("   "), "no valid pages specified");
    assert_eq!(reason(",,,"), "no valid pages specified");
    assert_eq!(reason(" , ,"), "no valid pages specified");
}

#[test]
fn the_first_bad_token_is_reported() {
    assert_eq!(reason("x,0,5-2"), "invalid number: x");
    assert_eq!(reason("1,0,x"), "page numbers must be 1 or greater");
    assert_eq!(reason("5-2,x"), "invalid range: start (5) > end (2)");
}

#[test]
fn numbers_beyond_the_machine_word_are_refused() {
    let max = usize::MAX.to_string();
    assert_eq!(selected(&max, 0), Vec::<usize>::new());
    assert!(PageSelection::from_str(&max).unwrap().contains(usize::MAX - 1));
    let beyond = format!("{}0", max);
    assert_eq!(reason(&beyond), format!("invalid number: {}", beyond));
    assert_eq!(
        reason("99999999999999999999999999999999999999999"),
        "invalid number: 99999999999999999999999999999999999999999"
    );
    assert_eq!(reason("18446744073709551616"), "invalid number: 18446744073709551616");
}

#[test]
fn a_range_holds_each_of_its_pages() {
    let selection = PageSelection::from_str("3-2000").unwrap();
    assert!(!selection.contains(1));
    assert!(selection.contains(2));
    assert!(selection.contains(1000));
    assert!(selection.contains(1999));
    assert!(!selection.contains(2000));
    assert_eq!(selection.highest(), 1999);
}

#[test]
fn page_nine_of_three_fails_only_against_the_document() {
    let selection = PageSelection::from_str("9").expect("the expression itself is valid");
    assert_eq!(
        selection.validate(3),
        Err(AppError::InvalidPageRange(
            "page 9 is out of range (document has 3 pages)".to_string()
        ))
    );
    assert_eq!(selection.validate(9), Ok(()));
    assert_eq!(
        selection.validate(8),
        Err(AppError::InvalidPageRange(
            "page 9 is out of range (document has 8 pages)".to_string()
        ))
    );
}

#[test]
fn validation_names_the_last_page_selected() {
    let selection = PageSelection::from_str("12,2-4,7").unwrap();
    assert_eq!(selection.highest(), 11);
    assert_eq!(
        selection.validate(5),
        Err(AppError::InvalidPageRange(
            "page 12 is out of range (document has 5 pages)".to_string()
        ))
    );
    assert_eq!(
        selection.validate(0),
        Err(AppError::InvalidPageRange(
            "page 12 is out of range (document has 0 pages)".to_string()
        ))
    );
    assert_eq!(selection.validate(12), Ok(()));
}

#[test]
fn without_a_selection_every_page_is_listed() {
    assert_eq!(pages_in_order(&None, 4), vec![0, 1, 2, 3]);
    assert_eq!(pages_in_order(&None, 0), Vec::<usize>::new());
}

#[test]
fn listed_pages_stop_at_the_document_end() {
    let selection = PageSelection::from_str("2-9").unwrap();
    assert_eq!(pages_in_order(&Some(selection), 4), vec![1, 2, 3]);
}

#[test]
fn white_space_and_digits_are_what_the_language_says_they_are() {
    let mut differing = Vec::new();
    let near = '\0'..='\u{ffff}';
    let far = ('\u{10000}'..=char::MAX).step_by(251);
    for c in near.chain(far) {
        let accepted = PageSelection::from_str(&format!("{}7{}", c, c)).is_ok();
        let expected = c.is_whitespace() || c == ',' || c.is_ascii_digit();
        if accepted != expected {
            differing.push(c);
        }
    }
    assert_eq!(differing, Vec::<char>::new());
}

#[test]
fn numbers_are_read_as_the_language_reads_them() {
    let texts = [
        "1", "12", "0012", "+5", "+0", "-5", "+", "", " 5", "5 ", "5a", "0x10", "1e3", "٣",
        "18446744073709551615", "18446744073709551616", "+18446744073709551615",
        "000000000000000000000000000018446744073709551615", "99999999999999999999",
    ];
    for text in texts.iter() {
        let expected = match text.parse::<usize>() {
            Ok(0) => Err("page numbers must be 1 or greater".to_string()),
            Ok(n) => Ok(n - 1),
            Err(_) if text.is_empty() => Err("no valid pages specified".to_string()),
            Err(_) if text.contains('-') => Err("invalid number: ".to_string()),
            Err(_) => Err(format!("invalid number: {}", text.trim())),
        };
        let found = match PageSelection::from_str(text) {
            Ok(selection) => Ok(selection.highest()),
            Err(AppError::InvalidPageRange(reason)) => Err(reason),
            Err(other) => panic!("{:?}", other),
        };
        if text.trim() == *text {
            assert_eq!(found, expected, "{:?}", text);
        } else {
            assert_eq!(found, Ok(4), "{:?}", text);
        }
    }
}
