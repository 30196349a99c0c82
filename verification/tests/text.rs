use ftlr::text::{join, str_eq_ignore_ascii_case};

#[test]
fn case_insensitive_comparison_of_ascii_letters() {
    assert!(str_eq_ignore_ascii_case("csv", "CSV"));
    assert!(str_eq_ignore_ascii_case("CsV", "cSv"));
    assert!(str_eq_ignore_ascii_case("", ""));
    assert!(!str_eq_ignore_ascii_case("csv", "csvx"));
    assert!(!str_eq_ignore_ascii_case("csv", "tsv"));
    assert!(!str_eq_ignore_ascii_case("é", "É"));
}

#[test]
fn join_puts_separator_between_neighbours_only() {
    let parts = vec!["km".to_string(), "price".to_string(), "x".to_string()];
    assert_eq!(join(&parts, ","), "km,price,x");
    assert_eq!(join(&vec!["solo".to_string()], ","), "solo");
    assert_eq!(join(&vec![], ","), "");
    assert_eq!(join(&vec!["a".to_string(), "".to_string()], ", "), "a, ");
}
