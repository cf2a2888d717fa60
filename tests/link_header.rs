use canvas_scraper::link::parse_next_link;

#[test]
fn finds_next_among_several_relations() {
    let h = "<https://c.edu/api/v1/courses?page=1>; rel=\"current\",<https://c.edu/api/v1/courses?page=2>; rel=\"next\",<https://c.edu/api/v1/courses?page=1>; rel=\"first\"";
    assert_eq!(parse_next_link(h), Some("https://c.edu/api/v1/courses?page=2".to_string()));
}

#[test]
fn blanks_around_entries_are_allowed() {
    let h = "<https://c.edu/a>; rel=\"prev\",  <https://c.edu/b> ;  rel=\"next\" ";
    assert_eq!(parse_next_link(h), Some("https://c.edu/b".to_string()));
}

#[test]
fn first_next_entry_wins() {
    let h = "<https://c.edu/1>; rel=\"next\", <https://c.edu/2>; rel=\"next\"";
    assert_eq!(parse_next_link(h), Some("https://c.edu/1".to_string()));
}

#[test]
fn other_relations_are_ignored() {
    assert_eq!(parse_next_link("<https://c.edu/a>; rel=\"prev\""), None);
    assert_eq!(parse_next_link("<https://c.edu/a>; rel=\"nextpage\""), None);
    assert_eq!(parse_next_link("<https://c.edu/a>; rel=next"), None);
    assert_eq!(parse_next_link("<https://c.edu/a>; rel=\"Next\""), None);
}

#[test]
fn extra_parameters_are_not_an_exact_match() {
    assert_eq!(parse_next_link("<https://c.edu/a>; rel=\"next\"; title=\"more\""), None);
}

#[test]
fn malformed_entries_are_ignored() {
    assert_eq!(parse_next_link(""), None);
    assert_eq!(parse_next_link("garbage"), None);
    assert_eq!(parse_next_link("https://c.edu/a; rel=\"next\""), None);
    assert_eq!(parse_next_link("<https://c.edu/a; rel=\"next\""), None);
    assert_eq!(parse_next_link(",,,"), None);
}

#[test]
fn malformed_entry_before_a_good_one() {
    let h = "junk; rel=\"next\", <https://c.edu/b>; rel=\"next\"";
    assert_eq!(parse_next_link(h), Some("https://c.edu/b".to_string()));
}

#[test]
fn empty_target_is_returned_as_written() {
    assert_eq!(parse_next_link("<>; rel=\"next\""), Some(String::new()));
}
