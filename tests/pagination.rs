use canvas_scraper::cursor::{CursorStep, PaginatedList};
use serde_json::Value;

/// Drives a cursor to its end against canned pages, keyed by URL: each page
/// is its `Link` header and its body, `None` for a body standing for a failed fetch.
fn drain(cursor: &mut PaginatedList, pages: &[(&str, Option<&str>, Option<&str>)]) -> (Vec<Value>, Vec<String>) {
    let mut items = Vec::new();
    let mut fetched = Vec::new();
    loop {
        match cursor.next_step() {
            CursorStep::Item(v) => items.push(v),
            CursorStep::Fetch(url) => {
                fetched.push(url.clone());
                let page = pages.iter().find(|p| p.0 == url).expect("unknown page");
                cursor.receive_page(page.1, page.2);
            }
            CursorStep::Finished => return (items, fetched),
        }
    }
}

const P1: &str = "https://canvas.example.edu/api/v1/courses";
const P2: &str = "https://canvas.example.edu/api/v1/courses?page=2";

#[test]
fn two_pages_yield_three_items_in_order() {
    let mut c = PaginatedList::new(P1.to_string());
    let pages = [
        (P1, Some("<https://canvas.example.edu/api/v1/courses?page=2>; rel=\"next\""), Some("[1, 2]")),
        (P2, None, Some("[3]")),
    ];
    let (items, fetched) = drain(&mut c, &pages);
    assert_eq!(items, vec![Value::from(1), Value::from(2), Value::from(3)]);
    assert_eq!(fetched, vec![P1.to_string(), P2.to_string()]);
    assert!(c.is_finished());
    assert!(!c.ended_by_failure());
}

#[test]
fn pages_are_fetched_only_on_demand() {
    let mut c = PaginatedList::new(P1.to_string());
    assert!(matches!(c.next_step(), CursorStep::Fetch(ref u) if u == P1));
    c.receive_page(Some("<https://canvas.example.edu/api/v1/courses?page=2>; rel=\"next\""), Some("[1, 2]"));
    assert!(matches!(c.next_step(), CursorStep::Item(ref v) if *v == Value::from(1)));
    assert!(matches!(c.next_step(), CursorStep::Item(ref v) if *v == Value::from(2)));
    assert!(matches!(c.next_step(), CursorStep::Fetch(ref u) if u == P2));
}

#[test]
fn single_object_page_is_one_item() {
    let mut c = PaginatedList::new(P1.to_string());
    let pages = [(P1, None, Some("{\"id\": 7, \"name\": \"Algebra\"}"))];
    let (items, _) = drain(&mut c, &pages);
    assert_eq!(items.len(), 1);
    assert_eq!(items[0]["id"], Value::from(7));
    assert_eq!(items[0]["name"], Value::from("Algebra"));
    assert!(c.is_finished());
}

#[test]
fn failed_first_fetch_yields_nothing() {
    let mut c = PaginatedList::new(P1.to_string());
    let pages = [(P1, None, None)];
    let (items, fetched) = drain(&mut c, &pages);
    assert!(items.is_empty());
    assert_eq!(fetched.len(), 1);
    assert!(c.is_finished());
    assert!(c.ended_by_failure());
}

#[test]
fn unparseable_body_ends_the_sequence() {
    let mut c = PaginatedList::new(P1.to_string());
    let pages = [(P1, Some("<https://canvas.example.edu/api/v1/courses?page=2>; rel=\"next\""), Some("not json"))];
    let (items, fetched) = drain(&mut c, &pages);
    assert!(items.is_empty());
    assert_eq!(fetched, vec![P1.to_string()]);
    assert!(c.ended_by_failure());
}

#[test]
fn exhausted_cursor_stays_exhausted() {
    let mut c = PaginatedList::new(P1.to_string());
    let pages = [(P1, None, Some("[1]"))];
    let (items, _) = drain(&mut c, &pages);
    assert_eq!(items.len(), 1);
    for _ in 0..5 {
        assert!(matches!(c.next_step(), CursorStep::Finished));
    }
    assert!(c.is_finished());
}

#[test]
fn empty_array_page_without_next_ends() {
    let mut c = PaginatedList::new(P1.to_string());
    let pages = [(P1, None, Some("[]"))];
    let (items, _) = drain(&mut c, &pages);
    assert!(items.is_empty());
    assert!(!c.ended_by_failure());
}

#[test]
fn empty_array_page_with_next_goes_on() {
    let mut c = PaginatedList::new(P1.to_string());
    let pages = [
        (P1, Some("<https://canvas.example.edu/api/v1/courses?page=2>; rel=\"next\""), Some("[]")),
        (P2, None, Some("[\"x\"]")),
    ];
    let (items, _) = drain(&mut c, &pages);
    assert_eq!(items, vec![Value::from("x")]);
}

#[test]
fn non_next_relation_does_not_continue() {
    let mut c = PaginatedList::new(P1.to_string());
    let pages = [(P1, Some("<https://canvas.example.edu/api/v1/courses?page=2>; rel=\"prev\""), Some("[1]"))];
    let (items, fetched) = drain(&mut c, &pages);
    assert_eq!(items, vec![Value::from(1)]);
    assert_eq!(fetched.len(), 1);
}

#[test]
fn next_link_that_is_not_a_url_ends() {
    let mut c = PaginatedList::new(P1.to_string());
    let pages = [(P1, Some("<not a url>; rel=\"next\""), Some("[1]"))];
    let (items, fetched) = drain(&mut c, &pages);
    assert_eq!(items, vec![Value::from(1)]);
    assert_eq!(fetched.len(), 1);
    assert!(!c.ended_by_failure());
}

#[test]
fn accept_page_appends_items() {
    let mut c = PaginatedList::new(P1.to_string());
    assert!(matches!(c.next_step(), CursorStep::Fetch(_)));
    c.accept_page(None, Some(vec![Value::from(4), Value::from(5)]));
    assert!(matches!(c.next_step(), CursorStep::Item(ref v) if *v == Value::from(4)));
    assert!(matches!(c.next_step(), CursorStep::Item(ref v) if *v == Value::from(5)));
    assert!(matches!(c.next_step(), CursorStep::Finished));
}

#[test]
fn page_naming_itself_as_next_ends() {
    let mut c = PaginatedList::new(P1.to_string());
    let pages = [(P1, Some("<https://canvas.example.edu/api/v1/courses>; rel=\"next\""), Some("[1, 2]"))];
    let (items, fetched) = drain(&mut c, &pages);
    assert_eq!(items, vec![Value::from(1), Value::from(2)]);
    assert_eq!(fetched, vec![P1.to_string()]);
    assert!(c.is_finished());
}

#[test]
fn non_array_values_are_single_items() {
    for body in ["7", "null", "\"text\"", "true"] {
        let mut c = PaginatedList::new(P1.to_string());
        let pages = [(P1, None, Some(body))];
        let (items, _) = drain(&mut c, &pages);
        assert_eq!(items, vec![serde_json::from_str::<Value>(body).unwrap()]);
        assert!(c.is_finished());
    }
}

#[test]
fn nested_array_elements_are_kept_whole() {
    let mut c = PaginatedList::new(P1.to_string());
    let pages = [(P1, None, Some("[[1, 2], {\"a\": 3}]"))];
    let (items, _) = drain(&mut c, &pages);
    assert_eq!(items.len(), 2);
    assert_eq!(items[0], serde_json::from_str::<Value>("[1, 2]").unwrap());
    assert_eq!(items[1]["a"], Value::from(3));
}
