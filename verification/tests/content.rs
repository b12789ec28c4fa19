use cargocult::content::{select_body, NOT_FOUND, PAGE_FOUR, PAGE_ONE, PAGE_THREE, PAGE_TWO};
use cargocult::query::get_page;

#[test]
fn each_page_has_its_text() {
    assert_eq!(
        select_body("1"),
        "An Army of One: a lone WASM wakes, answers, vanishes—leaving only calm CPUs and happy ledgers."
    );
    assert_eq!(
        select_body("2"),
        "The Fly: edge-borne, it lands for a sip of bytes, lifts off before latency knows the name."
    );
    assert_eq!(
        select_body("3"),
        "Cargo Cult: no rites, no runes—just sockets; planes land where packets are expected."
    );
    assert_eq!(
        select_body("4"),
        "The Gunslinger: one shot, one header, one body; smoke clears, the 200 still stands."
    );
}

#[test]
fn constants_are_the_texts() {
    assert_eq!(select_body("1"), PAGE_ONE);
    assert_eq!(select_body("2"), PAGE_TWO);
    assert_eq!(select_body("3"), PAGE_THREE);
    assert_eq!(select_body("4"), PAGE_FOUR);
    assert_eq!(NOT_FOUND, "404 page: try ?page=1..4");
}

#[test]
fn other_selectors_get_not_found() {
    let selectors = [
        "", "0", "5", "9", "10", "11", "01", "1 ", " 1", "+1", "-1", "one", "1=2", "%31", "١", "1\n",
        "é", "12", "1.0",
    ];
    for selector in selectors {
        assert_eq!(select_body(selector), "404 page: try ?page=1..4", "selector {:?}", selector);
    }
}

#[test]
fn page_three_query_selects_third_text() {
    assert_eq!(
        select_body(&get_page("page=3")),
        "Cargo Cult: no rites, no runes—just sockets; planes land where packets are expected."
    );
}

#[test]
fn empty_page_value_selects_not_found() {
    let page = get_page("page=");
    assert_eq!(page, "");
    assert_eq!(select_body(&page), "404 page: try ?page=1..4");
}

#[test]
fn value_with_second_equals_selects_not_found() {
    let page = get_page("page=1=2");
    assert_eq!(page, "1=2");
    assert_eq!(select_body(&page), "404 page: try ?page=1..4");
}

#[test]
fn texts_hold_no_line_break() {
    for text in [PAGE_ONE, PAGE_TWO, PAGE_THREE, PAGE_FOUR, NOT_FOUND] {
        assert!(!text.is_empty());
        assert!(!text.contains('\n'));
        assert!(!text.contains('\r'));
    }
}
