use cargocult::query::{find_page, get_page};

#[test]
fn empty_query_gives_default() {
    assert_eq!(get_page(""), "1");
    assert_eq!(find_page(""), None);
}

#[test]
fn query_without_page_pair_gives_default() {
    let queries = [
        "foo=bar",
        "page",
        "a&b&c",
        "foo=bar&baz=qux",
        "Page=2",
        "PAGE=2",
        "pages=2",
        "xpage=2",
        " page=2",
        "page =2",
        "=page",
        "foo=page=2",
        "&",
        "&&&",
        "=",
        "pag=e",
        "%70age=2",
    ];
    for query in queries {
        assert_eq!(get_page(query), "1", "query {:?}", query);
        assert_eq!(find_page(query), None, "query {:?}", query);
    }
}

#[test]
fn single_page_pair_gives_its_value() {
    assert_eq!(get_page("page=3"), "3");
    assert_eq!(get_page("page=1"), "1");
    assert_eq!(get_page("page=5"), "5");
    assert_eq!(get_page("page=hello"), "hello");
}

#[test]
fn empty_value_is_a_value() {
    assert_eq!(get_page("page="), "");
    assert_eq!(find_page("page="), Some(String::new()));
    assert_eq!(get_page("page=&page=2"), "");
    assert_eq!(get_page("a=b&page="), "");
}

#[test]
fn first_match_wins() {
    assert_eq!(get_page("foo=bar&page=2&page=9"), "2");
    assert_eq!(get_page("page=4&page=1"), "4");
}

#[test]
fn only_first_equals_splits() {
    assert_eq!(get_page("page=1=2"), "1=2");
    assert_eq!(get_page("page=="), "=");
    assert_eq!(get_page("page=a=b=c&x=y"), "a=b=c");
}

#[test]
fn segments_without_equals_are_skipped() {
    assert_eq!(get_page("page&page=3"), "3");
    assert_eq!(get_page("flag&other&page=2"), "2");
    assert_eq!(get_page("&&page=4"), "4");
    assert_eq!(get_page("page=2&"), "2");
    assert_eq!(get_page("=x&page=4"), "4");
}

#[test]
fn value_ends_at_next_separator() {
    assert_eq!(get_page("page=12&x=3"), "12");
    assert_eq!(get_page("a=1&page=two&b=2"), "two");
}

#[test]
fn nothing_is_decoded_trimmed_or_folded() {
    assert_eq!(get_page("page=%31"), "%31");
    assert_eq!(get_page("page=+1"), "+1");
    assert_eq!(get_page("page= 1 "), " 1 ");
    assert_eq!(get_page("page=ABC"), "ABC");
}

#[test]
fn characters_beyond_ascii_are_kept_whole() {
    assert_eq!(get_page("page=é"), "é");
    assert_eq!(get_page("ключ=значение&page=страница&z=1"), "страница");
    assert_eq!(get_page("é=1&page=—2—&page=3"), "—2—");
    assert_eq!(get_page("päge=2"), "1");
}

#[test]
fn find_page_tells_absent_from_default() {
    assert_eq!(find_page("page=1"), Some(String::from("1")));
    assert_eq!(find_page("other=1"), None);
    assert_eq!(get_page("page=1"), get_page("other=1"));
}
