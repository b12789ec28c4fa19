//! The texts that the responder can answer with, and the choice among them.

use vstd::prelude::*;
use vstd::string::*;

verus! {

/// The text of page `1`.
pub const PAGE_ONE: &'static str =
    "An Army of One: a lone WASM wakes, answers, vanishes—leaving only calm CPUs and happy ledgers.";

/// The text of page `2`.
pub const PAGE_TWO: &'static str =
    "The Fly: edge-borne, it lands for a sip of bytes, lifts off before latency knows the name.";

/// The text of page `3`.
pub const PAGE_THREE: &'static str =
    "Cargo Cult: no rites, no runes—just sockets; planes land where packets are expected.";

/// The text of page `4`.
pub const PAGE_FOUR: &'static str =
    "The Gunslinger: one shot, one header, one body; smoke clears, the 200 still stands.";

/// The text that answers every selector that names no page.
pub const NOT_FOUND: &'static str = "404 page: try ?page=1..4";

/// Whether the selector `page` is the one character `key`, and nothing
/// else: no space around it, no sign, no leading zero.
pub open spec fn is_key(page: Seq<char>, key: char) -> bool {
    page.len() == 1 && page[0] == key
}

/// The text that belongs to a page selector: the page's own text for the
/// selectors `1`, `2`, `3` and `4`, and the not-found text for every other
/// sequence of characters, the empty one included.
pub open spec fn body_text(page: Seq<char>) -> Seq<char> {
    if is_key(page, '1') {
        PAGE_ONE@
    } else if is_key(page, '2') {
        PAGE_TWO@
    } else if is_key(page, '3') {
        PAGE_THREE@
    } else if is_key(page, '4') {
        PAGE_FOUR@
    } else {
        NOT_FOUND@
    }
}

/// Picks the text for a page selector. Every selector has a text: one that
/// names no page gets the not-found text.
pub fn select_body(page: &str) -> (body: &'static str)
    ensures
        body@ == body_text(page@),
{
    if page.unicode_len() != 1 {
        return NOT_FOUND;
    }
    let c: char = page.get_char(0);
    if c == '1' {
        PAGE_ONE
    } else if c == '2' {
        PAGE_TWO
    } else if c == '3' {
        PAGE_THREE
    } else if c == '4' {
        PAGE_FOUR
    } else {
        NOT_FOUND
    }
}

/// Whether `text` fits on one line: it holds no line feed.
pub open spec fn is_single_line(text: Seq<char>) -> bool {
    forall|i: int| 0 <= i < text.len() ==> text[i] != '\n'
}

/// Every text that can be picked is a single line, and not empty.
pub proof fn lemma_body_is_single_line(page: Seq<char>)
    ensures
        is_single_line(body_text(page)),
        body_text(page).len() > 0,
{
    reveal_strlit(
        "An Army of One: a lone WASM wakes, answers, vanishes—leaving only calm CPUs and happy ledgers.",
    );
    reveal_strlit(
        "The Fly: edge-borne, it lands for a sip of bytes, lifts off before latency knows the name.",
    );
    reveal_strlit(
        "Cargo Cult: no rites, no runes—just sockets; planes land where packets are expected.",
    );
    reveal_strlit(
        "The Gunslinger: one shot, one header, one body; smoke clears, the 200 still stands.",
    );
    reveal_strlit("404 page: try ?page=1..4");
}

} // verus!
