//! The response as it goes to the web server: a header block, then one
//! line of text.

use crate::content::{body_text, is_single_line, lemma_body_is_single_line, select_body};
use crate::query::{get_page, page_value};
use vstd::prelude::*;
use vstd::string::*;

verus! {

/// The header block: the one header line and the empty line that ends the
/// block, each closed by a carriage return and a line feed.
pub const HEADER: &'static str = "Content-Type: text/plain\r\n\r\n";

/// The header block, as characters.
pub open spec fn header_text() -> Seq<char> {
    HEADER@
}

/// The query string of a request: empty where the request has none.
pub open spec fn query_or_empty(query: Option<&str>) -> Seq<char> {
    match query {
        Some(text) => text@,
        None => Seq::empty(),
    }
}

/// The body of the response to a query: the text that the query's page
/// selector picks, closed by a line feed.
pub open spec fn body_line_text(query: Seq<char>) -> Seq<char> {
    body_text(page_value(query)).push('\n')
}

/// The whole response to a query: the header block, then the body.
pub open spec fn response_text(query: Seq<char>) -> Seq<char> {
    header_text() + body_line_text(query)
}

/// The header block. It is the same for every request, and it is to be
/// written out in full before the body.
pub fn header() -> (block: &'static str)
    ensures
        block@ == header_text(),
{
    HEADER
}

/// The body of the response to a query string.
pub fn body_line(query: &str) -> (line: String)
    ensures
        line@ == body_line_text(query@),
{
    let page = get_page(query);
    let mut line = String::from_str(select_body(page.as_str()));
    proof {
        reveal_strlit("\n");
        assert("\n"@ =~= seq!['\n']);
    }
    line.append("\n");
    line
}

/// The whole response to a request, whose query string may be absent. An
/// absent query string is answered as an empty one.
pub fn respond(query: Option<&str>) -> (out: String)
    ensures
        out@ == response_text(query_or_empty(query)),
{
    let text = match query {
        Some(text) => text,
        None => {
            proof {
                reveal_strlit("");
                assert(""@ =~= Seq::<char>::empty());
            }
            ""
        },
    };
    let line = body_line(text);
    let mut out = String::from_str(header());
    out.append(line.as_str());
    out
}

/// Whatever the query, the response is the header block followed by one
/// line: a text without a line feed, which is not empty, and the line feed
/// that closes it.
pub proof fn lemma_response_shape(query: Seq<char>)
    ensures
        response_text(query).len() > header_text().len() + 1,
        response_text(query).take(header_text().len() as int) == header_text(),
        response_text(query).last() == '\n',
        is_single_line(
            response_text(query).subrange(
                header_text().len() as int,
                response_text(query).len() - 1,
            ),
        ),
{
    let body = body_text(page_value(query));
    lemma_body_is_single_line(page_value(query));
    let out = response_text(query);
    let h = header_text().len() as int;
    assert(out.take(h) =~= header_text());
    assert(out.subrange(h, out.len() - 1) =~= body);
}

/// The header block is the header line `Content-Type: text/plain`, a
/// carriage return and a line feed, and one more of each.
pub proof fn lemma_header_layout()
    ensures
        header_text().len() == 28,
        header_text().take(24) == "Content-Type: text/plain"@,
        header_text().skip(24) == seq!['\r', '\n', '\r', '\n'],
{
    reveal_strlit("Content-Type: text/plain\r\n\r\n");
    reveal_strlit("Content-Type: text/plain");
    assert(header_text().take(24) =~= "Content-Type: text/plain"@);
    assert(header_text().skip(24) =~= seq!['\r', '\n', '\r', '\n']);
}

} // verus!
