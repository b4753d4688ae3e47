//! Reading HTML pages with `scraper`. An element is named by its position
//! among the parsed document's nodes; a query yields, for each matching
//! element in the order in which scraper walks the parsed tree's node arena,
//! that position, its text, and one attribute.

use vstd::prelude::*;
use scraper::{ElementRef, Html, Selector};

verus! {

/// The CSS selectors that the page readers use (each one parses).
pub open spec fn known_selector(s: Seq<char>) -> bool {
    ||| s == "ul.nav > li"@
    ||| s == "div[role=\"option\"]"@
    ||| s == "p"@
    ||| s == "span"@
    ||| s == ".fr"@
    ||| s == "ul.ks_list > li"@
    ||| s == "dl"@
    ||| s == "dt"@
    ||| s == "dd"@
    ||| s == "div.ks_pic > img"@
    ||| s == "span.ks_state"@
    ||| s == "table.dataTable tr.dataTr"@
    ||| s == "td"@
    ||| s == "a"@
    ||| s == "#workEnc"@
    ||| s == "li"@
}

/// The elements of the document parsed from `html` that `selector` matches
/// (scraper `Html::select`): node position, text, value of attribute `attr`.
pub uninterp spec fn scraper_select_doc(
    html: Seq<char>,
    selector: Seq<char>,
    attr: Seq<char>,
) -> Seq<(int, Seq<char>, Option<Seq<char>>)>;

/// The elements below the element at node position `scope` that `selector`
/// matches (scraper `ElementRef::select`); none when no element is there.
pub uninterp spec fn scraper_select_in(
    html: Seq<char>,
    scope: int,
    selector: Seq<char>,
    attr: Seq<char>,
) -> Seq<(int, Seq<char>, Option<Seq<char>>)>;

/// An element found by a query: node position, text, attribute value.
pub struct Found {
    pub node: usize,
    pub text: String,
    pub attr: Option<String>,
}

pub open spec fn found_view(f: Found) -> (int, Seq<char>, Option<Seq<char>>) {
    (
        f.node as int,
        f.text@,
        match f.attr {
            Some(a) => Some(a@),
            None => None,
        },
    )
}

pub open spec fn founds_view(fs: Seq<Found>) -> Seq<(int, Seq<char>, Option<Seq<char>>)> {
    fs.map_values(|f: Found| found_view(f))
}

/// Queries a whole page (scraper `Html::parse_document`, `Html::select`).
#[verifier::external_body]
pub(crate) fn select_doc(html: &str, selector: &str, attr: &str) -> (r: Vec<Found>)
    requires
        known_selector(selector@),
    ensures
        founds_view(r@) == scraper_select_doc(html@, selector@, attr@),
{
    let doc = Html::parse_document(html);
    let ids: Vec<_> = doc.tree.nodes().map(|n| n.id()).collect();
    doc.select(&Selector::parse(selector).unwrap())
        .map(|e| Found {
            node: ids.iter().position(|i| *i == e.id()).unwrap_or(0),
            text: e.text().collect(),
            attr: e.value().attr(attr).map(str::to_string),
        })
        .collect()
}

/// Queries below one element of a page (scraper `ElementRef::select`).
#[verifier::external_body]
pub(crate) fn select_in(html: &str, scope: usize, selector: &str, attr: &str) -> (r: Vec<Found>)
    requires
        known_selector(selector@),
    ensures
        founds_view(r@) == scraper_select_in(html@, scope as int, selector@, attr@),
{
    let doc = Html::parse_document(html);
    let ids: Vec<_> = doc.tree.nodes().map(|n| n.id()).collect();
    let Some(el) = doc.tree.nodes().nth(scope).and_then(ElementRef::wrap) else { return Vec::new() };
    el.select(&Selector::parse(selector).unwrap())
        .map(|e| Found {
            node: ids.iter().position(|i| *i == e.id()).unwrap_or(0),
            text: e.text().collect(),
            attr: e.value().attr(attr).map(str::to_string),
        })
        .collect()
}

} // verus!
