//! What the library reads of an HTML page, through `dom_query`: the text
//! and attributes of the elements that CSS selectors pick. Parsing HTML and
//! matching selectors is the crate's work; its results are only named here.
//! A selector that matches nothing gives empty results.
use vstd::prelude::*;
use dom_query::Document;

verus! {

/// The combined text of the elements of `html` that `sel` selects.
pub uninterp spec fn dom_text(html: Seq<char>, sel: Seq<char>) -> Seq<char>;

/// The number of elements of `html` that `sel` selects.
pub uninterp spec fn dom_count(html: Seq<char>, sel: Seq<char>) -> nat;

/// Attribute `attr` of each element that `sel` selects, in document order.
pub uninterp spec fn dom_nodes_attr(html: Seq<char>, sel: Seq<char>, attr: Seq<char>) -> Seq<Option<Seq<char>>>;

/// The text of each element that `sel` selects, in document order.
pub uninterp spec fn dom_nodes_text(html: Seq<char>, sel: Seq<char>) -> Seq<Seq<char>>;

/// For each element `card` selects: attribute `attr` of the first element
/// that `sub` selects inside it.
pub uninterp spec fn dom_card_attr(html: Seq<char>, card: Seq<char>, sub: Seq<char>, attr: Seq<char>) -> Seq<
    Option<Seq<char>>,
>;

/// For each element `card` selects: the combined text of the elements that
/// `sub` selects inside it.
pub uninterp spec fn dom_card_text(html: Seq<char>, card: Seq<char>, sub: Seq<char>) -> Seq<Seq<char>>;

/// For each element `card` selects: how many elements `sub` selects inside it.
pub uninterp spec fn dom_card_count(html: Seq<char>, card: Seq<char>, sub: Seq<char>) -> Seq<usize>;

/// The combined text of the elements that `sub` selects inside the
/// elements that `sel` selects.
pub uninterp spec fn dom_sub_text(html: Seq<char>, sel: Seq<char>, sub: Seq<char>) -> Seq<char>;

/// For each element `card` selects: attribute `attr` of the first element
/// that `sub2` selects inside the elements that `sub1` selects inside it.
pub uninterp spec fn dom_card_attr2(
    html: Seq<char>,
    card: Seq<char>,
    sub1: Seq<char>,
    sub2: Seq<char>,
    attr: Seq<char>,
) -> Seq<Option<Seq<char>>>;

/// For each element `card` selects: the combined text of the elements that
/// `sub2` selects inside the elements that `sub1` selects inside it.
pub uninterp spec fn dom_card_text2(html: Seq<char>, card: Seq<char>, sub1: Seq<char>, sub2: Seq<char>) -> Seq<
    Seq<char>,
>;

pub open spec fn opt_strings_view(v: Seq<Option<String>>) -> Seq<Option<Seq<char>>> {
    v.map_values(|o: Option<String>| match o {
        Some(s) => Some(s@),
        None => None,
    })
}

pub open spec fn strings_view(v: Seq<String>) -> Seq<Seq<char>> {
    v.map_values(|s: String| s@)
}

/// `Document::from(html)`, `try_select(sel)` and `Selection::text`.
#[verifier::external_body]
pub(crate) fn select_text(html: &str, sel: &str) -> (r: String)
    ensures
        r@ == dom_text(html@, sel@),
{
    Document::from(html).try_select(sel).map(|s| s.text().to_string()).unwrap_or_default()
}

/// `Document::from(html)`, `try_select(sel)` and `Selection::length`.
#[verifier::external_body]
pub(crate) fn select_count(html: &str, sel: &str) -> (r: usize)
    ensures
        r == dom_count(html@, sel@),
{
    Document::from(html).try_select(sel).map(|s| s.length()).unwrap_or(0)
}

/// `Document::from(html)`, `try_select(sel)`, and `attr(attr)` of each
/// node of `Selection::iter`.
#[verifier::external_body]
pub(crate) fn nodes_attr(html: &str, sel: &str, attr: &str) -> (r: Vec<Option<String>>)
    ensures
        opt_strings_view(r@) == dom_nodes_attr(html@, sel@, attr@),
        r@.len() == dom_count(html@, sel@),
{
    Document::from(html).try_select(sel).map(|s| s.iter().map(|n| n.attr(attr).map(|v| v.to_string())).collect()).unwrap_or_default()
}

/// `Document::from(html)`, `try_select(sel)`, and `text()` of each node
/// of `Selection::iter`.
#[verifier::external_body]
pub(crate) fn nodes_text(html: &str, sel: &str) -> (r: Vec<String>)
    ensures
        strings_view(r@) == dom_nodes_text(html@, sel@),
        r@.len() == dom_count(html@, sel@),
{
    Document::from(html).try_select(sel).map(|s| s.iter().map(|n| n.text().to_string()).collect()).unwrap_or_default()
}

/// For each node of `Document::from(html).try_select(card)`: its
/// `try_select(sub)` and `attr(attr)` of that selection.
#[verifier::external_body]
pub(crate) fn card_attr(html: &str, card: &str, sub: &str, attr: &str) -> (r: Vec<Option<String>>)
    ensures
        opt_strings_view(r@) == dom_card_attr(html@, card@, sub@, attr@),
        r@.len() == dom_count(html@, card@),
{
    Document::from(html).try_select(card).map(|cs| cs.iter().map(|c| c.try_select(sub).and_then(|s| s.attr(attr)).map(|v| v.to_string())).collect()).unwrap_or_default()
}

/// For each node of `Document::from(html).try_select(card)`: its
/// `try_select(sub)` and `text()` of that selection.
#[verifier::external_body]
pub(crate) fn card_text(html: &str, card: &str, sub: &str) -> (r: Vec<String>)
    ensures
        strings_view(r@) == dom_card_text(html@, card@, sub@),
        r@.len() == dom_count(html@, card@),
{
    Document::from(html).try_select(card).map(|cs| cs.iter().map(|c| c.try_select(sub).map(|s| s.text().to_string()).unwrap_or_default()).collect()).unwrap_or_default()
}

/// For each node of `Document::from(html).try_select(card)`: the `length`
/// of its `try_select(sub)`.
#[verifier::external_body]
pub(crate) fn card_count(html: &str, card: &str, sub: &str) -> (r: Vec<usize>)
    ensures
        r@ == dom_card_count(html@, card@, sub@),
        r@.len() == dom_count(html@, card@),
{
    Document::from(html).try_select(card).map(|cs| cs.iter().map(|c| c.try_select(sub).map(|s| s.length()).unwrap_or(0)).collect()).unwrap_or_default()
}

/// `Document::from(html)`, `try_select(sel)`, then `try_select(sub)` of
/// that selection and its `text`.
#[verifier::external_body]
pub(crate) fn select_sub_text(html: &str, sel: &str, sub: &str) -> (r: String)
    ensures
        r@ == dom_sub_text(html@, sel@, sub@),
{
    Document::from(html).try_select(sel).and_then(|s| s.try_select(sub)).map(|s| s.text().to_string()).unwrap_or_default()
}

/// For each node of `Document::from(html).try_select(card)`: its
/// `try_select(sub1)`, that selection's `try_select(sub2)`, and its
/// `attr(attr)`.
#[verifier::external_body]
pub(crate) fn card_attr2(html: &str, card: &str, sub1: &str, sub2: &str, attr: &str) -> (r: Vec<Option<String>>)
    ensures
        opt_strings_view(r@) == dom_card_attr2(html@, card@, sub1@, sub2@, attr@),
        r@.len() == dom_count(html@, card@),
{
    Document::from(html).try_select(card).map(|cs| cs.iter().map(|c| c.try_select(sub1).and_then(|s| s.try_select(sub2)).and_then(|s| s.attr(attr)).map(|v| v.to_string())).collect()).unwrap_or_default()
}

/// For each node of `Document::from(html).try_select(card)`: its
/// `try_select(sub1)`, that selection's `try_select(sub2)`, and its `text`.
#[verifier::external_body]
pub(crate) fn card_text2(html: &str, card: &str, sub1: &str, sub2: &str) -> (r: Vec<String>)
    ensures
        strings_view(r@) == dom_card_text2(html@, card@, sub1@, sub2@),
        r@.len() == dom_count(html@, card@),
{
    Document::from(html).try_select(card).map(|cs| cs.iter().map(|c| c.try_select(sub1).and_then(|s| s.try_select(sub2)).map(|s| s.text().to_string()).unwrap_or_default()).collect()).unwrap_or_default()
}

} // verus!
