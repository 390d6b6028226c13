//! From a page's markup to a record.

use vstd::prelude::*;
use vstd::string::*;
use soup::{NodeExt, QueryBuilderExt, Soup};
use crate::record::{FetchError, PipelineResult, PipelineResultView, UserInfo, UserInfoView};
use crate::text::{
    has_prefix, opt_text, opt_texts, parse_number, parse_u64, split_after, split_commas,
    starts_with, strip_commas, without_commas,
};

verus! {

/// The text of the first element of `page`, in document order, whose tag is
/// `tag` and whose class list holds `class`, if the page has one.
pub uninterp spec fn element_text(page: Seq<char>, tag: Seq<char>, class: Seq<char>) -> Option<
    Seq<char>,
>;

/// `Soup::new(page).tag(tag).class(class).find()` of the soup crate, then
/// `text()` on the node found: the page is parsed as HTML, the first element
/// in document order with that tag name and with that class in its class
/// list is looked up, and the text nodes below it are joined. Nothing is
/// proved of it. The contract only gives the outcome a name: it depends on
/// the three texts alone.
#[verifier::external_body]
fn find_text(page: &str, tag: &str, class: &str) -> (r: Option<String>)
    ensures
        opt_text(r) == element_text(page@, tag@, class@),
{
    Soup::new(page).tag(tag).class(class).find().map(|node| node.text())
}

/// The label that opens the text of a previous-names block.
pub open spec fn names_label() -> Seq<char> {
    "Previous Names: "@
}

/// The experience value that a field text denotes once its separators are
/// gone; a missing field denotes none.
pub open spec fn xp_value(xp: Option<Seq<char>>) -> Option<u64> {
    match xp {
        Some(t) => parse_u64(without_commas(t)),
        None => None,
    }
}

/// The experience field is there and is no number.
pub open spec fn xp_malformed(xp: Option<Seq<char>>) -> bool {
    xp is Some && xp_value(xp) is None
}

/// The previous names that a block's text lists: what follows the label, cut
/// at the commas. A text without the label lists nothing.
pub open spec fn names_value(previous: Option<Seq<char>>) -> Option<Seq<Seq<char>>> {
    match previous {
        Some(t) => if has_prefix(t, names_label()) {
            Some(split_commas(t.skip(names_label().len() as int)))
        } else {
            None
        },
        None => None,
    }
}

/// What the four field texts of a page amount to.
pub open spec fn assembled(
    name: Option<Seq<char>>,
    date: Option<Seq<char>>,
    xp: Option<Seq<char>>,
    previous: Option<Seq<char>>,
) -> PipelineResultView {
    if xp_malformed(xp) {
        PipelineResultView::Failure(FetchError::MalformedXp)
    } else {
        PipelineResultView::Success(
            UserInfoView {
                name: name,
                xp: xp_value(xp),
                date: date,
                previous_names: names_value(previous),
            },
        )
    }
}

/// Reads an experience value: thousands separators are dropped, the rest must
/// be a number.
pub fn parse_xp(text: &str) -> (r: Option<u64>)
    ensures
        r == parse_u64(without_commas(text@)),
{
    let digits = strip_commas(text);
    parse_number(&digits)
}

/// Reads the list of previous names from the text of its block.
pub fn parse_previous_names(text: &str) -> (r: Option<Vec<String>>)
    ensures
        opt_texts(r) == names_value(Some(text@)),
{
    let label: &str = "Previous Names: ";
    if starts_with(text, label) {
        let from: usize = label.unicode_len();
        Some(split_after(text, from))
    } else {
        None
    }
}

/// Builds the result for one page from the texts of its four fields. A
/// missing field stays missing; only an experience value that is no number
/// fails the page.
pub fn assemble(
    name: Option<String>,
    date: Option<String>,
    xp: Option<String>,
    previous: Option<String>,
) -> (r: PipelineResult)
    ensures
        r@ == assembled(opt_text(name), opt_text(date), opt_text(xp), opt_text(previous)),
{
    let xp_number: Option<u64> = match &xp {
        Some(t) => {
            match parse_xp(t.as_str()) {
                Some(n) => Some(n),
                None => {
                    return PipelineResult::Failure(FetchError::MalformedXp);
                },
            }
        },
        None => None,
    };
    let names: Option<Vec<String>> = match &previous {
        Some(t) => parse_previous_names(t.as_str()),
        None => None,
    };
    PipelineResult::Success(UserInfo { name: name, xp: xp_number, date: date, previous_names: names })
}

/// What a page's markup amounts to.
pub open spec fn page_result(page: Seq<char>) -> PipelineResultView {
    assembled(
        element_text(page, "span"@, "xp_tracker_hname"@),
        element_text(page, "div"@, "xp_tracker_activity_r"@),
        element_text(page, "td"@, "xp_tracker_cxp"@),
        element_text(page, "div"@, "xp_tracker_prevnames"@),
    )
}

/// Extracts the record of one fetched page. Each field is looked up on its
/// own, so a missing one never hides another.
pub fn extract(page: &str) -> (r: PipelineResult)
    ensures
        r@ == page_result(page@),
{
    let name = find_text(page, "span", "xp_tracker_hname");
    let date = find_text(page, "div", "xp_tracker_activity_r");
    let xp = find_text(page, "td", "xp_tracker_cxp");
    let previous = find_text(page, "div", "xp_tracker_prevnames");
    assemble(name, date, xp, previous)
}

/// Extraction depends on the markup alone: reading the same page twice gives
/// the same result twice.
pub proof fn lemma_extract_deterministic(
    a: PipelineResult,
    b: PipelineResult,
    p: Seq<char>,
    q: Seq<char>,
)
    requires
        a@ == page_result(p),
        b@ == page_result(q),
        p == q,
    ensures
        a@ == b@,
{
}

} // verus!
