//! A plain model of the parts of a parsed HTML document that extraction reads.

use vstd::prelude::*;
use ego_tree::NodeRef;
use scraper::{Html, Node, Selector};

verus! {

/// One node of a parsed document: a text node carries its text; an element
/// carries its tag name and its `href` attribute, `None` where the element has
/// none. Children are in document order.
pub struct MarkupNode {
    pub text: Option<String>,
    pub element: Option<(String, Option<String>)>,
    pub children: Vec<MarkupNode>,
}

/// The `href` attribute of an element node.
pub open spec fn href_of(n: MarkupNode) -> Option<Seq<char>> {
    match n.element {
        Some((_, Some(h))) => Some(h@),
        _ => None,
    }
}

/// A link element: an element named `a`.
pub open spec fn is_link(n: MarkupNode) -> bool {
    match n.element {
        Some((name, _)) => name@ == "a"@,
        None => false,
    }
}

/// Whether `n` is a link element.
pub fn node_is_link(n: &MarkupNode) -> (r: bool)
    ensures
        r == is_link(*n),
{
    match &n.element {
        Some((name, _)) => crate::text::equals(name.as_str(), "a"),
        None => false,
    }
}

/// The `href` attribute of an element node.
pub fn node_href(n: &MarkupNode) -> (r: Option<&String>)
    ensures
        r is Some == href_of(*n) is Some,
        r is Some ==> r.unwrap()@ == href_of(*n).unwrap(),
{
    match &n.element {
        Some((_, Some(h))) => Some(h),
        _ => None,
    }
}

pub open spec fn fragments_view(r: Option<Vec<MarkupNode>>) -> Option<Seq<MarkupNode>> {
    match r {
        Some(v) => Some(v@),
        None => None,
    }
}

/// The elements of a document that a CSS selector matches, in the order in
/// which the selection yields them, each with three levels of its descendants; `None` when the selector does
/// not parse.
pub uninterp spec fn selected(html: Seq<char>, selector: Seq<char>) -> Option<Seq<MarkupNode>>;

/// Relies on scraper's `Html::parse_document`, `Selector::parse` and
/// `Html::select`: parsing is a function of the text alone. Each match is
/// copied with three levels of descendants, which is as deep as extraction
/// looks.
#[verifier::external_body]
pub(crate) fn select_fragments(html: &str, selector: &str) -> (r: Option<Vec<MarkupNode>>)
    ensures
        fragments_view(r) == selected(html@, selector@),
{
    let node = |n: NodeRef<Node>, children| MarkupNode {
        text: n.value().as_text().map(|t| t.to_string()),
        element: n.value().as_element().map(|e| (e.name().into(), e.attr("href").map(String::from))),
        children,
    };
    Selector::parse(selector).ok().map(|sel| Html::parse_document(html).select(&sel).map(|e| node(*e, e.children().map(|c|
        node(c, c.children().map(|g| node(g, g.children().map(|h| node(h, vec![])).collect())).collect())
    ).collect())).collect())
}

} // verus!
