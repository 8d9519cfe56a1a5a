//! Positional extraction of listing records, pagination tokens and the
//! magnet link out of parsed markup.

use vstd::prelude::*;
use vstd::string::*;
use crate::markup::{href_of, is_link, node_href, node_is_link, select_fragments, selected, MarkupNode};
use crate::text::{equals, last_segment, last_segment_of, parse_decimal, parse_usize, starts_with};
use crate::types::{ExtractionError, Page, Torrent};

verus! {

/// The element children of a node, in document order.
pub open spec fn element_children(s: Seq<MarkupNode>) -> Seq<MarkupNode>
    decreases s.len(),
{
    if s.len() == 0 {
        Seq::empty()
    } else if s.last().element is Some {
        element_children(s.drop_last()).push(s.last())
    } else {
        element_children(s.drop_last())
    }
}

/// The link children of a node, in document order.
pub open spec fn link_children(s: Seq<MarkupNode>) -> Seq<MarkupNode>
    decreases s.len(),
{
    if s.len() == 0 {
        Seq::empty()
    } else if is_link(s.last()) {
        link_children(s.drop_last()).push(s.last())
    } else {
        link_children(s.drop_last())
    }
}

/// The text of a node's first child, which must be a text node.
pub open spec fn first_text(n: MarkupNode) -> Option<Seq<char>> {
    if n.children@.len() > 0 && n.children@[0].text is Some {
        Some(n.children@[0].text.unwrap()@)
    } else {
        None
    }
}

/// The title cell: its second link child has an `href` and a first child
/// that is text. Gives the text and the `href`.
pub open spec fn title_field(cell: MarkupNode) -> Option<(Seq<char>, Seq<char>)> {
    let links = link_children(cell.children@);
    if links.len() > 1 && href_of(links[1]) is Some && first_text(links[1]) is Some {
        Some((first_text(links[1]).unwrap(), href_of(links[1]).unwrap()))
    } else {
        None
    }
}

/// The uploader cell: the text inside its first child.
pub open spec fn uploader_field(cell: MarkupNode) -> Option<Seq<char>> {
    if cell.children@.len() > 0 {
        first_text(cell.children@[0])
    } else {
        None
    }
}

/// The first field of a row that cannot be resolved, if any.
pub open spec fn row_error(row: MarkupNode) -> Option<ExtractionError> {
    let cells = element_children(row.children@);
    if cells.len() < 1 || title_field(cells[0]) is None {
        Some(ExtractionError::Title)
    } else if cells.len() < 2 || first_text(cells[1]) is None {
        Some(ExtractionError::Seeders)
    } else if cells.len() < 3 || first_text(cells[2]) is None {
        Some(ExtractionError::Leechers)
    } else if cells.len() < 4 || first_text(cells[3]) is None {
        Some(ExtractionError::Time)
    } else if cells.len() < 5 || first_text(cells[4]) is None {
        Some(ExtractionError::Size)
    } else if cells.len() < 6 || uploader_field(cells[5]) is None {
        Some(ExtractionError::Uploader)
    } else {
        None
    }
}

/// `t` is the record that a row without error yields at position `number`.
pub open spec fn record_of(t: Torrent, row: MarkupNode, number: nat, domain: Seq<char>) -> bool {
    let cells = element_children(row.children@);
    &&& t.number == number
    &&& t.title@ == title_field(cells[0]).unwrap().0
    &&& t.link@ == "https://"@ + domain + title_field(cells[0]).unwrap().1
    &&& t.seeders@ == first_text(cells[1]).unwrap()
    &&& t.leechers@ == first_text(cells[2]).unwrap()
    &&& t.time@ == first_text(cells[3]).unwrap()
    &&& t.size@ == first_text(cells[4]).unwrap()
    &&& t.uploader@ == uploader_field(cells[5]).unwrap()
}

/// The error of the first row of `rows` that has one.
pub open spec fn first_row_error(rows: Seq<MarkupNode>) -> Option<ExtractionError>
    decreases rows.len(),
{
    if rows.len() == 0 {
        None
    } else {
        match first_row_error(rows.drop_last()) {
            Some(e) => Some(e),
            None => row_error(rows.last()),
        }
    }
}

/// The records extracted from `rows`, numbered from 1 in the order of `rows`.
pub open spec fn listing_of(v: Seq<Torrent>, rows: Seq<MarkupNode>, domain: Seq<char>) -> bool {
    &&& v.len() == rows.len()
    &&& forall|i: int| 0 <= i < rows.len() ==> record_of(#[trigger] v[i], rows[i], (i + 1) as nat, domain)
}

proof fn lemma_first_row_error_extends(rows: Seq<MarkupNode>, k: int)
    requires
        0 <= k <= rows.len(),
        first_row_error(rows.subrange(0, k)) is Some,
    ensures
        first_row_error(rows) == first_row_error(rows.subrange(0, k)),
    decreases rows.len() - k,
{
    if k < rows.len() {
        let next = rows.subrange(0, k + 1);
        assert(next.drop_last() =~= rows.subrange(0, k));
        lemma_first_row_error_extends(rows, k + 1);
    } else {
        assert(rows.subrange(0, k) =~= rows);
    }
}

fn clone_text(t: &Option<String>) -> (r: Option<String>)
    ensures
        r is Some == t is Some,
        r is Some ==> r.unwrap()@ == t.unwrap()@,
{
    match t {
        Some(s) => Some(s.clone()),
        None => None,
    }
}

/// The element children of `node`.
pub fn element_cells(node: &MarkupNode) -> (r: Vec<&MarkupNode>)
    ensures
        r@.len() == element_children(node.children@).len(),
        forall|i: int| 0 <= i < r@.len() ==> *#[trigger] r@[i] == element_children(node.children@)[i],
{
    let mut r: Vec<&MarkupNode> = Vec::new();
    let mut i: usize = 0;
    while i < node.children.len()
        invariant
            i <= node.children@.len(),
            r@.len() == element_children(node.children@.subrange(0, i as int)).len(),
            forall|j: int| 0 <= j < r@.len() ==> *#[trigger] r@[j] == element_children(node.children@.subrange(0, i as int))[j],
        decreases node.children@.len() - i,
    {
        let c = &node.children[i];
        proof {
            assert(node.children@.subrange(0, i + 1).drop_last() =~= node.children@.subrange(0, i as int));
        }
        if c.element.is_some() {
            r.push(c);
        }
        i = i + 1;
    }
    assert(node.children@.subrange(0, i as int) =~= node.children@);
    r
}

/// The link children of `node`.
pub fn link_cells(node: &MarkupNode) -> (r: Vec<&MarkupNode>)
    ensures
        r@.len() == link_children(node.children@).len(),
        forall|i: int| 0 <= i < r@.len() ==> *#[trigger] r@[i] == link_children(node.children@)[i],
{
    let mut r: Vec<&MarkupNode> = Vec::new();
    let mut i: usize = 0;
    while i < node.children.len()
        invariant
            i <= node.children@.len(),
            r@.len() == link_children(node.children@.subrange(0, i as int)).len(),
            forall|j: int| 0 <= j < r@.len() ==> *#[trigger] r@[j] == link_children(node.children@.subrange(0, i as int))[j],
        decreases node.children@.len() - i,
    {
        let c = &node.children[i];
        proof {
            assert(node.children@.subrange(0, i + 1).drop_last() =~= node.children@.subrange(0, i as int));
        }
        if node_is_link(c) {
            r.push(c);
        }
        i = i + 1;
    }
    assert(node.children@.subrange(0, i as int) =~= node.children@);
    r
}

/// Reads the text of the first child of a cell.
pub fn extract_generic(child: Option<&MarkupNode>, field: ExtractionError) -> (r: Result<String, ExtractionError>)
    ensures
        match child {
            Some(c) => match first_text(*c) {
                Some(t) => r is Ok && r.unwrap()@ == t,
                None => r == Err::<String, ExtractionError>(field),
            },
            None => r == Err::<String, ExtractionError>(field),
        },
{
    let Some(v) = child else {
        return Err(field);
    };
    if v.children.len() == 0 {
        return Err(field);
    }
    match clone_text(&v.children[0].text) {
        Some(t) => Ok(t),
        None => Err(field),
    }
}

/// Reads the text inside the first child of the uploader cell.
pub fn extract_uploader(child: Option<&MarkupNode>) -> (r: Result<String, ExtractionError>)
    ensures
        match child {
            Some(c) => match uploader_field(*c) {
                Some(t) => r is Ok && r.unwrap()@ == t,
                None => r == Err::<String, ExtractionError>(ExtractionError::Uploader),
            },
            None => r == Err::<String, ExtractionError>(ExtractionError::Uploader),
        },
{
    let Some(v) = child else {
        return Err(ExtractionError::Uploader);
    };
    if v.children.len() == 0 {
        return Err(ExtractionError::Uploader);
    }
    extract_generic(Some(&v.children[0]), ExtractionError::Uploader)
}

/// Reads the text and the `href` of the second link of the title cell.
pub fn extract_title_and_href(child: Option<&MarkupNode>) -> (r: Result<(String, String), ExtractionError>)
    ensures
        match child {
            Some(c) => match title_field(*c) {
                Some(f) => r is Ok && r.unwrap().0@ == f.0 && r.unwrap().1@ == f.1,
                None => r == Err::<(String, String), ExtractionError>(ExtractionError::Title),
            },
            None => r == Err::<(String, String), ExtractionError>(ExtractionError::Title),
        },
{
    let Some(v) = child else {
        return Err(ExtractionError::Title);
    };
    let links = link_cells(v);
    if links.len() < 2 {
        return Err(ExtractionError::Title);
    }
    let link = links[1];
    let Some(href) = node_href(link) else {
        return Err(ExtractionError::Title);
    };
    let href = href.clone();
    match extract_generic(Some(link), ExtractionError::Title) {
        Ok(title) => Ok((title, href)),
        Err(e) => Err(e),
    }
}

/// Extracts one record per row, numbered from 1 in the order of `rows`;
/// fails with the first field that the first faulty row lacks.
pub fn extract_body(rows: &Vec<MarkupNode>, domain: &String) -> (r: Result<Vec<Torrent>, ExtractionError>)
    ensures
        r is Ok <==> first_row_error(rows@) is None,
        r is Ok ==> listing_of(r.unwrap()@, rows@, domain@),
        r is Err ==> r == Err::<Vec<Torrent>, ExtractionError>(first_row_error(rows@).unwrap()),
{
    let mut results: Vec<Torrent> = Vec::new();
    let mut n: usize = 0;
    while n < rows.len()
        invariant
            n <= rows@.len(),
            first_row_error(rows@.subrange(0, n as int)) is None,
            results@.len() == n,
            forall|i: int| 0 <= i < n ==> record_of(#[trigger] results@[i], rows@[i], (i + 1) as nat, domain@),
        decreases rows@.len() - n,
    {
        let row = &rows[n];
        let cells = element_cells(row);
        proof {
            assert(rows@.subrange(0, n + 1).drop_last() =~= rows@.subrange(0, n as int));
            assert(rows@.subrange(0, n + 1).last() == *row);
        }
        let first = if cells.len() > 0 { Some(cells[0]) } else { None };
        let second = if cells.len() > 1 { Some(cells[1]) } else { None };
        let third = if cells.len() > 2 { Some(cells[2]) } else { None };
        let fourth = if cells.len() > 3 { Some(cells[3]) } else { None };
        let fifth = if cells.len() > 4 { Some(cells[4]) } else { None };
        let sixth = if cells.len() > 5 { Some(cells[5]) } else { None };
        let fields = match extract_title_and_href(first) {
            Ok(f) => match extract_generic(second, ExtractionError::Seeders) {
                Ok(seeders) => match extract_generic(third, ExtractionError::Leechers) {
                    Ok(leechers) => match extract_generic(fourth, ExtractionError::Time) {
                        Ok(time) => match extract_generic(fifth, ExtractionError::Size) {
                            Ok(size) => match extract_uploader(sixth) {
                                Ok(uploader) => Ok((f, seeders, leechers, time, size, uploader)),
                                Err(e) => Err(e),
                            },
                            Err(e) => Err(e),
                        },
                        Err(e) => Err(e),
                    },
                    Err(e) => Err(e),
                },
                Err(e) => Err(e),
            },
            Err(e) => Err(e),
        };
        match fields {
            Err(e) => {
                proof {
                    assert(row_error(*row) == Some(e));
                    lemma_first_row_error_extends(rows@, n + 1);
                }
                return Err(e);
            },
            Ok(((title, href), seeders, leechers, time, size, uploader)) => {
                let mut link = String::from_str("https://");
                link.append(domain.as_str());
                link.append(href.as_str());
                let t = Torrent { number: n + 1, title, seeders, leechers, time, size, uploader, link };
                assert(row_error(*row) is None);
                results.push(t);
                n = n + 1;
            },
        }
    }
    assert(rows@.subrange(0, n as int) =~= rows@);
    Ok(results)
}

/// The pagination token that a control with this label and `href` stands for.
pub open spec fn page_of(label: Seq<char>, href: Seq<char>) -> Result<Page, ExtractionError> {
    if label == "First"@ {
        Ok(Page::First)
    } else if label == "Last"@ {
        match parse_decimal(last_segment(href)) {
            Some(n) => if n >= 1 { Ok(Page::Last(n as usize)) } else { Err(ExtractionError::LastPage) },
            None => Err(ExtractionError::LastPage),
        }
    } else if label == "<<"@ {
        Ok(Page::Previous)
    } else if label == ">>"@ {
        Ok(Page::Next)
    } else {
        match parse_decimal(label) {
            Some(n) => if n >= 1 { Ok(Page::Number(n as usize)) } else { Err(ExtractionError::PageNumber) },
            None => Err(ExtractionError::PageNumber),
        }
    }
}

/// The token of one pagination anchor: its label is its first child's text.
pub open spec fn anchor_page(a: MarkupNode) -> Result<Page, ExtractionError> {
    if first_text(a) is None {
        Err(ExtractionError::PageLabel)
    } else if href_of(a) is None {
        Err(ExtractionError::PageHref)
    } else {
        page_of(first_text(a).unwrap(), href_of(a).unwrap())
    }
}

/// The tokens of the pagination anchors, in the order of `anchors`, or the error of
/// the first anchor that has one.
pub open spec fn pages_of(anchors: Seq<MarkupNode>) -> Result<Seq<Page>, ExtractionError>
    decreases anchors.len(),
{
    if anchors.len() == 0 {
        Ok(Seq::empty())
    } else {
        match pages_of(anchors.drop_last()) {
            Err(e) => Err(e),
            Ok(ps) => match anchor_page(anchors.last()) {
                Ok(p) => Ok(ps.push(p)),
                Err(e) => Err(e),
            },
        }
    }
}

pub open spec fn pages_view(r: Result<Vec<Page>, ExtractionError>) -> Result<Seq<Page>, ExtractionError> {
    match r {
        Ok(v) => Ok(v@),
        Err(e) => Err(e),
    }
}

proof fn lemma_pages_error_extends(anchors: Seq<MarkupNode>, k: int)
    requires
        0 <= k <= anchors.len(),
        pages_of(anchors.subrange(0, k)) is Err,
    ensures
        pages_of(anchors) == pages_of(anchors.subrange(0, k)),
    decreases anchors.len() - k,
{
    if k < anchors.len() {
        assert(anchors.subrange(0, k + 1).drop_last() =~= anchors.subrange(0, k));
        lemma_pages_error_extends(anchors, k + 1);
    } else {
        assert(anchors.subrange(0, k) =~= anchors);
    }
}

/// Classifies one pagination control by its label.
pub fn classify_page(label: &str, href: &str) -> (r: Result<Page, ExtractionError>)
    ensures
        r == page_of(label@, href@),
{
    if equals(label, "First") {
        Ok(Page::First)
    } else if equals(label, "Last") {
        match parse_usize(last_segment_of(href)) {
            Some(n) => if n >= 1 { Ok(Page::Last(n)) } else { Err(ExtractionError::LastPage) },
            None => Err(ExtractionError::LastPage),
        }
    } else if equals(label, "<<") {
        Ok(Page::Previous)
    } else if equals(label, ">>") {
        Ok(Page::Next)
    } else {
        match parse_usize(label) {
            Some(n) => if n >= 1 { Ok(Page::Number(n)) } else { Err(ExtractionError::PageNumber) },
            None => Err(ExtractionError::PageNumber),
        }
    }
}

/// Extracts one pagination token per anchor, in the order of `anchors`.
pub fn extract_pages(anchors: &Vec<MarkupNode>) -> (r: Result<Vec<Page>, ExtractionError>)
    ensures
        pages_view(r) == pages_of(anchors@),
{
    let mut pages: Vec<Page> = Vec::new();
    let mut i: usize = 0;
    while i < anchors.len()
        invariant
            i <= anchors@.len(),
            pages_of(anchors@.subrange(0, i as int)) == Ok::<Seq<Page>, ExtractionError>(pages@),
        decreases anchors@.len() - i,
    {
        let a = &anchors[i];
        proof {
            assert(anchors@.subrange(0, i + 1).drop_last() =~= anchors@.subrange(0, i as int));
        }
        let page = if a.children.len() == 0 {
            Err(ExtractionError::PageLabel)
        } else {
            match &a.children[0].text {
                None => Err(ExtractionError::PageLabel),
                Some(label) => match node_href(a) {
                    None => Err(ExtractionError::PageHref),
                    Some(href) => classify_page(label.as_str(), href.as_str()),
                },
            }
        };
        match page {
            Ok(p) => {
                pages.push(p);
                i = i + 1;
            },
            Err(e) => {
                proof {
                    lemma_pages_error_extends(anchors@, i + 1);
                }
                return Err(e);
            },
        }
    }
    assert(anchors@.subrange(0, i as int) =~= anchors@);
    Ok(pages)
}

/// An anchor whose `href` begins with `magnet:?`.
pub open spec fn is_magnet(a: MarkupNode) -> bool {
    &&& href_of(a) is Some
    &&& "magnet:?"@.len() <= href_of(a).unwrap().len()
    &&& href_of(a).unwrap().subrange(0, "magnet:?"@.len() as int) == "magnet:?"@
}

/// `r` is the `href` of the first magnet anchor of `anchors`, or the
/// `Link` error where there is none.
pub open spec fn magnet_of(anchors: Seq<MarkupNode>, r: Result<String, ExtractionError>) -> bool {
    match r {
        Ok(link) => exists|i: int|
            0 <= i < anchors.len() && is_magnet(#[trigger] anchors[i])
            && (forall|j: int| 0 <= j < i ==> !is_magnet(#[trigger] anchors[j]))
            && link@ == href_of(anchors[i]).unwrap(),
        Err(e) => e == ExtractionError::Link
            && forall|i: int| 0 <= i < anchors.len() ==> !is_magnet(#[trigger] anchors[i]),
    }
}

/// The `href` of the first magnet anchor of `anchors`.
pub fn find_magnet(anchors: &Vec<MarkupNode>) -> (r: Result<String, ExtractionError>)
    ensures
        magnet_of(anchors@, r),
{
    let mut i: usize = 0;
    while i < anchors.len()
        invariant
            i <= anchors@.len(),
            forall|j: int| 0 <= j < i ==> !is_magnet(#[trigger] anchors@[j]),
        decreases anchors@.len() - i,
    {
        if let Some(href) = node_href(&anchors[i]) {
            if starts_with(href.as_str(), "magnet:?") {
                assert(is_magnet(anchors@[i as int]));
                return Ok(href.clone());
            }
        }
        i = i + 1;
    }
    Err(ExtractionError::Link)
}

/// Extracts the magnet link of an item's detail page.
pub fn extract_torrent_magnet(html: String) -> (r: Result<String, ExtractionError>)
    ensures
        match selected(html@, "a"@) {
            Some(anchors) => magnet_of(anchors, r),
            None => r == Err::<String, ExtractionError>(ExtractionError::Selector),
        },
{
    match select_fragments(html.as_str(), "a") {
        Some(anchors) => find_magnet(&anchors),
        None => Err(ExtractionError::Selector),
    }
}

/// The selector of the rows of the results table.
pub open spec fn row_selector() -> Seq<char> {
    "tbody > tr"@
}

/// The selector of the pagination anchors.
pub open spec fn page_selector() -> Seq<char> {
    "div.pagination > ul > li > a"@
}

/// What extracting a listing page yields: the error that stops it, if any.
pub open spec fn listing_error(html: Seq<char>) -> Option<ExtractionError> {
    if selected(html, row_selector()) is None || selected(html, page_selector()) is None {
        Some(ExtractionError::Selector)
    } else if first_row_error(selected(html, row_selector()).unwrap()) is Some {
        first_row_error(selected(html, row_selector()).unwrap())
    } else {
        match pages_of(selected(html, page_selector()).unwrap()) {
            Err(e) => Some(e),
            Ok(_) => None,
        }
    }
}

/// Extracts the records and the pagination tokens of a listing page.
pub fn extract_torrent_data(html: String, domain: &String) -> (r: Result<(Vec<Torrent>, Vec<Page>), ExtractionError>)
    ensures
        r is Err <==> listing_error(html@) is Some,
        r is Err ==> r == Err::<(Vec<Torrent>, Vec<Page>), ExtractionError>(listing_error(html@).unwrap()),
        r is Ok ==> listing_of(r.unwrap().0@, selected(html@, row_selector()).unwrap(), domain@),
        r is Ok ==> pages_of(selected(html@, page_selector()).unwrap()) == Ok::<Seq<Page>, ExtractionError>(r.unwrap().1@),
{
    let rows = select_fragments(html.as_str(), "tbody > tr");
    let anchors = select_fragments(html.as_str(), "div.pagination > ul > li > a");
    proof {
        reveal_strlit("tbody > tr");
        reveal_strlit("div.pagination > ul > li > a");
    }
    let (Some(rows), Some(anchors)) = (rows, anchors) else {
        return Err(ExtractionError::Selector);
    };
    let torrents = match extract_body(&rows, domain) {
        Ok(v) => v,
        Err(e) => return Err(e),
    };
    match extract_pages(&anchors) {
        Ok(pages) => Ok((torrents, pages)),
        Err(e) => Err(e),
    }
}

/// Two record sequences that agree in number and in the text of every field.
pub open spec fn same_records(v1: Seq<Torrent>, v2: Seq<Torrent>) -> bool {
    &&& v1.len() == v2.len()
    &&& forall|i: int| 0 <= i < v1.len() ==> {
        &&& (#[trigger] v1[i]).number == v2[i].number
        &&& v1[i].title@ == v2[i].title@
        &&& v1[i].seeders@ == v2[i].seeders@
        &&& v1[i].leechers@ == v2[i].leechers@
        &&& v1[i].time@ == v2[i].time@
        &&& v1[i].size@ == v2[i].size@
        &&& v1[i].uploader@ == v2[i].uploader@
        &&& v1[i].link@ == v2[i].link@
    }
}

/// The records extracted from `n` rows are numbered exactly 1 to `n`, in
/// the order of the rows.
pub proof fn lemma_records_numbered_in_order(v: Seq<Torrent>, rows: Seq<MarkupNode>, domain: Seq<char>)
    requires
        listing_of(v, rows, domain),
    ensures
        v.len() == rows.len(),
        forall|i: int| 0 <= i < v.len() ==> (#[trigger] v[i]).number == i + 1,
{
    assert forall|i: int| 0 <= i < v.len() implies (#[trigger] v[i]).number == i + 1 by {
        assert(record_of(v[i], rows[i], (i + 1) as nat, domain));
    }
}

/// A pagination control is classified by its label alone: `First`, `<<` and
/// `>>` whatever the link, and any label other than the four markers only
/// as the positive number it spells, or else as an error. Only `Last` reads
/// its link, for the target page.
pub proof fn lemma_classification_by_label(label: Seq<char>, href1: Seq<char>, href2: Seq<char>)
    ensures
        label != "Last"@ ==> page_of(label, href1) == page_of(label, href2),
        label == "First"@ ==> page_of(label, href1) == Ok::<Page, ExtractionError>(Page::First),
        label == "<<"@ ==> page_of(label, href1) == Ok::<Page, ExtractionError>(Page::Previous),
        label == ">>"@ ==> page_of(label, href1) == Ok::<Page, ExtractionError>(Page::Next),
        label == "Last"@ ==> (page_of(label, href1) is Ok ==> page_of(label, href1) matches Ok(Page::Last(_))),
        label != "First"@ && label != "Last"@ && label != "<<"@ && label != ">>"@ ==> {
            &&& (page_of(label, href1) is Ok <==> parse_decimal(label) is Some && parse_decimal(label).unwrap() >= 1)
            &&& (page_of(label, href1) is Ok ==> page_of(label, href1) == Ok::<Page, ExtractionError>(
                Page::Number(parse_decimal(label).unwrap() as usize),
            ))
            &&& (page_of(label, href1) is Err ==> page_of(label, href1) == Err::<Page, ExtractionError>(
                ExtractionError::PageNumber,
            ))
        },
{
    reveal_strlit("First");
    reveal_strlit("Last");
    reveal_strlit("<<");
    reveal_strlit(">>");
}

/// Extracting the same markup twice gives the same records and the same
/// pagination tokens.
pub proof fn lemma_extraction_repeatable(
    rows: Seq<MarkupNode>,
    anchors: Seq<MarkupNode>,
    domain: Seq<char>,
    v1: Seq<Torrent>,
    v2: Seq<Torrent>,
    p1: Seq<Page>,
    p2: Seq<Page>,
)
    requires
        listing_of(v1, rows, domain),
        listing_of(v2, rows, domain),
        pages_of(anchors) == Ok::<Seq<Page>, ExtractionError>(p1),
        pages_of(anchors) == Ok::<Seq<Page>, ExtractionError>(p2),
    ensures
        same_records(v1, v2),
        p1 == p2,
{
    assert forall|i: int| 0 <= i < v1.len() implies {
        &&& (#[trigger] v1[i]).number == v2[i].number
        &&& v1[i].title@ == v2[i].title@
        &&& v1[i].seeders@ == v2[i].seeders@
        &&& v1[i].leechers@ == v2[i].leechers@
        &&& v1[i].time@ == v2[i].time@
        &&& v1[i].size@ == v2[i].size@
        &&& v1[i].uploader@ == v2[i].uploader@
        &&& v1[i].link@ == v2[i].link@
    } by {
        assert(record_of(v1[i], rows[i], (i + 1) as nat, domain));
        assert(record_of(v2[i], rows[i], (i + 1) as nat, domain));
    }
}

} // verus!
