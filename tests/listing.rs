use torrent_search::html_parser::{
    classify_page, extract_body, extract_pages, extract_torrent_data, extract_torrent_magnet,
};
use torrent_search::markup::MarkupNode;
use torrent_search::types::{ExtractionError, Page};
use torrent_search::utils::{is_last_page, next_step, parse_selection, selected_links, Step};

fn row(title: &str, href: &str, seeders: &str, leechers: &str, time: &str, size: &str, uploader: &str) -> String {
    format!(
        "<tr><td class=\"name\"><a href=\"/sub/1/\"><i></i></a><a href=\"{href}\">{title}</a></td>\
         <td>{seeders}</td><td>{leechers}</td><td>{time}</td><td>{size}</td>\
         <td><a href=\"/user/{uploader}/\">{uploader}</a></td></tr>"
    )
}

fn pagination() -> String {
    String::from(
        "<div class=\"pagination\"><ul>\
         <li><a href=\"/search/q/1/\">First</a></li>\
         <li><a href=\"/search/q/1/\">1</a></li>\
         <li><a href=\"/search/q/2/\">2</a></li>\
         <li><a href=\"/search/q/5/\">Last</a></li>\
         <li><a href=\"/search/q/2/\">&gt;&gt;</a></li>\
         </ul></div>",
    )
}

fn listing_page() -> String {
    format!(
        "<html><body><table><tbody>{}{}{}</tbody></table>{}</body></html>",
        row("Alpha", "/torrent/1/alpha/", "10", "2", "Jan. 1st", "1.2 GB", "ann"),
        row("Beta", "/torrent/2/beta/", "20", "3", "Feb. 2nd", "700 MB", "bob"),
        row("Gamma", "/torrent/3/gamma/", "30", "4", "Mar. 3rd", "4 GB", "cid"),
        pagination()
    )
}

fn text(s: &str) -> MarkupNode {
    MarkupNode { text: Some(String::from(s)), element: None, children: Vec::new() }
}

fn tagged(name: &str, href: Option<&str>, children: Vec<MarkupNode>) -> MarkupNode {
    MarkupNode { text: None, element: Some((String::from(name), href.map(String::from))), children }
}

fn element(href: Option<&str>, children: Vec<MarkupNode>) -> MarkupNode {
    tagged(if href.is_some() { "a" } else { "td" }, href, children)
}

#[test]
fn records_are_numbered_in_document_order() {
    let (torrents, _) = extract_torrent_data(listing_page(), &String::from("1337x.to")).unwrap();
    assert_eq!(torrents.len(), 3);
    let numbers: Vec<usize> = torrents.iter().map(|t| t.number).collect();
    assert_eq!(numbers, vec![1, 2, 3]);
    assert_eq!(torrents[0].title, "Alpha");
    assert_eq!(torrents[1].seeders, "20");
    assert_eq!(torrents[1].leechers, "3");
    assert_eq!(torrents[2].time, "Mar. 3rd");
    assert_eq!(torrents[2].size, "4 GB");
    assert_eq!(torrents[2].uploader, "cid");
    assert_eq!(torrents[0].link, "https://1337x.to/torrent/1/alpha/");
}

#[test]
fn pagination_tokens_in_document_order() {
    let (_, pages) = extract_torrent_data(listing_page(), &String::from("1337x.to")).unwrap();
    assert_eq!(pages, vec![Page::First, Page::Number(1), Page::Number(2), Page::Last(5), Page::Next]);
}

#[test]
fn end_to_end_selection_follows_extraction_order() {
    let (torrents, pages) = extract_torrent_data(listing_page(), &String::from("1337x.to")).unwrap();
    let last = is_last_page(&pages, 1);
    assert!(!last);
    // the listing is shown in reverse; selection still names extraction order
    let shown: Vec<usize> = torrents.iter().rev().map(|t| t.number).collect();
    assert_eq!(shown, vec![3, 2, 1]);
    let input = parse_selection("2", torrents.len(), 1, last).unwrap().unwrap();
    let Step::Resolve(numbers) = next_step(input, &pages) else {
        panic!("expected a selection");
    };
    assert_eq!(numbers, vec![2]);
    let links = selected_links(&torrents, &numbers);
    assert_eq!(links, vec![String::from("https://1337x.to/torrent/2/beta/")]);
}

#[test]
fn extracting_twice_gives_the_same_listing() {
    let domain = String::from("example.org");
    let (a, pa) = extract_torrent_data(listing_page(), &domain).unwrap();
    let (b, pb) = extract_torrent_data(listing_page(), &domain).unwrap();
    assert_eq!(pa, pb);
    assert_eq!(a.len(), b.len());
    for (x, y) in a.iter().zip(b.iter()) {
        assert_eq!(x.number, y.number);
        assert_eq!(x.title, y.title);
        assert_eq!(x.seeders, y.seeders);
        assert_eq!(x.leechers, y.leechers);
        assert_eq!(x.time, y.time);
        assert_eq!(x.size, y.size);
        assert_eq!(x.uploader, y.uploader);
        assert_eq!(x.link, y.link);
    }
}

#[test]
fn page_without_results_or_pagination_is_empty() {
    let (torrents, pages) =
        extract_torrent_data(String::from("<html><body><p>nothing</p></body></html>"), &String::from("d")).unwrap();
    assert!(torrents.is_empty());
    assert!(pages.is_empty());
    assert!(is_last_page(&pages, 1));
}

#[test]
fn missing_uploader_cell_is_an_error() {
    let html = String::from(
        "<table><tbody><tr><td><a href=\"/x\"></a><a href=\"/t/1/\">T</a></td>\
         <td>1</td><td>2</td><td>t</td><td>s</td></tr></tbody></table>",
    );
    assert_eq!(extract_torrent_data(html, &String::from("d")).err(), Some(ExtractionError::Uploader));
}

#[test]
fn title_cell_without_second_link_is_an_error() {
    let cell = element(None, vec![element(Some("/a"), vec![text("T")])]);
    let rows = vec![element(None, vec![cell])];
    assert_eq!(extract_body(&rows, &String::from("d")).err(), Some(ExtractionError::Title));
}

#[test]
fn generic_cell_without_text_is_an_error() {
    let title = element(None, vec![element(Some("/a"), vec![]), element(Some("/t/9/"), vec![text("T")])]);
    let seeders = element(None, vec![element(None, vec![text("5")])]);
    let rows = vec![element(None, vec![text("\n"), title, seeders])];
    assert_eq!(extract_body(&rows, &String::from("d")).err(), Some(ExtractionError::Seeders));
}

#[test]
fn rows_skip_non_element_children() {
    let title = element(None, vec![element(Some("/a"), vec![]), element(Some("/t/9/"), vec![text("T")])]);
    let cell = |s: &str| element(None, vec![text(s)]);
    let uploader = element(None, vec![element(Some("/u"), vec![text("u")])]);
    let rows = vec![element(
        None,
        vec![title, text(" "), cell("1"), cell("2"), cell("3"), cell("4"), text(" "), uploader],
    )];
    let v = extract_body(&rows, &String::from("d.io")).unwrap();
    assert_eq!(v.len(), 1);
    assert_eq!(v[0].number, 1);
    assert_eq!(v[0].seeders, "1");
    assert_eq!(v[0].size, "4");
    assert_eq!(v[0].uploader, "u");
    assert_eq!(v[0].link, "https://d.io/t/9/");
}

#[test]
fn pagination_markers_classify_by_label() {
    assert_eq!(classify_page("First", "/x/"), Ok(Page::First));
    assert_eq!(classify_page("<<", "/x/"), Ok(Page::Previous));
    assert_eq!(classify_page(">>", "anything"), Ok(Page::Next));
    assert_eq!(classify_page("Last", "/search/q/42/"), Ok(Page::Last(42)));
    assert_eq!(classify_page("Last", "/search/q/42"), Ok(Page::Last(42)));
    assert_eq!(classify_page("Last", "/search/q/"), Err(ExtractionError::LastPage));
    assert_eq!(classify_page("Last", "///"), Err(ExtractionError::LastPage));
    assert_eq!(classify_page("7", "/x/"), Ok(Page::Number(7)));
    assert_eq!(classify_page("0", "/x/"), Err(ExtractionError::PageNumber));
    assert_eq!(classify_page("Next", "/x/"), Err(ExtractionError::PageNumber));
}

#[test]
fn pagination_anchor_errors() {
    let no_label = vec![element(Some("/1/"), vec![])];
    assert_eq!(extract_pages(&no_label), Err(ExtractionError::PageLabel));
    let no_href = vec![element(None, vec![text("3")])];
    assert_eq!(extract_pages(&no_href), Err(ExtractionError::PageHref));
    let bad = vec![element(Some("/1/"), vec![text("1")]), element(Some("/2/"), vec![text("two")])];
    assert_eq!(extract_pages(&bad), Err(ExtractionError::PageNumber));
}

#[test]
fn magnet_link_is_first_anchor_with_prefix() {
    let html = String::from(
        "<html><body><a href=\"/x?magnet:?no\">a</a><a href=\"magnet:?xt=one\">b</a>\
         <a href=\"magnet:?xt=two\">c</a></body></html>",
    );
    assert_eq!(extract_torrent_magnet(html), Ok(String::from("magnet:?xt=one")));
}

#[test]
fn detail_page_without_magnet_is_an_error() {
    let html = String::from("<html><body><a href=\"/download\">d</a></body></html>");
    assert_eq!(extract_torrent_magnet(html), Err(ExtractionError::Link));
}

#[test]
fn title_needs_two_links_in_the_cell() {
    let cell = element(None, vec![text("x"), element(Some("/t/1/"), vec![text("Only")])]);
    let rows = vec![element(None, vec![cell])];
    assert_eq!(extract_body(&rows, &String::from("d")).err(), Some(ExtractionError::Title));
    let span = tagged("span", Some("/s"), vec![text("S")]);
    let cell = element(None, vec![element(Some("/a"), vec![]), span]);
    let rows = vec![element(None, vec![cell])];
    assert_eq!(extract_body(&rows, &String::from("d")).err(), Some(ExtractionError::Title));
}

#[test]
fn title_skips_whitespace_before_links() {
    let html = String::from(
        "<table><tbody><tr><td> <a href=\"/sub/1/\"><i></i></a> <a href=\"/t/7/x/\">Seven</a></td>\
         <td>1</td><td>2</td><td>t</td><td>s</td><td><a href=\"/u/\">u</a></td></tr></tbody></table>",
    );
    let (v, _) = extract_torrent_data(html, &String::from("d.io")).unwrap();
    assert_eq!(v[0].title, "Seven");
    assert_eq!(v[0].link, "https://d.io/t/7/x/");
}
