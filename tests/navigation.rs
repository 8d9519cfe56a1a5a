use torrent_search::text::parse_usize;
use torrent_search::types::{Category, Page, Sort, UserInput};
use torrent_search::utils::{expand_range, generate_url, is_last_page, next_step, Step};

#[test]
fn last_page_follows_last_token() {
    let pages = vec![Page::First, Page::Number(1), Page::Number(2), Page::Last(5), Page::Next];
    assert!(!is_last_page(&pages, 1));
    assert!(is_last_page(&pages, 5));
}

#[test]
fn last_page_without_last_token_is_largest_number() {
    let pages = vec![Page::Previous, Page::Number(3), Page::Number(4)];
    assert!(is_last_page(&pages, 4));
    assert!(!is_last_page(&pages, 3));
    assert!(!is_last_page(&vec![Page::First], 1));
}

#[test]
fn single_page_listing_is_last() {
    assert!(is_last_page(&Vec::new(), 1));
}

#[test]
fn steps_after_input() {
    let pages = vec![Page::First, Page::Last(9)];
    assert_eq!(next_step(UserInput::Next(4), &pages), Step::Browse(4));
    assert_eq!(next_step(UserInput::Previous(2), &pages), Step::Browse(2));
    assert_eq!(next_step(UserInput::First, &pages), Step::Browse(1));
    assert_eq!(next_step(UserInput::Last, &pages), Step::Browse(9));
    assert_eq!(next_step(UserInput::Range(2, 4), &pages), Step::Resolve(vec![2, 3, 4]));
    assert_eq!(next_step(UserInput::Space(vec![5, 1]), &pages), Step::Resolve(vec![5, 1]));
    assert_eq!(expand_range(7, 7), vec![7]);
}

#[test]
fn search_urls() {
    let q = String::from("ubuntu");
    let d = String::from("1337x.to");
    assert_eq!(generate_url(&q, &None, &None, &d, false, 1), "https://1337x.to/search/ubuntu/1/");
    assert_eq!(
        generate_url(&q, &None, &Some(Sort::Seeders), &d, false, 12),
        "https://1337x.to/sort-search/ubuntu/seeders/desc/12/"
    );
    assert_eq!(
        generate_url(&q, &Some(Category::Tv), &None, &d, true, 3),
        "https://1337x.to/category-search/ubuntu/TV/3/"
    );
    assert_eq!(
        generate_url(&q, &Some(Category::Apps), &Some(Sort::Size), &d, true, 205),
        "https://1337x.to/sort-category-search/ubuntu/Apps/size/asc/205/"
    );
}

#[test]
fn names_and_lists() {
    assert_eq!(Sort::list(), "Time | Size | Seeders | Leechers");
    assert_eq!(
        Category::list(),
        "Movies | TV | Games | Music | Apps | Documentaries | Anime | Other | XXX"
    );
    assert_eq!(Sort::from_name("SeEdErS"), Some(Sort::Seeders));
    assert_eq!(Sort::from_name("speed"), None);
    assert_eq!(Category::from_name("XXX"), Some(Category::Xxx));
    assert_eq!(Category::from_name("Documentaries"), Some(Category::Documentaries));
    assert_eq!(Category::from_name("books"), None);
    assert_eq!(Sort::Leechers.to_string(), "leechers");
    assert_eq!(Category::Tv.to_string(), "TV");
}

#[test]
fn page_labels() {
    assert_eq!(Page::First.label(), "First (1)");
    assert_eq!(Page::Next.label(), "->");
    assert_eq!(Page::Previous.label(), "<-");
    assert_eq!(Page::Last(37).label(), "Last (37)");
    assert_eq!(Page::Number(8).label(), "8");
}

#[test]
fn decimal_parsing() {
    assert_eq!(parse_usize("42"), Some(42));
    assert_eq!(parse_usize("+5"), Some(5));
    assert_eq!(parse_usize("007"), Some(7));
    assert_eq!(parse_usize("18446744073709551615"), Some(usize::MAX));
    assert_eq!(parse_usize("18446744073709551616"), None);
    assert_eq!(parse_usize(""), None);
    assert_eq!(parse_usize("+"), None);
    assert_eq!(parse_usize("-1"), None);
    assert_eq!(parse_usize("1a"), None);
}
