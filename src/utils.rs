//! Turning a line of operator input into a selection or a navigation
//! command, and the navigation decisions that follow from it.

use vstd::prelude::*;
use vstd::string::*;
use crate::text::{contains_char, decimal_text, usize_text, is_single, parse_decimal, parse_usize, split_char, split_on, trim, trimmed};
use crate::types::{category_name, sort_name, Category, Page, SelectionError, Sort, Torrent, UserInput};

verus! {

/// The search URL of one page of results.
pub open spec fn url_of(
    query: Seq<char>,
    category: Option<Category>,
    sort: Option<Sort>,
    domain: Seq<char>,
    invert: bool,
    page: nat,
) -> Seq<char> {
    let order = if invert { "asc"@ } else { "desc"@ };
    let base = "https://"@ + domain;
    let tail = "/"@ + decimal_text(page) + "/"@;
    match (category, sort) {
        (None, None) => base + "/search/"@ + query + tail,
        (None, Some(s)) => base + "/sort-search/"@ + query + "/"@ + sort_name(s) + "/"@ + order + tail,
        (Some(c), None) => base + "/category-search/"@ + query + "/"@ + category_name(c) + tail,
        (Some(c), Some(s)) => base + "/sort-category-search/"@ + query + "/"@ + category_name(c) + "/"@
            + sort_name(s) + "/"@ + order + tail,
    }
}

/// Builds the search URL of one page of results.
pub fn generate_url(
    query: &String,
    category: &Option<Category>,
    sort: &Option<Sort>,
    domain: &String,
    invert: bool,
    page: usize,
) -> (r: String)
    ensures
        r@ == url_of(query@, *category, *sort, domain@, invert, page as nat),
{
    let order = if invert { "asc" } else { "desc" };
    let mut tail = String::from_str("/");
    tail.append(usize_text(page).as_str());
    tail.append("/");
    let mut url = String::from_str("https://");
    url.append(domain.as_str());
    match (category, sort) {
        (None, None) => {
            url.append("/search/");
            url.append(query.as_str());
        },
        (None, Some(s)) => {
            url.append("/sort-search/");
            url.append(query.as_str());
            url.append("/");
            url.append(s.to_string().as_str());
            url.append("/");
            url.append(order);
        },
        (Some(c), None) => {
            url.append("/category-search/");
            url.append(query.as_str());
            url.append("/");
            url.append(c.to_string().as_str());
        },
        (Some(c), Some(s)) => {
            url.append("/sort-category-search/");
            url.append(query.as_str());
            url.append("/");
            url.append(c.to_string().as_str());
            url.append("/");
            url.append(s.to_string().as_str());
            url.append("/");
            url.append(order);
        },
    }
    url.append(tail.as_str());
    url
}

/// What a `start-end` selection yields for a listing of `item_count` records.
pub open spec fn range_result(s: Seq<char>, item_count: nat, r: Result<UserInput, SelectionError>) -> bool {
    let parts = split_on(s, '-');
    if parts.len() == 2 && parse_decimal(parts[0]) is Some && parse_decimal(parts[1]) is Some
        && 1 <= parse_decimal(parts[0]).unwrap() && parse_decimal(parts[0]).unwrap() < parse_decimal(parts[1]).unwrap()
        && parse_decimal(parts[1]).unwrap() <= item_count {
        r == Ok::<UserInput, SelectionError>(
            UserInput::Range(parse_decimal(parts[0]).unwrap() as usize, parse_decimal(parts[1]).unwrap() as usize),
        )
    } else {
        r == Err::<UserInput, SelectionError>(SelectionError::InvalidRange)
    }
}

pub open spec fn in_bounds(t: Seq<char>, item_count: nat) -> bool {
    1 <= parse_decimal(t).unwrap() && parse_decimal(t).unwrap() <= item_count
}

/// `r` is the error `InvalidNumber` naming the piece `t`.
pub open spec fn invalid_number(r: Result<UserInput, SelectionError>, t: Seq<char>) -> bool {
    match r {
        Err(SelectionError::InvalidNumber(s)) => s@ == t,
        _ => false,
    }
}

/// What a space-separated selection yields for a listing of `item_count`
/// records: the numbers in input order, or the first piece that is not a
/// number, or else the first number out of bounds.
pub open spec fn spaces_result(s: Seq<char>, item_count: nat, r: Result<UserInput, SelectionError>) -> bool {
    let toks = split_on(s, ' ');
    if exists|k: int| 0 <= k < toks.len() && parse_decimal(#[trigger] toks[k]) is None {
        exists|k: int|
            0 <= k < toks.len() && parse_decimal(#[trigger] toks[k]) is None
            && (forall|j: int| 0 <= j < k ==> parse_decimal(#[trigger] toks[j]) is Some)
            && invalid_number(r, toks[k])
    } else if toks.len() == 0 {
        r == Err::<UserInput, SelectionError>(SelectionError::EmptySelection)
    } else if exists|k: int| 0 <= k < toks.len() && !in_bounds(#[trigger] toks[k], item_count) {
        exists|k: int|
            0 <= k < toks.len() && !in_bounds(#[trigger] toks[k], item_count)
            && (forall|j: int| 0 <= j < k ==> in_bounds(#[trigger] toks[j], item_count))
            && invalid_number(r, toks[k])
    } else {
        match r {
            Ok(UserInput::Space(v)) => v@.len() == toks.len()
                && forall|i: int| 0 <= i < toks.len() ==> parse_decimal(#[trigger] toks[i]) == Some(v@[i] as nat),
            _ => false,
        }
    }
}

/// What one trimmed, non-empty line of input yields.
pub open spec fn selection_result(
    s: Seq<char>,
    item_count: nat,
    current_page: nat,
    is_last_page: bool,
    r: Result<UserInput, SelectionError>,
) -> bool {
    if s == seq!['n'] {
        r == if is_last_page {
            Err(SelectionError::AlreadyLastPage)
        } else {
            Ok::<UserInput, SelectionError>(UserInput::Next((current_page + 1) as usize))
        }
    } else if s == seq!['p'] {
        r == if current_page == 1 {
            Err(SelectionError::AlreadyFirstPage)
        } else {
            Ok::<UserInput, SelectionError>(UserInput::Previous((current_page - 1) as usize))
        }
    } else if s == seq!['l'] {
        r == if is_last_page {
            Err(SelectionError::AlreadyLastPage)
        } else {
            Ok::<UserInput, SelectionError>(UserInput::Last)
        }
    } else if s == seq!['f'] {
        r == if current_page == 1 {
            Err(SelectionError::AlreadyFirstPage)
        } else {
            Ok::<UserInput, SelectionError>(UserInput::First)
        }
    } else if exists|i: int| 0 <= i < s.len() && s[i] == '-' {
        range_result(s, item_count, r)
    } else {
        spaces_result(s, item_count, r)
    }
}

/// Parses a `start-end` selection.
pub fn get_input_from_dash(buffer: &str, data_len: usize) -> (r: Result<UserInput, SelectionError>)
    ensures
        range_result(buffer@, data_len as nat, r),
{
    let range = split_char(buffer, '-');
    if range.len() != 2 {
        return Err(SelectionError::InvalidRange);
    }
    let start = match parse_usize(range[0]) {
        Some(v) => v,
        None => return Err(SelectionError::InvalidRange),
    };
    let end = match parse_usize(range[1]) {
        Some(v) => v,
        None => return Err(SelectionError::InvalidRange),
    };
    if start >= end {
        return Err(SelectionError::InvalidRange);
    }
    if start < 1 || end > data_len {
        return Err(SelectionError::InvalidRange);
    }
    Ok(UserInput::Range(start, end))
}

/// Parses a space-separated list of record numbers.
pub fn get_input_from_spaces(buffer: &str, data_len: usize) -> (r: Result<UserInput, SelectionError>)
    ensures
        spaces_result(buffer@, data_len as nat, r),
{
    let toks = split_char(buffer, ' ');
    let ghost pieces = split_on(buffer@, ' ');
    let mut numbers: Vec<usize> = Vec::new();
    let mut i: usize = 0;
    while i < toks.len()
        invariant
            i <= toks@.len(),
            pieces == split_on(buffer@, ' '),
            toks@.len() == pieces.len(),
            forall|j: int| 0 <= j < toks@.len() ==> (#[trigger] toks@[j])@ == pieces[j],
            numbers@.len() == i,
            forall|j: int| 0 <= j < i ==> parse_decimal(#[trigger] pieces[j]) == Some(numbers@[j] as nat),
        decreases toks@.len() - i,
    {
        match parse_usize(toks[i]) {
            Some(v) => numbers.push(v),
            None => {
                let bad = String::from_str(toks[i]);
                assert(invalid_number(Err(SelectionError::InvalidNumber(bad)), pieces[i as int]));
                return Err(SelectionError::InvalidNumber(bad));
            },
        }
        i = i + 1;
    }
    if numbers.len() == 0 {
        return Err(SelectionError::EmptySelection);
    }
    let mut i: usize = 0;
    while i < numbers.len()
        invariant
            i <= numbers@.len(),
            numbers@.len() == toks@.len(),
            pieces == split_on(buffer@, ' '),
            toks@.len() == pieces.len(),
            forall|j: int| 0 <= j < toks@.len() ==> (#[trigger] toks@[j])@ == pieces[j],
            forall|j: int| 0 <= j < numbers@.len() ==> parse_decimal(#[trigger] pieces[j]) == Some(numbers@[j] as nat),
            forall|j: int| 0 <= j < i ==> in_bounds(#[trigger] pieces[j], data_len as nat),
        decreases numbers@.len() - i,
    {
        let n = numbers[i];
        if n > data_len || n < 1 {
            let bad = String::from_str(toks[i]);
            assert(!in_bounds(pieces[i as int], data_len as nat));
            assert(invalid_number(Err(SelectionError::InvalidNumber(bad)), pieces[i as int]));
            return Err(SelectionError::InvalidNumber(bad));
        }
        i = i + 1;
    }
    Ok(UserInput::Space(numbers))
}

/// Moves to the next page, unless this one is the last.
pub fn get_next_page(current_page: usize, is_last_page: bool) -> (r: Result<UserInput, SelectionError>)
    requires
        !is_last_page ==> current_page < usize::MAX,
    ensures
        r == if is_last_page {
            Err(SelectionError::AlreadyLastPage)
        } else {
            Ok::<UserInput, SelectionError>(UserInput::Next((current_page + 1) as usize))
        },
{
    if is_last_page {
        return Err(SelectionError::AlreadyLastPage);
    }
    Ok(UserInput::Next(current_page + 1))
}

/// Moves to the previous page, unless this one is the first.
pub fn get_previous_page(current_page: usize) -> (r: Result<UserInput, SelectionError>)
    requires
        current_page >= 1,
    ensures
        r == if current_page == 1 {
            Err(SelectionError::AlreadyFirstPage)
        } else {
            Ok::<UserInput, SelectionError>(UserInput::Previous((current_page - 1) as usize))
        },
{
    if current_page == 1 {
        return Err(SelectionError::AlreadyFirstPage);
    }
    Ok(UserInput::Previous(current_page - 1))
}

/// Jumps to the last page, unless this one is the last.
pub fn get_last_page(is_last_page: bool) -> (r: Result<UserInput, SelectionError>)
    ensures
        r == if is_last_page {
            Err(SelectionError::AlreadyLastPage)
        } else {
            Ok::<UserInput, SelectionError>(UserInput::Last)
        },
{
    if is_last_page {
        return Err(SelectionError::AlreadyLastPage);
    }
    Ok(UserInput::Last)
}

/// Jumps to the first page, unless this one is the first.
pub fn get_first_page(current_page: usize) -> (r: Result<UserInput, SelectionError>)
    ensures
        r == if current_page == 1 {
            Err(SelectionError::AlreadyFirstPage)
        } else {
            Ok::<UserInput, SelectionError>(UserInput::First)
        },
{
    if current_page == 1 {
        return Err(SelectionError::AlreadyFirstPage);
    }
    Ok(UserInput::First)
}

/// Interprets one trimmed line of input; `None` for an empty line, on which
/// the caller asks again.
pub fn parse_trimmed(buffer: &str, data_len: usize, current_page: usize, is_last_page: bool) -> (r: Result<
    Option<UserInput>,
    SelectionError,
>)
    requires
        current_page >= 1,
        !is_last_page ==> current_page < usize::MAX,
    ensures
        buffer@.len() == 0 ==> r == Ok::<Option<UserInput>, SelectionError>(None),
        buffer@.len() > 0 ==> match r {
            Ok(Some(u)) => selection_result(buffer@, data_len as nat, current_page as nat, is_last_page, Ok(u)),
            Err(e) => selection_result(buffer@, data_len as nat, current_page as nat, is_last_page, Err(e)),
            Ok(None) => false,
        },
{
    if buffer.unicode_len() == 0 {
        return Ok(None);
    }
    let user_input = if is_single(buffer, 'n') {
        get_next_page(current_page, is_last_page)
    } else if is_single(buffer, 'p') {
        get_previous_page(current_page)
    } else if is_single(buffer, 'l') {
        get_last_page(is_last_page)
    } else if is_single(buffer, 'f') {
        get_first_page(current_page)
    } else if contains_char(buffer, '-') {
        get_input_from_dash(buffer, data_len)
    } else {
        get_input_from_spaces(buffer, data_len)
    };
    match user_input {
        Ok(u) => Ok(Some(u)),
        Err(e) => Err(e),
    }
}

/// Interprets one line of input after trimming surrounding whitespace.
pub fn parse_selection(input: &str, data_len: usize, current_page: usize, is_last_page: bool) -> (r: Result<
    Option<UserInput>,
    SelectionError,
>)
    requires
        current_page >= 1,
        !is_last_page ==> current_page < usize::MAX,
    ensures
        trimmed(input@).len() == 0 ==> r == Ok::<Option<UserInput>, SelectionError>(None),
        trimmed(input@).len() > 0 ==> match r {
            Ok(Some(u)) => selection_result(trimmed(input@), data_len as nat, current_page as nat, is_last_page, Ok(u)),
            Err(e) => selection_result(trimmed(input@), data_len as nat, current_page as nat, is_last_page, Err(e)),
            Ok(None) => false,
        },
{
    parse_trimmed(trim(input), data_len, current_page, is_last_page)
}

/// The target of the first `Last` token.
pub open spec fn last_target(pages: Seq<Page>) -> Option<usize>
    decreases pages.len(),
{
    if pages.len() == 0 {
        None
    } else {
        match pages[0] {
            Page::Last(t) => Some(t),
            _ => last_target(pages.drop_first()),
        }
    }
}

/// The largest page of the `Number` tokens.
pub open spec fn max_number(pages: Seq<Page>) -> Option<usize>
    decreases pages.len(),
{
    if pages.len() == 0 {
        None
    } else {
        let m = max_number(pages.drop_last());
        match pages.last() {
            Page::Number(v) => match m {
                Some(x) => Some(if x >= v { x } else { v }),
                None => Some(v),
            },
            _ => m,
        }
    }
}

/// Whether `current_page` is the last page: the target of a `Last` token
/// where there is one; else the largest numbered page; a listing without
/// pagination has a single page.
pub open spec fn last_page_rule(pages: Seq<Page>, current_page: usize) -> bool {
    match last_target(pages) {
        Some(t) => t == current_page,
        None => pages.len() == 0 || max_number(pages) == Some(current_page),
    }
}

/// The target of the first `Last` token, if any.
pub fn find_last_target(pages: &Vec<Page>) -> (r: Option<usize>)
    ensures
        r == last_target(pages@),
{
    let mut i: usize = 0;
    assert(pages@.subrange(0, pages@.len() as int) =~= pages@);
    while i < pages.len()
        invariant
            i <= pages@.len(),
            last_target(pages@) == last_target(pages@.subrange(i as int, pages@.len() as int)),
        decreases pages@.len() - i,
    {
        proof {
            assert(pages@.subrange(i as int, pages@.len() as int).drop_first()
                =~= pages@.subrange(i + 1, pages@.len() as int));
        }
        if let Page::Last(t) = pages[i] {
            return Some(t);
        }
        i = i + 1;
    }
    None
}

/// The largest page of the `Number` tokens, if any.
pub fn find_max_number(pages: &Vec<Page>) -> (r: Option<usize>)
    ensures
        r == max_number(pages@),
{
    let mut m: Option<usize> = None;
    let mut i: usize = 0;
    while i < pages.len()
        invariant
            i <= pages@.len(),
            m == max_number(pages@.subrange(0, i as int)),
        decreases pages@.len() - i,
    {
        proof {
            assert(pages@.subrange(0, i + 1).drop_last() =~= pages@.subrange(0, i as int));
        }
        if let Page::Number(v) = pages[i] {
            m = match m {
                Some(x) => Some(if x >= v { x } else { v }),
                None => Some(v),
            };
        }
        i = i + 1;
    }
    assert(pages@.subrange(0, i as int) =~= pages@);
    m
}

/// Decides whether `current_page` is the last page of the listing.
pub fn is_last_page(pages: &Vec<Page>, current_page: usize) -> (r: bool)
    ensures
        r == last_page_rule(pages@, current_page),
{
    match find_last_target(pages) {
        Some(t) => t == current_page,
        None => pages.len() == 0 || find_max_number(pages) == Some(current_page),
    }
}

/// What the navigation loop does after an accepted line of input.
#[derive(Debug, Clone, PartialEq, Eq)]
pub enum Step {
    /// Fetch and show this page.
    Browse(usize),
    /// Resolve these record numbers, in this order.
    Resolve(Vec<usize>),
}

/// The numbers `start..=end`, in increasing order.
pub fn expand_range(start: usize, end: usize) -> (r: Vec<usize>)
    requires
        1 <= start <= end,
    ensures
        r@.len() == end - start + 1,
        forall|i: int| 0 <= i < r@.len() ==> #[trigger] r@[i] == start + i,
{
    let mut r: Vec<usize> = Vec::new();
    let count: usize = end - start + 1;
    let mut i: usize = 0;
    while i < count
        invariant
            i <= count,
            count == end - start + 1,
            r@.len() == i,
            forall|j: int| 0 <= j < i ==> #[trigger] r@[j] == start + j,
        decreases count - i,
    {
        r.push(start + i);
        i = i + 1;
    }
    r
}

/// The step that an accepted input leads to: a page to browse, or the
/// record numbers to resolve, a range expanded to its inclusive bounds.
pub fn next_step(input: UserInput, pages: &Vec<Page>) -> (r: Step)
    requires
        input == UserInput::Last ==> last_target(pages@) is Some,
        input matches UserInput::Range(a, b) ==> 1 <= a <= b,
    ensures
        match input {
            UserInput::Next(n) => r == Step::Browse(n),
            UserInput::Previous(n) => r == Step::Browse(n),
            UserInput::First => r == Step::Browse(1),
            UserInput::Last => r == Step::Browse(last_target(pages@).unwrap()),
            UserInput::Space(v) => r matches Step::Resolve(w) && w@ == v@,
            UserInput::Range(a, b) => r matches Step::Resolve(w) && w@.len() == b - a + 1
                && forall|i: int| 0 <= i < w@.len() ==> #[trigger] w@[i] == a + i,
        },
{
    match input {
        UserInput::Next(n) => Step::Browse(n),
        UserInput::Previous(n) => Step::Browse(n),
        UserInput::First => Step::Browse(1),
        UserInput::Last => match find_last_target(pages) {
            Some(t) => Step::Browse(t),
            None => Step::Browse(1),
        },
        UserInput::Space(v) => Step::Resolve(v),
        UserInput::Range(a, b) => Step::Resolve(expand_range(a, b)),
    }
}

/// The detail-page links of the chosen records, in the order chosen; record
/// number `k` is the `k`-th record in document order.
pub fn selected_links(torrents: &Vec<Torrent>, numbers: &Vec<usize>) -> (r: Vec<String>)
    requires
        forall|i: int| 0 <= i < numbers@.len() ==> 1 <= #[trigger] numbers@[i] <= torrents@.len(),
    ensures
        r@.len() == numbers@.len(),
        forall|i: int| 0 <= i < numbers@.len() ==> (#[trigger] r@[i])@ == torrents@[numbers@[i] - 1].link@,
{
    let mut r: Vec<String> = Vec::new();
    let mut i: usize = 0;
    while i < numbers.len()
        invariant
            i <= numbers@.len(),
            forall|j: int| 0 <= j < numbers@.len() ==> 1 <= #[trigger] numbers@[j] <= torrents@.len(),
            r@.len() == i,
            forall|j: int| 0 <= j < i ==> (#[trigger] r@[j])@ == torrents@[numbers@[j] - 1].link@,
        decreases numbers@.len() - i,
    {
        let k = numbers[i];
        r.push(torrents[k - 1].link.clone());
        i = i + 1;
    }
    r
}

} // verus!
