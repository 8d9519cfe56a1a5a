//! The records, pagination tokens, selections and errors of the library.

use vstd::prelude::*;
use vstd::string::*;
use crate::text::{decimal_text, lower_of, lowercase, usize_text};

verus! {

/// One listing entry. `number` is its 1-based position in document order.
pub struct Torrent {
    pub number: usize,
    pub title: String,
    pub seeders: String,
    pub leechers: String,
    pub time: String,
    pub size: String,
    pub uploader: String,
    pub link: String,
}

/// What one line of operator input asks for.
#[derive(Debug, Clone, PartialEq, Eq)]
pub enum UserInput {
    Space(Vec<usize>),
    Range(usize, usize),
    Next(usize),
    Previous(usize),
    Last,
    First,
}

/// One pagination control of a listing page.
#[derive(Debug, Clone, Copy, PartialEq, Eq, Structural)]
pub enum Page {
    Next,
    Previous,
    First,
    Last(usize),
    Number(usize),
}

/// The logical field that extraction could not resolve.
#[derive(Debug, Clone, Copy, PartialEq, Eq, Structural)]
pub enum ExtractionError {
    /// A selector of the library did not parse.
    Selector,
    Title,
    Seeders,
    Leechers,
    Time,
    Size,
    Uploader,
    PageLabel,
    PageHref,
    PageNumber,
    LastPage,
    Link,
}

/// Why a line of operator input was refused.
#[derive(Debug, Clone, PartialEq, Eq)]
pub enum SelectionError {
    InvalidRange,
    InvalidNumber(String),
    EmptySelection,
    AlreadyFirstPage,
    AlreadyLastPage,
}

/// The order in which the site sorts results.
#[derive(Debug, Clone, Copy, PartialEq, Eq, Structural)]
pub enum Sort {
    Time,
    Size,
    Seeders,
    Leechers,
}

pub open spec fn sort_name(s: Sort) -> Seq<char> {
    match s {
        Sort::Time => "time"@,
        Sort::Size => "size"@,
        Sort::Seeders => "seeders"@,
        Sort::Leechers => "leechers"@,
    }
}

pub open spec fn sort_title(s: Sort) -> Seq<char> {
    match s {
        Sort::Time => "Time"@,
        Sort::Size => "Size"@,
        Sort::Seeders => "Seeders"@,
        Sort::Leechers => "Leechers"@,
    }
}

/// The sort whose lower-case name is `s`.
pub open spec fn sort_of_name(s: Seq<char>) -> Option<Sort> {
    if s == "time"@ {
        Some(Sort::Time)
    } else if s == "size"@ {
        Some(Sort::Size)
    } else if s == "seeders"@ {
        Some(Sort::Seeders)
    } else if s == "leechers"@ {
        Some(Sort::Leechers)
    } else {
        None
    }
}

impl Sort {
    /// The name the site uses in its URLs.
    pub fn to_string(&self) -> (r: String)
        ensures
            r@ == sort_name(*self),
    {
        match self {
            Sort::Time => String::from_str("time"),
            Sort::Size => String::from_str("size"),
            Sort::Seeders => String::from_str("seeders"),
            Sort::Leechers => String::from_str("leechers"),
        }
    }

    /// The name with its first letter in upper case.
    pub fn title(&self) -> (r: String)
        ensures
            r@ == sort_title(*self),
    {
        match self {
            Sort::Time => String::from_str("Time"),
            Sort::Size => String::from_str("Size"),
            Sort::Seeders => String::from_str("Seeders"),
            Sort::Leechers => String::from_str("Leechers"),
        }
    }

    /// The sort named by a lower-case name.
    pub fn from_lowercase(s: &str) -> (r: Option<Sort>)
        ensures
            r == sort_of_name(s@),
    {
        if crate::text::equals(s, "time") {
            Some(Sort::Time)
        } else if crate::text::equals(s, "size") {
            Some(Sort::Size)
        } else if crate::text::equals(s, "seeders") {
            Some(Sort::Seeders)
        } else if crate::text::equals(s, "leechers") {
            Some(Sort::Leechers)
        } else {
            None
        }
    }

    /// The sort named by `s`, in any case.
    pub fn from_name(s: &str) -> (r: Option<Sort>)
        ensures
            r == sort_of_name(lower_of(s@)),
    {
        let lower = lowercase(s);
        Sort::from_lowercase(lower.as_str())
    }

    /// The sorts, each with its first letter in upper case, joined by ` | `.
    pub fn list() -> (r: String)
        ensures
            r@ == sort_title(Sort::Time) + " | "@ + sort_title(Sort::Size) + " | "@ + sort_title(Sort::Seeders)
                + " | "@ + sort_title(Sort::Leechers),
    {
        let mut r = Sort::Time.title();
        r.append(" | ");
        r.append(Sort::Size.title().as_str());
        r.append(" | ");
        r.append(Sort::Seeders.title().as_str());
        r.append(" | ");
        r.append(Sort::Leechers.title().as_str());
        r
    }
}

/// A category of the site's search.
#[derive(Debug, Clone, Copy, PartialEq, Eq, Structural)]
pub enum Category {
    Movies,
    Tv,
    Games,
    Music,
    Apps,
    Documentaries,
    Anime,
    Other,
    Xxx,
}

pub open spec fn category_name(c: Category) -> Seq<char> {
    match c {
        Category::Movies => "Movies"@,
        Category::Tv => "TV"@,
        Category::Games => "Games"@,
        Category::Music => "Music"@,
        Category::Apps => "Apps"@,
        Category::Documentaries => "Documentaries"@,
        Category::Anime => "Anime"@,
        Category::Other => "Other"@,
        Category::Xxx => "XXX"@,
    }
}

/// The category whose lower-case name is `s`.
pub open spec fn category_of_name(s: Seq<char>) -> Option<Category> {
    if s == "movies"@ {
        Some(Category::Movies)
    } else if s == "tv"@ {
        Some(Category::Tv)
    } else if s == "games"@ {
        Some(Category::Games)
    } else if s == "music"@ {
        Some(Category::Music)
    } else if s == "apps"@ {
        Some(Category::Apps)
    } else if s == "documentaries"@ {
        Some(Category::Documentaries)
    } else if s == "anime"@ {
        Some(Category::Anime)
    } else if s == "other"@ {
        Some(Category::Other)
    } else if s == "xxx"@ {
        Some(Category::Xxx)
    } else {
        None
    }
}

impl Category {
    /// The name the site uses in its URLs.
    pub fn to_string(&self) -> (r: String)
        ensures
            r@ == category_name(*self),
    {
        match self {
            Category::Movies => String::from_str("Movies"),
            Category::Tv => String::from_str("TV"),
            Category::Games => String::from_str("Games"),
            Category::Music => String::from_str("Music"),
            Category::Apps => String::from_str("Apps"),
            Category::Documentaries => String::from_str("Documentaries"),
            Category::Anime => String::from_str("Anime"),
            Category::Other => String::from_str("Other"),
            Category::Xxx => String::from_str("XXX"),
        }
    }

    /// The category named by a lower-case name.
    pub fn from_lowercase(s: &str) -> (r: Option<Category>)
        ensures
            r == category_of_name(s@),
    {
        if crate::text::equals(s, "movies") {
            Some(Category::Movies)
        } else if crate::text::equals(s, "tv") {
            Some(Category::Tv)
        } else if crate::text::equals(s, "games") {
            Some(Category::Games)
        } else if crate::text::equals(s, "music") {
            Some(Category::Music)
        } else if crate::text::equals(s, "apps") {
            Some(Category::Apps)
        } else if crate::text::equals(s, "documentaries") {
            Some(Category::Documentaries)
        } else if crate::text::equals(s, "anime") {
            Some(Category::Anime)
        } else if crate::text::equals(s, "other") {
            Some(Category::Other)
        } else if crate::text::equals(s, "xxx") {
            Some(Category::Xxx)
        } else {
            None
        }
    }

    /// The category named by `s`, in any case.
    pub fn from_name(s: &str) -> (r: Option<Category>)
        ensures
            r == category_of_name(lower_of(s@)),
    {
        let lower = lowercase(s);
        Category::from_lowercase(lower.as_str())
    }

    /// The category names joined by ` | `.
    pub fn list() -> (r: String)
        ensures
            r@ == category_name(Category::Movies) + " | "@ + category_name(Category::Tv) + " | "@
                + category_name(Category::Games) + " | "@ + category_name(Category::Music) + " | "@
                + category_name(Category::Apps) + " | "@ + category_name(Category::Documentaries) + " | "@
                + category_name(Category::Anime) + " | "@ + category_name(Category::Other) + " | "@
                + category_name(Category::Xxx),
    {
        let mut r = Category::Movies.to_string();
        r.append(" | ");
        r.append(Category::Tv.to_string().as_str());
        r.append(" | ");
        r.append(Category::Games.to_string().as_str());
        r.append(" | ");
        r.append(Category::Music.to_string().as_str());
        r.append(" | ");
        r.append(Category::Apps.to_string().as_str());
        r.append(" | ");
        r.append(Category::Documentaries.to_string().as_str());
        r.append(" | ");
        r.append(Category::Anime.to_string().as_str());
        r.append(" | ");
        r.append(Category::Other.to_string().as_str());
        r.append(" | ");
        r.append(Category::Xxx.to_string().as_str());
        r
    }
}

/// How a pagination token is shown to the operator.
pub open spec fn page_label(p: Page) -> Seq<char> {
    match p {
        Page::First => "First (1)"@,
        Page::Next => "->"@,
        Page::Previous => "<-"@,
        Page::Last(v) => "Last ("@ + decimal_text(v as nat) + ")"@,
        Page::Number(v) => decimal_text(v as nat),
    }
}

impl Page {
    /// The text shown for this token.
    pub fn label(&self) -> (r: String)
        ensures
            r@ == page_label(*self),
    {
        match self {
            Page::First => String::from_str("First (1)"),
            Page::Next => String::from_str("->"),
            Page::Previous => String::from_str("<-"),
            Page::Last(v) => {
                let mut r = String::from_str("Last (");
                r.append(usize_text(*v).as_str());
                r.append(")");
                r
            },
            Page::Number(v) => usize_text(*v),
        }
    }
}

} // verus!
