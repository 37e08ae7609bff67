//! The publication date of an article page.
//!
//! Three strategies, one per markup convention, are tried in a fixed order;
//! the first that yields a date wins.
//!
//! The strategies do not write the month alike. The timestamp strategy
//! writes it with two digits. The published-label strategy keeps the
//! abbreviation it found, but for "Mar", which it writes as a bare 3. The
//! byline strategy keeps the full name. Only the first writes canonical
//! dates, so the directories of the corpus do not sort by date.

use crate::error::ScrapeError;
use crate::markup::{option_views, select_attrs, select_texts, selected_attrs, selected_texts, selector_parses};
use crate::pattern::{pattern_compiles, rewrite, rewritten};
use crate::text::{chars_of, replace, replaced};
use vstd::prelude::*;

verus! {

/// Selects the timestamp element of a page.
pub const TIMESTAMP_SELECTOR: &'static str = "time.timeStamp";

/// The attribute of a timestamp element that holds its date.
pub const TIMESTAMP_ATTRIBUTE: &'static str = "datetime";

/// Year, month and day as a timestamp writes them, and whatever follows on
/// the line.
pub const TIMESTAMP_PATTERN: &'static str = r"(?P<y>\d{4})-(?P<m>\d{2})-(?P<d>\d{2}).*";

/// Selects the "published" label of a page.
pub const PUBLISHED_SELECTOR: &'static str = "span.published-date__since";

/// The word "Published", a month of three letters, the day and the year.
pub const PUBLISHED_PATTERN: &'static str =
    r"Published (?P<m>[A-Za-z]{3}) (?P<d>\d\d?), (?P<y>\d{4})";

/// Selects the date in the byline of a page.
pub const BYLINE_SELECTOR: &'static str = "span.article__published-date";

/// An abbreviated weekday, the name of the month, the day and the year.
pub const BYLINE_PATTERN: &'static str = r"...\., (?P<m>[A-Za-z]+) (?P<d>\d\d?), (?P<y>\d{4})";

/// Day, month and year of a match, joined by hyphens.
pub const DATE_TEMPLATE: &'static str = "$d-$m-$y";

/// The attribute of the first selected element, where there is such an
/// element and it has the attribute.
pub open spec fn first_attr(attrs: Seq<Option<Seq<char>>>) -> Option<Seq<char>> {
    if attrs.len() > 0 {
        attrs[0]
    } else {
        None
    }
}

/// The date that the timestamp strategy yields for a page.
pub open spec fn timestamp_date(html: Seq<char>) -> Option<Seq<char>> {
    let found = first_attr(selected_attrs(html, TIMESTAMP_SELECTOR@, TIMESTAMP_ATTRIBUTE@));
    if selector_parses(TIMESTAMP_SELECTOR@) && pattern_compiles(TIMESTAMP_PATTERN@) && found is Some {
        Some(rewritten(TIMESTAMP_PATTERN@, found->0, DATE_TEMPLATE@))
    } else {
        None
    }
}

/// The attribute of the first selected element.
pub fn first_attribute(attrs: &Vec<Option<String>>) -> (found: Option<&String>)
    ensures
        found.is_some() == first_attr(option_views(attrs@)).is_some(),
        found matches Some(s) ==> first_attr(option_views(attrs@)) == Some(s@),
{
    if attrs.len() > 0 {
        assert(option_views(attrs@)[0] == match attrs[0] {
            Some(s) => Some(s@),
            None => None,
        });
        attrs[0].as_ref()
    } else {
        None
    }
}

/// Reads the machine-readable date of the page's timestamp element and puts
/// day, month and year in that order.
pub fn get_date_from_timestamp(html: &str) -> (date: Option<String>)
    ensures
        date.is_some() == timestamp_date(html@).is_some(),
        date matches Some(d) ==> timestamp_date(html@) == Some(d@),
{
    match select_attrs(html, TIMESTAMP_SELECTOR, TIMESTAMP_ATTRIBUTE) {
        Ok(attrs) => match first_attribute(&attrs) {
            Some(raw) => match rewrite(TIMESTAMP_PATTERN, raw.as_str(), DATE_TEMPLATE) {
                Ok(date) => Some(date),
                Err(_) => None,
            },
            None => None,
        },
        Err(_) => None,
    }
}

/// The first text node of the first selected element, where there is such an
/// element and it has a text node.
pub open spec fn first_text(texts: Seq<Seq<Seq<char>>>) -> Option<Seq<char>> {
    if texts.len() > 0 && texts[0].len() > 0 {
        Some(texts[0][0])
    } else {
        None
    }
}

/// The first text node of the first selected element.
pub fn first_text_node(texts: &Vec<Vec<String>>) -> (found: Option<&String>)
    ensures
        found.is_some() == first_text(texts.deep_view()).is_some(),
        found matches Some(s) ==> first_text(texts.deep_view()) == Some(s@),
{
    if texts.len() > 0 && texts[0].len() > 0 {
        assert(texts.deep_view()[0] == texts[0].deep_view());
        assert(texts[0].deep_view()[0] == texts[0][0]@);
        Some(&texts[0][0])
    } else {
        if texts.len() > 0 {
            assert(texts.deep_view()[0] == texts[0].deep_view());
        }
        None
    }
}

/// A date in which the month abbreviation "Mar" is written as the bare
/// numeral 3. No other month is touched, and the numeral is not padded.
pub open spec fn march_as_numeral(date: Seq<char>) -> Seq<char> {
    replaced(date, "Mar"@, "3"@)
}

/// Writes the month abbreviation "Mar" as the bare numeral 3.
pub fn write_march_as_numeral(date: &str) -> (r: String)
    ensures
        r@ == march_as_numeral(date@),
{
    replace(date, "Mar", "3")
}

/// The date that the published-label strategy yields for a page.
pub open spec fn published_date(html: Seq<char>) -> Option<Seq<char>> {
    let found = first_text(selected_texts(html, PUBLISHED_SELECTOR@));
    if selector_parses(PUBLISHED_SELECTOR@) && pattern_compiles(PUBLISHED_PATTERN@) && found is Some {
        Some(march_as_numeral(rewritten(PUBLISHED_PATTERN@, found->0, DATE_TEMPLATE@)))
    } else {
        None
    }
}

/// Reads the page's "published" label, puts day, month and year in that
/// order, and writes March as 3.
pub fn get_date_from_div(html: &str) -> (date: Option<String>)
    ensures
        date.is_some() == published_date(html@).is_some(),
        date matches Some(d) ==> published_date(html@) == Some(d@),
{
    match select_texts(html, PUBLISHED_SELECTOR) {
        Ok(texts) => match first_text_node(&texts) {
            Some(raw) => match rewrite(PUBLISHED_PATTERN, raw.as_str(), DATE_TEMPLATE) {
                Ok(date) => Some(write_march_as_numeral(date.as_str())),
                Err(_) => None,
            },
            None => None,
        },
        Err(_) => None,
    }
}

/// The date that the byline strategy yields for a page.
pub open spec fn byline_date(html: Seq<char>) -> Option<Seq<char>> {
    let found = first_text(selected_texts(html, BYLINE_SELECTOR@));
    if selector_parses(BYLINE_SELECTOR@) && pattern_compiles(BYLINE_PATTERN@) && found is Some {
        Some(rewritten(BYLINE_PATTERN@, found->0, DATE_TEMPLATE@))
    } else {
        None
    }
}

/// Reads the date in the page's byline and puts day, month and year in that
/// order; the month stays as the byline names it.
pub fn get_date_from_span(html: &str) -> (date: Option<String>)
    ensures
        date.is_some() == byline_date(html@).is_some(),
        date matches Some(d) ==> byline_date(html@) == Some(d@),
{
    match select_texts(html, BYLINE_SELECTOR) {
        Ok(texts) => match first_text_node(&texts) {
            Some(raw) => match rewrite(BYLINE_PATTERN, raw.as_str(), DATE_TEMPLATE) {
                Ok(date) => Some(date),
                Err(_) => None,
            },
            None => None,
        },
        Err(_) => None,
    }
}

/// The first date that a strategy yielded, in the order timestamp, published
/// label, byline.
pub open spec fn chosen_date(
    timestamp: Option<Seq<char>>,
    published: Option<Seq<char>>,
    byline: Option<Seq<char>>,
) -> Option<Seq<char>> {
    if timestamp is Some {
        timestamp
    } else if published is Some {
        published
    } else {
        byline
    }
}

/// Picks the date among what the three strategies yielded: the first that is
/// there wins, and where none is there the date was not found.
pub fn choose_date(
    timestamp: Option<String>,
    published: Option<String>,
    byline: Option<String>,
) -> (r: Result<String, ScrapeError>)
    ensures
        r is Ok <==> timestamp is Some || published is Some || byline is Some,
        r matches Err(e) ==> e == ScrapeError::DateNotFound,
        r matches Ok(d) ==> Some(d) == (if timestamp is Some {
            timestamp
        } else if published is Some {
            published
        } else {
            byline
        }),
{
    match timestamp {
        Some(d) => Ok(d),
        None => match published {
            Some(d) => Ok(d),
            None => match byline {
                Some(d) => Ok(d),
                None => Err(ScrapeError::DateNotFound),
            },
        },
    }
}

/// The date of a page: what the first successful strategy yields.
pub open spec fn date_of(html: Seq<char>) -> Option<Seq<char>> {
    chosen_date(timestamp_date(html), published_date(html), byline_date(html))
}

/// Finds the publication date of a page. A later strategy runs only where
/// the earlier ones yielded nothing; where none yields a date, the date was
/// not found, and no default takes its place.
pub fn extract_date(html: &str) -> (r: Result<String, ScrapeError>)
    ensures
        r is Ok <==> date_of(html@) is Some,
        r matches Ok(d) ==> date_of(html@) == Some(d@),
        r matches Err(e) ==> e == ScrapeError::DateNotFound,
        r is Err <==> timestamp_date(html@) is None && published_date(html@) is None
            && byline_date(html@) is None,
{
    match get_date_from_timestamp(html) {
        Some(d) => Ok(d),
        None => match get_date_from_div(html) {
            Some(d) => Ok(d),
            None => choose_date(None, None, get_date_from_span(html)),
        },
    }
}

/// A date in canonical form: two digits for the day, two for the month and
/// four for the year, with hyphens between them.
pub open spec fn canonical(date: Seq<char>) -> bool {
    &&& date.len() == 10
    &&& forall|i: int| 0 <= i < 10 ==> if i == 2 || i == 5 {
        #[trigger] date[i] == '-'
    } else {
        '0' <= date[i] <= '9'
    }
}

/// Whether a date is in canonical form. The timestamp strategy writes such
/// dates; the other two write the month as they found it, and a day of one
/// digit with one digit.
pub fn is_canonical(date: &str) -> (r: bool)
    ensures
        r == canonical(date@),
{
    let chars = chars_of(date);
    if chars.len() != 10 {
        return false;
    }
    let mut i: usize = 0;
    while i < 10
        invariant
            i <= 10,
            chars.len() == 10,
            chars@ == date@,
            forall|j: int| 0 <= j < i ==> if j == 2 || j == 5 {
                #[trigger] chars@[j] == '-'
            } else {
                '0' <= chars@[j] <= '9'
            },
        decreases 10 - i,
    {
        let c = chars[i];
        if i == 2 || i == 5 {
            if c != '-' {
                return false;
            }
        } else if !('0' <= c && c <= '9') {
            return false;
        }
        i += 1;
    }
    true
}

} // verus!
