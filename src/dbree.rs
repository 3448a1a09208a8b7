//! The index site: its records, the address of a search, and the extraction of
//! records from a results page.
use vstd::prelude::*;
use crate::text::{append_decimal, decimal, join_str};

verus! {

/// Selects each result item of a results page.
pub const RESULT_SELECTOR: &'static str = "ul.list-group li.list-group-item";

/// Selects the size badge inside a result item.
pub const BADGE_SELECTOR: &'static str = "span.badge";

/// Selects the link inside a result item.
pub const LINK_SELECTOR: &'static str = "a";

/// The attribute of a link that holds its target.
pub const TARGET_ATTR: &'static str = "href";

/// Number of characters of the fixed path prefix in front of a file identifier
/// in a link target.
pub const LINK_PREFIX_LEN: usize = 3;

/// A file listed by the index site.
#[derive(Clone, Debug)]
pub struct DbreeFile {
    pub id: String,
    pub name: String,
}

/// One item of a results page: a file and the size the site shows for it.
#[derive(Clone, Debug)]
pub struct DbreeSearchResult {
    pub size: String,
    pub file: DbreeFile,
}

/// The mathematical value of a [`DbreeSearchResult`].
pub ghost struct ResultView {
    pub id: Seq<char>,
    pub name: Seq<char>,
    pub size: Seq<char>,
}

impl View for DbreeSearchResult {
    type V = ResultView;

    open spec fn view(&self) -> ResultView {
        ResultView { id: self.file.id@, name: self.file.name@, size: self.size@ }
    }
}

/// The values of a sequence of results.
pub open spec fn results_view(v: Seq<DbreeSearchResult>) -> Seq<ResultView> {
    v.map_values(|r: DbreeSearchResult| r@)
}

/// A search: a query and a page offset.
#[derive(Clone, Debug)]
pub struct DbreeSearch {
    pub query: String,
    pub offset: u32,
}

/// The index site, by its base address (scheme and host, no trailing slash).
pub struct Dbree {
    pub base_uri: String,
}

/// Why a results page could not be read.
#[derive(Clone, Copy, Debug, PartialEq, Eq, Structural)]
pub enum ParseError {
    /// A selector that the extractor uses was refused.
    InvalidSelector,
    /// A result item has no size badge.
    MissingBadge,
    /// A size badge holds no text.
    MissingBadgeText,
    /// A result item has no link.
    MissingLink,
    /// A link holds no text.
    MissingLinkText,
    /// A link has no target.
    MissingTarget,
    /// A link target is shorter than the fixed prefix.
    ShortTarget,
}

/// What the document parser finds in `html` for `selector`: `None` where the
/// selector is refused, else for each selected element in document order its
/// own markup, its first text node and the value of its attribute `attr`.
pub uninterp spec fn selected(html: Seq<char>, selector: Seq<char>, attr: Seq<char>) -> Option<
    Seq<(Seq<char>, Option<Seq<char>>, Option<Seq<char>>)>,
>;

/// One element found by the document parser.
pub struct Found {
    pub html: String,
    pub text: Option<String>,
    pub attr: Option<String>,
}

/// The value of an optional string.
pub open spec fn opt_view(o: Option<String>) -> Option<Seq<char>> {
    match o {
        Some(s) => Some(s@),
        None => None,
    }
}

/// The value of a found element, as the document parser's result states it.
pub open spec fn found_view(f: Found) -> (Seq<char>, Option<Seq<char>>, Option<Seq<char>>) {
    (f.html@, opt_view(f.text), opt_view(f.attr))
}

/// Relies on scraper: `Selector::parse(selector)` (`None` where it fails), then
/// for each element that `Html::parse_document(html).select` yields, in order,
/// `ElementRef::html`, the first item of `ElementRef::text` and
/// `ElementRef::attr(attr)`. The result depends on the three strings alone.
#[verifier::external_body]
fn select_elements(html: &str, selector: &str, attr: &str) -> (r: Option<Vec<Found>>)
    ensures
        r is None <==> selected(html@, selector@, attr@) is None,
        r is Some ==> r->0@.map_values(|f: Found| found_view(f)) == selected(
            html@,
            selector@,
            attr@,
        )->0,
{
    let sel = scraper::Selector::parse(selector).ok()?;
    let doc = scraper::Html::parse_document(html);
    Some(doc.select(&sel).map(|e| Found {
        html: e.html(),
        text: e.text().next().map(String::from),
        attr: e.attr(attr).map(String::from),
    }).collect())
}


/// The record that one result item yields, given its markup: the text of its
/// first size badge as the size, the text of its first link as the name, and
/// that link's target without the fixed prefix as the identifier; or the first
/// piece that is absent.
pub open spec fn item_spec(item: Seq<char>) -> Result<ResultView, ParseError> {
    match selected(item, BADGE_SELECTOR@, TARGET_ATTR@) {
        None => Err(ParseError::InvalidSelector),
        Some(badges) => if badges.len() == 0 {
            Err(ParseError::MissingBadge)
        } else {
            match badges[0].1 {
                None => Err(ParseError::MissingBadgeText),
                Some(size) => match selected(item, LINK_SELECTOR@, TARGET_ATTR@) {
                    None => Err(ParseError::InvalidSelector),
                    Some(links) => if links.len() == 0 {
                        Err(ParseError::MissingLink)
                    } else {
                        match (links[0].1, links[0].2) {
                            (None, _) => Err(ParseError::MissingLinkText),
                            (Some(_), None) => Err(ParseError::MissingTarget),
                            (Some(name), Some(target)) => if target.len() < LINK_PREFIX_LEN {
                                Err(ParseError::ShortTarget)
                            } else {
                                Ok(ResultView { id: target.skip(LINK_PREFIX_LEN as int), name, size })
                            },
                        }
                    },
                },
            }
        },
    }
}

/// The records of a sequence of result items, in order, or the error of the
/// first item that yields none.
pub open spec fn items_spec(items: Seq<Seq<char>>) -> Result<Seq<ResultView>, ParseError>
    decreases items.len(),
{
    if items.len() == 0 {
        Ok(seq![])
    } else {
        match items_spec(items.drop_last()) {
            Err(e) => Err(e),
            Ok(rs) => match item_spec(items.last()) {
                Err(e) => Err(e),
                Ok(r) => Ok(rs.push(r)),
            },
        }
    }
}

/// The records of a results page, in document order, or why there are none.
pub open spec fn page_spec(html: Seq<char>) -> Result<Seq<ResultView>, ParseError> {
    match selected(html, RESULT_SELECTOR@, TARGET_ATTR@) {
        None => Err(ParseError::InvalidSelector),
        Some(items) => items_spec(markup_of(items)),
    }
}

/// The markup of each found element.
pub open spec fn markup_of(found: Seq<(Seq<char>, Option<Seq<char>>, Option<Seq<char>>)>) -> Seq<Seq<char>> {
    found.map_values(|f: (Seq<char>, Option<Seq<char>>, Option<Seq<char>>)| f.0)
}

/// An item that yields no record makes every longer run of items yield none,
/// with the same error.
pub proof fn lemma_items_error_persists(items: Seq<Seq<char>>, k: int)
    requires
        0 <= k <= items.len(),
        items_spec(items.take(k)) is Err,
    ensures
        items_spec(items) == items_spec(items.take(k)),
    decreases items.len() - k,
{
    if k < items.len() {
        assert(items.take(k + 1).drop_last() =~= items.take(k));
        lemma_items_error_persists(items, k + 1);
    } else {
        assert(items.take(k) =~= items);
    }
}

/// A page is read in full or not at all: where any one item lacks a piece,
/// the page yields no records.
pub proof fn lemma_one_bad_item_fails_page(items: Seq<Seq<char>>, k: int)
    requires
        0 <= k < items.len(),
        item_spec(items[k]) is Err,
    ensures
        items_spec(items) is Err,
{
    assert(items.take(k + 1).drop_last() =~= items.take(k));
    assert(items.take(k + 1).last() == items[k]);
    lemma_items_error_persists(items, k + 1);
}

fn first_text(found: &Vec<Found>) -> (r: Option<String>)
    ensures
        found@.len() == 0 ==> r is None,
        found@.len() > 0 ==> opt_view(r) == opt_view(found@[0].text),
{
    if found.len() == 0 {
        None
    } else {
        match &found[0].text {
            Some(t) => Some(t.clone()),
            None => None,
        }
    }
}

/// Reads one result item, given its markup.
pub fn parse_item(item: &str) -> (r: Result<DbreeSearchResult, ParseError>)
    ensures
        match (r, item_spec(item@)) {
            (Ok(v), Ok(w)) => v@ == w,
            (Err(e), Err(f)) => e == f,
            _ => false,
        },
{
    let badges = match select_elements(item, BADGE_SELECTOR, TARGET_ATTR) {
        Some(b) => b,
        None => return Err(ParseError::InvalidSelector),
    };
    proof {
        assert(badges@.len() > 0 ==> found_view(badges@[0]).1 == opt_view(badges@[0].text));
    }
    if badges.len() == 0 {
        return Err(ParseError::MissingBadge);
    }
    let size = match first_text(&badges) {
        Some(t) => t,
        None => return Err(ParseError::MissingBadgeText),
    };
    let links = match select_elements(item, LINK_SELECTOR, TARGET_ATTR) {
        Some(l) => l,
        None => return Err(ParseError::InvalidSelector),
    };
    proof {
        assert(links@.len() > 0 ==> found_view(links@[0]).1 == opt_view(links@[0].text));
        assert(links@.len() > 0 ==> found_view(links@[0]).2 == opt_view(links@[0].attr));
    }
    if links.len() == 0 {
        return Err(ParseError::MissingLink);
    }
    let name = match first_text(&links) {
        Some(t) => t,
        None => return Err(ParseError::MissingLinkText),
    };
    let target = match &links[0].attr {
        Some(t) => t,
        None => return Err(ParseError::MissingTarget),
    };
    let len = target.as_str().unicode_len();
    if len < LINK_PREFIX_LEN {
        return Err(ParseError::ShortTarget);
    }
    let id = String::from_str(target.as_str().substring_char(LINK_PREFIX_LEN, len));
    proof {
        assert(target@.subrange(LINK_PREFIX_LEN as int, len as int) =~= target@.skip(LINK_PREFIX_LEN as int));
    }
    Ok(DbreeSearchResult { size, file: DbreeFile { id, name } })
}

/// Reads every result item of a results page, in document order. A single item
/// that lacks a piece fails the whole page.
pub fn parse_results(html: &str) -> (r: Result<Vec<DbreeSearchResult>, ParseError>)
    ensures
        match (r, page_spec(html@)) {
            (Ok(v), Ok(w)) => results_view(v@) == w,
            (Err(e), Err(f)) => e == f,
            _ => false,
        },
{
    let items = match select_elements(html, RESULT_SELECTOR, TARGET_ATTR) {
        Some(i) => i,
        None => return Err(ParseError::InvalidSelector),
    };
    let ghost markup = items@.map_values(|f: Found| f.html@);
    proof {
        assert(markup =~= markup_of(selected(html@, RESULT_SELECTOR@, TARGET_ATTR@)->0));
    }
    let mut out: Vec<DbreeSearchResult> = Vec::new();
    let mut i: usize = 0;
    proof {
        assert(markup.take(0) =~= Seq::<Seq<char>>::empty());
        assert(results_view(out@) =~= Seq::<ResultView>::empty());
    }
    while i < items.len()
        invariant
            i <= items@.len(),
            markup == items@.map_values(|f: Found| f.html@),
            selected(html@, RESULT_SELECTOR@, TARGET_ATTR@) is Some,
            markup == markup_of(selected(html@, RESULT_SELECTOR@, TARGET_ATTR@)->0),
            items_spec(markup.take(i as int)) == Ok::<Seq<ResultView>, ParseError>(results_view(out@)),
        decreases items@.len() - i,
    {
        proof {
            assert(markup.take(i + 1).drop_last() =~= markup.take(i as int));
            assert(markup.take(i + 1).last() == items@[i as int].html@);
        }
        match parse_item(items[i].html.as_str()) {
            Ok(rec) => {
                let ghost before = out@;
                out.push(rec);
                proof {
                    assert(results_view(out@) =~= results_view(before).push(rec@));
                }
            },
            Err(e) => {
                proof {
                    assert(items_spec(markup.take(i + 1)) == Err::<Seq<ResultView>, ParseError>(e));
                    lemma_items_error_persists(markup, i + 1);
                }
                return Err(e);
            },
        }
        i = i + 1;
    }
    proof {
        assert(markup.take(i as int) =~= markup);
    }
    Ok(out)
}

/// The path and query of the results page for a search.
pub open spec fn search_path_spec(query: Seq<char>, offset: nat) -> Seq<char> {
    "/s/"@ + query + "?page="@ + decimal(offset)
}

/// The address of a file's page under a base address.
pub open spec fn file_url_spec(base_uri: Seq<char>, id: Seq<char>) -> Seq<char> {
    base_uri + "/v/"@ + id
}

impl DbreeSearchResult {
    /// A copy of this result, with the same value.
    pub fn copied(&self) -> (r: DbreeSearchResult)
        ensures
            r@ == self@,
    {
        DbreeSearchResult {
            size: self.size.clone(),
            file: DbreeFile { id: self.file.id.clone(), name: self.file.name.clone() },
        }
    }
}

impl DbreeSearch {
    /// A search for `query` on its first page.
    pub fn new(query: String) -> (r: DbreeSearch)
        ensures
            r.query@ == query@,
            r.offset == 0,
    {
        DbreeSearch { query, offset: 0 }
    }

    /// The path and query of the results page for this search:
    /// `/s/<query>?page=<offset>`.
    pub fn path(&self) -> (r: String)
        ensures
            r@ == search_path_spec(self.query@, self.offset as nat),
    {
        let mut r = join_str("/s/", self.query.as_str());
        r.append("?page=");
        append_decimal(&mut r, self.offset as u64);
        proof {
            reveal_strlit("/s/");
            reveal_strlit("?page=");
        }
        r
    }
}

impl Dbree {
    /// The index site at `base_uri`.
    pub fn new(base_uri: String) -> (r: Dbree)
        ensures
            r.base_uri@ == base_uri@,
    {
        Dbree { base_uri }
    }

    /// The address of the results page for a search: the base address
    /// followed by the search's path.
    pub fn search_uri(&self, search: &DbreeSearch) -> (r: String)
        ensures
            r@ == self.base_uri@ + search_path_spec(search.query@, search.offset as nat),
    {
        let path = search.path();
        join_str(self.base_uri.as_str(), path.as_str())
    }

    /// The address of a file's page: `<base_uri>/v/<id>`.
    pub fn file_url(&self, id: &str) -> (r: String)
        ensures
            r@ == file_url_spec(self.base_uri@, id@),
    {
        let mut r = join_str(self.base_uri.as_str(), "/v/");
        r.append(id);
        r
    }
}

} // verus!
