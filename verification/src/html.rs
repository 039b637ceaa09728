//! The parts of a schedule page that the model reads, taken from the HTML by
//! `scraper`, and URL resolution by `url`.
use vstd::prelude::*;

verus! {

/// One element of the page: the value of one of its attributes, its text
/// nodes in document order, and for each descendant "cell" element the text
/// nodes of that cell.
pub struct HtmlElement {
    pub attr: Option<String>,
    pub text: Vec<String>,
    pub cells: Vec<Vec<String>>,
}

pub struct HtmlElementView {
    pub attr: Option<Seq<char>>,
    pub text: Seq<Seq<char>>,
    pub cells: Seq<Seq<Seq<char>>>,
}

pub open spec fn string_views(v: Seq<String>) -> Seq<Seq<char>> {
    v.map_values(|s: String| s@)
}

pub open spec fn opt_view(o: Option<String>) -> Option<Seq<char>> {
    match o {
        Some(s) => Some(s@),
        None => None,
    }
}

pub open spec fn opt_str_view(o: Option<&str>) -> Option<Seq<char>> {
    match o {
        Some(s) => Some(s@),
        None => None,
    }
}

impl View for HtmlElement {
    type V = HtmlElementView;

    open spec fn view(&self) -> HtmlElementView {
        HtmlElementView {
            attr: opt_view(self.attr),
            text: string_views(self.text@),
            cells: self.cells@.map_values(|c: Vec<String>| string_views(c@)),
        }
    }
}

pub open spec fn element_views(v: Seq<HtmlElement>) -> Seq<HtmlElementView> {
    v.map_values(|e: HtmlElement| e@)
}

/// What `scraper` finds in the HTML document `html` for the CSS selector
/// `selector`: for each matching element in document order, its attribute
/// `attr`, its text nodes, and the text nodes of each descendant matching
/// `cell_selector`.
pub uninterp spec fn html_select(
    html: Seq<char>,
    selector: Seq<char>,
    attr: Seq<char>,
    cell_selector: Seq<char>,
) -> Seq<HtmlElementView>;

/// Parses `html` with `scraper::Html::parse_document` and walks
/// `Html::select(selector)`, reading `ElementRef::attr`, `ElementRef::text`
/// and `ElementRef::select(cell_selector)`.  The result is named
/// `html_select`; nothing else is claimed of the HTML parser.
#[verifier::external_body]
pub(crate) fn select_elements(html: &str, selector: &str, attr: &str, cell_selector: &str) -> (res:
    Vec<HtmlElement>)
    ensures
        element_views(res@) == html_select(html@, selector@, attr@, cell_selector@),
{
    let doc = scraper::Html::parse_document(html);
    let texts = |e: scraper::ElementRef| e.text().map(|t| t.to_string()).collect::<Vec<String>>();
    match (scraper::Selector::parse(selector), scraper::Selector::parse(cell_selector)) {
        (Ok(sel), Ok(cell)) => doc.select(&sel).map(|e| HtmlElement {
            attr: e.attr(attr).map(|a| a.to_string()),
            text: texts(e),
            cells: e.select(&cell).map(texts).collect(),
        }).collect(),
        _ => Vec::new(),
    }
}

/// What `url::Url::parse(base)` followed by `Url::join(href)` yields, as text,
/// or `None` where either fails.
pub uninterp spec fn url_join(base: Seq<char>, href: Seq<char>) -> Option<Seq<char>>;

/// Calls `url::Url::parse` on `base` and `Url::join` with `href`.  The result
/// is named `url_join`.
#[verifier::external_body]
pub(crate) fn join_url(base: &str, href: &str) -> (res: Option<String>)
    ensures
        opt_view(res) == url_join(base@, href@),
{
    match url::Url::parse(base) {
        Ok(b) => b.join(href).ok().map(|j| j.to_string()),
        Err(_) => None,
    }
}

} // verus!
