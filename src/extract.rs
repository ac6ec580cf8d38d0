use vstd::prelude::*;
use crate::outcome::{ErrorKind, FetchOutcome};

verus! {

/// Matches the review texts of a product page.
pub const REVIEW_SELECTOR: &'static str = "div.a-section.review div.a-spacing-small.review-data";

/// Matches the title of a product page.
pub const TITLE_SELECTOR: &'static str = "span#productTitle";

/// The field named when a product page has no title.
pub const TITLE_FIELD: &'static str = "title";

/// The field named when the reviews of a product page cannot be queried.
pub const REVIEWS_FIELD: &'static str = "reviews";

/// The text of each element of `markup` that `selector` matches, in document
/// order; `None` where `selector` does not parse.
pub uninterp spec fn selected_texts(markup: Seq<char>, selector: Seq<char>) -> Option<Seq<Seq<char>>>;

/// `s` without its leading and trailing white space.
pub uninterp spec fn trimmed(s: Seq<char>) -> Seq<char>;

pub open spec fn strings_view(v: Seq<String>) -> Seq<Seq<char>> {
    v.map_values(|s: String| s@)
}

/// Relies on scraper's `Selector::parse`, `Html::parse_document`,
/// `Html::select` and `ElementRef::text`: the concatenated text nodes of each
/// matching element, in document order, and `None` where the selector is
/// refused.
#[verifier::external_body]
fn select_texts(markup: &str, selector: &str) -> (r: Option<Vec<String>>)
    ensures
        match r {
            Some(v) => selected_texts(markup@, selector@) == Some(strings_view(v@)),
            None => selected_texts(markup@, selector@) is None,
        },
{
    let selector = scraper::Selector::parse(selector).ok()?;
    let document = scraper::Html::parse_document(markup);
    Some(document.select(&selector).map(|e| e.text().collect::<String>()).collect())
}

/// Relies on `str::trim`: the text without leading and trailing white space.
#[verifier::external_body]
fn trim_text(s: &str) -> (r: String)
    ensures
        r@ == trimmed(s@),
{
    s.trim().to_owned()
}

/// What a product page yields: its title and its review texts.
#[derive(Clone, Debug, PartialEq, Eq)]
pub struct Product {
    pub url: String,
    pub name: String,
    pub comments: Vec<String>,
    pub elapsed_ms: u64,
}

pub open spec fn missing(e: ErrorKind, field: &str) -> bool {
    &&& e is Extraction
    &&& e->missing_field@ == field@
}

/// What extraction makes of a page: the first title match is the name, each
/// review match trimmed is a comment; a page without a title is an
/// extraction error.
pub open spec fn scraped(markup: Seq<char>, url: String, elapsed_ms: u64, r: Result<Product, ErrorKind>) -> bool {
    let titles = selected_texts(markup, TITLE_SELECTOR@);
    let reviews = selected_texts(markup, REVIEW_SELECTOR@);
    if titles is None || titles.unwrap().len() == 0 {
        r is Err && missing(r->Err_0, TITLE_FIELD)
    } else if reviews is None {
        r is Err && missing(r->Err_0, REVIEWS_FIELD)
    } else {
        &&& r is Ok
        &&& r->Ok_0.url == url
        &&& r->Ok_0.name@ == titles.unwrap()[0]
        &&& strings_view(r->Ok_0.comments@) == reviews.unwrap().map_values(|c: Seq<char>| trimmed(c))
        &&& r->Ok_0.elapsed_ms == elapsed_ms
    }
}

impl Product {
    /// Extracts a product from the markup of its page.
    pub fn scrape(markup: &str, url: String, elapsed_ms: u64) -> (r: Result<Product, ErrorKind>)
        ensures
            scraped(markup@, url, elapsed_ms, r),
    {
        let titles = match select_texts(markup, TITLE_SELECTOR) {
            Some(t) => t,
            None => {
                return Err(ErrorKind::Extraction { missing_field: TITLE_FIELD.to_string() });
            },
        };
        if titles.len() == 0 {
            return Err(ErrorKind::Extraction { missing_field: TITLE_FIELD.to_string() });
        }
        let reviews = match select_texts(markup, REVIEW_SELECTOR) {
            Some(v) => v,
            None => {
                return Err(ErrorKind::Extraction { missing_field: REVIEWS_FIELD.to_string() });
            },
        };
        let mut comments: Vec<String> = Vec::new();
        let mut j: usize = 0;
        while j < reviews.len()
            invariant
                j <= reviews@.len(),
                comments@.len() == j,
                forall|q: int| 0 <= q < j ==> #[trigger] comments@[q]@ == trimmed(reviews@[q]@),
            decreases reviews@.len() - j,
        {
            comments.push(trim_text(reviews[j].as_str()));
            j += 1;
        }
        let ghost rv = selected_texts(markup@, REVIEW_SELECTOR@).unwrap();
        assert(strings_view(comments@) =~= rv.map_values(|c: Seq<char>| trimmed(c)));
        let name = titles[0].clone();
        Ok(Product { url, name, comments, elapsed_ms })
    }
}

/// What a fetch outcome yields for its target: the product of a fetched
/// page, or the error of a failed attempt.
pub fn extract_outcome(url: String, outcome: &FetchOutcome) -> (r: Result<Product, ErrorKind>)
    ensures
        match *outcome {
            FetchOutcome::Success { body, elapsed_ms } => scraped(body@, url, elapsed_ms, r),
            FetchOutcome::Failure { error, .. } => r == Err::<Product, ErrorKind>(error),
        },
{
    match outcome {
        FetchOutcome::Success { body, elapsed_ms } => Product::scrape(body.as_str(), url, *elapsed_ms),
        FetchOutcome::Failure { error, .. } => Err(error.duplicate()),
    }
}

} // verus!
