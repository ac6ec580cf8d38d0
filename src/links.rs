use vstd::prelude::*;
use select::predicate::{Class, Name, Predicate};
use crate::extract::strings_view;

verus! {

/// Matches the item links of an Amazon search listing.
pub const LISTING_SELECTOR: &'static str =
    "div[data-component-type=\"s-search-result\"] div.s-widget-container a.a-link-normal.s-no-outline";

/// The origin that relative Amazon item links are resolved against.
pub const AMAZON_ORIGIN: &'static str = "https://www.amazon.com";

/// The class of the blocks that hold the items of a Walmart search listing.
pub const RESULT_CLASS: &'static str = "pb1-xl";

/// The class of the item links inside those blocks.
pub const RESULT_LINK_CLASS: &'static str = "absolute";

/// The origin that relative Walmart item links are resolved against.
pub const WALMART_ORIGIN: &'static str = "https://www.walmart.com";

/// The `href` of each element of `markup` that `selector` matches, in
/// document order; `None` where `selector` does not parse.
pub uninterp spec fn selected_hrefs(markup: Seq<char>, selector: Seq<char>) -> Option<Seq<Option<Seq<char>>>>;

/// The `href` of each `a` element of class `link_class` below an element of
/// class `block_class`, block by block, in document order.
pub uninterp spec fn block_link_hrefs(markup: Seq<char>, block_class: Seq<char>, link_class: Seq<char>) -> Seq<Option<Seq<char>>>;

pub open spec fn opt_view(h: Option<String>) -> Option<Seq<char>> {
    match h {
        Some(s) => Some(s@),
        None => None,
    }
}

pub open spec fn hrefs_view(v: Seq<Option<String>>) -> Seq<Option<Seq<char>>> {
    v.map_values(|h: Option<String>| opt_view(h))
}

/// Relies on scraper's `Selector::parse`, `Html::parse_document`,
/// `Html::select` and `ElementRef::attr`: the `href` of each matching element,
/// in document order, and `None` where the selector is refused.
#[verifier::external_body]
fn select_hrefs(markup: &str, selector: &str) -> (r: Option<Vec<Option<String>>>)
    ensures
        match r {
            Some(v) => selected_hrefs(markup@, selector@) == Some(hrefs_view(v@)),
            None => selected_hrefs(markup@, selector@) is None,
        },
{
    let selector = scraper::Selector::parse(selector).ok()?;
    let document = scraper::Html::parse_document(markup);
    Some(document.select(&selector).map(|e| e.attr("href").map(|h| h.to_owned())).collect())
}

/// Relies on select's `Document::from`, `Document::find` with `Class`,
/// `Node::find` with `Name("a").and(Class(..))` and `Node::attr`: the `href`
/// of each link found, block by block, in document order.
#[verifier::external_body]
fn find_block_hrefs(markup: &str, block_class: &str, link_class: &str) -> (r: Vec<Option<String>>)
    ensures
        hrefs_view(r@) == block_link_hrefs(markup@, block_class@, link_class@),
{
    let document = select::document::Document::from(markup);
    document.find(Class(block_class)).flat_map(|block| {
        block.find(Name("a").and(Class(link_class))).map(|l| l.attr("href").map(|h| h.to_owned())).collect::<Vec<_>>()
    }).collect()
}

pub open spec fn starts_with(s: Seq<char>, p: Seq<char>) -> bool {
    p.len() <= s.len() && s.take(p.len() as int) == p
}

pub open spec fn is_absolute(href: Seq<char>) -> bool {
    starts_with(href, seq!['h', 't', 't', 'p', ':', '/', '/'])
        || starts_with(href, seq!['h', 't', 't', 'p', 's', ':', '/', '/'])
}

/// `origin` without one trailing slash.
pub open spec fn bare_origin(origin: Seq<char>) -> Seq<char> {
    if origin.len() > 0 && origin.last() == '/' {
        origin.drop_last()
    } else {
        origin
    }
}

/// The absolute URL that `href`, found on a page of `origin`, stands for:
/// an absolute link as it is, a relative one joined to the origin by exactly
/// one slash.
pub open spec fn resolved(origin: Seq<char>, href: Seq<char>) -> Seq<char> {
    if is_absolute(href) {
        href
    } else if href.len() > 0 && href[0] == '/' {
        bare_origin(origin) + href
    } else {
        bare_origin(origin) + seq!['/'] + href
    }
}

/// The targets of a listing: each present link resolved, in order.
pub open spec fn targets_of(origin: Seq<char>, hrefs: Seq<Option<Seq<char>>>) -> Seq<Seq<char>>
    decreases hrefs.len(),
{
    if hrefs.len() == 0 {
        Seq::empty()
    } else {
        let n = hrefs.len() - 1;
        let p = targets_of(origin, hrefs.take(n));
        match hrefs[n] {
            Some(h) => p.push(resolved(origin, h)),
            None => p,
        }
    }
}

/// Whether `s` begins with `p`.
pub fn has_prefix(s: &str, p: &str) -> (r: bool)
    ensures
        r == starts_with(s@, p@),
{
    let n = p.unicode_len();
    if n > s.unicode_len() {
        return false;
    }
    let mut i: usize = 0;
    while i < n
        invariant
            i <= n,
            n == p@.len(),
            n <= s@.len(),
            forall|k: int| 0 <= k < i ==> s@[k] == p@[k],
        decreases n - i,
    {
        if s.get_char(i) != p.get_char(i) {
            assert(s@.take(n as int)[i as int] != p@[i as int]);
            return false;
        }
        i += 1;
    }
    assert(s@.take(n as int) =~= p@);
    true
}

/// Resolves a link found on a page of `origin` into an absolute URL.
pub fn resolve_link(origin: &str, href: &str) -> (r: String)
    ensures
        r@ == resolved(origin@, href@),
{
    proof {
        reveal_strlit("http://");
        reveal_strlit("https://");
        reveal_strlit("/");
        assert("http://"@ =~= seq!['h', 't', 't', 'p', ':', '/', '/']);
        assert("https://"@ =~= seq!['h', 't', 't', 'p', 's', ':', '/', '/']);
    }
    if has_prefix(href, "http://") || has_prefix(href, "https://") {
        assert(is_absolute(href@));
        return href.to_string();
    }
    assert(!is_absolute(href@));
    let n = origin.unicode_len();
    let base = if n > 0 && origin.get_char(n - 1) == '/' {
        origin.substring_char(0, n - 1)
    } else {
        origin
    };
    assert(base@ =~= bare_origin(origin@));
    let mut r = String::new();
    r.append(base);
    if href.unicode_len() == 0 || href.get_char(0) != '/' {
        r.append("/");
    }
    r.append(href);
    r
}

/// Turns the links of a listing into targets: a missing link is skipped, a
/// present one is resolved against `origin`.
pub fn listing_targets(origin: &str, hrefs: &Vec<Option<String>>) -> (r: Vec<String>)
    ensures
        strings_view(r@) == targets_of(origin@, hrefs_view(hrefs@)),
{
    let mut r: Vec<String> = Vec::new();
    let mut j: usize = 0;
    while j < hrefs.len()
        invariant
            j <= hrefs@.len(),
            r@.map_values(|s: String| s@) == targets_of(origin@, hrefs_view(hrefs@).take(j as int)),
        decreases hrefs@.len() - j,
    {
        let ghost before = r@;
        assert(hrefs_view(hrefs@).take(j + 1).take(j as int) =~= hrefs_view(hrefs@).take(j as int));
        match &hrefs[j] {
            Some(h) => {
                r.push(resolve_link(origin, h.as_str()));
                assert(r@.map_values(|s: String| s@) =~= before.map_values(|s: String| s@).push(
                    resolved(origin@, h@),
                ));
            },
            None => {},
        }
        j += 1;
    }
    assert(hrefs_view(hrefs@).take(j as int) =~= hrefs_view(hrefs@));
    r
}

/// The targets that an Amazon search listing links to; `None` where the
/// listing selector is refused.
pub fn listing_links(markup: &str) -> (r: Option<Vec<String>>)
    ensures
        match selected_hrefs(markup@, LISTING_SELECTOR@) {
            Some(h) => r is Some && strings_view(r->Some_0@) == targets_of(AMAZON_ORIGIN@, h),
            None => r is None,
        },
{
    match select_hrefs(markup, LISTING_SELECTOR) {
        Some(h) => Some(listing_targets(AMAZON_ORIGIN, &h)),
        None => None,
    }
}

/// The targets that a Walmart search listing links to.
pub fn scrape_search_result(markup: &str) -> (r: Vec<String>)
    ensures
        strings_view(r@) == targets_of(WALMART_ORIGIN@, block_link_hrefs(markup@, RESULT_CLASS@, RESULT_LINK_CLASS@)),
{
    let hrefs = find_block_hrefs(markup, RESULT_CLASS, RESULT_LINK_CLASS);
    listing_targets(WALMART_ORIGIN, &hrefs)
}

} // verus!
