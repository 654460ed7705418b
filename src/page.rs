//! Parsed pages, CSS selection rules, link extraction and the hit/miss
//! decision.
use vstd::prelude::*;

verus! {

#[verifier::external_type_specification]
#[verifier::external_body]
pub struct ExHtml(scraper::Html);

#[verifier::external_type_specification]
#[verifier::external_body]
pub struct ExSelector(scraper::Selector);

/// Whether the CSS selector parser accepts `src`.
pub uninterp spec fn selector_parses(src: Seq<char>) -> bool;

/// The elements of the HTML document `body` that the selector `src` selects,
/// in document order, each given as the value of its `href` attribute if it
/// has one.
pub uninterp spec fn selected_hrefs(body: Seq<char>, src: Seq<char>) -> Seq<Option<Seq<char>>>;

/// A compiled CSS selector, kept beside the text it was parsed from.
pub struct CssRule {
    source: String,
    compiled: scraper::Selector,
}

/// The selector text was rejected by the CSS selector parser.
#[derive(Clone, Copy, Debug, PartialEq, Eq, Structural)]
pub struct SelectorError;

/// A fetched HTML document, kept beside the text it was parsed from.
pub struct Page {
    body: String,
    doc: scraper::Html,
}

/// Relies on `scraper::Selector::parse`: it accepts or refuses a selector
/// according to its text alone.
#[verifier::external_body]
fn compile_selector(src: &str) -> (r: Result<CssRule, SelectorError>)
    ensures
        r is Ok <==> selector_parses(src@),
        r matches Ok(c) ==> c.source() == src@,
{
    match scraper::Selector::parse(src) {
        Ok(sel) => Ok(CssRule { source: src.to_string(), compiled: sel }),
        Err(_) => Err(SelectorError),
    }
}

/// Relies on `scraper::Html::parse_document`, which accepts any text.
#[verifier::external_body]
fn parse_html(body: &str) -> (r: Page)
    ensures
        r.body() == body@,
{
    Page { body: body.to_string(), doc: scraper::Html::parse_document(body) }
}

pub open spec fn opt_seq_views(v: Seq<Option<String>>) -> Seq<Option<Seq<char>>> {
    v.map_values(|o: Option<String>| match o {
        Some(s) => Some(s@),
        None => None,
    })
}

/// Relies on `scraper::Html::select`, which yields the selected elements in
/// document order, and `Element::attr` for each one's `href`.
#[verifier::external_body]
fn select_hrefs(page: &Page, rule: &CssRule) -> (r: Vec<Option<String>>)
    ensures
        opt_seq_views(r@) == selected_hrefs(page.body(), rule.source()),
{
    page.doc.select(&rule.compiled).map(|e| e.value().attr("href").map(|h| h.to_string())).collect()
}

impl CssRule {
    /// The text this selector was parsed from.
    pub closed spec fn source(&self) -> Seq<char> {
        self.source@
    }

    /// Parses a CSS selector.
    pub fn parse(src: &str) -> (r: Result<CssRule, SelectorError>)
        ensures
            r is Ok <==> selector_parses(src@),
            r matches Ok(c) ==> c.source() == src@,
    {
        compile_selector(src)
    }

    /// The text this selector was parsed from.
    pub fn as_str(&self) -> (r: &str)
        ensures
            r@ == self.source(),
    {
        self.source.as_str()
    }
}

/// The `href` values present among selected elements, in order.
pub open spec fn present(v: Seq<Option<Seq<char>>>) -> Seq<Seq<char>>
    decreases v.len(),
{
    if v.len() == 0 {
        Seq::empty()
    } else {
        let rest = present(v.drop_last());
        match v.last() {
            Some(h) => rest.push(h),
            None => rest,
        }
    }
}

/// The link targets of page `body` under the selector `src`.
pub open spec fn links_of(body: Seq<char>, src: Seq<char>) -> Seq<Seq<char>> {
    present(selected_hrefs(body, src))
}

/// Whether a page is a hit: with no rule every page is; with a rule, a page
/// is a hit when the rule selects at least one element.
pub open spec fn is_hit(body: Seq<char>, rule: Option<Seq<char>>) -> bool {
    match rule {
        None => true,
        Some(src) => selected_hrefs(body, src).len() > 0,
    }
}

/// Keeps the `href` values that are present, in order.
pub fn hrefs_present(v: Vec<Option<String>>) -> (r: Vec<String>)
    ensures
        r@.map_values(|s: String| s@) == present(opt_seq_views(v@)),
{
    let mut out: Vec<String> = Vec::new();
    let mut i: usize = 0;
    while i < v.len()
        invariant
            0 <= i <= v@.len(),
            out@.map_values(|s: String| s@) == present(opt_seq_views(v@.subrange(0, i as int))),
        decreases v@.len() - i,
    {
        proof {
            let w = opt_seq_views(v@.subrange(0, i as int + 1));
            assert(w.drop_last() =~= opt_seq_views(v@.subrange(0, i as int)));
        }
        match &v[i] {
            Some(h) => {
                out.push(h.clone());
            },
            None => {},
        }
        proof {
            let w = opt_seq_views(v@.subrange(0, i as int + 1));
            assert(out@.map_values(|s: String| s@) =~= present(w));
        }
        i = i + 1;
    }
    proof {
        assert(v@.subrange(0, v@.len() as int) =~= v@);
    }
    out
}

impl Page {
    /// The text this page was parsed from.
    pub closed spec fn body(&self) -> Seq<char> {
        self.body@
    }

    /// Parses an HTML document; any text is accepted.
    pub fn parse(body: &str) -> (r: Page)
        ensures
            r.body() == body@,
    {
        parse_html(body)
    }

    /// The link targets on this page: the `href` of each element that `rule`
    /// selects and that has one, in document order, duplicates kept.
    pub fn links(&self, rule: &CssRule) -> (r: Vec<String>)
        ensures
            r@.map_values(|s: String| s@) == links_of(self.body(), rule.source()),
    {
        hrefs_present(select_hrefs(self, rule))
    }

    /// Whether this page is a hit under the optional match rule.
    pub fn matches(&self, rule: Option<&CssRule>) -> (r: bool)
        ensures
            r == is_hit(self.body(), match rule {
                Some(c) => Some(c.source()),
                None => None,
            }),
    {
        match rule {
            None => true,
            Some(c) => {
                let found = select_hrefs(self, c);
                found.len() > 0
            },
        }
    }
}

/// With no match rule every document is a hit, the empty one included.
pub proof fn lemma_no_rule_always_hit(body: Seq<char>)
    ensures
        is_hit(body, None),
        is_hit(Seq::empty(), None),
{
}

} // verus!
