//! Absolute URLs as plain values, their identity key, and the resolution of
//! link targets against the page they were found on.
use vstd::prelude::*;

verus! {

/// Why a string could not be read as an absolute URL.
#[derive(Clone, Copy, Debug, PartialEq, Eq, Structural)]
pub enum UrlError {
    /// A relative reference: it has no scheme and needs a base.
    RelativeWithoutBase,
    /// Any other string that the URL parser rejects.
    Invalid,
}

/// An absolute URL: its full serialization, its scheme and its host.
#[derive(Clone, Debug)]
pub struct WebUrl {
    pub text: String,
    pub scheme: String,
    pub host: Option<String>,
}

/// The mathematical model of a [`WebUrl`].
pub struct UrlView {
    pub text: Seq<char>,
    pub scheme: Seq<char>,
    pub host: Option<Seq<char>>,
}

pub open spec fn opt_view(o: Option<String>) -> Option<Seq<char>> {
    match o {
        Some(s) => Some(s@),
        None => None,
    }
}

impl View for WebUrl {
    type V = UrlView;

    open spec fn view(&self) -> UrlView {
        UrlView { text: self.text@, scheme: self.scheme@, host: opt_view(self.host) }
    }
}

pub open spec fn parse_view(r: Result<WebUrl, UrlError>) -> Result<UrlView, UrlError> {
    match r {
        Ok(u) => Ok(u@),
        Err(e) => Err(e),
    }
}

/// What the URL parser makes of a string, as plain values.
pub uninterp spec fn url_parse(s: Seq<char>) -> Result<UrlView, UrlError>;

/// Relies on `url::Url::parse` to read an absolute URL, and on `Url::as_str`,
/// `Url::scheme` and `Url::host_str` for its parts. The result depends on the
/// input string alone.
#[verifier::external_body]
fn parse_absolute(s: &str) -> (r: Result<WebUrl, UrlError>)
    ensures
        parse_view(r) == url_parse(s@),
{
    match url::Url::parse(s) {
        Ok(u) => Ok(WebUrl {
            text: u.as_str().to_string(),
            scheme: u.scheme().to_string(),
            host: u.host_str().map(|h| h.to_string()),
        }),
        Err(url::ParseError::RelativeUrlWithoutBase) => Err(UrlError::RelativeWithoutBase),
        Err(_) => Err(UrlError::Invalid),
    }
}

/// The serialization up to, and without, the first `#`: the part of a URL
/// that names the resource (scheme, authority, path and query).
pub open spec fn key_of(t: Seq<char>) -> Seq<char>
    decreases t.len(),
{
    if t.len() == 0 {
        t
    } else if t[0] == '#' {
        Seq::empty()
    } else {
        seq![t[0]] + key_of(t.drop_first())
    }
}

/// Index of the first `#` in `t`, or its length when there is none.
pub open spec fn fragment_start(t: Seq<char>) -> int
    decreases t.len(),
{
    if t.len() == 0 {
        0
    } else if t[0] == '#' {
        0
    } else {
        1 + fragment_start(t.drop_first())
    }
}

proof fn lemma_fragment_start(t: Seq<char>)
    ensures
        0 <= fragment_start(t) <= t.len(),
        key_of(t) == t.subrange(0, fragment_start(t)),
        forall|j: int| 0 <= j < fragment_start(t) ==> t[j] != '#',
        fragment_start(t) < t.len() ==> t[fragment_start(t)] == '#',
    decreases t.len(),
{
    if t.len() > 0 && t[0] != '#' {
        lemma_fragment_start(t.drop_first());
        assert(key_of(t) =~= t.subrange(0, fragment_start(t)));
        assert forall|j: int| 0 <= j < fragment_start(t) implies t[j] != '#' by {
            if j > 0 {
                assert(t[j] == t.drop_first()[j - 1]);
            }
        }
    } else if t.len() > 0 {
        assert(key_of(t) =~= t.subrange(0, 0));
    } else {
        assert(key_of(t) =~= t.subrange(0, 0));
    }
}

/// The part of a serialized URL before its fragment.
pub fn key_of_text(t: &str) -> (r: String)
    ensures
        r@ == key_of(t@),
{
    let n = t.unicode_len();
    let mut i: usize = 0;
    while i < n
        invariant
            n == t@.len(),
            0 <= i <= n,
            forall|j: int| 0 <= j < i ==> t@[j] != '#',
        ensures
            i < n ==> t@[i as int] == '#',
        decreases n - i,
    {
        if t.get_char(i) == '#' {
            break;
        }
        i = i + 1;
    }
    proof {
        lemma_fragment_start(t@);
        if fragment_start(t@) < i {
            assert(t@[fragment_start(t@)] == '#');
        }
        if i < fragment_start(t@) {
            assert(t@[i as int] == '#');
        }
    }
    String::from_str(t.substring_char(0, i))
}

/// What became of a link target.
#[derive(Clone, Debug)]
pub enum Resolution {
    /// It names this absolute URL.
    Resolved(WebUrl),
    /// A reference to a place on the same page: ignored, and no error.
    Fragment,
    /// It could not be made into a URL: an error worth reporting.
    Malformed,
}

/// The model of a [`Resolution`].
pub enum ResolutionView {
    Resolved(UrlView),
    Fragment,
    Malformed,
}

impl View for Resolution {
    type V = ResolutionView;

    open spec fn view(&self) -> ResolutionView {
        match self {
            Resolution::Resolved(u) => ResolutionView::Resolved(u@),
            Resolution::Fragment => ResolutionView::Fragment,
            Resolution::Malformed => ResolutionView::Malformed,
        }
    }
}

/// Host written when the base URL has none.
pub open spec fn host_or_placeholder(host: Option<Seq<char>>) -> Seq<char> {
    match host {
        Some(h) => h,
        None => "EMPTY"@,
    }
}

/// The absolute URL text made from a base and a relative reference:
/// the base's scheme, `://`, the base's host, then the reference as written.
pub open spec fn joined(base: UrlView, href: Seq<char>) -> Seq<char> {
    base.scheme + "://"@ + host_or_placeholder(base.host) + href
}

/// How a link target found on page `base` resolves.
pub open spec fn resolution_of(base: UrlView, href: Seq<char>) -> ResolutionView {
    match url_parse(href) {
        Ok(u) => ResolutionView::Resolved(u),
        Err(UrlError::RelativeWithoutBase) => {
            if href.len() > 0 && href[0] == '#' {
                ResolutionView::Fragment
            } else {
                match url_parse(joined(base, href)) {
                    Ok(u) => ResolutionView::Resolved(u),
                    Err(_) => ResolutionView::Malformed,
                }
            }
        },
        Err(UrlError::Invalid) => ResolutionView::Malformed,
    }
}

impl WebUrl {
    /// Reads an absolute URL.
    pub fn parse(s: &str) -> (r: Result<WebUrl, UrlError>)
        ensures
            parse_view(r) == url_parse(s@),
    {
        parse_absolute(s)
    }

    /// The identity of this URL for the visited set: everything but the fragment.
    pub fn key(&self) -> (r: String)
        ensures
            r@ == key_of(self.text@),
    {
        key_of_text(self.text.as_str())
    }

    /// A copy of this URL.
    pub fn duplicate(&self) -> (r: WebUrl)
        ensures
            r@ == self@,
    {
        WebUrl {
            text: self.text.clone(),
            scheme: self.scheme.clone(),
            host: match &self.host {
                Some(h) => Some(h.clone()),
                None => None,
            },
        }
    }

    /// The serialization of this URL.
    pub fn as_str(&self) -> (r: &str)
        ensures
            r@ == self.text@,
    {
        self.text.as_str()
    }
}

/// The text tried for a relative reference found on page `base`.
pub fn join_relative(base: &WebUrl, href: &str) -> (r: String)
    ensures
        r@ == joined(base@, href@),
{
    let mut s = base.scheme.clone();
    s.append("://");
    match &base.host {
        Some(h) => s.append(h.as_str()),
        None => s.append("EMPTY"),
    }
    s.append(href);
    proof {
        reveal_strlit("://");
        reveal_strlit("EMPTY");
    }
    s
}

/// Resolves a link target found on page `base`.
pub fn resolve(base: &WebUrl, href: &str) -> (r: Resolution)
    ensures
        r@ == resolution_of(base@, href@),
{
    match parse_absolute(href) {
        Ok(u) => Resolution::Resolved(u),
        Err(UrlError::RelativeWithoutBase) => {
            if href.unicode_len() > 0 && href.get_char(0) == '#' {
                Resolution::Fragment
            } else {
                let full = join_relative(base, href);
                match parse_absolute(full.as_str()) {
                    Ok(u) => Resolution::Resolved(u),
                    Err(_) => Resolution::Malformed,
                }
            }
        },
        Err(UrlError::Invalid) => Resolution::Malformed,
    }
}

} // verus!
