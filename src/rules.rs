//! Textual patterns and the admission cascade that decides which URLs may be
//! crawled.
use vstd::prelude::*;

verus! {

#[verifier::external_type_specification]
#[verifier::external_body]
pub struct ExRegex(regex::Regex);

/// Whether the regular-expression engine accepts `src` as a pattern.
pub uninterp spec fn regex_compiles(src: Seq<char>) -> bool;

/// Whether the pattern `src` matches somewhere in `hay`.
pub uninterp spec fn regex_is_match(src: Seq<char>, hay: Seq<char>) -> bool;

/// A compiled regular expression, kept beside the text it was compiled from.
pub struct Pattern {
    source: String,
    compiled: regex::Regex,
}

/// The pattern text was rejected by the regular-expression engine.
#[derive(Clone, Copy, Debug, PartialEq, Eq, Structural)]
pub struct PatternError;

/// Relies on `regex::Regex::new`: it accepts or refuses a pattern according to
/// the pattern text alone.
#[verifier::external_body]
fn compile_regex(src: &str) -> (r: Result<Pattern, PatternError>)
    ensures
        r is Ok <==> regex_compiles(src@),
        r matches Ok(p) ==> p.source() == src@,
{
    match regex::Regex::new(src) {
        Ok(re) => Ok(Pattern { source: src.to_string(), compiled: re }),
        Err(_) => Err(PatternError),
    }
}

/// Relies on `regex::Regex::is_match`: whether the pattern matches anywhere
/// in the haystack, which depends on the pattern text and the haystack alone.
#[verifier::external_body]
fn regex_matches(p: &Pattern, hay: &str) -> (r: bool)
    ensures
        r == regex_is_match(p.source(), hay@),
{
    p.compiled.is_match(hay)
}

impl Pattern {
    /// The text this pattern was compiled from.
    pub closed spec fn source(&self) -> Seq<char> {
        self.source@
    }

    /// Compiles a pattern.
    pub fn new(src: &str) -> (r: Result<Pattern, PatternError>)
        ensures
            r is Ok <==> regex_compiles(src@),
            r matches Ok(p) ==> p.source() == src@,
    {
        compile_regex(src)
    }

    /// Whether this pattern matches somewhere in `hay`.
    pub fn is_match(&self, hay: &str) -> (r: bool)
        ensures
            r == regex_is_match(self.source(), hay@),
    {
        regex_matches(self, hay)
    }

    /// The text this pattern was compiled from.
    pub fn as_str(&self) -> (r: &str)
        ensures
            r@ == self.source(),
    {
        self.source.as_str()
    }
}

/// Whether at least one of `pats` matches `s`.
pub open spec fn any_match(pats: Seq<Pattern>, s: Seq<char>) -> bool {
    exists|i: int| 0 <= i < pats.len() && regex_is_match(#[trigger] pats[i].source(), s)
}

/// The three pattern lists of admission control.
pub struct Admission {
    /// A match rejects, unless an allow pattern matches too.
    pub deny: Vec<Pattern>,
    /// A match rescues a URL that a deny pattern rejected.
    pub allow: Vec<Pattern>,
    /// A match rejects, whatever else matches.
    pub override_deny: Vec<Pattern>,
}

/// The admission cascade on the serialization `s` of a URL.
pub open spec fn admits(a: Admission, s: Seq<char>) -> bool {
    if any_match(a.override_deny@, s) {
        false
    } else if any_match(a.deny@, s) {
        any_match(a.allow@, s)
    } else {
        true
    }
}

/// Whether one of `pats` matches `s`.
pub fn matches_any(pats: &Vec<Pattern>, s: &str) -> (r: bool)
    ensures
        r == any_match(pats@, s@),
{
    let mut i: usize = 0;
    while i < pats.len()
        invariant
            0 <= i <= pats@.len(),
            forall|j: int| 0 <= j < i ==> !regex_is_match(#[trigger] pats@[j].source(), s@),
        decreases pats@.len() - i,
    {
        if pats[i].is_match(s) {
            return true;
        }
        i = i + 1;
    }
    false
}

impl Admission {
    /// Whether the URL serialized as `s` may be crawled: an override-deny match
    /// rejects it; otherwise a deny match rejects it unless an allow pattern
    /// matches too; otherwise it is admitted.
    pub fn is_admitted(&self, s: &str) -> (r: bool)
        ensures
            r == admits(*self, s@),
    {
        if matches_any(&self.override_deny, s) {
            false
        } else if matches_any(&self.deny, s) {
            matches_any(&self.allow, s)
        } else {
            true
        }
    }
}

/// An override-deny match rejects a URL, whatever the allow patterns are.
pub proof fn lemma_override_deny_rejects(a: Admission, s: Seq<char>)
    requires
        any_match(a.override_deny@, s),
    ensures
        !admits(a, s),
        forall|allow: Vec<Pattern>| !admits(Admission { allow, ..a }, s),
{
}

/// A URL that a deny pattern matches is admitted when an allow pattern matches
/// it too and no override-deny pattern does.
pub proof fn lemma_allow_rescues_deny(a: Admission, s: Seq<char>)
    requires
        any_match(a.deny@, s),
        any_match(a.allow@, s),
        !any_match(a.override_deny@, s),
    ensures
        admits(a, s),
{
}

/// Admission is a function of the URL text and the rules: two decisions on
/// the same text under the same rules agree.
pub proof fn lemma_admission_deterministic(a: Admission, s: Seq<char>, t: Seq<char>)
    requires
        s == t,
    ensures
        admits(a, s) == admits(a, t),
{
}

} // verus!
