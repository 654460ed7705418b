use creepy::address::{join_relative, key_of_text, resolve, Resolution, UrlError, WebUrl};
use creepy::crawl::{Crawl, Credentials, RuleSet, StartError};
use creepy::page::{CssRule, Page};
use creepy::rules::{matches_any, Admission, Pattern};
use creepy::visited::VisitedSet;

fn url(s: &str) -> WebUrl {
    WebUrl::parse(s).expect("valid url")
}

fn pats(srcs: &[&str]) -> Vec<Pattern> {
    srcs.iter().map(|s| Pattern::new(s).expect("valid pattern")).collect()
}

fn admission(deny: &[&str], allow: &[&str], override_deny: &[&str]) -> Admission {
    Admission { deny: pats(deny), allow: pats(allow), override_deny: pats(override_deny) }
}

fn rules(seeds: &[&str], adm: Admission) -> RuleSet {
    RuleSet {
        seeds: seeds.iter().map(|s| url(s)).collect(),
        admission: adm,
        respect_robots: false,
        link_rule: None,
        match_rule: None,
        delay_ms: 250,
        credentials: None,
    }
}

fn texts(v: &[WebUrl]) -> Vec<String> {
    v.iter().map(|u| u.text.clone()).collect()
}

fn resolved_text(r: Resolution) -> String {
    match r {
        Resolution::Resolved(u) => u.text,
        other => panic!("expected a resolved URL, got {:?}", other),
    }
}

#[test]
fn parse_reads_parts() {
    let u = url("https://a.com:8080/dir/page?q=1#top");
    assert_eq!(u.text, "https://a.com:8080/dir/page?q=1#top");
    assert_eq!(u.scheme, "https");
    assert_eq!(u.host.as_deref(), Some("a.com"));
    assert_eq!(u.as_str(), "https://a.com:8080/dir/page?q=1#top");
}

#[test]
fn parse_classifies_errors() {
    assert_eq!(WebUrl::parse("/x").unwrap_err(), UrlError::RelativeWithoutBase);
    assert_eq!(WebUrl::parse("http://exa mple.com/").unwrap_err(), UrlError::Invalid);
}

#[test]
fn key_drops_fragment_only() {
    assert_eq!(url("https://a.com/x?q=1#frag").key(), "https://a.com/x?q=1");
    assert_eq!(url("https://a.com/x").key(), "https://a.com/x");
    assert_eq!(key_of_text("ab#c#d"), "ab");
    assert_eq!(key_of_text("#"), "");
    assert_eq!(key_of_text(""), "");
}

#[test]
fn join_uses_scheme_and_host() {
    assert_eq!(join_relative(&url("https://a.com/dir/page"), "/x"), "https://a.com/x");
    let no_host = url("mailto:someone@a.com");
    assert_eq!(join_relative(&no_host, "/x"), "mailto://EMPTY/x");
}

#[test]
fn resolve_root_relative_link() {
    let base = url("https://a.com/dir/page");
    assert_eq!(resolved_text(resolve(&base, "/x")), "https://a.com/x");
}

#[test]
fn resolve_absolute_link_unchanged() {
    let base = url("https://a.com/dir/page");
    assert_eq!(resolved_text(resolve(&base, "https://b.org/y?z=1")), "https://b.org/y?z=1");
}

#[test]
fn resolve_fragment_is_silent() {
    let base = url("https://a.com/dir/page");
    assert!(matches!(resolve(&base, "#section"), Resolution::Fragment));
}

#[test]
fn resolve_garbage_is_malformed() {
    let base = url("https://a.com/dir/page");
    assert!(matches!(resolve(&base, "not a url::::"), Resolution::Malformed));
}

#[test]
fn resolve_invalid_absolute_is_malformed() {
    let base = url("https://a.com/");
    assert!(matches!(resolve(&base, "http://exa mple.com/"), Resolution::Malformed));
}

#[test]
fn pattern_matches_anywhere() {
    let p = Pattern::new("blocked\\.test").unwrap();
    assert!(p.is_match("https://blocked.test/"));
    assert!(!p.is_match("https://blockedXtest/"));
    assert_eq!(p.as_str(), "blocked\\.test");
    assert!(Pattern::new("(").is_err());
    assert!(matches_any(&pats(&["a", "zz"]), "xzzx"));
    assert!(!matches_any(&pats(&[]), "anything"));
}

#[test]
fn override_deny_rejects_even_when_allowed() {
    let adm = admission(&[".*"], &[".*"], &["\\.jpg$"]);
    assert!(!adm.is_admitted("https://a.com/cat.jpg"));
    assert!(adm.is_admitted("https://a.com/cat.png"));
}

#[test]
fn allow_rescues_deny() {
    let adm = admission(&[".*"], &["https://github\\.com/goolord.*"], &[]);
    assert!(adm.is_admitted("https://github.com/goolord/x"));
    assert!(!adm.is_admitted("https://github.com/other"));
}

#[test]
fn empty_lists_admit_everything() {
    let adm = admission(&[], &[], &[]);
    assert!(adm.is_admitted("https://a.com/"));
}

#[test]
fn no_match_rule_is_always_hit() {
    assert!(Page::parse("").matches(None));
    assert!(Page::parse("<p>hello</p>").matches(None));
}

#[test]
fn match_rule_needs_an_element() {
    let form = CssRule::parse("form").unwrap();
    assert!(Page::parse("<form></form>").matches(Some(&form)));
    assert!(!Page::parse("<p>no</p>").matches(Some(&form)));
}

#[test]
fn links_in_document_order_with_duplicates() {
    let rule = CssRule::parse("a[href]").unwrap();
    let page = Page::parse("<a href=\"/b\">1</a><a>none</a><a href=\"/a\">2</a><a href=\"/b\">3</a>");
    assert_eq!(page.links(&rule), vec!["/b", "/a", "/b"]);
    let only_class = CssRule::parse("a.go").unwrap();
    let page = Page::parse("<a href=\"/x\">1</a><a class=\"go\" href=\"/y\">2</a><a class=\"go\">3</a>");
    assert_eq!(page.links(&only_class), vec!["/y"]);
    assert_eq!(only_class.as_str(), "a.go");
}

#[test]
fn invalid_selector_is_rejected() {
    assert!(CssRule::parse("a[[").is_err());
}

#[test]
fn visited_set_holds_each_key_once() {
    let mut v = VisitedSet::new();
    assert!(v.insert(String::from("https://a.com/")));
    assert!(!v.insert(String::from("https://a.com/")));
    assert!(v.insert(String::from("https://b.com/")));
    assert_eq!(v.len(), 2);
    assert!(v.contains(&String::from("https://a.com/")));
    assert!(!v.contains(&String::from("https://c.com/")));
}

#[test]
fn start_rejects_seed_refused_by_rules() {
    let r = rules(&["https://ok.test/", "https://blocked.test/"], admission(&["blocked"], &[], &[]));
    assert_eq!(Crawl::start(r).err(), Some(StartError::SeedRejected(1)));
}

#[test]
fn start_keeps_pass_through_settings() {
    let mut r = rules(&["https://x.test/"], admission(&[], &[], &[]));
    r.respect_robots = true;
    r.credentials = Some(Credentials { user: String::from("u"), pass: String::from("p") });
    let c = Crawl::start(r).unwrap();
    assert!(c.respect_robots());
    assert_eq!(c.credentials().as_ref().map(|k| k.user.as_str()), Some("u"));
}

#[test]
fn self_link_is_fetched_once() {
    let mut c = Crawl::start(rules(&["https://a.com/"], admission(&[], &[], &[]))).unwrap();
    let first = c.next_fetch().unwrap();
    assert_eq!(first.url.text, "https://a.com/");
    assert_eq!(first.pause_ms, 0);
    let bad = c.page_fetched(&first.url, "<a href=\"https://a.com/\">me</a><a href=\"/#x\">me</a>");
    assert!(bad.is_empty());
    assert!(c.next_fetch().is_none());
    let out = c.finish();
    assert_eq!(texts(&out.hits), vec!["https://a.com/"]);
}

#[test]
fn end_to_end_skips_fragment_and_denied() {
    let mut c = Crawl::start(rules(&["https://x.test/"], admission(&["blocked\\.test"], &[], &[]))).unwrap();
    let mut fetched: Vec<String> = Vec::new();
    let mut pauses: Vec<u64> = Vec::new();
    while let Some(order) = c.next_fetch() {
        fetched.push(order.url.text.clone());
        pauses.push(order.pause_ms);
        let body = if order.url.text == "https://x.test/" {
            "<a href=\"/about\">a</a><a href=\"#top\">t</a><a href=\"https://blocked.test/\">b</a>"
        } else {
            "<a href=\"/\">home</a>"
        };
        let bad = c.page_fetched(&order.url, body);
        assert!(bad.is_empty());
    }
    assert_eq!(fetched, vec!["https://x.test/", "https://x.test/about"]);
    assert_eq!(pauses, vec![0, 250]);
    let out = c.finish();
    assert_eq!(texts(&out.hits), vec!["https://x.test/", "https://x.test/about"]);
    assert!(out.misses.is_empty());
    assert!(out.unexhausted.is_empty());
}

#[test]
fn failed_seed_is_unexhausted() {
    let mut c = Crawl::start(rules(&["https://slow.test/"], admission(&[], &[], &[]))).unwrap();
    let order = c.next_fetch().unwrap();
    c.fetch_failed(order.url);
    assert!(c.next_fetch().is_none());
    let out = c.finish();
    assert_eq!(texts(&out.unexhausted), vec!["https://slow.test/"]);
    assert!(out.hits.is_empty());
    assert!(out.misses.is_empty());
}

#[test]
fn misses_and_malformed_links_are_reported() {
    let mut r = rules(&["https://m.test/"], admission(&[], &[], &[]));
    r.match_rule = Some(CssRule::parse("form").unwrap());
    let mut c = Crawl::start(r).unwrap();
    let order = c.next_fetch().unwrap();
    let bad = c.page_fetched(&order.url, "<a href=\"not a url::::\">x</a><a href=\"/ok\">y</a>");
    assert_eq!(bad, vec!["not a url::::"]);
    let next = c.next_fetch().unwrap();
    assert_eq!(next.url.text, "https://m.test/ok");
    c.page_fetched(&next.url, "<form></form>");
    let out = c.finish();
    assert_eq!(texts(&out.misses), vec!["https://m.test/"]);
    assert_eq!(texts(&out.hits), vec!["https://m.test/ok"]);
}

#[test]
fn fragment_variants_are_one_page() {
    let mut c = Crawl::start(rules(&["https://f.test/a"], admission(&[], &[], &[]))).unwrap();
    let order = c.next_fetch().unwrap();
    c.page_fetched(&order.url, "<a href=\"https://f.test/a#one\">1</a><a href=\"/a#two\">2</a><a href=\"/b\">3</a><a href=\"/b#x\">4</a>");
    let next = c.next_fetch().unwrap();
    assert_eq!(next.url.text, "https://f.test/b");
    c.page_fetched(&next.url, "");
    assert!(c.next_fetch().is_none());
}

#[test]
fn absorb_links_filters_targets() {
    let mut c = Crawl::start(rules(&["https://s.test/"], admission(&["nope"], &[], &[]))).unwrap();
    let order = c.next_fetch().unwrap();
    let hrefs = vec![String::from("/nope"), String::from("#frag"), String::from("/yes")];
    assert!(c.absorb_links(&order.url, &hrefs).is_empty());
    c.record_visit(&order.url, false);
    assert_eq!(c.next_fetch().unwrap().url.text, "https://s.test/yes");
    let out = c.finish();
    assert_eq!(texts(&out.misses), vec!["https://s.test/"]);
}

#[test]
fn resolve_empty_link_is_site_root() {
    let base = url("https://a.com/dir/page");
    assert_eq!(resolved_text(resolve(&base, "")), "https://a.com/");
}

#[test]
fn resolve_relative_path_joins_to_host() {
    let base = url("https://a.com/dir/page");
    assert_eq!(resolved_text(resolve(&base, "other?x=1")), "https://a.comother/?x=1");
}
