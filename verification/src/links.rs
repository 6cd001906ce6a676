//! The link extractor: pulls hyperlink targets out of a page's markup,
//! normalizes each against the page's own URL, and reads the domain out of
//! a URL for per-domain artifact naming.

use vstd::prelude::*;
use crate::text::{has_http_prefix, is_absolute_link};
use crate::urlset::UrlSet;

verus! {

/// The `href` values of the anchor elements of `html`, in document order, as
/// scraper's parser finds them.
pub uninterp spec fn hrefs_of(html: Seq<char>) -> Seq<Seq<char>>;

/// Whether url's parser accepts `base` as an absolute URL.
pub uninterp spec fn url_base_ok(base: Seq<char>) -> bool;

/// The serialization of `link` resolved against `base` by url's resolver, or
/// `None` where resolution fails; meaningful only when `url_base_ok(base)`.
pub uninterp spec fn url_resolved(base: Seq<char>, link: Seq<char>) -> Option<Seq<char>>;

/// The host part of `url`, or `None` where it has none; meaningful only when
/// `url_base_ok(url)`.
pub uninterp spec fn url_host(url: Seq<char>) -> Option<Seq<char>>;

/// How resolving one link against a base URL went.
pub enum Resolution {
    Resolved(String),
    ResolveFailed,
    BadBase,
}

/// Relies on url::Url::parse and url::Url::join: `parse` accepts or rejects
/// the base URL, and on an accepted base, `join` resolves the possibly
/// relative link against it; the resolved URL is handed back serialized.
#[verifier::external_body]
fn resolve_link(link: &str, base_url: &str) -> (r: Resolution)
    ensures
        !url_base_ok(base_url@) ==> r is BadBase,
        url_base_ok(base_url@) ==> match url_resolved(base_url@, link@) {
            Some(s) => r matches Resolution::Resolved(u) && u@ == s,
            None => r is ResolveFailed,
        },
{
    match url::Url::parse(base_url) {
        Ok(base) => match base.join(link) {
            Ok(u) => Resolution::Resolved(u.to_string()),
            Err(_) => Resolution::ResolveFailed,
        },
        Err(_) => Resolution::BadBase,
    }
}

/// How reading the host out of a URL went.
pub enum HostOutcome {
    Host(String),
    NoHost,
    BadUrl,
}

/// Relies on url::Url::parse and url::Url::host_str: `parse` accepts or
/// rejects the URL, and on an accepted one, `host_str` hands out its host
/// part where there is one.
#[verifier::external_body]
fn parse_host(url: &str) -> (r: HostOutcome)
    ensures
        !url_base_ok(url@) ==> r is BadUrl,
        url_base_ok(url@) ==> match url_host(url@) {
            Some(h) => r matches HostOutcome::Host(s) && s@ == h,
            None => r is NoHost,
        },
{
    match url::Url::parse(url) {
        Ok(u) => match u.host_str() {
            Some(h) => HostOutcome::Host(h.to_string()),
            None => HostOutcome::NoHost,
        },
        Err(_) => HostOutcome::BadUrl,
    }
}

/// What link normalization returns: an absolute link passes through
/// unchanged; otherwise the link is resolved against the base, a failed
/// resolution gives the empty string, and an unparsable base gives the link
/// back unchanged.
pub open spec fn spec_normalize(link: Seq<char>, base: Seq<char>) -> Seq<char> {
    if has_http_prefix(link) {
        link
    } else if !url_base_ok(base) {
        link
    } else {
        match url_resolved(base, link) {
            Some(s) => s,
            None => Seq::empty(),
        }
    }
}

/// Normalizes `link` to an absolute URL against `base_url`.
pub fn normalize_link(link: &str, base_url: &str) -> (r: String)
    ensures
        r@ == spec_normalize(link@, base_url@),
{
    if is_absolute_link(link) {
        link.to_owned()
    } else {
        match resolve_link(link, base_url) {
            Resolution::Resolved(u) => u,
            Resolution::ResolveFailed => String::new(),
            Resolution::BadBase => link.to_owned(),
        }
    }
}

/// Law: normalizing an already-absolute link returns it unchanged, whatever
/// the base.
pub proof fn lemma_absolute_link_unchanged(link: Seq<char>, base: Seq<char>)
    requires
        has_http_prefix(link),
    ensures
        spec_normalize(link, base) == link,
{
}

/// Whether `link` survives extraction against `base`: an absolute link
/// always does, an unparsable base keeps the link as it is (degraded but
/// non-fatal), and otherwise the resolver must accept it. A relative href
/// that a parsable base fails to resolve is the malformed case that
/// extraction drops silently.
pub open spec fn link_resolves(link: Seq<char>, base: Seq<char>) -> bool {
    ||| has_http_prefix(link)
    ||| !url_base_ok(base)
    ||| url_resolved(base, link) is Some
}

/// Normalizes `link` against `base_url` where it survives resolution;
/// `None` is the silently-dropped case: a relative link that a parsable
/// base fails to resolve.
pub fn try_normalize_link(link: &str, base_url: &str) -> (r: Option<String>)
    ensures
        r is Some <==> link_resolves(link@, base_url@),
        (r matches Some(u) ==> u@ == spec_normalize(link@, base_url@)),
{
    if is_absolute_link(link) {
        Some(link.to_owned())
    } else {
        match resolve_link(link, base_url) {
            Resolution::Resolved(u) => Some(u),
            Resolution::ResolveFailed => None,
            Resolution::BadBase => Some(link.to_owned()),
        }
    }
}

/// `s` with every repeated element dropped: first occurrences, in order.
pub open spec fn dedup_first(s: Seq<Seq<char>>) -> Seq<Seq<char>>
    decreases s.len(),
{
    if s.len() == 0 {
        s
    } else {
        let rest = dedup_first(s.drop_last());
        if rest.contains(s.last()) {
            rest
        } else {
            rest.push(s.last())
        }
    }
}

/// Each member of `links`, normalized against `base`, in order.
pub open spec fn normalize_all(links: Seq<Seq<char>>, base: Seq<char>) -> Seq<Seq<char>> {
    links.map_values(|l: Seq<char>| spec_normalize(l, base))
}

/// The hrefs among `links` that survive resolution against `base`, in
/// order.
pub open spec fn keep_resolvable(links: Seq<Seq<char>>, base: Seq<char>) -> Seq<Seq<char>> {
    links.filter(|l: Seq<char>| link_resolves(l, base))
}

/// The hrefs among `links` that survive resolution, normalized against
/// `base`, in order.
pub open spec fn resolved_hrefs(links: Seq<Seq<char>>, base: Seq<char>) -> Seq<Seq<char>> {
    normalize_all(keep_resolvable(links, base), base)
}

/// The links that extraction returns for `html` against `base`: every href
/// that survives resolution, normalized, first occurrences only. An href
/// that a parsable base fails to resolve is dropped silently.
pub open spec fn spec_extract_links(html: Seq<char>, base: Seq<char>) -> Seq<Seq<char>> {
    dedup_first(resolved_hrefs(hrefs_of(html), base))
}

/// Deduplication drops nothing and invents nothing: a URL is in
/// `dedup_first(s)` exactly where it is in `s`.
pub proof fn lemma_dedup_first_membership(s: Seq<Seq<char>>, x: Seq<char>)
    ensures
        dedup_first(s).contains(x) <==> s.contains(x),
    decreases s.len(),
{
    if s.len() > 0 {
        lemma_dedup_first_membership(s.drop_last(), x);
        let rest = dedup_first(s.drop_last());
        if s.contains(x) {
            let w = choose|w: int| 0 <= w < s.len() && s[w] == x;
            if w < s.len() - 1 {
                assert(s.drop_last()[w] == x);
                if !rest.contains(s.last()) {
                    let v = choose|v: int| 0 <= v < rest.len() && rest[v] == x;
                    assert(rest.push(s.last())[v] == x);
                }
            } else {
                if !rest.contains(s.last()) {
                    assert(rest.push(s.last())[rest.len() as int] == x);
                }
            }
        }
        if dedup_first(s).contains(x) {
            if !rest.contains(s.last()) {
                let v = choose|v: int| 0 <= v < rest.push(s.last()).len() && rest.push(
                    s.last(),
                )[v] == x;
                if v < rest.len() {
                    assert(rest[v] == x);
                } else {
                    assert(s.last() == x);
                }
            }
            if s.drop_last().contains(x) {
                let u = choose|u: int| 0 <= u < s.drop_last().len() && s.drop_last()[u] == x;
                assert(s[u] == x);
            }
        }
    }
}

/// Law: link extraction yields exactly the page's resolvable hrefs,
/// normalized: no URL is lost to deduplication and none appears from
/// nowhere.
pub proof fn lemma_extract_links_membership(html: Seq<char>, base: Seq<char>, url: Seq<char>)
    ensures
        spec_extract_links(html, base).contains(url) <==> resolved_hrefs(
            hrefs_of(html),
            base,
        ).contains(url),
{
    lemma_dedup_first_membership(resolved_hrefs(hrefs_of(html), base), url);
}

/// Relies on scraper's parser: `Html::parse_document` followed by a
/// selection of the `a[href]` elements hands out each anchor's `href` value
/// in document order.
#[verifier::external_body]
fn raw_hrefs(html: &str) -> (r: Vec<String>)
    ensures
        r.deep_view() == hrefs_of(html@),
{
    let document = scraper::Html::parse_document(html);
    let selector = scraper::Selector::parse("a[href]").unwrap();
    let mut out = Vec::new();
    for element in document.select(&selector) {
        if let Some(link) = element.value().attr("href") {
            out.push(link.to_string());
        }
    }
    out
}

/// Extracts all hyperlinks of `html`, each normalized against `base_url`.
/// A relative href that a parsable base fails to resolve is dropped
/// silently; it never aborts extraction of the rest.
pub fn extract_links(html: &str, base_url: &str) -> (r: UrlSet)
    ensures
        r.wf(),
        r@ == spec_extract_links(html@, base_url@),
{
    let raw = raw_hrefs(html);
    let mut r = UrlSet::new();
    let ghost hs = hrefs_of(html@);
    let mut i: usize = 0;
    proof {
        reveal(Seq::filter);
        assert(hs.take(0) =~= Seq::<Seq<char>>::empty());
        assert(r@ =~= dedup_first(resolved_hrefs(hs.take(0), base_url@)));
    }
    while i < raw.len()
        invariant
            raw.deep_view() == hs,
            hs == hrefs_of(html@),
            0 <= i <= raw@.len(),
            r.wf(),
            r@ == dedup_first(resolved_hrefs(hs.take(i as int), base_url@)),
        decreases raw@.len() - i,
    {
        proof {
            reveal(Seq::filter);
            assert(hs.take(i + 1).drop_last() =~= hs.take(i as int));
            assert(hs.take(i + 1).last() == hs[i as int]);
            assert(raw.deep_view()[i as int] == raw@[i as int]@);
        }
        match try_normalize_link(&raw[i], base_url) {
            Some(n) => {
                proof {
                    assert(keep_resolvable(hs.take(i + 1), base_url@) =~= keep_resolvable(
                        hs.take(i as int),
                        base_url@,
                    ).push(hs[i as int]));
                    let q = resolved_hrefs(hs.take(i as int), base_url@);
                    let x = spec_normalize(hs[i as int], base_url@);
                    assert(resolved_hrefs(hs.take(i + 1), base_url@) =~= q.push(x));
                    assert(q.push(x).drop_last() =~= q);
                    assert(q.push(x).last() == x);
                    assert(n@ == x);
                }
                r.insert(n);
            },
            None => {
                proof {
                    assert(keep_resolvable(hs.take(i + 1), base_url@) =~= keep_resolvable(
                        hs.take(i as int),
                        base_url@,
                    ));
                    assert(resolved_hrefs(hs.take(i + 1), base_url@) =~= resolved_hrefs(
                        hs.take(i as int),
                        base_url@,
                    ));
                }
            },
        }
        i += 1;
    }
    proof {
        assert(hs.take(raw@.len() as int) =~= hs);
    }
    r
}

/// What domain extraction returns on a parsable URL: the host, or a fixed
/// fallback name where the URL has none.
pub open spec fn spec_domain(url: Seq<char>) -> Seq<char> {
    match url_host(url) {
        Some(h) => h,
        None => "unknown_domain"@,
    }
}

/// The domain of `url`, used to name per-domain artifacts. The
/// URL itself must be parsable here; `try_extract_domain` is the total
/// variant.
pub fn extract_domain(url: &str) -> (r: String)
    requires
        url_base_ok(url@),
    ensures
        r@ == spec_domain(url@),
{
    match parse_host(url) {
        HostOutcome::Host(h) => h,
        _ => "unknown_domain".to_owned(),
    }
}

/// The domain of `url`, or `None` where the URL cannot be parsed.
pub fn try_extract_domain(url: &str) -> (r: Option<String>)
    ensures
        r is Some <==> url_base_ok(url@),
        (r matches Some(h) ==> h@ == spec_domain(url@)),
{
    match parse_host(url) {
        HostOutcome::BadUrl => None,
        _ => Some(extract_domain(url)),
    }
}

} // verus!
