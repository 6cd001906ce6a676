//! Script scanning: the inline scripts of a page, the ones that look like
//! they leak a credential, and the external script addresses a page pulls
//! in. The driver prints or downloads what these functions select.

use vstd::prelude::*;
use crate::links::{normalize_all, normalize_link, spec_normalize};
use crate::matcher::should_scrape_content;
use crate::text::contains_seq;

verus! {

/// The inline bodies of the script elements of `html`, in document order,
/// as scraper's parser finds them.
pub uninterp spec fn scripts_of(html: Seq<char>) -> Seq<Seq<char>>;

/// The `src` values of the script elements of `html`, in document order.
pub uninterp spec fn script_srcs_of(html: Seq<char>) -> Seq<Seq<char>>;

/// Relies on scraper's parser: `Html::parse_document` followed by a
/// selection of the `script` elements hands out each element's inner
/// markup in document order.
#[verifier::external_body]
fn raw_scripts(html: &str) -> (r: Vec<String>)
    ensures
        r.deep_view() == scripts_of(html@),
{
    let document = scraper::Html::parse_document(html);
    let selector = scraper::Selector::parse("script").unwrap();
    let mut out = Vec::new();
    for script in document.select(&selector) {
        out.push(script.inner_html());
    }
    out
}

/// Relies on scraper's parser: a selection of the `script[src]` elements
/// hands out each element's `src` value in document order.
#[verifier::external_body]
fn raw_script_srcs(html: &str) -> (r: Vec<String>)
    ensures
        r.deep_view() == script_srcs_of(html@),
{
    let document = scraper::Html::parse_document(html);
    let selector = scraper::Selector::parse("script[src]").unwrap();
    let mut out = Vec::new();
    for script in document.select(&selector) {
        if let Some(src) = script.value().attr("src") {
            out.push(src.to_string());
        }
    }
    out
}

/// The members of `ss` that contain `keyword`, in their order.
pub open spec fn keep_containing(ss: Seq<Seq<char>>, keyword: Seq<char>) -> Seq<Seq<char>> {
    ss.filter(|s: Seq<char>| contains_seq(s, keyword))
}

/// The inline scripts of `html` that contain `keyword`, in document order.
pub fn scripts_containing(html: &str, keyword: &str) -> (r: Vec<String>)
    ensures
        r.deep_view() == keep_containing(scripts_of(html@), keyword@),
{
    let scripts = raw_scripts(html);
    let mut out: Vec<String> = Vec::new();
    let mut i: usize = 0;
    proof {
        reveal(Seq::filter);
        assert(scripts_of(html@).take(0) =~= Seq::<Seq<char>>::empty());
        assert(out.deep_view() =~= keep_containing(scripts_of(html@).take(0), keyword@));
    }
    while i < scripts.len()
        invariant
            scripts.deep_view() == scripts_of(html@),
            0 <= i <= scripts@.len(),
            out.deep_view() == keep_containing(scripts_of(html@).take(i as int), keyword@),
        decreases scripts@.len() - i,
    {
        proof {
            reveal(Seq::filter);
            assert(scripts_of(html@).take(i + 1).drop_last() =~= scripts_of(html@).take(i as int));
            assert(scripts_of(html@).take(i + 1).last() == scripts_of(html@)[i as int]);
            assert(scripts.deep_view()[i as int] == scripts@[i as int]@);
        }
        if should_scrape_content(scripts[i].as_str(), keyword) {
            let ghost before = out.deep_view();
            out.push(scripts[i].clone());
            proof {
                assert(out.deep_view() =~= before.push(scripts_of(html@)[i as int]));
            }
        }
        i += 1;
    }
    proof {
        assert(scripts_of(html@).take(scripts@.len() as int) =~= scripts_of(html@));
    }
    out
}

/// An inline script that mentions an API key or a token by name.
pub open spec fn flags_secret(s: Seq<char>) -> bool {
    contains_seq(s, "apiKey"@) || contains_seq(s, "token"@)
}

/// The members of `ss` that look like they leak a credential.
pub open spec fn keep_flagged(ss: Seq<Seq<char>>) -> Seq<Seq<char>> {
    ss.filter(|s: Seq<char>| flags_secret(s))
}

/// The inline scripts of `html` that look like they leak a credential:
/// those that mention an API key or a token by name.
pub fn flagged_scripts(html: &str) -> (r: Vec<String>)
    ensures
        r.deep_view() == keep_flagged(scripts_of(html@)),
{
    let scripts = raw_scripts(html);
    let mut out: Vec<String> = Vec::new();
    let mut i: usize = 0;
    proof {
        reveal(Seq::filter);
        assert(scripts_of(html@).take(0) =~= Seq::<Seq<char>>::empty());
        assert(out.deep_view() =~= keep_flagged(scripts_of(html@).take(0)));
    }
    while i < scripts.len()
        invariant
            scripts.deep_view() == scripts_of(html@),
            0 <= i <= scripts@.len(),
            out.deep_view() == keep_flagged(scripts_of(html@).take(i as int)),
        decreases scripts@.len() - i,
    {
        proof {
            reveal(Seq::filter);
            assert(scripts_of(html@).take(i + 1).drop_last() =~= scripts_of(html@).take(i as int));
            assert(scripts_of(html@).take(i + 1).last() == scripts_of(html@)[i as int]);
            assert(scripts.deep_view()[i as int] == scripts@[i as int]@);
        }
        let flagged = should_scrape_content(scripts[i].as_str(), "apiKey")
            || should_scrape_content(scripts[i].as_str(), "token");
        if flagged {
            let ghost before = out.deep_view();
            out.push(scripts[i].clone());
            proof {
                assert(out.deep_view() =~= before.push(scripts_of(html@)[i as int]));
            }
        }
        i += 1;
    }
    proof {
        assert(scripts_of(html@).take(scripts@.len() as int) =~= scripts_of(html@));
    }
    out
}

/// The external script addresses of `html`, each normalized against the
/// page's own URL, in document order; one per element, duplicates kept.
pub fn script_sources(html: &str, page_url: &str) -> (r: Vec<String>)
    ensures
        r.deep_view() == normalize_all(script_srcs_of(html@), page_url@),
{
    let srcs = raw_script_srcs(html);
    let mut out: Vec<String> = Vec::new();
    let mut i: usize = 0;
    proof {
        assert(out.deep_view() =~= normalize_all(script_srcs_of(html@), page_url@).take(0));
    }
    while i < srcs.len()
        invariant
            srcs.deep_view() == script_srcs_of(html@),
            0 <= i <= srcs@.len(),
            out.deep_view() == normalize_all(script_srcs_of(html@), page_url@).take(i as int),
        decreases srcs@.len() - i,
    {
        proof {
            assert(srcs.deep_view()[i as int] == srcs@[i as int]@);
        }
        let ghost before = out.deep_view();
        let n = normalize_link(&srcs[i], page_url);
        out.push(n);
        proof {
            assert(out.deep_view() =~= before.push(spec_normalize(srcs@[i as int]@, page_url@)));
            assert(out.deep_view() =~= normalize_all(script_srcs_of(html@), page_url@).take(
                i + 1,
            ));
        }
        i += 1;
    }
    proof {
        assert(normalize_all(script_srcs_of(html@), page_url@).take(srcs@.len() as int)
            =~= normalize_all(script_srcs_of(html@), page_url@));
    }
    out
}

} // verus!
