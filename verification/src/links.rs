//! Finding candidate links in free-form text and restricting them to the
//! trusted origins from which result files may be fetched.

use vstd::prelude::*;
use crate::text::str_starts_with;

verus! {

/// Whether some prefix in `allow` is a prefix of `url`.
pub open spec fn spec_allowlisted(url: Seq<char>, allow: Seq<Seq<char>>) -> bool {
    exists|k: int| 0 <= k < allow.len() && allow[k].is_prefix_of(url)
}

/// The two origins results may be fetched from: issue attachments of the
/// benchmark repository, and the submission bucket.
pub open spec fn default_allowlist_spec() -> Seq<Seq<char>> {
    seq![
        "https://github.com/kov/iocost-benchmarks/files/"@,
        "https://iocost-submit.s3.eu-west-1.amazonaws.com/"@,
    ]
}

/// The trusted-origin prefixes as runnable values.
pub fn default_allowlist() -> (r: Vec<String>)
    ensures
        r.deep_view() == default_allowlist_spec(),
{
    let mut r: Vec<String> = Vec::new();
    r.push(String::from_str("https://github.com/kov/iocost-benchmarks/files/"));
    r.push(String::from_str("https://iocost-submit.s3.eu-west-1.amazonaws.com/"));
    proof {
        assert(r.deep_view() =~= default_allowlist_spec());
    }
    r
}

/// Whether `link` starts with one of the prefixes in `allowlist`.
pub fn url_allowed(link: &str, allowlist: &Vec<String>) -> (r: bool)
    ensures
        r == spec_allowlisted(link@, allowlist.deep_view()),
{
    let mut k: usize = 0;
    while k < allowlist.len()
        invariant
            k <= allowlist@.len(),
            forall|j: int| 0 <= j < k ==> !allowlist.deep_view()[j].is_prefix_of(link@),
        decreases allowlist@.len() - k,
    {
        if str_starts_with(link, allowlist[k].as_str()) {
            proof {
                assert(allowlist.deep_view()[k as int].is_prefix_of(link@));
            }
            return true;
        }
        k += 1;
    }
    false
}

/// Whether `link` starts with one of the trusted-origin prefixes.
pub fn is_url_whitelisted(link: &str) -> (r: bool)
    ensures
        r == spec_allowlisted(link@, default_allowlist_spec()),
{
    let allow = default_allowlist();
    url_allowed(link, &allow)
}

/// The links that a general link-detection pass finds in `text`, in order
/// of first appearance.
pub uninterp spec fn found_links(text: Seq<char>) -> Seq<Seq<char>>;

/// Relies on linkify::LinkFinder::links: the links found, and their
/// order, depend on the text alone.
#[verifier::external_body]
fn find_links(text: &str) -> (r: Vec<String>)
    ensures
        r.deep_view() == found_links(text@),
{
    linkify::LinkFinder::new().links(text).map(|l| l.as_str().to_string()).collect()
}

/// The links of `links` whose prefix is in `allow`, keeping their order.
pub open spec fn spec_accepted(links: Seq<Seq<char>>, allow: Seq<Seq<char>>) -> Seq<Seq<char>>
    decreases links.len(),
{
    if links.len() == 0 {
        Seq::empty()
    } else {
        let init = spec_accepted(links.drop_last(), allow);
        if spec_allowlisted(links.last(), allow) {
            init.push(links.last())
        } else {
            init
        }
    }
}

/// The links of `links` whose prefix is not in `allow`, keeping their
/// order.
pub open spec fn spec_rejected(links: Seq<Seq<char>>, allow: Seq<Seq<char>>) -> Seq<Seq<char>>
    decreases links.len(),
{
    if links.len() == 0 {
        Seq::empty()
    } else {
        let init = spec_rejected(links.drop_last(), allow);
        if spec_allowlisted(links.last(), allow) {
            init
        } else {
            init.push(links.last())
        }
    }
}

/// The links found in one text, split into the trusted ones (to be
/// downloaded, in order) and the rest (reported, then ignored).
pub struct ExtractedLinks {
    pub accepted: Vec<String>,
    pub rejected: Vec<String>,
}

/// Find every link in `text` and keep, in order of first appearance,
/// those starting with a prefix in `allowlist`; the others are returned
/// apart, for the caller to report.
pub fn extract_urls(text: &str, allowlist: &Vec<String>) -> (r: ExtractedLinks)
    ensures
        r.accepted.deep_view() == spec_accepted(found_links(text@), allowlist.deep_view()),
        r.rejected.deep_view() == spec_rejected(found_links(text@), allowlist.deep_view()),
{
    let links = find_links(text);
    let ghost all = links.deep_view();
    let mut accepted: Vec<String> = Vec::new();
    let mut rejected: Vec<String> = Vec::new();
    let mut i: usize = 0;
    while i < links.len()
        invariant
            i <= links@.len(),
            all == links.deep_view(),
            accepted.deep_view() == spec_accepted(all.take(i as int), allowlist.deep_view()),
            rejected.deep_view() == spec_rejected(all.take(i as int), allowlist.deep_view()),
        decreases links@.len() - i,
    {
        proof {
            assert(all.take(i + 1 as int).drop_last() =~= all.take(i as int));
            assert(all.take(i + 1 as int).last() == links@[i as int]@);
        }
        let link = &links[i];
        if url_allowed(link.as_str(), allowlist) {
            accepted.push(link.clone());
            proof {
                assert(accepted.deep_view() =~= spec_accepted(
                    all.take(i + 1 as int),
                    allowlist.deep_view(),
                ));
            }
        } else {
            rejected.push(link.clone());
            proof {
                assert(rejected.deep_view() =~= spec_rejected(
                    all.take(i + 1 as int),
                    allowlist.deep_view(),
                ));
            }
        }
        i += 1;
    }
    proof {
        assert(all.take(links@.len() as int) =~= all);
    }
    ExtractedLinks { accepted, rejected }
}

/// Every link that the extraction accepts has its prefix in the
/// allowlist: links from other origins never reach the accepted side,
/// however many the text holds.
pub proof fn lemma_accepted_only_allowlisted(links: Seq<Seq<char>>, allow: Seq<Seq<char>>)
    ensures
        forall|k: int| 0 <= k < spec_accepted(links, allow).len() ==> spec_allowlisted(
            #[trigger] spec_accepted(links, allow)[k],
            allow,
        ),
    decreases links.len(),
{
    if links.len() > 0 {
        lemma_accepted_only_allowlisted(links.drop_last(), allow);
        let init = spec_accepted(links.drop_last(), allow);
        let acc = spec_accepted(links, allow);
        assert forall|k: int| 0 <= k < acc.len() implies spec_allowlisted(acc[k], allow) by {
            if k < init.len() {
                assert(acc[k] == init[k]);
            } else {
                assert(acc[k] == links.last());
            }
        }
    }
}

/// Every allowlisted link that the text holds is accepted: filtering
/// never drops a trusted link.
pub proof fn lemma_accepted_complete(links: Seq<Seq<char>>, allow: Seq<Seq<char>>)
    ensures
        forall|k: int| 0 <= k < links.len() && spec_allowlisted(#[trigger] links[k], allow)
            ==> spec_accepted(links, allow).contains(links[k]),
    decreases links.len(),
{
    if links.len() > 0 {
        lemma_accepted_complete(links.drop_last(), allow);
        let init = spec_accepted(links.drop_last(), allow);
        assert forall|k: int|
            0 <= k < links.len() && spec_allowlisted(#[trigger] links[k], allow) implies
            spec_accepted(links, allow).contains(links[k]) by {
            if k < links.len() - 1 {
                assert(links.drop_last()[k] == links[k]);
                let j = choose|j: int|
                    0 <= j < init.len() && init[j] == links[k];
                assert(spec_accepted(links, allow)[j] == links[k]);
            } else {
                assert(spec_allowlisted(links.last(), allow));
                let acc = spec_accepted(links, allow);
                assert(acc.last() == links[k]);
            }
        }
    }
}

} // verus!
