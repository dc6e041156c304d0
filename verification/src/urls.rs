//! The crate's own view of a URL, and the trusted boundary to the
//! `url` crate that produces it.
//!
//! The crawl logic reads two things from a URL: its full serialized
//! form (the identity used for visited-set and duplicate checks) and
//! its path (used for ignore rules, route patterns and the nested
//! sitemap marker).  `PageUrl` carries exactly those as plain strings;
//! everything downstream of the parse is verified against them.

use vstd::prelude::*;

verus! {

/// A parsed absolute URL, reduced to the two plain values the crawl
/// logic reads: the full serialization and the path component.
#[derive(Debug)]
pub struct PageUrl {
    pub full: String,
    pub path: String,
}

/// The mathematical view of a `PageUrl`: the two strings as
/// character sequences.
#[verifier::ext_equal]
pub ghost struct UrlView {
    pub full: Seq<char>,
    pub path: Seq<char>,
}

impl View for PageUrl {
    type V = UrlView;

    open spec fn view(&self) -> UrlView {
        UrlView { full: self.full@, path: self.path@ }
    }
}

/// Whether `url::Url::parse` accepts the string.
pub uninterp spec fn url_accepted(s: Seq<char>) -> bool;

/// The serialization of the URL parsed from `s` (meaningful when
/// `url_accepted(s)` holds).
pub uninterp spec fn url_canon(s: Seq<char>) -> Seq<char>;

/// The path component of the URL parsed from `s` (meaningful when
/// `url_accepted(s)` holds).
pub uninterp spec fn url_path_of(s: Seq<char>) -> Seq<char>;

/// Whether the URL parsed from `s` can serve as a base: its path
/// segments can be manipulated.  False for opaque URLs such as
/// `data:` or `mailto:` ones.
pub uninterp spec fn url_base_capable(s: Seq<char>) -> bool;

/// The serialization of the URL parsed from `s` after the fixed
/// sitemap-index segment has been appended to its path (meaningful
/// when `url_accepted(s) && url_base_capable(s)` holds).
pub uninterp spec fn sitemap_index_of(s: Seq<char>) -> Seq<char>;

/// Relies on `url::Url::parse`: acceptance, the normalized
/// serialization (`Url::as_str`) and the path (`Url::path`) are
/// functions of the input string alone.
#[verifier::external_body]
pub(crate) fn parse_url(s: &str) -> (r: Option<PageUrl>)
    ensures
        r is Some <==> url_accepted(s@),
        r matches Some(u) ==> u.full@ == url_canon(s@) && u.path@ == url_path_of(s@),
{
    match url::Url::parse(s) {
        Ok(u) => {
            let path = u.path().to_string();
            Some(PageUrl { full: String::from(u), path })
        },
        Err(_) => None,
    }
}

/// Relies on `url::Url::path_segments_mut` and
/// `PathSegmentsMut::push`: appending the fixed `sitemaps.xml`
/// segment succeeds exactly when the URL parses and is not
/// cannot-be-a-base, and the outcome depends on the input alone.
/// The path of the result is read off the pushed URL; since a URL is
/// determined by its serialization, it is the path of that
/// serialization.
///
/// `push` aborts when a serialization outgrows the `u32` offsets the
/// `url` crate keeps; the length bound leaves it room.  One input
/// character serializes to at most twelve bytes (four UTF-8 bytes,
/// percent-encoded at three bytes each), and host conversion stays
/// within the same factor.
#[verifier::external_body]
pub(crate) fn push_index_segment(base: &str) -> (r: Option<PageUrl>)
    requires
        base@.len() < 0x15555500,
    ensures
        r is Some <==> (url_accepted(base@) && url_base_capable(base@)),
        r matches Some(u) ==> u.full@ == sitemap_index_of(base@),
        r matches Some(u) ==> u.path@ == url_path_of(sitemap_index_of(base@)),
{
    let mut u = match url::Url::parse(base) {
        Ok(u) => u,
        Err(_) => return None,
    };
    match u.path_segments_mut() {
        Ok(mut segments) => {
            segments.push("sitemaps.xml");
        },
        Err(()) => return None,
    }
    let path = u.path().to_string();
    Some(PageUrl { full: String::from(u), path })
}

/// Failure to turn a configured site entry into a crawl target.
#[derive(Debug, PartialEq, Eq, Structural)]
pub enum SiteListError {
    /// The entry at this position is not a parseable absolute URL.
    InvalidSite { index: usize },
}

/// Parse the configured site list into crawl targets.  A single
/// malformed entry fails the whole load: the first offending index is
/// reported and nothing is returned.
pub fn get_base_sites(sites: &Vec<String>) -> (r: Result<Vec<PageUrl>, SiteListError>)
    ensures
        r is Ok <==> (forall|i: int| 0 <= i < sites@.len() ==> url_accepted(sites@[i]@)),
        r matches Ok(v) ==> v@.len() == sites@.len() && (forall|i: int|
            0 <= i < sites@.len() ==> v@[i].full@ == url_canon(sites@[i]@) && v@[i].path@
                == url_path_of(sites@[i]@)),
        r matches Err(SiteListError::InvalidSite { index }) ==> index < sites@.len()
            && !url_accepted(sites@[index as int]@) && (forall|i: int|
            0 <= i < index ==> url_accepted(sites@[i]@)),
{
    let mut out: Vec<PageUrl> = Vec::new();
    let mut i: usize = 0;
    while i < sites.len()
        invariant
            i <= sites@.len(),
            out@.len() == i,
            forall|j: int| 0 <= j < i ==> url_accepted(sites@[j]@),
            forall|j: int|
                0 <= j < i ==> out@[j].full@ == url_canon(sites@[j]@) && out@[j].path@
                    == url_path_of(sites@[j]@),
        decreases sites@.len() - i,
    {
        match parse_url(sites[i].as_str()) {
            Some(u) => out.push(u),
            None => {
                return Err(SiteListError::InvalidSite { index: i });
            },
        }
        i = i + 1;
    }
    Ok(out)
}

} // verus!
