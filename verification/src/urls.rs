//! The remote-location model.
//!
//! A URL is held as the components this library actually reads: its
//! full serialisation (handed verbatim to the transport), its host (for
//! credential resolution) and its path (for collection checks and
//! filename extraction).  Reference resolution itself is the `url`
//! crate's business and stands behind a trusted wrapper.

use vstd::prelude::*;

verus! {

/// The host part of a URL, as far as credential resolution reads it.
#[derive(Debug)]
pub enum UrlHost {
    /// A DNS name.
    Domain(String),
    /// An IP address: present, but never matched against the host table.
    Address,
    /// The URL has no host at all (`data:`, `unix:` and similar URLs).
    Absent,
}

/// One remote resource location.
#[derive(Debug)]
pub struct RemoteUrl {
    /// The full serialised URL.
    pub text: String,
    /// The parsed host.
    pub host: UrlHost,
    /// The path component.
    pub path: String,
}

/// Mathematical image of a `UrlHost`.
pub ghost enum HostView {
    Domain(Seq<char>),
    Address,
    Absent,
}

/// Mathematical image of a `RemoteUrl`.
pub ghost struct UrlView {
    pub text: Seq<char>,
    pub host: HostView,
    pub path: Seq<char>,
}

pub open spec fn host_view(h: UrlHost) -> HostView {
    match h {
        UrlHost::Domain(d) => HostView::Domain(d@),
        UrlHost::Address => HostView::Address,
        UrlHost::Absent => HostView::Absent,
    }
}

impl View for RemoteUrl {
    type V = UrlView;

    open spec fn view(&self) -> UrlView {
        UrlView { text: self.text@, host: host_view(self.host), path: self.path@ }
    }
}

impl Clone for UrlHost {
    fn clone(&self) -> (r: Self)
        ensures
            r == *self,
    {
        match self {
            UrlHost::Domain(d) => UrlHost::Domain(d.clone()),
            UrlHost::Address => UrlHost::Address,
            UrlHost::Absent => UrlHost::Absent,
        }
    }
}

impl Clone for RemoteUrl {
    fn clone(&self) -> (r: Self)
        ensures
            r == *self,
    {
        RemoteUrl { text: self.text.clone(), host: self.host.clone(), path: self.path.clone() }
    }
}

/// What resolving the reference `rel` against the URL serialised as
/// `base` yields: the components of the resolved URL, or nothing where
/// resolution fails.
pub uninterp spec fn url_join_of(base: Seq<char>, rel: Seq<char>) -> Option<UrlView>;

/// Relies on `url::Url::join` (with `url::Url::parse` to recover the
/// base): RFC 3986 reference resolution, a function of the two strings
/// alone.  The host and path fields are read off the resolved URL.
#[verifier::external_body]
pub(crate) fn join_url(base: &RemoteUrl, rel: &str) -> (r: Option<RemoteUrl>)
    ensures
        match r {
            Some(u) => url_join_of(base.text@, rel@) == Some(u@),
            None => url_join_of(base.text@, rel@) is None,
        },
{
    let parsed = match url::Url::parse(&base.text) {
        Ok(p) => p,
        Err(_) => return None,
    };
    let joined = match parsed.join(rel) {
        Ok(j) => j,
        Err(_) => return None,
    };
    let host = match joined.host() {
        Some(url::Host::Domain(d)) => UrlHost::Domain(d.to_string()),
        Some(_) => UrlHost::Address,
        None => UrlHost::Absent,
    };
    Some(RemoteUrl { text: joined.as_str().to_string(), host, path: joined.path().to_string() })
}

/// A collection-shaped location: the path ends with a separator.
pub open spec fn collection_shaped(path: Seq<char>) -> bool {
    path.len() > 0 && path.last() == '/'
}

impl RemoteUrl {
    /// Whether this URL denotes a directory-like target.
    pub fn is_collection_shaped(&self) -> (r: bool)
        ensures
            r == collection_shaped(self.path@),
    {
        let p = self.path.as_str();
        let n = p.unicode_len();
        n > 0 && p.get_char(n - 1) == '/'
    }
}

/// Position of the last '/' in `p`, or -1 if there is none.
pub open spec fn last_slash_index(p: Seq<char>) -> int
    decreases p.len(),
{
    if p.len() == 0 {
        -1
    } else if p.last() == '/' {
        p.len() - 1
    } else {
        last_slash_index(p.drop_last())
    }
}

pub broadcast proof fn lemma_last_slash_index_range(p: Seq<char>)
    ensures
        -1 <= #[trigger] last_slash_index(p) < p.len(),
    decreases p.len(),
{
    if p.len() > 0 && p.last() != '/' {
        lemma_last_slash_index_range(p.drop_last());
    }
}

/// The last '/'-separated segment of a URL path: the filename part of a
/// download source.  Nothing where the path has no segments at all
/// (cannot-be-a-base URLs, whose path does not start with '/').
pub open spec fn url_filename_of(path: Seq<char>) -> Option<Seq<char>> {
    if path.len() > 0 && path[0] == '/' {
        Some(path.subrange(last_slash_index(path) + 1, path.len() as int))
    } else {
        None
    }
}

proof fn lemma_last_slash_found(p: Seq<char>)
    requires
        p.len() > 0,
        p[0] == '/',
    ensures
        last_slash_index(p) >= 0,
    decreases p.len(),
{
    if p.last() != '/' {
        lemma_last_slash_found(p.drop_last());
    }
}

impl RemoteUrl {
    /// The filename carried by this URL's path, if the path has
    /// segments; the segment may be empty (a path ending in '/').
    pub fn url_filename(&self) -> (r: Option<String>)
        ensures
            match r {
                Some(f) => url_filename_of(self.path@) == Some(f@),
                None => url_filename_of(self.path@) is None,
            },
    {
        let p = self.path.as_str();
        let n = p.unicode_len();
        if n == 0 || p.get_char(0) != '/' {
            return None;
        }
        let mut i: usize = n;
        proof {
            assert(p@.subrange(0, n as int) =~= p@);
        }
        while i > 0
            invariant
                n == p@.len(),
                0 < n <= usize::MAX,
                i <= n,
                p@ == self.path@,
                p@[0] == '/',
                last_slash_index(p@) == last_slash_index(p@.subrange(0, i as int)),
            decreases i,
        {
            if p.get_char(i - 1) == '/' {
                proof {
                    let pre = p@.subrange(0, i as int);
                    assert(pre.last() == p@[i - 1]);
                    assert(last_slash_index(p@) == i - 1);
                    broadcast use lemma_last_slash_index_range;
                }
                let rest = p.substring_char(i, n);
                return Some(rest.to_owned());
            }
            proof {
                let pre = p@.subrange(0, i as int);
                assert(pre.last() == p@[i - 1]);
                assert(pre.drop_last() =~= p@.subrange(0, i - 1 as int));
            }
            i = i - 1;
        }
        proof {
            assert(p@.subrange(0, 0) =~= Seq::<char>::empty());
            lemma_last_slash_found(p@);
            assert(false);
        }
        None
    }
}

} // verus!
