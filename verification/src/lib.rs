//! A library for extracting and validating links.
//!
//! Links are classified into filesystem references and web URLs, resolved
//! against a configurable policy that confines them to a root directory,
//! and checked in batches with a cache that remembers recent probe results.

use vstd::prelude::*;

pub mod path;
pub mod scanners;
pub mod validation;
pub mod verify;

pub use validation::{validate, BasicContext};

verus! {

/// A half-open range of byte offsets locating a link in its source text.
#[derive(Debug, Clone, Copy, PartialEq, Eq, Structural)]
pub struct Span {
    /// The offset of the first byte of the link.
    pub start: u32,
    /// The offset one past the last byte of the link.
    pub end: u32,
}

impl Span {
    /// Create a new [`Span`] from a pair of byte offsets.
    pub fn new(start: u32, end: u32) -> (s: Span)
        ensures
            s.start == start,
            s.end == end,
    {
        Span { start, end }
    }
}

/// An identifier for the source document a link was found in.
#[derive(Debug, Clone, Copy, PartialEq, Eq, Structural)]
pub struct FileId(pub u32);

/// A link to some other resource.
#[derive(Debug, Clone, PartialEq)]
pub struct Link {
    /// The link itself.
    pub href: String,
    /// Where the [`Link`] lies in its source text.
    pub span: Span,
    /// Which document does this [`Link`] belong to?
    pub file: FileId,
}

impl Link {
    /// Create a new [`Link`].
    pub fn new(href: String, span: Span, file: FileId) -> (l: Link)
        ensures
            l.href == href,
            l.span == span,
            l.file == file,
    {
        Link { href, span, file }
    }
}

/// What `url::Url::parse` makes of a string: its serialization when the
/// string parses as an absolute URL, nothing otherwise. The result depends
/// on the string alone.
pub uninterp spec fn url_parse_result(s: Seq<char>) -> Option<Seq<char>>;

/// What `http::uri::PathAndQuery::from_str` makes of a string: the path
/// portion when every byte is one the URI path grammar admits, nothing
/// otherwise. The result depends on the string alone.
pub uninterp spec fn uri_path_parse_result(s: Seq<char>) -> Option<Seq<char>>;

/// The index of the first occurrence of `c`, or -1 when it has none.
pub open spec fn find_char(s: Seq<char>, c: char) -> int
    decreases s.len(),
{
    if s.len() == 0 {
        -1
    } else if s[0] == c {
        0
    } else {
        let rest = find_char(s.drop_first(), c);
        if rest == -1 {
            -1
        } else {
            1 + rest
        }
    }
}

/// `find_char` is pinned down by its defining property.
pub proof fn lemma_find_char_eq(s: Seq<char>, c: char, m: int)
    requires
        -1 <= m < s.len(),
        m >= 0 ==> s[m] == c,
        forall|t: int| 0 <= t < m ==> s[t] != c,
        m == -1 ==> forall|t: int| 0 <= t < s.len() ==> s[t] != c,
    ensures
        find_char(s, c) == m,
    decreases s.len(),
{
    if s.len() == 0 {
    } else if s[0] == c {
        assert(m == 0);
    } else if m == -1 {
        lemma_find_char_eq(s.drop_first(), c, -1);
    } else {
        lemma_find_char_eq(s.drop_first(), c, m - 1);
    }
}

/// The part of an href before its first `#`, or all of it.
pub open spec fn hash_path_part(s: Seq<char>) -> Seq<char> {
    if find_char(s, '#') == -1 {
        s
    } else {
        s.take(find_char(s, '#'))
    }
}

/// The part of an href after its first `#`, if it has one.
pub open spec fn hash_fragment(s: Seq<char>) -> Option<Seq<char>> {
    if find_char(s, '#') == -1 {
        None
    } else {
        Some(s.skip(find_char(s, '#') + 1))
    }
}

/// What categorising an href must return: a URL when the href parses as
/// one; otherwise the href is split at its first `#` and the leading part
/// must decode as a URI path; an href that is neither has no category.
pub open spec fn categorise_spec(src: Seq<char>, r: Option<Category>) -> bool {
    match r {
        Some(Category::Url(u)) => url_parse_result(src) == Some(u@),
        Some(Category::FileSystem { path, fragment }) => {
            &&& url_parse_result(src) is None
            &&& uri_path_parse_result(hash_path_part(src)) is Some
            &&& path.segs() == path::segments_of(uri_path_parse_result(hash_path_part(src))->0)
            &&& path.absolute == (uri_path_parse_result(hash_path_part(src))->0.len() > 0
                && uri_path_parse_result(hash_path_part(src))->0[0] == '/')
            &&& fragment.deep_view() == hash_fragment(src)
        },
        None => url_parse_result(src) is None && uri_path_parse_result(hash_path_part(src))
            is None,
    }
}

/// The two kinds of resource a link can point at.
#[derive(Debug, Clone, PartialEq)]
pub enum Category {
    /// A local file.
    FileSystem {
        /// Where the link points, possibly relative.
        path: path::FsPath,
        /// The fragment after the first `#`, if any.
        fragment: Option<String>,
    },
    /// A URL for something on the web, in its serialized form.
    Url(String),
}

impl Category {
    /// Decide what kind of resource an href names: a URL when it parses as
    /// one, else a filesystem path split off from its fragment, else
    /// nothing.
    pub fn categorise(src: &str) -> (r: Option<Category>)
        ensures
            categorise_spec(src@, r),
    {
        match parse_url(src) {
            Some(u) => Some(Category::Url(u)),
            None => {
                let n = src.unicode_len();
                let (path_part, fragment): (&str, Option<String>) = match find_hash(src) {
                    Some(h) => (
                        src.substring_char(0, h),
                        Some(src.substring_char(h + 1, n).to_owned()),
                    ),
                    None => (src, None),
                };
                proof {
                    assert(path_part@ =~= hash_path_part(src@));
                    assert(fragment.deep_view() == hash_fragment(src@));
                }
                match parse_path_and_query(path_part) {
                    Some(decoded) => Some(
                        Category::FileSystem {
                            path: path::FsPath::from_str(decoded.as_str()),
                            fragment,
                        },
                    ),
                    None => None,
                }
            },
        }
    }
}

/// The index of the first `#` in a string, if it has one.
fn find_hash(s: &str) -> (r: Option<usize>)
    ensures
        (match r {
            Some(h) => h < s@.len() && find_char(s@, '#') == h,
            None => find_char(s@, '#') == -1,
        }),
{
    let n = s.unicode_len();
    let mut i: usize = 0;
    while i < n
        invariant
            i <= n,
            n == s@.len(),
            forall|t: int| 0 <= t < i ==> s@[t] != '#',
        decreases n - i,
    {
        if s.get_char(i) == '#' {
            proof {
                lemma_find_char_eq(s@, '#', i as int);
            }
            return Some(i);
        }
        i = i + 1;
    }
    proof {
        lemma_find_char_eq(s@, '#', -1);
    }
    None
}

impl Link {
    /// The [`Category`] of this link's href.
    pub fn category(&self) -> (r: Option<Category>)
        ensures
            categorise_spec(self.href@, r),
    {
        Category::categorise(self.href.as_str())
    }
}

/// Relies on `url::Url::parse` and `From<Url> for String`: parsing accepts
/// exactly the strings that are absolute URLs, and the conversion yields the
/// parsed URL's serialization. Both depend on the input alone.
#[verifier::external_body]
fn parse_url(src: &str) -> (r: Option<String>)
    ensures
        (r is Some) == (url_parse_result(src@) is Some),
        r is Some ==> url_parse_result(src@) == Some(r->0@),
{
    match url::Url::parse(src) {
        Ok(u) => Some(String::from(u)),
        Err(_) => None,
    }
}

/// Relies on `http::uri::PathAndQuery`'s `FromStr` and `path`: parsing
/// accepts exactly the strings whose bytes the URI path grammar admits,
/// and `path` returns the portion before any query or fragment. Both
/// depend on the input alone.
#[verifier::external_body]
fn parse_path_and_query(src: &str) -> (r: Option<String>)
    ensures
        (r is Some) == (uri_path_parse_result(src@) is Some),
        r is Some ==> uri_path_parse_result(src@) == Some(r->0@),
{
    match src.parse::<http::uri::PathAndQuery>() {
        Ok(pq) => Some(pq.path().to_owned()),
        Err(_) => None,
    }
}

} // verus!
