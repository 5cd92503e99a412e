//! Code for validating the various types of [`crate::Link`].

use vstd::prelude::*;
use vstd::multiset::Multiset;

use crate::path::FsPath;
use crate::{hash_path_part, uri_path_parse_result, url_parse_result};
use crate::{Category, Link};

pub mod cache;
pub mod context;
pub mod filesystem;
pub mod web;

pub use cache::{Cache, CacheEntry};
pub use context::{BasicContext, Context};
pub use filesystem::{check_filesystem, resolve_link, Options};
pub use web::check_web;

verus! {

/// The kind of OS error behind a [`Reason::Io`] failure.
#[derive(Debug, Clone, Copy, PartialEq, Eq, Structural)]
pub enum IoErrorKind {
    /// The path does not exist.
    NotFound,
    /// The path may exist, but we are not allowed to look.
    PermissionDenied,
    /// Any other OS-level failure.
    Other,
}

/// The kind of failure behind a [`Reason::Web`] failure.
#[derive(Debug, Clone, Copy, PartialEq, Eq, Structural)]
pub enum WebError {
    /// The request did not complete in time.
    Timeout,
    /// The endpoint answered with a non-success status code.
    Status(u16),
    /// The request could not be carried out at all.
    Transport,
}

/// Possible reasons for a bad link.
#[derive(Debug, Clone, Copy, PartialEq, Eq, Structural)]
pub enum Reason {
    /// The link goes outside of the root directory.
    TraversesParentDirectories,
    /// The OS returned an error (e.g. file not found).
    Io(IoErrorKind),
    /// The HTTP client returned an error.
    Web(WebError),
}

impl Reason {
    /// Was this failure due to a missing file?
    pub fn file_not_found(&self) -> (r: bool)
        ensures
            r == (*self == Reason::Io(IoErrorKind::NotFound)),
    {
        match self {
            Reason::Io(IoErrorKind::NotFound) => true,
            _ => false,
        }
    }

    /// Did the HTTP client time out?
    pub fn timed_out(&self) -> (r: bool)
        ensures
            r == (*self == Reason::Web(WebError::Timeout)),
    {
        match self {
            Reason::Web(WebError::Timeout) => true,
            _ => false,
        }
    }
}

/// A [`Link`] and the [`Reason`] why it is invalid.
#[derive(Debug, Clone, PartialEq)]
pub struct InvalidLink {
    /// The invalid link.
    pub link: Link,
    /// Why is this link invalid?
    pub reason: Reason,
}

/// The result of checking one link.
#[derive(Debug, Clone, PartialEq)]
pub enum Outcome {
    /// This link is valid.
    Valid(Link),
    /// This link is broken.
    Invalid(InvalidLink),
    /// The link was explicitly ignored by the [`Context`].
    Ignored(Link),
    /// No suitable validator was found for this link.
    UnknownCategory(Link),
}

/// The link an [`Outcome`] is about.
pub open spec fn outcome_link(o: Outcome) -> Link {
    match o {
        Outcome::Valid(l) => l,
        Outcome::Invalid(il) => il.link,
        Outcome::Ignored(l) => l,
        Outcome::UnknownCategory(l) => l,
    }
}

impl Outcome {
    /// Wrap a check's result around its link.
    pub fn from_result(link: Link, result: Result<(), Reason>) -> (o: Outcome)
        ensures
            (match result {
                Ok(()) => o == Outcome::Valid(link),
                Err(e) => (o matches Outcome::Invalid(il) && il.link == link && il.reason == e),
            }),
            outcome_link(o) == link,
    {
        match result {
            Ok(()) => Outcome::Valid(link),
            Err(e) => Outcome::Invalid(InvalidLink { link, reason: e }),
        }
    }
}

/// The result of validating a batch of [`Link`]s: four collections whose
/// internal order carries no meaning.
#[derive(Debug)]
pub struct Outcomes {
    /// Valid links.
    pub valid: Vec<Link>,
    /// Links which are broken.
    pub invalid: Vec<InvalidLink>,
    /// Items that were explicitly ignored by the [`Context`].
    pub ignored: Vec<Link>,
    /// Links which we weren't able to identify a suitable validator for.
    pub unknown_category: Vec<Link>,
}

/// Every link an [`Outcomes`] accounts for, with multiplicity.
pub open spec fn outcomes_links(o: Outcomes) -> Multiset<Link> {
    o.valid@.to_multiset().add(
        o.invalid@.map_values(|il: InvalidLink| il.link).to_multiset(),
    ).add(o.ignored@.to_multiset()).add(o.unknown_category@.to_multiset())
}

impl Outcomes {
    /// How many links these outcomes account for.
    pub open spec fn spec_len(&self) -> nat {
        self.valid@.len() + self.invalid@.len() + self.ignored@.len()
            + self.unknown_category@.len()
    }

    /// Create an empty set of [`Outcomes`].
    pub fn empty() -> (o: Outcomes)
        ensures
            o.valid@.len() == 0,
            o.invalid@.len() == 0,
            o.ignored@.len() == 0,
            o.unknown_category@.len() == 0,
    {
        Outcomes { valid: Vec::new(), invalid: Vec::new(), ignored: Vec::new(), unknown_category: Vec::new() }
    }

    /// Merge two [`Outcomes`], keeping every entry of both.
    pub fn merge(&mut self, other: Outcomes)
        ensures
            final(self).valid@ == old(self).valid@ + other.valid@,
            final(self).invalid@ == old(self).invalid@ + other.invalid@,
            final(self).ignored@ == old(self).ignored@ + other.ignored@,
            final(self).unknown_category@ == old(self).unknown_category@
                + other.unknown_category@,
    {
        let mut other = other;
        self.valid.append(&mut other.valid);
        self.invalid.append(&mut other.invalid);
        self.ignored.append(&mut other.ignored);
        self.unknown_category.append(&mut other.unknown_category);
    }

    /// File one more outcome under its bucket.
    pub fn push_outcome(&mut self, outcome: Outcome)
        ensures
            final(self).spec_len() == old(self).spec_len() + 1,
            outcomes_links(*final(self)) == outcomes_links(*old(self)).insert(
                outcome_link(outcome),
            ),
            (match outcome {
                Outcome::Valid(l) => final(self).valid@ == old(self).valid@.push(l)
                    && final(self).invalid@ == old(self).invalid@
                    && final(self).ignored@ == old(self).ignored@
                    && final(self).unknown_category@ == old(self).unknown_category@,
                Outcome::Invalid(il) => final(self).invalid@ == old(self).invalid@.push(il)
                    && final(self).valid@ == old(self).valid@
                    && final(self).ignored@ == old(self).ignored@
                    && final(self).unknown_category@ == old(self).unknown_category@,
                Outcome::Ignored(l) => final(self).ignored@ == old(self).ignored@.push(l)
                    && final(self).valid@ == old(self).valid@
                    && final(self).invalid@ == old(self).invalid@
                    && final(self).unknown_category@ == old(self).unknown_category@,
                Outcome::UnknownCategory(l) => final(self).unknown_category@
                    == old(self).unknown_category@.push(l)
                    && final(self).valid@ == old(self).valid@
                    && final(self).invalid@ == old(self).invalid@
                    && final(self).ignored@ == old(self).ignored@,
            }),
    {
        let ghost pre = *self;
        match outcome {
            Outcome::Valid(l) => self.valid.push(l),
            Outcome::Invalid(il) => self.invalid.push(il),
            Outcome::Ignored(l) => self.ignored.push(l),
            Outcome::UnknownCategory(l) => self.unknown_category.push(l),
        }
        proof {
            broadcast use vstd::seq_lib::group_to_multiset_ensures;
            assert(self.invalid@.map_values(|il: InvalidLink| il.link) =~= pre.invalid@.map_values(
                |il: InvalidLink| il.link,
            ).push(outcome_link(outcome)) || self.invalid@ == pre.invalid@);
            assert(outcomes_links(*self) =~= outcomes_links(pre).insert(outcome_link(outcome)));
        }
    }
}

impl Default for Outcomes {
    /// An empty set of outcomes.
    fn default() -> (o: Outcomes)
        ensures
            o.valid@.len() == 0,
            o.invalid@.len() == 0,
            o.ignored@.len() == 0,
            o.unknown_category@.len() == 0,
    {
        Outcomes::empty()
    }
}

/// Merging is commutative up to the multiset of accounted links: both
/// orders of a merge account for exactly the same links, the same number of
/// times.
pub proof fn lemma_merge_links_commute(a: Outcomes, b: Outcomes)
    ensures
        outcomes_links(a).add(outcomes_links(b)) == outcomes_links(b).add(outcomes_links(a)),
{
    assert(outcomes_links(a).add(outcomes_links(b)) =~= outcomes_links(b).add(outcomes_links(a)));
}

/// The href has no category: it neither parses as a URL nor decodes as a
/// URI path.
pub open spec fn href_is_unclassifiable(href: Seq<char>) -> bool {
    url_parse_result(href) is None && uri_path_parse_result(hash_path_part(href)) is None
}

/// The href decodes as a rooted filesystem path.
pub open spec fn href_is_absolute_filesystem(href: Seq<char>) -> bool {
    &&& url_parse_result(href) is None
    &&& uri_path_parse_result(hash_path_part(href)) is Some
    &&& uri_path_parse_result(hash_path_part(href))->0.len() > 0
    &&& uri_path_parse_result(hash_path_part(href))->0[0] == '/'
}

/// Try to validate a single link, deferring to the appropriate validator
/// based on the link's [`Category`].
///
/// An ignored link does no work; an unclassifiable one is merely reported
/// as such; and a rooted filesystem link is refused outright when no root
/// directory is configured.
pub fn validate_one<C: Context>(link: Link, current_directory: &FsPath, ctx: &mut C) -> (o:
    Outcome)
    ensures
        outcome_link(o) == link,
        old(ctx).spec_should_ignore(link) ==> o == Outcome::Ignored(link),
        !old(ctx).spec_should_ignore(link) && href_is_unclassifiable(link.href@) ==> o
            == Outcome::UnknownCategory(link),
        !old(ctx).spec_should_ignore(link) && !href_is_unclassifiable(link.href@) ==> (o is Valid
            || o is Invalid),
        !old(ctx).spec_should_ignore(link) && href_is_absolute_filesystem(link.href@) && old(
            ctx,
        ).spec_filesystem_options().root_directory is None ==> (o matches Outcome::Invalid(il)
            && il.link == link && il.reason == Reason::TraversesParentDirectories),
{
    if ctx.should_ignore(&link) {
        return Outcome::Ignored(link);
    }
    match link.category() {
        Some(Category::FileSystem { path, fragment }) => {
            let result = check_filesystem(current_directory, &path, fragment.as_ref(), &*ctx);
            Outcome::from_result(link, result)
        },
        Some(Category::Url(url)) => {
            let result = check_web(url.as_str(), ctx);
            Outcome::from_result(link, result)
        },
        None => Outcome::UnknownCategory(link),
    }
}

/// Validate several [`Link`]s relative to a particular directory.
///
/// Every link is accounted for exactly once: the four buckets together hold
/// precisely the input links.
pub fn validate<C: Context>(current_directory: &FsPath, links: Vec<Link>, ctx: &mut C) -> (o:
    Outcomes)
    ensures
        o.spec_len() == links@.len(),
        outcomes_links(o) == links@.to_multiset(),
{
    let mut outcomes = Outcomes::empty();
    let mut links = links;
    let ghost all: Seq<Link> = links@;
    let ghost i: int = 0;
    proof {
        broadcast use vstd::seq_lib::group_to_multiset_ensures;
        assert(all.take(0) =~= Seq::<Link>::empty());
        assert(outcomes.invalid@.map_values(|il: InvalidLink| il.link) =~= Seq::<Link>::empty());
        assert(outcomes_links(outcomes) =~= all.take(0).to_multiset());
        assert(links@ =~= all.skip(0));
    }
    while links.len() > 0
        invariant
            0 <= i <= all.len(),
            links@ == all.skip(i),
            outcomes.spec_len() == i,
            outcomes_links(outcomes) == all.take(i).to_multiset(),
        decreases links@.len(),
    {
        let link = links.remove(0);
        proof {
            assert(link == all[i]);
            assert(links@ =~= all.skip(i + 1));
        }
        let outcome = validate_one(link, current_directory, ctx);
        outcomes.push_outcome(outcome);
        proof {
            broadcast use vstd::seq_lib::group_to_multiset_ensures;
            assert(all.take(i + 1) =~= all.take(i).push(all[i]));
            assert(all.take(i).push(all[i]).to_multiset() =~= all.take(i).to_multiset().insert(
                all[i],
            ));
            i = i + 1;
        }
    }
    proof {
        assert(all.take(all.len() as int) =~= all);
        assert(all.skip(i).len() == 0);
    }
    outcomes
}

} // verus!
