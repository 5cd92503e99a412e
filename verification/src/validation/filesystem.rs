//! The resolution policy: mapping a possibly-relative, possibly-malicious
//! link path onto a canonical on-disk location, under root confinement,
//! default-file substitution and alternate-extension fallback.

use vstd::prelude::*;

use crate::path::{with_ext_seg, FsPath};
use crate::validation::context::Context;
use crate::validation::{IoErrorKind, Reason};

verus! {

/// The file name a link to a directory is resolved to by default.
pub const DEFAULT_FILE: &'static str = "index.html";

/// A character with `A`..`Z` mapped down to `a`..`z`.
pub open spec fn lower_char(c: char) -> char {
    if 65 <= c as u32 && c as u32 <= 90 {
        (((c as u32) + 32) as u8) as char
    } else {
        c
    }
}

/// A string with every ASCII letter lowered.
pub open spec fn lower_seq(s: Seq<char>) -> Seq<char> {
    s.map_values(|c: char| lower_char(c))
}

/// The fallback extensions an association list holds for `key`, later
/// entries shadowing earlier ones.
pub open spec fn alt_assoc(alts: Seq<(Seq<char>, Seq<Seq<char>>)>, key: Seq<char>) -> Option<
    Seq<Seq<char>>,
>
    decreases alts.len(),
{
    if alts.len() == 0 {
        None
    } else if alts.last().0 == key {
        Some(alts.last().1)
    } else {
        alt_assoc(alts.drop_last(), key)
    }
}

/// Options to be used with [`resolve_link()`].
///
/// Setting a root directory confines every resolved link to that directory
/// tree unless `links_may_traverse_the_root_directory` is set. An absolute
/// link is resolved against the root directory, never against the caller's
/// current directory, and fails outright when no root is configured.
#[derive(Debug, Clone, PartialEq)]
pub struct Options {
    /// Resolved links must stay under this directory, when one is set.
    pub root_directory: Option<FsPath>,
    /// The file a link to a directory is taken to mean.
    pub default_file: String,
    /// May a resolved link land outside the root directory?
    pub links_may_traverse_the_root_directory: bool,
    /// Resolve through the filesystem (symlinks included), or purely
    /// lexically?
    pub follow_symlinks: bool,
    /// Fallback extensions to try, keyed by lower-cased extension.
    pub alternate_extensions: Vec<(String, Vec<String>)>,
}

impl Options {
    /// A mapping of possible alternate extensions to try when checking a
    /// filesystem link: by default, a link to a `.md` file may be satisfied
    /// by the matching `.html` file.
    pub fn default_alternate_extensions() -> (r: Vec<(String, Vec<String>)>)
        ensures
            r.deep_view() =~~= seq![("md"@, seq!["html"@])],
    {
        let mut alts: Vec<String> = Vec::new();
        alts.push("html".to_owned());
        let mut r: Vec<(String, Vec<String>)> = Vec::new();
        r.push(("md".to_owned(), alts));
        proof {
            assert(r.deep_view() =~~= seq![("md"@, seq!["html"@])]);
        }
        r
    }

    /// Create a new [`Options`] populated with some sane defaults.
    pub fn new() -> (r: Options)
        ensures
            r.root_directory is None,
            r.default_file@ == DEFAULT_FILE@,
            !r.links_may_traverse_the_root_directory,
            r.follow_symlinks,
            r.alternate_extensions.deep_view() =~~= seq![("md"@, seq!["html"@])],
    {
        Options {
            root_directory: None,
            default_file: DEFAULT_FILE.to_owned(),
            links_may_traverse_the_root_directory: false,
            follow_symlinks: true,
            alternate_extensions: Options::default_alternate_extensions(),
        }
    }

    /// Get the root directory, if one was provided.
    pub fn root_directory(&self) -> (r: Option<&FsPath>)
        ensures
            (match r {
                Some(p) => self.root_directory == Some(*p),
                None => self.root_directory is None,
            }),
    {
        match &self.root_directory {
            Some(p) => Some(p),
            None => None,
        }
    }

    /// Set the root directory, converting the given path to its canonical
    /// on-disk form first; misconfiguration fails here, before any link is
    /// checked.
    pub fn with_root_directory(self, root_directory: &FsPath) -> (r: Result<Options, IoErrorKind>)
        ensures
            (match r {
                Ok(o) => {
                    &&& o.root_directory is Some
                    &&& o.root_directory->0.wf()
                    &&& o.default_file == self.default_file
                    &&& o.links_may_traverse_the_root_directory
                        == self.links_may_traverse_the_root_directory
                    &&& o.follow_symlinks == self.follow_symlinks
                    &&& o.alternate_extensions == self.alternate_extensions
                },
                Err(_) => true,
            }),
    {
        let rendered = root_directory.render();
        match canonicalize_disk(rendered.as_str()) {
            Ok(c) => Ok(
                Options {
                    root_directory: Some(FsPath::from_str(c.as_str())),
                    default_file: self.default_file,
                    links_may_traverse_the_root_directory:
                        self.links_may_traverse_the_root_directory,
                    follow_symlinks: self.follow_symlinks,
                    alternate_extensions: self.alternate_extensions,
                },
            ),
            Err(k) => Err(k),
        }
    }

    /// The default file name to use when a directory is linked to.
    pub fn default_file(&self) -> (r: &String)
        ensures
            r == &self.default_file,
    {
        &self.default_file
    }

    /// Set the default file name.
    pub fn set_default_file(self, default_file: String) -> (r: Options)
        ensures
            r.default_file == default_file,
            r.root_directory == self.root_directory,
            r.links_may_traverse_the_root_directory == self.links_may_traverse_the_root_directory,
            r.follow_symlinks == self.follow_symlinks,
            r.alternate_extensions == self.alternate_extensions,
    {
        Options { default_file, ..self }
    }

    /// Get the map of alternate extensions to use when checking.
    pub fn alternate_extensions(&self) -> (r: &Vec<(String, Vec<String>)>)
        ensures
            r == &self.alternate_extensions,
    {
        &self.alternate_extensions
    }

    /// Set the alternate-extensions mapping; keys are lowered so extensions
    /// compare case-insensitively.
    pub fn set_alternate_extensions(self, alternates: Vec<(String, Vec<String>)>) -> (r: Options)
        ensures
            r.root_directory == self.root_directory,
            r.default_file == self.default_file,
            r.links_may_traverse_the_root_directory == self.links_may_traverse_the_root_directory,
            r.follow_symlinks == self.follow_symlinks,
            r.alternate_extensions.deep_view() =~~= alternates.deep_view().map_values(
                |p: (Seq<char>, Seq<Seq<char>>)| (lower_seq(p.0), p.1),
            ),
    {
        let mut lowered: Vec<(String, Vec<String>)> = Vec::new();
        let mut i: usize = 0;
        while i < alternates.len()
            invariant
                i <= alternates@.len(),
                lowered.deep_view() =~~= alternates.deep_view().take(i as int).map_values(
                    |p: (Seq<char>, Seq<Seq<char>>)| (lower_seq(p.0), p.1),
                ),
            decreases alternates@.len() - i,
        {
            let key = ascii_lowercase(alternates[i].0.as_str());
            let values = alternates[i].1.clone();
            proof {
                assert(values@ =~= alternates@[i as int].1@);
            }
            let ghost pre = lowered.deep_view();
            lowered.push((key, values));
            proof {
                let f = |p: (Seq<char>, Seq<Seq<char>>)| (lower_seq(p.0), p.1);
                let dv = alternates.deep_view();
                assert(lowered.deep_view() =~~= pre.push((key@, values.deep_view())));
                assert(dv[i as int] == (alternates@[i as int].0@, alternates@[
                    i as int
                ].1.deep_view()));
                assert(values.deep_view() =~~= alternates@[i as int].1.deep_view());
                assert(key@ == lower_seq(dv[i as int].0));
                assert(dv.take(i as int + 1).drop_last() =~= dv.take(i as int));
                assert(dv.take(i as int + 1).map_values(f) =~~= dv.take(i as int).map_values(
                    f,
                ).push(f(dv[i as int])));
                assert(lowered.deep_view() =~~= dv.take(i as int + 1).map_values(f));
            }
            i = i + 1;
        }
        proof {
            assert(alternates.deep_view().take(alternates.deep_view().len() as int)
                =~= alternates.deep_view());
        }
        Options { alternate_extensions: lowered, ..self }
    }

    /// Are links allowed to go outside of the root directory?
    pub fn links_may_traverse_the_root_directory(&self) -> (r: bool)
        ensures
            r == self.links_may_traverse_the_root_directory,
    {
        self.links_may_traverse_the_root_directory
    }

    /// Set whether links may go outside of the root directory.
    pub fn set_links_may_traverse_the_root_directory(self, value: bool) -> (r: Options)
        ensures
            r.links_may_traverse_the_root_directory == value,
            r.root_directory == self.root_directory,
            r.default_file == self.default_file,
            r.follow_symlinks == self.follow_symlinks,
            r.alternate_extensions == self.alternate_extensions,
    {
        Options { links_may_traverse_the_root_directory: value, ..self }
    }

    /// Set whether resolution follows symlinks through the filesystem, or
    /// normalises paths lexically instead.
    pub fn set_follow_symlinks(self, value: bool) -> (r: Options)
        ensures
            r.follow_symlinks == value,
            r.root_directory == self.root_directory,
            r.default_file == self.default_file,
            r.links_may_traverse_the_root_directory == self.links_may_traverse_the_root_directory,
            r.alternate_extensions == self.alternate_extensions,
    {
        Options { follow_symlinks: value, ..self }
    }

    /// The configured fallback extensions for `ext`, if any.
    pub open spec fn spec_alternates(&self, ext: Seq<char>) -> Option<Seq<Seq<char>>> {
        alt_assoc(self.alternate_extensions.deep_view(), ext)
    }

    /// Look up the fallback extensions for `ext`.
    fn alternates_for(&self, ext: &String) -> (r: Option<&Vec<String>>)
        ensures
            (match r {
                Some(v) => self.spec_alternates(ext@) == Some(v.deep_view()),
                None => self.spec_alternates(ext@) is None,
            }),
    {
        let ghost alts = self.alternate_extensions.deep_view();
        let mut j = self.alternate_extensions.len();
        proof {
            assert(alts.take(j as int) =~= alts);
        }
        while j > 0
            invariant
                j <= self.alternate_extensions@.len(),
                alts == self.alternate_extensions.deep_view(),
                alt_assoc(alts, ext@) == alt_assoc(alts.take(j as int), ext@),
            decreases j,
        {
            proof {
                assert(alts.take(j as int).last() == alts[j - 1]);
                assert(alts.take(j as int).drop_last() =~= alts.take(j - 1));
            }
            let pair = &self.alternate_extensions[j - 1];
            if pair.0 == *ext {
                return Some(&pair.1);
            }
            j = j - 1;
        }
        proof {
            assert(alts.take(0) =~= Seq::<(Seq<char>, Seq<Seq<char>>)>::empty());
        }
        None
    }

    /// Where a link's target starts, over path models: an absolute link
    /// lands on the root directory — or fails when none is configured —
    /// while a relative one is joined onto the current directory. This is
    /// the only step of resolution that reads the current directory.
    pub open spec fn join_model(
        &self,
        current_directory: (bool, Seq<Seq<char>>),
        link: (bool, Seq<Seq<char>>),
    ) -> Result<(bool, Seq<Seq<char>>), Reason> {
        if link.0 {
            match self.root_directory {
                Some(root) => Ok((root.absolute, root.segs() + link.1)),
                None => Err(Reason::TraversesParentDirectories),
            }
        } else {
            Ok((current_directory.0, current_directory.1 + link.1))
        }
    }

    /// Join `link` onto the current directory, or onto the root directory
    /// when the link is absolute.
    pub fn join(&self, current_directory: &FsPath, link: &FsPath) -> (r: Result<FsPath, Reason>)
        ensures
            (match self.join_model(current_directory.model(), link.model()) {
                Ok(m) => r is Ok && r->Ok_0.model() == m,
                Err(e) => r == Err::<FsPath, Reason>(e),
            }),
    {
        if link.absolute {
            match &self.root_directory {
                Some(root) => {
                    let joined = root.join(&link.as_relative());
                    proof {
                        assert(joined.model() == (root.absolute, root.segs() + link.segs()));
                    }
                    Ok(joined)
                },
                None => Err(Reason::TraversesParentDirectories),
            }
        } else {
            let joined = current_directory.join(link);
            Ok(joined)
        }
    }

    /// Candidate targets for a joined path: the path itself first, then the
    /// same path with each configured fallback extension, in order.
    fn possible_names(&self, original: FsPath) -> (r: Vec<FsPath>)
        ensures
            r@.len() >= 1,
            r@[0] == original,
            (match original.spec_extension() {
                Some(e) => (match self.spec_alternates(lower_seq(e)) {
                    Some(alts) => r@.len() == 1 + alts.len() && (forall|k: int|
                        0 <= k < alts.len() ==> (#[trigger] r@[k + 1]).absolute
                            == original.absolute && r@[k + 1].segs() == original.segs().update(
                            original.segs().len() - 1,
                            with_ext_seg(original.segs().last(), alts[k]),
                        )),
                    None => r@.len() == 1,
                }),
                None => r@.len() == 1,
            }),
    {
        let ext = original.extension();
        let mut names: Vec<FsPath> = Vec::new();
        match ext {
            Some(e) => {
                let lowered = ascii_lowercase(e.as_str());
                match self.alternates_for(&lowered) {
                    Some(alternatives) => {
                        let alternatives = alternatives.clone();
                        let ghost alts: Seq<Seq<char>> = self.spec_alternates(lower_seq(e@))->0;
                        proof {
                            assert(alternatives.deep_view() =~~= alts);
                        }
                        let mut alt_paths: Vec<FsPath> = Vec::new();
                        let mut k: usize = 0;
                        while k < alternatives.len()
                            invariant
                                k <= alternatives@.len(),
                                alts == alternatives.deep_view(),
                                original.spec_extension() is Some,
                                alt_paths@.len() == k,
                                forall|t: int|
                                    0 <= t < k ==> (#[trigger] alt_paths@[t]).absolute
                                        == original.absolute && alt_paths@[t].segs()
                                        == original.segs().update(
                                        original.segs().len() - 1,
                                        with_ext_seg(original.segs().last(), alts[t]),
                                    ),
                            decreases alternatives@.len() - k,
                        {
                            let alt = original.with_extension(alternatives[k].as_str());
                            alt_paths.push(alt);
                            k = k + 1;
                        }
                        names.push(original);
                        names.append(&mut alt_paths);
                        names
                    },
                    None => {
                        names.push(original);
                        names
                    },
                }
            },
            None => {
                names.push(original);
                names
            },
        }
    }

    /// Whether a canonical path is allowed to stand: inside the root
    /// directory, or anywhere when traversal is permitted or no root is
    /// configured.
    pub open spec fn spec_sanity_check(&self, path: FsPath) -> bool {
        match self.root_directory {
            Some(root) => self.links_may_traverse_the_root_directory || path.spec_starts_with(
                root,
            ),
            None => true,
        }
    }

    /// Refuse a canonical path that leaves the root directory.
    fn sanity_check(&self, path: &FsPath) -> (r: Result<(), Reason>)
        ensures
            r is Ok <==> self.spec_sanity_check(*path),
            r is Err ==> r->Err_0 == Reason::TraversesParentDirectories,
    {
        match &self.root_directory {
            Some(root) => {
                if self.links_may_traverse_the_root_directory || path.starts_with(root) {
                    Ok(())
                } else {
                    Err(Reason::TraversesParentDirectories)
                }
            },
            None => Ok(()),
        }
    }

    /// The canonical on-disk form of a candidate: through the filesystem
    /// when symlinks are followed, lexically otherwise; a directory gets the
    /// default file appended and is resolved again.
    fn canonicalize(&self, path: &FsPath) -> (r: Result<FsPath, Reason>)
        ensures
            r is Err ==> r->Err_0 is Io,
    {
        let mut canonical = if self.follow_symlinks {
            match canonicalize_disk(path.render().as_str()) {
                Ok(c) => FsPath::from_str(c.as_str()),
                Err(k) => {
                    return Err(Reason::Io(k));
                },
            }
        } else {
            path.normalize()
        };
        if is_dir_disk(canonical.render().as_str()) {
            canonical = canonical.pushed(&self.default_file);
            if self.follow_symlinks || !exists_disk(canonical.render().as_str()) {
                canonical = match canonicalize_disk(canonical.render().as_str()) {
                    Ok(c) => FsPath::from_str(c.as_str()),
                    Err(k) => {
                        return Err(Reason::Io(k));
                    },
                };
            }
        }
        Ok(canonical)
    }
}

impl Default for Options {
    /// The same defaults as [`Options::new`].
    fn default() -> (r: Options)
        ensures
            r.root_directory is None,
            r.default_file@ == DEFAULT_FILE@,
            !r.links_may_traverse_the_root_directory,
            r.follow_symlinks,
            r.alternate_extensions.deep_view() =~~= seq![("md"@, seq!["html"@])],
    {
        Options::new()
    }
}

/// Resolving an absolute link with a root configured starts from the same
/// joined path as resolving the same segments as a relative link from the
/// root directory itself — whatever the current directory is.
pub proof fn lemma_absolute_rewrite(
    opts: Options,
    current_directory: (bool, Seq<Seq<char>>),
    abs_link: (bool, Seq<Seq<char>>),
    rel_link: (bool, Seq<Seq<char>>),
)
    requires
        opts.root_directory is Some,
        abs_link.0,
        !rel_link.0,
        abs_link.1 == rel_link.1,
    ensures
        opts.join_model(current_directory, abs_link) == opts.join_model(
            (opts.root_directory->0.absolute, opts.root_directory->0.segs()),
            rel_link,
        ),
{
    let root = opts.root_directory->0;
    assert(opts.join_model(current_directory, abs_link) == Ok::<(bool, Seq<Seq<char>>), Reason>(
        (root.absolute, root.segs() + abs_link.1),
    ));
}

/// Try to resolve a link relative to the current directory.
///
/// An absolute link is resolved against the configured root directory and is
/// refused outright when none is set. Whatever the policy, a resolved path
/// is returned only if it stays inside the root directory, unless traversal
/// is explicitly permitted.
pub fn resolve_link(current_directory: &FsPath, link: &FsPath, options: &Options) -> (r: Result<
    FsPath,
    Reason,
>)
    ensures
        link.absolute && options.root_directory is None ==> r == Err::<FsPath, Reason>(
            Reason::TraversesParentDirectories,
        ),
        r is Ok && options.root_directory is Some
            && !options.links_may_traverse_the_root_directory ==> r->Ok_0.spec_starts_with(
            options.root_directory->0,
        ),
        r is Err ==> (r->Err_0 == Reason::TraversesParentDirectories || r->Err_0 is Io),
{
    let joined = match options.join(current_directory, link) {
        Ok(j) => j,
        Err(e) => {
            return Err(e);
        },
    };
    let candidates = options.possible_names(joined);
    let mut i: usize = 0;
    while i < candidates.len()
        invariant
            0 <= i <= candidates@.len(),
            !(link.absolute && options.root_directory is None),
        decreases candidates@.len() - i,
    {
        match options.canonicalize(&candidates[i]) {
            Ok(canonical) => {
                match options.sanity_check(&canonical) {
                    Ok(()) => {
                        return Ok(canonical);
                    },
                    Err(e) => {
                        return Err(e);
                    },
                }
            },
            Err(_) => {},
        }
        i = i + 1;
    }
    Err(Reason::Io(IoErrorKind::NotFound))
}

/// Check whether a path points to a valid file on disk.
///
/// The path is resolved under the context's policy; a fragment specifier is
/// accepted unconditionally, since fragment verification is not
/// implemented, and the context's custom validation has the last word.
pub fn check_filesystem<C: Context>(
    current_directory: &FsPath,
    path: &FsPath,
    fragment: Option<&String>,
    ctx: &C,
) -> (r: Result<(), Reason>)
    ensures
        path.absolute && ctx.spec_filesystem_options().root_directory is None ==> r == Err::<
            (),
            Reason,
        >(Reason::TraversesParentDirectories),
{
    let options = ctx.filesystem_options();
    let resolved_location = match resolve_link(current_directory, path, options) {
        Ok(p) => p,
        Err(e) => {
            return Err(e);
        },
    };
    match ctx.custom_validation(&resolved_location, fragment) {
        Ok(()) => Ok(()),
        Err(reason) => Err(reason),
    }
}

/// A string with every ASCII letter lowered; other characters are kept.
fn ascii_lowercase(s: &str) -> (r: String)
    ensures
        r@ == lower_seq(s@),
{
    let n = s.unicode_len();
    let mut v: Vec<char> = Vec::new();
    let mut i: usize = 0;
    while i < n
        invariant
            i <= n,
            n == s@.len(),
            v@.len() == i,
            forall|t: int| 0 <= t < i ==> v@[t] == lower_char(s@[t]),
        decreases n - i,
    {
        let c = s.get_char(i);
        let b = c as u32;
        if 65 <= b && b <= 90 {
            v.push(((b + 32) as u8) as char);
        } else {
            v.push(c);
        }
        i = i + 1;
    }
    let r = chars_to_string(&v);
    proof {
        assert(r@ =~= lower_seq(s@));
    }
    r
}

/// Relies on `String: FromIterator<char>`: builds the string holding exactly
/// the given characters, in order.
#[verifier::external_body]
fn chars_to_string(v: &Vec<char>) -> (r: String)
    ensures
        r@ == v@,
{
    v.iter().collect()
}

/// Relies on `dunce::canonicalize`: resolves the path against the
/// filesystem, following symlinks, and fails if any component does not
/// exist; on success the result is the canonical, absolute form of the
/// path, which is never empty. The error is reduced to its kind.
#[verifier::external_body]
fn canonicalize_disk(path: &str) -> (r: Result<String, IoErrorKind>)
    ensures
        r is Ok ==> r->Ok_0@.len() > 0,
{
    match dunce::canonicalize(std::path::Path::new(path)) {
        Ok(c) => Ok(c.to_string_lossy().into_owned()),
        Err(e) => Err(
            match e.kind() {
                std::io::ErrorKind::NotFound => IoErrorKind::NotFound,
                std::io::ErrorKind::PermissionDenied => IoErrorKind::PermissionDenied,
                _ => IoErrorKind::Other,
            },
        ),
    }
}

/// Relies on `std::path::Path::is_dir`: whether the path points at a
/// directory on disk; the answer depends on the filesystem's current state,
/// so nothing is promised of it.
#[verifier::external_body]
fn is_dir_disk(path: &str) -> bool {
    std::path::Path::new(path).is_dir()
}

/// Relies on `std::path::Path::exists`: whether the path points at anything
/// on disk at all; the answer depends on the filesystem's current state, so
/// nothing is promised of it.
#[verifier::external_body]
fn exists_disk(path: &str) -> bool {
    std::path::Path::new(path).exists()
}

} // verus!
