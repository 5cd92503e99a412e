//! A lexical model of filesystem paths.
//!
//! A path is an absolute-or-relative flag plus a list of segments. `.` and
//! `..` are kept as ordinary segments until [`FsPath::normalize`] collapses
//! them, so the resolution policy can decide how parent references are
//! treated.

use vstd::prelude::*;

verus! {

/// One segment is well formed when it is non-empty and free of separators.
pub open spec fn seg_wf(s: Seq<char>) -> bool {
    s.len() > 0 && forall|i: int| 0 <= i < s.len() ==> s[i] != '/'
}

/// The length of the leading run of non-separator characters.
pub open spec fn seg_len_at(s: Seq<char>) -> nat
    decreases s.len(),
{
    if s.len() == 0 || s[0] == '/' {
        0
    } else {
        1 + seg_len_at(s.drop_first())
    }
}

pub proof fn lemma_seg_len_at(s: Seq<char>)
    ensures
        seg_len_at(s) <= s.len(),
        forall|i: int| 0 <= i < seg_len_at(s) ==> s[i] != '/',
        seg_len_at(s) < s.len() ==> s[seg_len_at(s) as int] == '/',
        s.len() > 0 && s[0] != '/' ==> seg_len_at(s) >= 1,
    decreases s.len(),
{
    if s.len() == 0 || s[0] == '/' {
    } else {
        lemma_seg_len_at(s.drop_first());
        assert forall|i: int| 0 <= i < seg_len_at(s) implies s[i] != '/' by {
            if i > 0 {
                assert(s.drop_first()[i - 1] != '/');
            }
        }
    }
}

/// `seg_len_at` is pinned down by its defining property.
pub proof fn lemma_seg_len_at_eq(s: Seq<char>, m: int)
    requires
        0 <= m <= s.len(),
        forall|i: int| 0 <= i < m ==> s[i] != '/',
        m == s.len() || s[m] == '/',
    ensures
        seg_len_at(s) == m,
    decreases s.len(),
{
    if s.len() == 0 || s[0] == '/' {
    } else {
        lemma_seg_len_at_eq(s.drop_first(), m - 1);
    }
}

/// The segments of a path string: the maximal non-empty runs of
/// non-separator characters.
pub open spec fn segments_of(s: Seq<char>) -> Seq<Seq<char>>
    decreases s.len(),
    when s.len() >= 0
    via segments_of_decreases
{
    if s.len() == 0 {
        Seq::empty()
    } else if s[0] == '/' {
        segments_of(s.drop_first())
    } else {
        seq![s.take(seg_len_at(s) as int)] + segments_of(s.skip(seg_len_at(s) as int))
    }
}

#[via_fn]
proof fn segments_of_decreases(s: Seq<char>) {
    lemma_seg_len_at(s);
}

/// Every segment produced by `segments_of` is well formed.
pub proof fn lemma_segments_of_wf(s: Seq<char>)
    ensures
        forall|i: int| 0 <= i < segments_of(s).len() ==> seg_wf(#[trigger] segments_of(s)[i]),
    decreases s.len(),
{
    if s.len() == 0 {
    } else if s[0] == '/' {
        lemma_segments_of_wf(s.drop_first());
        assert forall|i: int| 0 <= i < segments_of(s).len() implies seg_wf(
            #[trigger] segments_of(s)[i],
        ) by {
            assert(segments_of(s)[i] == segments_of(s.drop_first())[i]);
            assert(seg_wf(segments_of(s.drop_first())[i]));
        }
    } else {
        lemma_seg_len_at(s);
        let k = seg_len_at(s) as int;
        lemma_segments_of_wf(s.skip(k));
        assert(seg_wf(s.take(k)));
        assert forall|i: int| 0 <= i < segments_of(s).len() implies seg_wf(
            #[trigger] segments_of(s)[i],
        ) by {
            if i > 0 {
                assert(segments_of(s)[i] == segments_of(s.skip(k))[i - 1]);
                assert(seg_wf(segments_of(s.skip(k))[i - 1]));
            } else {
                assert(segments_of(s)[0] == s.take(k));
            }
        }
    }
}

/// The current-directory segment.
pub open spec fn dot() -> Seq<char> {
    seq!['.']
}

/// The parent-directory segment.
pub open spec fn dotdot() -> Seq<char> {
    seq!['.', '.']
}

/// Lexical normalisation of a segment list: `.` is dropped, `..` removes the
/// preceding segment where one exists, walks above the start of a relative
/// path, and is dropped at the root of an absolute one.
pub open spec fn normalize_segs(segs: Seq<Seq<char>>, absolute: bool) -> Seq<Seq<char>>
    decreases segs.len(),
{
    if segs.len() == 0 {
        Seq::empty()
    } else {
        let prev = normalize_segs(segs.drop_last(), absolute);
        let last = segs.last();
        if last == dot() {
            prev
        } else if last == dotdot() {
            if prev.len() > 0 && prev.last() != dotdot() {
                prev.drop_last()
            } else if absolute {
                prev
            } else {
                prev.push(dotdot())
            }
        } else {
            prev.push(last)
        }
    }
}


/// Lexical normalisation of a rooted path never keeps a parent reference:
/// a `..` that reaches the root is dropped. Whatever `..` chain a link
/// holds, the normalised absolute path cannot point above the filesystem
/// root, so confinement does not depend on following symlinks.
pub proof fn lemma_normalize_absolute_no_parent(segs: Seq<Seq<char>>)
    ensures
        forall|i: int|
            0 <= i < normalize_segs(segs, true).len() ==> (#[trigger] normalize_segs(
                segs,
                true,
            )[i]) != dotdot(),
    decreases segs.len(),
{
    if segs.len() == 0 {
    } else {
        lemma_normalize_absolute_no_parent(segs.drop_last());
        let prev = normalize_segs(segs.drop_last(), true);
        let now = normalize_segs(segs, true);
        let last = segs.last();
        assert forall|i: int| 0 <= i < now.len() implies (#[trigger] now[i]) != dotdot() by {
            if last == dot() {
                assert(now[i] == prev[i]);
            } else if last == dotdot() {
                if prev.len() > 0 && prev.last() != dotdot() {
                    assert(now[i] == prev.drop_last()[i]);
                    assert(prev.drop_last()[i] == prev[i]);
                } else {
                    assert(now[i] == prev[i]);
                }
            } else {
                if i < now.len() - 1 {
                    assert(now[i] == prev[i]);
                } else {
                    assert(now[i] == last);
                }
            }
        }
    }
}

/// The index of the last `.` in a segment, or -1 when it has none.
pub open spec fn last_dot(s: Seq<char>) -> int
    decreases s.len(),
{
    if s.len() == 0 {
        -1
    } else if s.last() == '.' {
        s.len() - 1
    } else {
        last_dot(s.drop_last())
    }
}

/// `last_dot` is pinned down by its defining property.
pub proof fn lemma_last_dot_eq(s: Seq<char>, m: int)
    requires
        -1 <= m < s.len(),
        m >= 0 ==> s[m] == '.',
        forall|t: int| m < t < s.len() ==> s[t] != '.',
    ensures
        last_dot(s) == m,
    decreases s.len(),
{
    if s.len() == 0 {
    } else if s.last() == '.' {
        assert(m == s.len() - 1);
    } else {
        lemma_last_dot_eq(s.drop_last(), m);
    }
}

/// The extension of a segment: what follows its last `.`, provided the stem
/// before it is non-empty; the parent segment `..` has none.
pub open spec fn ext_of(seg: Seq<char>) -> Option<Seq<char>> {
    if seg == dotdot() {
        None
    } else if last_dot(seg) >= 1 {
        Some(seg.skip(last_dot(seg) + 1))
    } else {
        None
    }
}

/// A segment with its extension replaced: the stem and dot are kept and the
/// new extension follows.
pub open spec fn with_ext_seg(seg: Seq<char>, ext: Seq<char>) -> Seq<char> {
    seg.take(last_dot(seg) + 1) + ext
}


/// The textual form of a segment list: segments joined by separators, with a
/// leading separator when the path is absolute.
pub open spec fn rendered(segs: Seq<Seq<char>>, absolute: bool) -> Seq<char>
    decreases segs.len(),
{
    if segs.len() == 0 {
        if absolute {
            seq!['/']
        } else {
            Seq::empty()
        }
    } else if segs.len() == 1 {
        if absolute {
            seq!['/'] + segs[0]
        } else {
            segs[0]
        }
    } else {
        rendered(segs.drop_last(), absolute) + seq!['/'] + segs.last()
    }
}

/// A filesystem path: a flag saying whether it is rooted, and its segments.
#[derive(Debug, Clone, PartialEq, Eq)]
pub struct FsPath {
    /// Does the path start at the filesystem root?
    pub absolute: bool,
    /// The path's segments, in order; `.` and `..` are ordinary segments.
    pub segments: Vec<String>,
}

impl FsPath {
    /// The segments, as sequences of characters.
    pub open spec fn segs(&self) -> Seq<Seq<char>> {
        self.segments.deep_view()
    }

    /// The path as a pair: its rootedness and its segments.
    pub open spec fn model(&self) -> (bool, Seq<Seq<char>>) {
        (self.absolute, self.segs())
    }

    /// Well-formed: every segment is non-empty and free of separators.
    pub open spec fn wf(&self) -> bool {
        forall|i: int| 0 <= i < self.segs().len() ==> seg_wf(#[trigger] self.segs()[i])
    }

    /// Parse a path string: a leading separator marks the path absolute, and
    /// the segments are the maximal runs of non-separator characters.
    pub fn from_str(s: &str) -> (r: FsPath)
        ensures
            r.absolute == (s@.len() > 0 && s@[0] == '/'),
            r.segs() == segments_of(s@),
            r.wf(),
    {
        let n = s.unicode_len();
        let absolute = n > 0 && s.get_char(0) == '/';
        let mut segments: Vec<String> = Vec::new();
        let mut i: usize = 0;
        proof {
            assert(s@.skip(0) =~= s@);
            assert(segments.deep_view() + segments_of(s@) =~= segments_of(s@));
        }
        while i < n
            invariant
                n == s@.len(),
                i <= n,
                segments.deep_view() + segments_of(s@.skip(i as int)) =~= segments_of(s@),
            decreases n - i,
        {
            if s.get_char(i) == '/' {
                proof {
                    assert(s@.skip(i as int).drop_first() =~= s@.skip(i as int + 1));
                }
                i = i + 1;
            } else {
                let ghost prev = segments.deep_view();
                let mut j: usize = i + 1;
                while j < n && s.get_char(j) != '/'
                    invariant
                        n == s@.len(),
                        i < j <= n,
                        forall|t: int| i <= t < j ==> s@[t] != '/',
                    decreases n - j,
                {
                    j = j + 1;
                }
                let seg = s.substring_char(i, j).to_owned();
                segments.push(seg);
                proof {
                    let t = s@.skip(i as int);
                    lemma_seg_len_at_eq(t, j - i);
                    assert(t.take(j - i) =~= s@.subrange(i as int, j as int));
                    assert(t.skip(j - i) =~= s@.skip(j as int));
                    assert(segments.deep_view() =~= prev.push(seg@));
                    assert(segments.deep_view() + segments_of(s@.skip(j as int)) =~= segments_of(s@));
                }
                i = j;
            }
        }
        proof {
            assert(segments.deep_view() =~= segments_of(s@));
            lemma_segments_of_wf(s@);
        }
        FsPath { absolute, segments }
    }

    /// Append a relative path's segments to this path's.
    pub fn join(&self, other: &FsPath) -> (r: FsPath)
        ensures
            r.absolute == self.absolute,
            r.segs() =~= self.segs() + other.segs(),
    {
        let mut segments = self.segments.clone();
        let ghost base = self.segs();
        proof {
            assert(segments@ =~= self.segments@);
            assert(segments.deep_view() =~= base);
        }
        let mut i: usize = 0;
        while i < other.segments.len()
            invariant
                i <= other.segments.len(),
                segments.deep_view() =~= base + other.segs().take(i as int),
            decreases other.segments.len() - i,
        {
            let ghost pre_dv = segments.deep_view();
            segments.push(other.segments[i].clone());
            proof {
                assert(segments@.len() == pre_dv.len() + 1);
                assert(segments@.last()@ == other.segs()[i as int]);
                assert(segments.deep_view() =~= pre_dv.push(other.segs()[i as int]));
                assert(pre_dv.push(other.segs()[i as int]) =~= base + other.segs().take(i as int + 1));
            }
            i = i + 1;
        }
        proof {
            assert(other.segs().take(other.segs().len() as int) =~= other.segs());
        }
        FsPath { absolute: self.absolute, segments }
    }

    /// The same path made relative: the rooted marker is stripped and the
    /// segments are kept.
    pub fn as_relative(&self) -> (r: FsPath)
        ensures
            !r.absolute,
            r.segs() =~= self.segs(),
    {
        let mut segments = self.segments.clone();
        proof {
            assert(segments@ =~= self.segments@);
            assert(segments.deep_view() =~= self.segs());
        }
        FsPath { absolute: false, segments }
    }

    /// The path with one segment appended.
    pub fn pushed(&self, seg: &String) -> (r: FsPath)
        ensures
            r.absolute == self.absolute,
            r.segs() =~= self.segs().push(seg@),
    {
        let mut segments = self.segments.clone();
        proof {
            assert(segments@ =~= self.segments@);
            assert(segments.deep_view() =~= self.segs());
        }
        segments.push(seg.clone());
        proof {
            assert(segments.deep_view() =~= self.segs().push(seg@));
        }
        FsPath { absolute: self.absolute, segments }
    }

    /// Collapse `.` and `..` segments lexically, without consulting the
    /// filesystem.
    pub fn normalize(&self) -> (r: FsPath)
        ensures
            r.absolute == self.absolute,
            r.segs() =~= normalize_segs(self.segs(), self.absolute),
    {
        let dot_s: String = ".".to_owned();
        let dotdot_s: String = "..".to_owned();
        proof {
            reveal_strlit(".");
            reveal_strlit("..");
            assert(dot_s@ =~= dot());
            assert(dotdot_s@ =~= dotdot());
        }
        let mut stack: Vec<String> = Vec::new();
        let mut i: usize = 0;
        proof {
            assert(self.segs().take(0) =~= Seq::<Seq<char>>::empty());
            assert(stack.deep_view() =~= normalize_segs(self.segs().take(0), self.absolute));
        }
        while i < self.segments.len()
            invariant
                i <= self.segments.len(),
                dot_s@ == dot(),
                dotdot_s@ == dotdot(),
                stack.deep_view() =~= normalize_segs(self.segs().take(i as int), self.absolute),
            decreases self.segments.len() - i,
        {
            let ghost pre = self.segs().take(i as int);
            proof {
                assert(self.segs().take(i as int + 1).drop_last() =~= pre);
                assert(self.segs().take(i as int + 1).last() == self.segs()[i as int]);
            }
            let seg = &self.segments[i];
            if *seg == dot_s {
                // dropped
            } else if *seg == dotdot_s {
                let len = stack.len();
                if len > 0 && !(stack[len - 1] == dotdot_s) {
                    stack.pop();
                    proof {
                        assert(stack.deep_view() =~= normalize_segs(pre, self.absolute).drop_last());
                    }
                } else if !self.absolute {
                    stack.push(dotdot_s.clone());
                    proof {
                        assert(stack.deep_view() =~= normalize_segs(pre, self.absolute).push(dotdot()));
                    }
                }
            } else {
                stack.push(seg.clone());
                proof {
                    assert(stack.deep_view() =~= normalize_segs(pre, self.absolute).push(self.segs()[i as int]));
                }
            }
            proof {
                assert(stack.deep_view() =~= normalize_segs(self.segs().take(i as int + 1), self.absolute));
            }
            i = i + 1;
        }
        proof {
            assert(self.segs().take(self.segs().len() as int) =~= self.segs());
        }
        FsPath { absolute: self.absolute, segments: stack }
    }

    /// Does `prefix` lead this path: same rootedness, and its segments are an
    /// initial run of this path's?
    pub open spec fn spec_starts_with(&self, prefix: FsPath) -> bool {
        self.absolute == prefix.absolute && prefix.segs().is_prefix_of(self.segs())
    }

    /// Whether this path starts with `prefix`.
    pub fn starts_with(&self, prefix: &FsPath) -> (r: bool)
        ensures
            r == self.spec_starts_with(*prefix),
    {
        if self.absolute != prefix.absolute {
            return false;
        }
        if prefix.segments.len() > self.segments.len() {
            return false;
        }
        let mut i: usize = 0;
        while i < prefix.segments.len()
            invariant
                i <= prefix.segments.len() <= self.segments.len(),
                forall|t: int| 0 <= t < i ==> prefix.segs()[t] == self.segs()[t],
            decreases prefix.segments.len() - i,
        {
            if !(*&prefix.segments[i] == *&self.segments[i]) {
                proof {
                    assert(prefix.segs()[i as int] != self.segs()[i as int]);
                    assert(self.segs().subrange(0, prefix.segs().len() as int)[i as int]
                        == self.segs()[i as int]);
                    assert(!prefix.segs().is_prefix_of(self.segs()));
                }
                return false;
            }
            i = i + 1;
        }
        proof {
            assert(prefix.segs() =~= self.segs().subrange(0, prefix.segs().len() as int));
        }
        true
    }

    /// The textual form of the path, with `/` as the separator.
    pub fn render(&self) -> (r: String)
        ensures
            r@ == rendered(self.segs(), self.absolute),
    {
        let mut out = String::new();
        if self.absolute {
            out.append("/");
            proof {
                reveal_strlit("/");
                assert(out@ =~= seq!['/']);
            }
        }
        let mut i: usize = 0;
        proof {
            assert(out@ =~= rendered(self.segs().take(0), self.absolute));
        }
        while i < self.segments.len()
            invariant
                i <= self.segments.len(),
                out@ =~= rendered(self.segs().take(i as int), self.absolute),
            decreases self.segments.len() - i,
        {
            proof {
                reveal_strlit("/");
                assert(self.segs().take(i as int + 1).drop_last() =~= self.segs().take(i as int));
                assert(self.segs().take(i as int + 1).last() == self.segs()[i as int]);
            }
            if i > 0 {
                out.append("/");
            }
            out.append(self.segments[i].as_str());
            proof {
                if i == 0 {
                    if self.absolute {
                        assert(out@ =~= seq!['/'] + self.segs()[0]);
                    } else {
                        assert(out@ =~= self.segs()[0]);
                    }
                }
                assert(out@ =~= rendered(self.segs().take(i as int + 1), self.absolute));
            }
            i = i + 1;
        }
        proof {
            assert(self.segs().take(self.segs().len() as int) =~= self.segs());
        }
        out
    }

    /// The extension of the path's last segment.
    pub open spec fn spec_extension(&self) -> Option<Seq<char>> {
        if self.segs().len() == 0 {
            None
        } else {
            ext_of(self.segs().last())
        }
    }

    /// The extension of the path's last segment, in lower case when it is
    /// ASCII to begin with.
    pub fn extension(&self) -> (r: Option<String>)
        ensures
            r.deep_view() == self.spec_extension(),
    {
        if self.segments.len() == 0 {
            return None;
        }
        let last = &self.segments[self.segments.len() - 1];
        let dotdot_s: String = "..".to_owned();
        proof {
            reveal_strlit("..");
            assert(dotdot_s@ =~= dotdot());
        }
        if *last == dotdot_s {
            return None;
        }
        let s = last.as_str();
        match seg_last_dot(s) {
            Some(j) => {
                if j >= 1 {
                    let n = s.unicode_len();
                    let e = s.substring_char(j + 1, n).to_owned();
                    proof {
                        assert(e@ =~= self.segs().last().skip(last_dot(self.segs().last()) + 1));
                    }
                    Some(e)
                } else {
                    None
                }
            },
            None => None,
        }
    }

    /// The path with the last segment's extension replaced.
    pub fn with_extension(&self, ext: &str) -> (r: FsPath)
        requires
            self.spec_extension() is Some,
        ensures
            r.absolute == self.absolute,
            r.segs() =~= self.segs().update(
                self.segs().len() - 1,
                with_ext_seg(self.segs().last(), ext@),
            ),
    {
        let idx = self.segments.len() - 1;
        let s = self.segments[idx].as_str();
        let n = s.unicode_len();
        let j = match seg_last_dot(s) {
            Some(j) => j,
            None => {
                proof {
                    assert(false);
                }
                0
            },
        };
        assert(j < n);
        let stem = s.substring_char(0, j + 1).to_owned();
        let new_last = stem.concat(ext);
        proof {
            assert(new_last@ =~= with_ext_seg(self.segs().last(), ext@));
        }
        let mut segments = self.segments.clone();
        proof {
            assert(segments@ =~= self.segments@);
            assert(segments.deep_view() =~= self.segs());
        }
        segments[idx] = new_last;
        proof {
            assert(segments.deep_view() =~= self.segs().update(
                self.segs().len() - 1,
                with_ext_seg(self.segs().last(), ext@),
            ));
        }
        FsPath { absolute: self.absolute, segments }
    }
}

/// The index of the last `.` in a segment, or `None` when it has none.
fn seg_last_dot(s: &str) -> (r: Option<usize>)
    ensures
        (match r {
            Some(j) => last_dot(s@) == j && j < s@.len(),
            None => last_dot(s@) == -1,
        }),
{
    let n = s.unicode_len();
    let mut j = n;
    while j > 0
        invariant
            j <= n,
            n == s@.len(),
            forall|t: int| j <= t < n ==> s@[t] != '.',
        decreases j,
    {
        if s.get_char(j - 1) == '.' {
            proof {
                lemma_last_dot_eq(s@, j - 1);
            }
            return Some(j - 1);
        }
        j = j - 1;
    }
    proof {
        lemma_last_dot_eq(s@, -1);
    }
    None
}

} // verus!
