//! A cache of recent network-probe outcomes, keyed by URL.

use vstd::prelude::*;

verus! {

/// A timestamped boolean used by the [`Cache`] to keep track of the last time
/// a web [`crate::Link`] was checked.
#[derive(Debug, Clone, Copy, PartialEq, Eq, Structural)]
pub struct CacheEntry {
    /// When the entry was recorded, in seconds since the epoch.
    pub timestamp: u64,
    /// Did we find a valid resource the last time this link was checked?
    pub valid: bool,
}

impl CacheEntry {
    /// Create a new [`CacheEntry`].
    pub fn new(timestamp: u64, valid: bool) -> (e: CacheEntry)
        ensures
            e.timestamp == timestamp,
            e.valid == valid,
    {
        CacheEntry { timestamp, valid }
    }

    /// Freshness: only a successful entry is fresh, and only while the time
    /// elapsed since it was recorded is below the timeout. An entry recorded
    /// in the future is never fresh.
    pub open spec fn spec_is_fresh(&self, timeout: u64, now: u64) -> bool {
        self.valid && self.timestamp <= now && now - self.timestamp < timeout
    }

    /// Whether this entry still vouches for its URL at time `now`.
    pub fn is_fresh(&self, timeout: u64, now: u64) -> (r: bool)
        ensures
            r == self.spec_is_fresh(timeout, now),
    {
        self.valid && self.timestamp <= now && now - self.timestamp < timeout
    }
}

/// The entry an association list holds for `key`, later entries shadowing
/// earlier ones.
pub open spec fn assoc(entries: Seq<(String, CacheEntry)>, key: Seq<char>) -> Option<CacheEntry>
    decreases entries.len(),
{
    if entries.len() == 0 {
        None
    } else if entries.last().0@ == key {
        Some(entries.last().1)
    } else {
        assoc(entries.drop_last(), key)
    }
}

/// A cache used to skip unnecessary network requests.
#[derive(Debug, Clone, PartialEq)]
pub struct Cache {
    /// One entry per URL.
    pub entries: Vec<(String, CacheEntry)>,
}

impl Cache {
    /// At most one entry per URL.
    pub open spec fn wf(&self) -> bool {
        forall|i: int, j: int|
            0 <= i < j < self.entries@.len() ==> self.entries@[i].0@ != self.entries@[j].0@
    }

    /// The entry recorded for `url`, if any.
    pub open spec fn spec_lookup(&self, url: Seq<char>) -> Option<CacheEntry> {
        assoc(self.entries@, url)
    }

    /// Create a new, empty [`Cache`].
    pub fn new() -> (c: Cache)
        ensures
            c.wf(),
            forall|u: Seq<char>| c.spec_lookup(u) is None,
            c.entries@.len() == 0,
    {
        Cache { entries: Vec::new() }
    }

    /// Lookup a particular [`CacheEntry`].
    pub fn lookup(&self, url: &str) -> (r: Option<CacheEntry>)
        ensures
            r == self.spec_lookup(url@),
    {
        let mut j = self.entries.len();
        proof {
            assert(self.entries@.take(j as int) =~= self.entries@);
        }
        while j > 0
            invariant
                j <= self.entries@.len(),
                assoc(self.entries@, url@) == assoc(self.entries@.take(j as int), url@),
            decreases j,
        {
            proof {
                assert(self.entries@.take(j as int).last() == self.entries@[j - 1]);
                assert(self.entries@.take(j as int).drop_last() =~= self.entries@.take(j - 1));
            }
            let url_s: String = url.to_owned();
            let pair = &self.entries[j - 1];
            if pair.0 == url_s {
                return Some(pair.1);
            }
            j = j - 1;
        }
        proof {
            assert(self.entries@.take(0) =~= Seq::<(String, CacheEntry)>::empty());
        }
        None
    }

    /// Add a new [`CacheEntry`] to the cache, replacing any prior entry for
    /// the same URL.
    pub fn insert(&mut self, url: String, entry: CacheEntry)
        ensures
            old(self).wf() ==> final(self).wf(),
            final(self).spec_lookup(url@) == Some(entry),
            forall|u: Seq<char>|
                u != url@ ==> final(self).spec_lookup(u) == old(self).spec_lookup(u),
    {
        let ghost orig = self.entries@;
        let mut j = self.entries.len();
        while j > 0
            invariant
                self.entries@ == orig,
                orig == old(self).entries@,
                j <= orig.len(),
                forall|t: int| j <= t < orig.len() ==> orig[t].0@ != url@,
            decreases j,
        {
            let matched = self.entries[j - 1].0 == url;
            if matched {
                let ghost gurl: Seq<char> = url@;
                let ghost gi: int = j - 1;
                self.entries.remove(j - 1);
                self.entries.push((url, entry));
                proof {
                    let removed = orig.remove(gi);
                    let e = self.entries@.last();
                    assert(e.0@ == gurl && e.1 == entry);
                    assert(self.entries@ =~= removed.push(e));
                    assert(orig == old(self).entries@);
                    assert(assoc(removed.push(e), gurl) == Some(entry));
                    assert(self.entries@ == removed.push(e));
                    assert forall|u: Seq<char>| u != gurl implies assoc(self.entries@, u) == assoc(
                        orig,
                        u,
                    ) by {
                        assert(removed.push(e).drop_last() =~= removed);
                        lemma_assoc_remove_other(orig, gi, u);
                    }
                    if old(self).wf() {
                        assert forall|a: int, b: int| 0 <= a < b < orig.len() implies orig[a].0@
                            != orig[b].0@ by {
                            assert(old(self).wf());
                        }
                        lemma_assoc_after_replace(orig, removed, gi, gurl, entry);
                        assert forall|a: int, b: int|
                            0 <= a < b < self.entries@.len() implies self.entries@[a].0@
                            != self.entries@[b].0@ by {
                            if b < self.entries@.len() - 1 {
                                assert(self.entries@[a] == removed[a] && self.entries@[b]
                                    == removed[b]);
                            } else {
                                assert(self.entries@[a] == removed[a]);
                            }
                        }
                    }
                }
                return;
            }
            j = j - 1;
        }
        self.entries.push((url, entry));
        proof {
            assert(self.entries@.drop_last() =~= orig);
        }
    }


    /// Absorb a list of entries, in order, as repeated [`Cache::insert`]s:
    /// a key keeps its last binding in the list, and keys the list does not
    /// mention keep whatever binding they had.
    pub fn extend(&mut self, entries: Vec<(String, CacheEntry)>)
        ensures
            old(self).wf() ==> final(self).wf(),
            forall|u: Seq<char>|
                final(self).spec_lookup(u) == (match assoc(entries@, u) {
                    Some(e) => Some(e),
                    None => old(self).spec_lookup(u),
                }),
    {
        let mut entries = entries;
        let ghost all = entries@;
        let ghost done: int = 0;
        proof {
            assert(entries@ =~= all.skip(0));
            assert(all.take(0) =~= Seq::<(String, CacheEntry)>::empty());
        }
        while entries.len() > 0
            invariant
                0 <= done <= all.len(),
                entries@ == all.skip(done),
                old(self).wf() ==> self.wf(),
                forall|u: Seq<char>|
                    self.spec_lookup(u) == (match assoc(all.take(done), u) {
                        Some(e) => Some(e),
                        None => old(self).spec_lookup(u),
                    }),
            decreases entries@.len(),
        {
            let (url, entry) = entries.remove(0);
            let ghost gurl: Seq<char> = url@;
            proof {
                assert((url, entry) == all[done]);
                assert(entries@ =~= all.skip(done + 1));
            }
            self.insert(url, entry);
            proof {
                assert(all.take(done + 1).last() == all[done]);
                assert(all.take(done + 1).drop_last() =~= all.take(done));
                done = done + 1;
            }
        }
        proof {
            assert(all.skip(done).len() == 0);
            assert(all.take(done) =~= all.take(all.len() as int));
            assert(all.take(all.len() as int) =~= all);
        }
    }

    /// Ask the [`Cache`] whether a particular URL is still okay at time
    /// `now`: an entry exists, it recorded a success, and it is younger than
    /// `timeout`.
    pub fn url_is_still_valid(&self, url: &str, timeout: u64, now: u64) -> (r: bool)
        ensures
            r == (match self.spec_lookup(url@) {
                Some(e) => e.spec_is_fresh(timeout, now),
                None => false,
            }),
    {
        match self.lookup(url) {
            Some(entry) => entry.is_fresh(timeout, now),
            None => false,
        }
    }

    /// All known entries, regardless of whether they are stale or invalid.
    pub fn iter(&self) -> (r: &Vec<(String, CacheEntry)>)
        ensures
            r@ == self.entries@,
    {
        &self.entries
    }

    /// Forget all entries.
    pub fn clear(&mut self)
        ensures
            final(self).wf(),
            forall|u: Seq<char>| final(self).spec_lookup(u) is None,
            final(self).entries@.len() == 0,
    {
        self.entries.clear();
    }
}

/// Replacing the unique entry for a key: removing it and pushing the new
/// binding leaves every other key's binding unchanged.
proof fn lemma_assoc_after_replace(
    orig: Seq<(String, CacheEntry)>,
    removed: Seq<(String, CacheEntry)>,
    i: int,
    key: Seq<char>,
    entry: CacheEntry,
)
    requires
        0 <= i < orig.len(),
        removed == orig.remove(i),
        orig[i].0@ == key,
        forall|a: int, b: int| 0 <= a < b < orig.len() ==> orig[a].0@ != orig[b].0@,
    ensures
        forall|u: Seq<char>, e: (String, CacheEntry)|
            e.0@ == key && e.1 == entry ==> (#[trigger] assoc(removed.push(e), u)) == (if u == key {
                Some(entry)
            } else {
                assoc(orig, u)
            }),
        forall|t: int| 0 <= t < removed.len() ==> removed[t].0@ != key,
        forall|a: int, b: int| 0 <= a < b < removed.len() ==> removed[a].0@ != removed[b].0@,
{
    assert forall|t: int| 0 <= t < removed.len() implies removed[t].0@ != key by {
        if t < i {
            assert(removed[t] == orig[t]);
        } else {
            assert(removed[t] == orig[t + 1]);
        }
    }
    assert forall|a: int, b: int| 0 <= a < b < removed.len() implies removed[a].0@
        != removed[b].0@ by {
        let oa = if a < i {
            a
        } else {
            a + 1
        };
        let ob = if b < i {
            b
        } else {
            b + 1
        };
        assert(removed[a] == orig[oa]);
        assert(removed[b] == orig[ob]);
    }
    assert forall|u: Seq<char>, e: (String, CacheEntry)|
        e.0@ == key && e.1 == entry implies (#[trigger] assoc(removed.push(e), u)) == (if u == key {
        Some(entry)
    } else {
        assoc(orig, u)
    }) by {
        assert(removed.push(e).last() == e);
        assert(removed.push(e).drop_last() =~= removed);
        if u == key {
        } else {
            lemma_assoc_skips_other(removed, u);
            lemma_assoc_remove_other(orig, i, u);
        }
    }
}

/// A key bound by no entry resolves to `None`.
proof fn lemma_assoc_skips_other(entries: Seq<(String, CacheEntry)>, u: Seq<char>)
    ensures
        (forall|t: int| 0 <= t < entries.len() ==> entries[t].0@ != u) ==> assoc(entries, u)
            is None,
    decreases entries.len(),
{
    if entries.len() > 0 {
        lemma_assoc_skips_other(entries.drop_last(), u);
    }
}

/// Removing an entry whose key differs from `u` leaves `u`'s binding alone.
proof fn lemma_assoc_remove_other(orig: Seq<(String, CacheEntry)>, i: int, u: Seq<char>)
    requires
        0 <= i < orig.len(),
        orig[i].0@ != u,
    ensures
        assoc(orig.remove(i), u) == assoc(orig, u),
    decreases orig.len(),
{
    let removed = orig.remove(i);
    if i == orig.len() - 1 {
        assert(removed =~= orig.drop_last());
    } else {
        assert(removed.last() == orig.last());
        assert(removed.drop_last() =~= orig.drop_last().remove(i));
        if removed.last().0@ == u {
        } else {
            lemma_assoc_remove_other(orig.drop_last(), i, u);
        }
    }
}

} // verus!
