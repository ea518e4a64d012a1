//! A cache of fetched pages, keyed by address, with a time-based expiry.
//!
//! The cache is viewed as a map from address to `(content, timestamp)`;
//! timestamps are milliseconds of wall-clock time.  The clock itself is the
//! only unverified ingredient: the lookup and expiry logic is verified for
//! every clock reading in [`PageCache::get_at`], and [`PageCache::get`]
//! feeds it the current time.

use vstd::prelude::*;

verus! {

/// One cached page: its raw content and the moment it was stored,
/// in milliseconds since the Unix epoch.
#[derive(Debug, Clone)]
pub struct CachedPage {
    pub content: String,
    pub timestamp: u64,
}

/// An association list with pairwise distinct keys.
pub open spec fn distinct_keys<K, V>(s: Seq<(K, V)>) -> bool {
    forall|i: int, j: int|
        0 <= i < j < s.len() ==> (#[trigger] s[i]).0 != (#[trigger] s[j]).0
}

/// The map an association list denotes; later entries win, though with
/// distinct keys there is nothing to win.
pub open spec fn assoc_map<K, V>(s: Seq<(K, V)>) -> Map<K, V>
    decreases s.len(),
{
    if s.len() == 0 {
        Map::empty()
    } else {
        assoc_map(s.drop_last()).insert(s.last().0, s.last().1)
    }
}

pub proof fn lemma_assoc_contains<K, V>(s: Seq<(K, V)>, k: K)
    ensures
        assoc_map(s).contains_key(k) <==> exists|i: int|
            0 <= i < s.len() && (#[trigger] s[i]).0 == k,
    decreases s.len(),
{
    if s.len() == 0 {
    } else {
        lemma_assoc_contains(s.drop_last(), k);
        let n = s.len() as int;
        assert(forall|i: int| 0 <= i < n - 1 ==> #[trigger] s.drop_last()[i] == s[i]);
        if assoc_map(s).contains_key(k) {
            if k == s.last().0 {
                assert(s[n - 1].0 == k);
            } else {
                let i = choose|i: int| 0 <= i < s.drop_last().len() && (#[trigger] s.drop_last()[
                    i
                ]).0 == k;
                assert(s[i].0 == k);
            }
        }
        if exists|i: int| 0 <= i < s.len() && (#[trigger] s[i]).0 == k {
            let i = choose|i: int| 0 <= i < s.len() && (#[trigger] s[i]).0 == k;
            if i < n - 1 {
                assert(s.drop_last()[i].0 == k);
            }
        }
    }
}

pub proof fn lemma_assoc_get<K, V>(s: Seq<(K, V)>, i: int)
    requires
        distinct_keys(s),
        0 <= i < s.len(),
    ensures
        assoc_map(s).contains_key(s[i].0),
        assoc_map(s)[s[i].0] == s[i].1,
    decreases s.len(),
{
    let n = s.len() as int;
    if i == n - 1 {
    } else {
        assert(forall|m: int| 0 <= m < n - 1 ==> #[trigger] s.drop_last()[m] == s[m]);
        lemma_assoc_get(s.drop_last(), i);
        assert(s[i].0 != s[n - 1].0);
    }
}

pub proof fn lemma_assoc_remove<K, V>(s: Seq<(K, V)>, i: int)
    requires
        distinct_keys(s),
        0 <= i < s.len(),
    ensures
        distinct_keys(s.remove(i)),
        assoc_map(s.remove(i)) == assoc_map(s).remove(s[i].0),
    decreases s.len(),
{
    let n = s.len() as int;
    assert(forall|m: int| 0 <= m < n - 1 ==> #[trigger] s.drop_last()[m] == s[m]);
    assert forall|a: int, b: int| 0 <= a < b < s.remove(i).len() implies (#[trigger] s.remove(
        i,
    )[a]).0 != (#[trigger] s.remove(i)[b]).0 by {
        if a < i {
            assert(s.remove(i)[a] == s[a]);
        } else {
            assert(s.remove(i)[a] == s[a + 1]);
        }
        if b < i {
            assert(s.remove(i)[b] == s[b]);
        } else {
            assert(s.remove(i)[b] == s[b + 1]);
        }
    }
    if i == n - 1 {
        assert(s.remove(i) =~= s.drop_last());
        lemma_assoc_contains(s.drop_last(), s[i].0);
        assert(forall|m: int| 0 <= m < n - 1 ==> (#[trigger] s.drop_last()[m]).0 != s[i].0);
        assert(!assoc_map(s.drop_last()).contains_key(s[i].0));
        assert(assoc_map(s.drop_last()) =~= assoc_map(s).remove(s[i].0));
    } else {
        lemma_assoc_remove(s.drop_last(), i);
        assert(s.remove(i).drop_last() =~= s.drop_last().remove(i));
        assert(s.remove(i).last() == s.last());
        assert(s.remove(i).len() == n - 1);
        assert(assoc_map(s.remove(i)) == assoc_map(s.drop_last().remove(i)).insert(
            s.last().0,
            s.last().1,
        ));
        assert(s[i].0 != s.last().0);
        assert(assoc_map(s.drop_last()).remove(s[i].0).insert(s.last().0, s.last().1)
            =~= assoc_map(s.drop_last()).insert(s.last().0, s.last().1).remove(s[i].0));
    }
}

pub proof fn lemma_assoc_push<K, V>(s: Seq<(K, V)>, k: K, v: V)
    ensures
        assoc_map(s.push((k, v))) == assoc_map(s).insert(k, v),
{
    assert(s.push((k, v)).drop_last() =~= s);
    assert(s.push((k, v)).last() == (k, v));
}

/// The time-expiring page cache.
#[derive(Debug)]
pub struct PageCache {
    cache: Vec<(String, CachedPage)>,
    max_age: u64,
}

/// Relies on `std::time::SystemTime::now`: the current wall-clock time, as
/// whole milliseconds since the Unix epoch, saturated into `u64` (zero if
/// the clock reads before the epoch).  Nothing is assumed of the value.
#[verifier::external_body]
fn now_millis() -> u64 {
    match std::time::SystemTime::now().duration_since(std::time::UNIX_EPOCH) {
        Ok(d) => {
            let ms = d.as_millis();
            if ms > u64::MAX as u128 {
                u64::MAX
            } else {
                ms as u64
            }
        },
        Err(_) => 0,
    }
}

/// A duration in seconds as milliseconds, saturated into `u64`.
pub open spec fn millis_of_secs(secs: u64) -> u64 {
    if secs <= u64::MAX / 1000 {
        (secs * 1000) as u64
    } else {
        u64::MAX
    }
}

impl View for PageCache {
    type V = Map<Seq<char>, (Seq<char>, u64)>;

    /// The cache as a map: address to `(content, timestamp)`.
    closed spec fn view(&self) -> Map<Seq<char>, (Seq<char>, u64)> {
        assoc_map(self.entries())
    }
}

impl PageCache {
    pub closed spec fn entries(&self) -> Seq<(Seq<char>, (Seq<char>, u64))> {
        self.cache@.map_values(
            |p: (String, CachedPage)| (p.0@, (p.1.content@, p.1.timestamp)),
        )
    }

    /// Entries carry pairwise distinct addresses.
    pub closed spec fn wf(&self) -> bool {
        distinct_keys(self.entries())
    }

    /// The expiry age, in milliseconds.
    pub closed spec fn max_age_millis(&self) -> u64 {
        self.max_age
    }

    pub fn new(max_age_secs: u64) -> (r: Self)
        ensures
            r.wf(),
            r@ == Map::<Seq<char>, (Seq<char>, u64)>::empty(),
            r.max_age_millis() == millis_of_secs(max_age_secs),
    {
        let max_age = if max_age_secs <= u64::MAX / 1000 {
            max_age_secs * 1000
        } else {
            u64::MAX
        };
        let r = PageCache { cache: Vec::new(), max_age };
        proof {
            assert(r.entries() =~= Seq::<(Seq<char>, (Seq<char>, u64))>::empty());
        }
        r
    }

    /// The index of the entry for `url`, if any.
    fn find_index(&self, url: &str) -> (r: Option<usize>)
        ensures
            match r {
                Some(i) => i < self.entries().len() && self.entries()[i as int].0 == url@,
                None => forall|j: int|
                    0 <= j < self.entries().len() ==> (#[trigger] self.entries()[j]).0 != url@,
            },
    {
        let key = url.to_owned();
        let mut i: usize = 0;
        while i < self.cache.len()
            invariant
                i <= self.cache@.len(),
                key@ == url@,
                forall|j: int| 0 <= j < i ==> (#[trigger] self.entries()[j]).0 != url@,
            decreases self.cache@.len() - i,
        {
            if self.cache[i].0 == key {
                proof {
                    assert(self.entries()[i as int].0 == url@);
                }
                return Some(i);
            }
            proof {
                assert(self.entries()[i as int].0 == self.cache@[i as int].0@);
            }
            i = i + 1;
        }
        None
    }

    /// Look `url` up against the clock reading `now`: the content exactly
    /// when the entry exists and is younger than the expiry age.
    pub fn get_at(&self, url: &str, now: u64) -> (r: Option<String>)
        requires
            self.wf(),
        ensures
            match r {
                Some(c) => self@.contains_key(url@) && c@ == self@[url@].0 && now >= self@[url@].1
                    && now - self@[url@].1 < self.max_age_millis(),
                None => !self@.contains_key(url@) || now < self@[url@].1 || now - self@[url@].1
                    >= self.max_age_millis(),
            },
    {
        match self.find_index(url) {
            Some(i) => {
                proof {
                    lemma_assoc_get(self.entries(), i as int);
                }
                let entry = &self.cache[i];
                if now >= entry.1.timestamp && now - entry.1.timestamp < self.max_age {
                    Some(entry.1.content.clone())
                } else {
                    None
                }
            },
            None => {
                proof {
                    lemma_assoc_contains(self.entries(), url@);
                }
                None
            },
        }
    }

    /// Look `url` up at the current time.  Of the clock nothing is
    /// assumed, so the promise is what holds for every reading: a returned
    /// content is exactly the cached one, and an address that was never
    /// stored yields nothing.
    pub fn get(&self, url: &str) -> (r: Option<String>)
        requires
            self.wf(),
        ensures
            match r {
                Some(c) => self@.contains_key(url@) && c@ == self@[url@].0,
                None => true,
            },
            !self@.contains_key(url@) ==> r is None,
    {
        let now = now_millis();
        self.get_at(url, now)
    }

    /// Store `content` under `url` with the timestamp `now`, replacing any
    /// earlier entry.
    pub fn set_at(&mut self, url: String, content: String, now: u64)
        requires
            old(self).wf(),
        ensures
            final(self).wf(),
            final(self)@ == old(self)@.insert(url@, (content@, now)),
            final(self).max_age_millis() == old(self).max_age_millis(),
    {
        match self.find_index(url.as_str()) {
            Some(i) => {
                proof {
                    lemma_assoc_remove(self.entries(), i as int);
                }
                let ghost removed_key = self.entries()[i as int].0;
                let _ = self.cache.remove(i);
                proof {
                    assert(self.entries() =~= old(self).entries().remove(i as int));
                }
                let ghost mid = self.entries();
                self.cache.push((url, CachedPage { content, timestamp: now }));
                proof {
                    assert(self.entries() =~= mid.push((url@, (content@, now))));
                    lemma_assoc_push(mid, url@, (content@, now));
                    assert forall|a: int, b: int|
                        0 <= a < b < self.entries().len() implies (#[trigger] self.entries()[
                        a
                    ]).0 != (#[trigger] self.entries()[b]).0 by {
                        if b == self.entries().len() - 1 {
                            if mid[a].0 == url@ {
                                lemma_assoc_contains(mid, url@);
                                assert(assoc_map(mid).contains_key(url@));
                                assert(false);
                            }
                        }
                    }
                    assert(final(self)@ =~= old(self)@.insert(url@, (content@, now)));
                }
            },
            None => {
                let ghost mid = self.entries();
                self.cache.push((url, CachedPage { content, timestamp: now }));
                proof {
                    assert(self.entries() =~= mid.push((url@, (content@, now))));
                    lemma_assoc_push(mid, url@, (content@, now));
                    assert forall|a: int, b: int|
                        0 <= a < b < self.entries().len() implies (#[trigger] self.entries()[
                        a
                    ]).0 != (#[trigger] self.entries()[b]).0 by {
                        if b == self.entries().len() - 1 {
                            assert(mid[a].0 != url@);
                        }
                    }
                }
            },
        }
    }

    /// Store `content` under `url`, stamped with the current time.
    pub fn set(&mut self, url: String, content: String)
        requires
            old(self).wf(),
        ensures
            final(self).wf(),
            exists|t: u64| final(self)@ == old(self)@.insert(url@, (content@, t)),
            final(self).max_age_millis() == old(self).max_age_millis(),
    {
        let now = now_millis();
        let ghost u = url@;
        let ghost c = content@;
        self.set_at(url, content, now);
        proof {
            assert(final(self)@ == old(self)@.insert(u, (c, now)));
        }
    }

    /// Drop every entry.
    pub fn clear(&mut self)
        ensures
            final(self).wf(),
            final(self)@ == Map::<Seq<char>, (Seq<char>, u64)>::empty(),
            final(self).max_age_millis() == old(self).max_age_millis(),
    {
        self.cache.clear();
        proof {
            assert(self.entries() =~= Seq::<(Seq<char>, (Seq<char>, u64))>::empty());
        }
    }

    /// Drop the entry for `url`, if any.
    pub fn remove(&mut self, url: &str)
        requires
            old(self).wf(),
        ensures
            final(self).wf(),
            final(self)@ == old(self)@.remove(url@),
            final(self).max_age_millis() == old(self).max_age_millis(),
    {
        match self.find_index(url) {
            Some(i) => {
                proof {
                    lemma_assoc_remove(self.entries(), i as int);
                }
                let _ = self.cache.remove(i);
                proof {
                    assert(self.entries() =~= old(self).entries().remove(i as int));
                }
            },
            None => {
                proof {
                    lemma_assoc_contains(self.entries(), url@);
                    assert(!self@.contains_key(url@));
                    assert(self@ =~= self@.remove(url@));
                }
            },
        }
    }
}

} // verus!
