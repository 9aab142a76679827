//! The response cache: one row per request key, holding the payload and the
//! second at which it was fetched. Staleness is decided on read, against the
//! time-to-live that the reader asks for.
use vstd::prelude::*;

use crate::text::str_eq;

verus! {

/// One stored response.
#[derive(Debug)]
pub struct Query {
    /// The request key: the full URL as sent.
    pub url: String,
    /// The response body, or a serialized artifact derived from it.
    pub result: String,
    /// Whole seconds since the Unix epoch at which the result was fetched.
    pub downloaded: u64,
}

/// What is stored for a key: the payload and the time it was fetched.
pub type Cached = (Seq<char>, u64);

/// The rows as a map from key to entry; a later row for a key replaces an
/// earlier one.
pub open spec fn rows_map(rows: Seq<Query>) -> Map<Seq<char>, Cached>
    decreases rows.len(),
{
    if rows.len() == 0 {
        Map::empty()
    } else {
        rows_map(rows.drop_last()).insert(
            rows.last().url@,
            (rows.last().result@, rows.last().downloaded),
        )
    }
}

/// No two rows share a key.
pub open spec fn unique_urls(rows: Seq<Query>) -> bool {
    forall|i: int, j: int| 0 <= i < j < rows.len() ==> rows[i].url@ != rows[j].url@
}

/// An entry fetched at `downloaded` is fresh at `now` under `ttl`: it is newer
/// than the cutoff `now - ttl`.
pub open spec fn is_fresh(downloaded: u64, now: u64, ttl: u64) -> bool {
    downloaded as int > now as int - ttl as int
}

/// The payload that a read of `url` at `now` under `ttl` is served from the
/// cache, if any.
pub open spec fn fresh_payload(
    m: Map<Seq<char>, Cached>,
    url: Seq<char>,
    ttl: u64,
    now: u64,
) -> Option<Seq<char>> {
    if m.contains_key(url) && is_fresh(m[url].1, now, ttl) {
        Some(m[url].0)
    } else {
        None
    }
}

proof fn lemma_rows_map_keys(rows: Seq<Query>, k: Seq<char>)
    ensures
        rows_map(rows).dom().finite(),
        rows_map(rows).contains_key(k) <==> exists|i: int|
            0 <= i < rows.len() && #[trigger] rows[i].url@ == k,
    decreases rows.len(),
{
    if rows.len() > 0 {
        let front = rows.drop_last();
        lemma_rows_map_keys(front, k);
        if rows_map(front).contains_key(k) {
            let i = choose|i: int| 0 <= i < front.len() && #[trigger] front[i].url@ == k;
            assert(rows[i].url@ == k);
        }
        if exists|i: int| 0 <= i < rows.len() && #[trigger] rows[i].url@ == k {
            let i = choose|i: int| 0 <= i < rows.len() && #[trigger] rows[i].url@ == k;
            if i < rows.len() - 1 {
                assert(front[i].url@ == k);
            }
        }
    }
}

proof fn lemma_rows_map_at(rows: Seq<Query>, i: int)
    requires
        unique_urls(rows),
        0 <= i < rows.len(),
    ensures
        rows_map(rows).contains_key(rows[i].url@),
        rows_map(rows)[rows[i].url@] == (rows[i].result@, rows[i].downloaded),
    decreases rows.len(),
{
    if i < rows.len() - 1 {
        let front = rows.drop_last();
        lemma_rows_map_at(front, i);
        assert(rows[i].url@ != rows.last().url@);
    }
}

proof fn lemma_rows_map_update(rows: Seq<Query>, i: int, q: Query)
    requires
        unique_urls(rows),
        0 <= i < rows.len(),
        q.url@ == rows[i].url@,
    ensures
        rows_map(rows.update(i, q)) == rows_map(rows).insert(q.url@, (q.result@, q.downloaded)),
    decreases rows.len(),
{
    let front = rows.drop_last();
    let after = rows.update(i, q);
    if i == rows.len() - 1 {
        assert(after.drop_last() =~= front);
        assert(rows_map(after) =~= rows_map(rows).insert(q.url@, (q.result@, q.downloaded)));
    } else {
        assert(after.drop_last() =~= front.update(i, q));
        lemma_rows_map_update(front, i, q);
        assert(rows[i].url@ != rows.last().url@);
        assert(rows_map(after) =~= rows_map(rows).insert(q.url@, (q.result@, q.downloaded)));
    }
}

proof fn lemma_rows_map_len(rows: Seq<Query>)
    requires
        unique_urls(rows),
    ensures
        rows_map(rows).len() == rows.len(),
    decreases rows.len(),
{
    if rows.len() > 0 {
        let front = rows.drop_last();
        lemma_rows_map_len(front);
        lemma_rows_map_keys(front, rows.last().url@);
        if rows_map(front).contains_key(rows.last().url@) {
            let i = choose|i: int| 0 <= i < front.len() && #[trigger] front[i].url@ == rows.last().url@;
            assert(rows[i].url@ == rows[rows.len() - 1].url@);
        }
    }
}

/// The cache store: a table of rows with at most one row per key.
pub struct Database {
    rows: Vec<Query>,
}

impl Database {
    /// The key-to-entry map that the table holds.
    pub closed spec fn view(&self) -> Map<Seq<char>, Cached> {
        rows_map(self.rows@)
    }

    /// The table holds at most one row per key.
    pub closed spec fn wf(&self) -> bool {
        unique_urls(self.rows@)
    }

    /// An empty store, held in memory.
    pub fn for_tests() -> (db: Database)
        ensures
            db.wf(),
            db@ == Map::<Seq<char>, Cached>::empty(),
    {
        Database { rows: Vec::new() }
    }

    /// A store holding the given rows; where two rows share a key, the later
    /// one is kept.
    pub fn from_rows(rows: Vec<Query>) -> (db: Database)
        ensures
            db.wf(),
            db@ == rows_map(rows@),
    {
        let mut db = Database::for_tests();
        let mut rest = rows;
        let ghost all = rest@;
        let ghost mut n: int = 0;
        while rest.len() > 0
            invariant
                db.wf(),
                0 <= n <= all.len(),
                rest@ =~= all.subrange(n, all.len() as int),
                db@ == rows_map(all.subrange(0, n)),
            decreases rest.len(),
        {
            let q = rest.remove(0);
            assert(q == all[n]);
            db.store(q.url.as_str(), q.result, q.downloaded);
            assert(all.subrange(0, n + 1).drop_last() =~= all.subrange(0, n));
            proof {
                n = n + 1;
            }
        }
        assert(all.subrange(0, n) =~= all);
        db
    }

    /// The number of rows, which is the number of keys.
    pub fn len(&self) -> (r: usize)
        requires
            self.wf(),
        ensures
            r == self@.len(),
    {
        proof {
            lemma_rows_map_len(self.rows@);
        }
        self.rows.len()
    }

    fn position(&self, url: &str) -> (r: Option<usize>)
        requires
            self.wf(),
        ensures
            match r {
                Some(i) => i < self.rows@.len() && self.rows@[i as int].url@ == url@,
                None => !self@.contains_key(url@),
            },
    {
        let mut i: usize = 0;
        while i < self.rows.len()
            invariant
                i <= self.rows@.len(),
                forall|j: int| 0 <= j < i ==> self.rows@[j].url@ != url@,
            decreases self.rows@.len() - i,
        {
            if str_eq(self.rows[i].url.as_str(), url) {
                return Some(i);
            }
            i = i + 1;
        }
        proof {
            lemma_rows_map_keys(self.rows@, url@);
        }
        None
    }

    /// The payload stored for `url`, if it is fresh at `now` under `ttl`.
    pub fn lookup(&self, url: &str, ttl: u64, now: u64) -> (r: Option<String>)
        requires
            self.wf(),
        ensures
            match r {
                Some(p) => fresh_payload(self@, url@, ttl, now) == Some(p@),
                None => fresh_payload(self@, url@, ttl, now) is None,
            },
    {
        match self.position(url) {
            None => None,
            Some(i) => {
                proof {
                    lemma_rows_map_at(self.rows@, i as int);
                }
                let row = &self.rows[i];
                if fresh(row.downloaded, now, ttl) {
                    Some(row.result.clone())
                } else {
                    None
                }
            },
        }
    }

    /// Writes `result` for `url`, fetched at `now`, replacing any earlier row
    /// for that key.
    pub fn store(&mut self, url: &str, result: String, now: u64)
        requires
            old(self).wf(),
        ensures
            final(self).wf(),
            final(self)@ == old(self)@.insert(url@, (result@, now)),
    {
        let q = Query { url: url.to_owned(), result, downloaded: now };
        match self.position(url) {
            Some(i) => {
                proof {
                    lemma_rows_map_update(self.rows@, i as int, q);
                }
                self.rows.set(i, q);
            },
            None => {
                proof {
                    lemma_rows_map_keys(self.rows@, url@);
                }
                self.rows.push(q);
                assert(self.rows@.drop_last() =~= old(self).rows@);
            },
        }
    }

    /// Serves `url` from the cache when its entry is fresh at `now` under
    /// `ttl`; otherwise runs `compute` and, when it succeeds, stores its
    /// result fetched at `now`. A failure of `compute` is returned as it is
    /// and leaves the store unchanged. On a fresh entry `compute` is never
    /// run, so it need not be callable there.
    pub fn get_or_put_at<E, F: FnOnce() -> Result<String, E>>(
        &mut self,
        url: &str,
        ttl: u64,
        now: u64,
        compute: F,
    ) -> (r: Result<String, E>)
        requires
            old(self).wf(),
            fresh_payload(old(self)@, url@, ttl, now) is None ==> compute.requires(()),
        ensures
            final(self).wf(),
            match fresh_payload(old(self)@, url@, ttl, now) {
                Some(p) => r matches Ok(v) && v@ == p && final(self)@ == old(self)@,
                None => {
                    &&& compute.ensures((), r)
                    &&& r matches Ok(v) ==> final(self)@ == old(self)@.insert(url@, (v@, now))
                    &&& r is Err ==> final(self)@ == old(self)@
                },
            },
    {
        match self.lookup(url, ttl, now) {
            Some(p) => Ok(p),
            None => {
                let r = compute();
                match r {
                    Ok(v) => {
                        self.store(url, v.clone(), now);
                        Ok(v)
                    },
                    Err(e) => Err(e),
                }
            },
        }
    }

    /// Like `get_or_put_at`, reading the clock: once for the freshness check,
    /// and once more after `compute` completes, for the time stored with its
    /// result.
    pub fn get_or_put<E, F: FnOnce() -> Result<String, E>>(
        &mut self,
        url: &str,
        ttl: u64,
        compute: F,
    ) -> (r: Result<String, E>)
        requires
            old(self).wf(),
            compute.requires(()),
        ensures
            final(self).wf(),
            match r {
                Ok(v) => (final(self)@ == old(self)@ && exists|t: u64|
                    #[trigger] fresh_payload(old(self)@, url@, ttl, t) == Some(v@)) || (compute.ensures(
                    (),
                    r,
                ) && exists|t: u64| final(self)@ == #[trigger] old(self)@.insert(url@, (v@, t))),
                Err(_) => compute.ensures((), r) && final(self)@ == old(self)@,
            },
    {
        let now = unix_now();
        match self.lookup(url, ttl, now) {
            Some(p) => Ok(p),
            None => {
                let r = compute();
                match r {
                    Ok(v) => {
                        let done = unix_now();
                        self.store(url, v.clone(), done);
                        Ok(v)
                    },
                    Err(e) => Err(e),
                }
            },
        }
    }
}

/// Freshness: an entry fetched at `t0` and read at `t1` with `t1 - t0 < ttl`
/// is served from the store, so the read does not run its compute step.
pub proof fn lemma_fresh_entry_served(
    m: Map<Seq<char>, Cached>,
    url: Seq<char>,
    payload: Seq<char>,
    t0: u64,
    t1: u64,
    ttl: u64,
)
    requires
        m.contains_key(url),
        m[url] == (payload, t0),
        t1 - t0 < ttl,
    ensures
        fresh_payload(m, url, ttl, t1) == Some(payload),
{
}

/// Staleness: an entry fetched at `t0` and read at `t1` with
/// `t1 - t0 >= ttl` is not served, so the read runs its compute step; once
/// that succeeds the entry holds the new payload, fetched at the time stored.
pub proof fn lemma_stale_entry_recomputed(
    m: Map<Seq<char>, Cached>,
    url: Seq<char>,
    t0: u64,
    t1: u64,
    ttl: u64,
    fresh_result: Seq<char>,
)
    requires
        m.contains_key(url),
        m[url].1 == t0,
        t1 - t0 >= ttl,
    ensures
        fresh_payload(m, url, ttl, t1) is None,
        m.insert(url, (fresh_result, t1))[url] == (fresh_result, t1),
{
}

/// Upsert: writing a key twice leaves one entry for it, holding the second
/// write, and as many keys as a single write of the second value would.
pub proof fn lemma_upsert_replaces(
    m: Map<Seq<char>, Cached>,
    url: Seq<char>,
    first: Cached,
    second: Cached,
)
    requires
        m.dom().finite(),
    ensures
        m.insert(url, first).insert(url, second) == m.insert(url, second),
        m.insert(url, first).insert(url, second).len() == m.insert(url, second).len(),
        m.insert(url, first).insert(url, second).len() == if m.contains_key(url) {
            m.len()
        } else {
            m.len() + 1
        },
{
    assert(m.insert(url, first).insert(url, second) =~= m.insert(url, second));
}

/// Miss then hit: a read of a key that an empty store lacks runs its compute
/// step; once the result is stored at `now`, a read of the same key with the
/// same positive time-to-live at `now` is served that result.
pub proof fn lemma_miss_then_hit(url: Seq<char>, ttl: u64, now: u64, payload: Seq<char>)
    requires
        ttl > 0,
    ensures
        fresh_payload(Map::<Seq<char>, Cached>::empty(), url, ttl, now) is None,
        fresh_payload(
            Map::<Seq<char>, Cached>::empty().insert(url, (payload, now)),
            url,
            ttl,
            now,
        ) == Some(payload),
{
}

/// A failed compute step is not cached: it leaves the store as it was, and
/// a key that was not served at `t1` is not served at any later `t2` either,
/// so the next read runs its compute step again.
pub proof fn lemma_failed_compute_not_cached(
    m: Map<Seq<char>, Cached>,
    url: Seq<char>,
    ttl: u64,
    t1: u64,
    t2: u64,
)
    requires
        fresh_payload(m, url, ttl, t1) is None,
        t1 <= t2,
    ensures
        fresh_payload(m, url, ttl, t2) is None,
{
}

/// Whether an entry fetched at `downloaded` is fresh at `now` under `ttl`.
pub fn fresh(downloaded: u64, now: u64, ttl: u64) -> (r: bool)
    ensures
        r == is_fresh(downloaded, now, ttl),
{
    downloaded as u128 + ttl as u128 > now as u128
}

#[verifier::external_type_specification]
#[verifier::external_body]
pub struct ExSystemTime(std::time::SystemTime);

/// Relies on std::time::SystemTime::now: the current wall-clock time.
#[verifier::external_body]
fn system_now() -> std::time::SystemTime {
    std::time::SystemTime::now()
}

/// Relies on std::time::SystemTime::duration_since with the Unix epoch: the
/// whole seconds elapsed since then, or `None` for a time before it.
#[verifier::external_body]
fn secs_since_epoch(t: std::time::SystemTime) -> Option<u64> {
    t.duration_since(std::time::UNIX_EPOCH).ok().map(|d| d.as_secs())
}

/// The current time in whole seconds since the Unix epoch; a clock set before
/// the epoch reads as the epoch itself.
pub fn unix_now() -> u64 {
    match secs_since_epoch(system_now()) {
        Some(s) => s,
        None => 0,
    }
}

} // verus!
