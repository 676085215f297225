//! The short-lived cache of response lists that absorbs bursts of reads.

use crate::response::Res;
use crate::text::{decimal, push_decimal, push_str, string_of};
use vstd::hash_map::StringHashMap;
use vstd::prelude::*;

verus! {

/// The milliseconds for which a cached list is served.
pub const RESPONSES_CACHE_EXPIRE_TIME: u64 = 1000;

/// The milliseconds after which the whole cache is emptied.
pub const CLEAR_RESPONSES_CACHE_INTERVAL: u64 = 300_000;

/// The key under which the responses of a thread in a shard are cached.
pub open spec fn cache_key(board_id: usize, thread_id: Seq<char>, modulo: usize) -> Seq<char> {
    decimal(board_id as nat) + "/"@ + thread_id + "/"@ + decimal(modulo as nat)
}

/// Writes the key under which the responses of a thread are cached.
pub fn cache_key_of(board_id: usize, thread_id: &str, modulo: usize) -> (r: String)
    ensures
        r@ == cache_key(board_id, thread_id@, modulo),
{
    let mut out: Vec<char> = Vec::new();
    push_decimal(&mut out, board_id as u64);
    push_str(&mut out, "/");
    push_str(&mut out, thread_id);
    push_str(&mut out, "/");
    push_decimal(&mut out, modulo as u64);
    assert(out@ =~= cache_key(board_id, thread_id@, modulo));
    string_of(&out)
}

/// The cached response lists, each with the moment at which it was put.
pub struct ResponsesCache {
    entries: StringHashMap<(u64, Vec<Res>)>,
    last_refreshed: Option<u64>,
}

/// Whether a list put at `put_at` is still served at `now`.
pub open spec fn is_live(put_at: u64, now: u64) -> bool {
    now - put_at <= RESPONSES_CACHE_EXPIRE_TIME
}

/// Whether a put at `now` empties the cache first: five minutes have
/// passed since it was last emptied or first used.
pub open spec fn is_due(last_refreshed: Option<u64>, now: u64) -> bool {
    last_refreshed is Some && now - last_refreshed->0 > CLEAR_RESPONSES_CACHE_INTERVAL
}

impl ResponsesCache {
    /// The cached lists by their keys.
    pub closed spec fn entries(&self) -> Map<Seq<char>, (u64, Vec<Res>)> {
        self.entries@
    }

    /// The moment at which the cache was last emptied or first used.
    pub closed spec fn last_refreshed(&self) -> Option<u64> {
        self.last_refreshed
    }

    /// The list that is served for `key` at `now`, if one is.
    pub open spec fn served(&self, key: Seq<char>, now: u64) -> Option<Vec<Res>> {
        if self.entries().contains_key(key) && is_live(self.entries()[key].0, now) {
            Some(self.entries()[key].1)
        } else {
            None
        }
    }

    /// An empty cache.
    pub fn new() -> (r: Self)
        ensures
            r.entries() == Map::<Seq<char>, (u64, Vec<Res>)>::empty(),
            r.last_refreshed() is None,
    {
        ResponsesCache { entries: StringHashMap::new(), last_refreshed: None }
    }

    /// Caches the responses of a thread at `now` (in milliseconds), after
    /// emptying the cache where that is due.
    pub fn put_responses_cache(
        &mut self,
        board_id: usize,
        thread_id: &str,
        modulo: usize,
        responses: Vec<Res>,
        now: u64,
    )
        ensures
            final(self).entries() == (if is_due(old(self).last_refreshed(), now) {
                Map::<Seq<char>, (u64, Vec<Res>)>::empty()
            } else {
                old(self).entries()
            }).insert(cache_key(board_id, thread_id@, modulo), (now, responses)),
            final(self).last_refreshed() == if old(self).last_refreshed() is None || is_due(
                old(self).last_refreshed(),
                now,
            ) {
                Some(now)
            } else {
                old(self).last_refreshed()
            },
    {
        match self.last_refreshed {
            Some(last) => {
                if now > last && now - last > CLEAR_RESPONSES_CACHE_INTERVAL {
                    self.entries.clear();
                    self.last_refreshed = Some(now);
                }
            },
            None => {
                self.last_refreshed = Some(now);
            },
        }
        self.entries.insert(cache_key_of(board_id, thread_id, modulo), (now, responses));
    }

    /// The cached responses of a thread, where they are still served at
    /// `now` (in milliseconds).
    pub fn get_responses_cache(&self, board_id: usize, thread_id: &str, modulo: usize, now: u64) -> (r:
        Option<&Vec<Res>>)
        ensures
            match r {
                Some(rs) => self.served(cache_key(board_id, thread_id@, modulo), now) == Some(*rs),
                None => self.served(cache_key(board_id, thread_id@, modulo), now) is None,
            },
    {
        let key = cache_key_of(board_id, thread_id, modulo);
        match self.entries.get(key.as_str()) {
            Some(entry) => {
                if now > entry.0 && now - entry.0 > RESPONSES_CACHE_EXPIRE_TIME {
                    None
                } else {
                    Some(&entry.1)
                }
            },
            None => None,
        }
    }
}

/// A cached list is served for one second and no longer, whatever is
/// written meanwhile: right after a put at `put_at`, a read at `now` gets
/// the list that was put exactly where `now` is no more than a second
/// later.
pub proof fn lemma_cache_window(
    after: ResponsesCache,
    key: Seq<char>,
    responses: Vec<Res>,
    put_at: u64,
    now: u64,
)
    requires
        after.entries().contains_key(key),
        after.entries()[key] == (put_at, responses),
    ensures
        is_live(put_at, now) ==> after.served(key, now) == Some(responses),
        !is_live(put_at, now) ==> after.served(key, now) is None,
{
}

} // verus!
