//! The rate-limit cache: when each address and each token last wrote, and
//! how often each address has asked for a token.

use vstd::hash_map::StringHashMap;
use vstd::prelude::*;

verus! {

/// The milliseconds within which a second write from the same key is
/// refused.
pub const WRITE_SPAN_MILLIS: u64 = 5000;

/// The number of token requests from one address from which on no further
/// token is issued.
pub const N_MAX_RECENT_AUTH_PER_IP: u32 = 3;

/// The rate-limit state of the process.
pub struct RateLimits {
    last_by_ip: StringHashMap<u64>,
    last_by_cookie: StringHashMap<u64>,
    recent_auth_by_ip: StringHashMap<u32>,
}

/// The mathematical value of [`RateLimits`]: three maps, the first two to
/// moments in milliseconds.
pub struct RateLimitsView {
    pub last_by_ip: Map<Seq<char>, u64>,
    pub last_by_cookie: Map<Seq<char>, u64>,
    pub recent_auth_by_ip: Map<Seq<char>, u32>,
}

/// Whether a write at `now` under `key` comes too soon: an earlier write is
/// on record and fewer than five seconds lie between the two.
pub open spec fn too_fast(seen: Map<Seq<char>, u64>, key: Seq<char>, now: u64) -> bool {
    seen.contains_key(key) && now - seen[key] < WRITE_SPAN_MILLIS
}

/// The number by which an address is known after one more token request:
/// zero for the first, one more for each further one.
pub open spec fn next_auth_count(counts: Map<Seq<char>, u32>, ip: Seq<char>) -> u32 {
    if counts.contains_key(ip) {
        if counts[ip] < u32::MAX {
            (counts[ip] + 1) as u32
        } else {
            counts[ip]
        }
    } else {
        0
    }
}

impl View for RateLimits {
    type V = RateLimitsView;

    closed spec fn view(&self) -> RateLimitsView {
        RateLimitsView {
            last_by_ip: self.last_by_ip@,
            last_by_cookie: self.last_by_cookie@,
            recent_auth_by_ip: self.recent_auth_by_ip@,
        }
    }
}

/// Reads and overwrites the moment on record for `key`.
fn reject_common(seen: &mut StringHashMap<u64>, key: &str, now: u64) -> (r: bool)
    ensures
        r == too_fast(old(seen)@, key@, now),
        final(seen)@ == old(seen)@.insert(key@, now),
{
    let r = match seen.get(key) {
        Some(prev) => now < *prev || now - *prev < WRITE_SPAN_MILLIS,
        None => false,
    };
    seen.insert(key.to_owned(), now);
    r
}

impl RateLimits {
    /// A cache with nothing on record.
    pub fn new() -> (r: Self)
        ensures
            r@.last_by_ip == Map::<Seq<char>, u64>::empty(),
            r@.last_by_cookie == Map::<Seq<char>, u64>::empty(),
            r@.recent_auth_by_ip == Map::<Seq<char>, u32>::empty(),
    {
        RateLimits {
            last_by_ip: StringHashMap::new(),
            last_by_cookie: StringHashMap::new(),
            recent_auth_by_ip: StringHashMap::new(),
        }
    }

    /// Records a write from the address `ip` at `now` (in milliseconds) and
    /// says whether it comes too soon after the last one.
    pub fn maybe_reject_ip(&mut self, ip: &str, now: u64) -> (r: bool)
        ensures
            r == too_fast(old(self)@.last_by_ip, ip@, now),
            final(self)@.last_by_ip == old(self)@.last_by_ip.insert(ip@, now),
            final(self)@.last_by_cookie == old(self)@.last_by_cookie,
            final(self)@.recent_auth_by_ip == old(self)@.recent_auth_by_ip,
    {
        reject_common(&mut self.last_by_ip, ip, now)
    }

    /// Records a write under the token `cookie` at `now` (in milliseconds)
    /// and says whether it comes too soon after the last one.
    pub fn maybe_reject_cookie(&mut self, cookie: &str, now: u64) -> (r: bool)
        ensures
            r == too_fast(old(self)@.last_by_cookie, cookie@, now),
            final(self)@.last_by_cookie == old(self)@.last_by_cookie.insert(cookie@, now),
            final(self)@.last_by_ip == old(self)@.last_by_ip,
            final(self)@.recent_auth_by_ip == old(self)@.recent_auth_by_ip,
    {
        reject_common(&mut self.last_by_cookie, cookie, now)
    }

    /// Counts one more token request from the address `ip` and gives the
    /// number by which the address is now known.
    pub fn n_recent_auth(&mut self, ip: &str) -> (n: u32)
        ensures
            n == next_auth_count(old(self)@.recent_auth_by_ip, ip@),
            final(self)@.recent_auth_by_ip == old(self)@.recent_auth_by_ip.insert(ip@, n),
            final(self)@.last_by_ip == old(self)@.last_by_ip,
            final(self)@.last_by_cookie == old(self)@.last_by_cookie,
    {
        let n: u32 = match self.recent_auth_by_ip.get(ip) {
            Some(prev) => if *prev < u32::MAX {
                *prev + 1
            } else {
                *prev
            },
            None => 0,
        };
        self.recent_auth_by_ip.insert(ip.to_owned(), n);
        n
    }
}

/// Two writes under one key that are both let through lie five seconds or
/// more apart: after a write at `first`, a write at `second` is refused
/// unless `second` is at least five seconds later.
pub proof fn lemma_accepted_writes_apart(
    seen: Map<Seq<char>, u64>,
    key: Seq<char>,
    first: u64,
    second: u64,
)
    requires
        !too_fast(seen.insert(key, first), key, second),
    ensures
        second - first >= WRITE_SPAN_MILLIS,
{
}

/// The count of token requests never goes down.
pub proof fn lemma_auth_count_monotone(counts: Map<Seq<char>, u32>, ip: Seq<char>)
    requires
        counts.contains_key(ip),
    ensures
        next_auth_count(counts, ip) >= counts[ip],
{
}

} // verus!
