//! The progression claim that a client carries in its `tinker-token`.

use vstd::prelude::*;

verus! {

/// What a tinker token claims of its bearer.
#[derive(Debug, Clone)]
pub struct Tinker {
    pub authed_token: String,
    pub wrote_count: u32,
    pub created_thread_count: u32,
    pub level: u32,
    pub last_level_up_at: u64,
    pub last_wrote_at: u64,
}

/// The highest level.
pub const MAX_LEVEL: u32 = 20;

/// The seconds that must pass after one level before the next.
pub const LEVEL_UP_SPAN: u64 = 82_800;

/// The seconds after a write within which the next one is refused.
pub const WRITE_SPAN: u64 = 5;

/// The counters of a tinker, without the token it belongs to.
pub struct TinkerCounts {
    pub wrote_count: u32,
    pub created_thread_count: u32,
    pub level: u32,
    pub last_level_up_at: u64,
    pub last_wrote_at: u64,
}

/// One more than `n`, unless `n` is the largest number there is.
pub open spec fn bumped(n: u32) -> u32 {
    if n < u32::MAX {
        (n + 1) as u32
    } else {
        n
    }
}

/// Whether a write at `now` comes too soon after the last one.
pub open spec fn too_soon(last_wrote_at: u64, now: u64) -> bool {
    now - last_wrote_at <= WRITE_SPAN
}

/// The counters after an accepted write at `now`: one more write, one more
/// thread where a thread was made, and one more level where the last one
/// is more than twenty-three hours old and the highest is not yet reached.
pub open spec fn after_write(t: TinkerCounts, now: u64, is_thread: bool) -> TinkerCounts {
    let level_up = t.last_level_up_at + LEVEL_UP_SPAN < now && t.level < MAX_LEVEL;
    TinkerCounts {
        wrote_count: bumped(t.wrote_count),
        created_thread_count: if is_thread {
            bumped(t.created_thread_count)
        } else {
            t.created_thread_count
        },
        level: if level_up {
            (t.level + 1) as u32
        } else {
            t.level
        },
        last_level_up_at: if level_up {
            now
        } else {
            t.last_level_up_at
        },
        last_wrote_at: now,
    }
}

impl Tinker {
    /// The counters of this tinker.
    pub open spec fn counts(&self) -> TinkerCounts {
        TinkerCounts {
            wrote_count: self.wrote_count,
            created_thread_count: self.created_thread_count,
            level: self.level,
            last_level_up_at: self.last_level_up_at,
            last_wrote_at: self.last_wrote_at,
        }
    }

    /// A fresh tinker for the bearer of `authed_token`.
    pub fn new(authed_token: String) -> (r: Self)
        ensures
            r.authed_token == authed_token,
            r.wrote_count == 0,
            r.created_thread_count == 0,
            r.level == 0,
            r.last_level_up_at == 0,
            r.last_wrote_at == 0,
    {
        Self {
            authed_token,
            wrote_count: 0,
            created_thread_count: 0,
            level: 0,
            last_level_up_at: 0,
            last_wrote_at: 0,
        }
    }

    /// Records a write at `now`. A write that comes within five seconds of
    /// the last one, or before it, is refused and leaves the tinker as it
    /// was; the result says whether the write was accepted.
    pub fn record_write(&mut self, now: u64, is_thread: bool) -> (accepted: bool)
        ensures
            accepted == !too_soon(old(self).last_wrote_at, now),
            final(self).authed_token == old(self).authed_token,
            accepted ==> final(self).counts() == after_write(old(self).counts(), now, is_thread),
            !accepted ==> final(self).counts() == old(self).counts(),
    {
        if now <= self.last_wrote_at || now - self.last_wrote_at <= WRITE_SPAN {
            return false;
        }
        if self.wrote_count < u32::MAX {
            self.wrote_count += 1;
        }
        self.last_wrote_at = now;
        if is_thread && self.created_thread_count < u32::MAX {
            self.created_thread_count += 1;
        }
        if self.last_level_up_at <= u64::MAX - LEVEL_UP_SPAN && self.last_level_up_at
            + LEVEL_UP_SPAN < now && self.level < MAX_LEVEL {
            self.level += 1;
            self.last_level_up_at = now;
        }
        true
    }
}

} // verus!
