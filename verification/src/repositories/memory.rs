//! A store that lives in memory and keeps the rules of the durable one:
//! the operations of the repository on plain vectors.

use crate::authed_cookie::AuthedCookie;
use crate::board::Board;
use crate::cap::Cap;
use crate::repositories::bbs_repository::{
    count_reply, first_response_of, first_response_row, get_responses_db, new_thread_row, reply_of,
    reply_row, shard_index, thread_after_reply, thread_row, CreatingAuthedToken, CreatingRes,
    CreatingThread, ThreadStatus,
};
use crate::response::Res;
use crate::routes::bbs_cgi::{gap, lemma_least_gap, recent_span, MIN_RES_SPAN, RECENT_RES_SECONDS};
use crate::routes::post_router::ThreadInsert;
use crate::text::{chars_of, same_text};
use crate::thread::Thread;
use vstd::prelude::*;

verus! {

/// The index of the first of the first `n` rows that `p` holds of.
pub open spec fn first_where<T>(rows: Seq<T>, p: spec_fn(T) -> bool, n: int) -> Option<int>
    decreases n,
{
    if n <= 0 {
        None
    } else {
        match first_where(rows, p, n - 1) {
            Some(i) => Some(i),
            None => if p(rows[n - 1]) {
                Some(n - 1)
            } else {
                None
            },
        }
    }
}

/// The first row that `p` holds of.
pub open spec fn first_row<T>(rows: Seq<T>, p: spec_fn(T) -> bool) -> Option<T> {
    match first_where(rows, p, rows.len() as int) {
        Some(i) => Some(rows[i]),
        None => None,
    }
}

/// A row found among the first `n` is the one found among the first `m`.
pub proof fn lemma_first_where_stays<T>(rows: Seq<T>, p: spec_fn(T) -> bool, n: int, m: int)
    requires
        0 <= n <= m,
        first_where(rows, p, n) is Some,
    ensures
        first_where(rows, p, m) == first_where(rows, p, n),
    decreases m - n,
{
    if n < m {
        lemma_first_where_stays(rows, p, n, m - 1);
    }
}

/// Where no row is found, `p` holds of none; a found row is one of which
/// `p` holds.
pub proof fn lemma_first_where_sound<T>(rows: Seq<T>, p: spec_fn(T) -> bool, n: int)
    requires
        0 <= n <= rows.len(),
    ensures
        match first_where(rows, p, n) {
            Some(i) => 0 <= i < n && p(rows[i]),
            None => forall|k: int| 0 <= k < n ==> !p(#[trigger] rows[k]),
        },
    decreases n,
{
    if n > 0 {
        lemma_first_where_sound(rows, p, n - 1);
    }
}

/// A response with the board and the shard that it is stored under.
pub struct StoredRes {
    pub board_id: usize,
    pub shard: usize,
    pub res: Res,
}

/// The store.
pub struct MemoryStore {
    pub boards: Vec<Board>,
    pub threads: Vec<Thread>,
    pub responses: Vec<StoredRes>,
    pub cookies: Vec<AuthedCookie>,
    pub caps: Vec<Cap>,
    /// The number of response shards.
    pub shards: usize,
}

/// The rows that are the thread `number` of the board `board_id`.
pub open spec fn thread_is(board_id: usize, number: Seq<char>) -> spec_fn(Thread) -> bool {
    |t: Thread| t.board_id == board_id && t.thread_number@ == number
}

/// The rows that carry the token `token`.
pub open spec fn token_is(token: Seq<char>) -> spec_fn(AuthedCookie) -> bool {
    |c: AuthedCookie| c.cookie@ == token
}

/// The rows that were issued to `ip` with the code `auth_code`.
pub open spec fn code_is(ip: Seq<char>, auth_code: Seq<char>) -> spec_fn(AuthedCookie) -> bool {
    |c: AuthedCookie| c.origin_ip@ == ip && c.auth_code@ == auth_code
}

/// The caps with the password hash `hash`.
pub open spec fn hash_is(hash: Seq<char>) -> spec_fn(Cap) -> bool {
    |c: Cap| c.cap_password_hash@ == hash
}

/// The boards with the id `id`.
pub open spec fn board_is(id: usize) -> spec_fn(Board) -> bool {
    |b: Board| b.id == id
}

/// Whether a stored response belongs to a thread of a board in a shard.
pub open spec fn res_is(r: StoredRes, board_id: usize, thread_id: Seq<char>, shard: usize) -> bool {
    r.board_id == board_id && r.shard == shard && r.res.thread_id@ == thread_id
}

/// The responses of a thread among the first `n` rows, in their order.
pub open spec fn responses_of(
    rows: Seq<StoredRes>,
    board_id: usize,
    thread_id: Seq<char>,
    shard: usize,
    n: int,
) -> Seq<Res>
    decreases n,
{
    if n <= 0 {
        Seq::<Res>::empty()
    } else if res_is(rows[n - 1], board_id, thread_id, shard) {
        responses_of(rows, board_id, thread_id, shard, n - 1).push(rows[n - 1].res)
    } else {
        responses_of(rows, board_id, thread_id, shard, n - 1)
    }
}

/// Whether a response was written under `token` after `since`, or under
/// `token` at all where `since` is none.
pub open spec fn is_recent(r: StoredRes, token: Seq<char>, since: Option<u64>) -> bool {
    r.res.authed_token is Some && r.res.authed_token->0@ == token && (since is None
        || r.res.timestamp > since->0)
}

/// The moments of the recent responses of a token among the first `n`
/// rows, in their order.
pub open spec fn moments_of(rows: Seq<StoredRes>, token: Seq<char>, since: Option<u64>, n: int) -> Seq<
    u64,
>
    decreases n,
{
    if n <= 0 {
        Seq::<u64>::empty()
    } else if is_recent(rows[n - 1], token, since) {
        moments_of(rows, token, since, n - 1).push(rows[n - 1].res.timestamp)
    } else {
        moments_of(rows, token, since, n - 1)
    }
}

/// The threads of a board with a status among the first `n` rows, in
/// their order.
pub open spec fn threads_of(rows: Seq<Thread>, board_id: usize, status: ThreadStatus, n: int) -> Seq<
    Thread,
>
    decreases n,
{
    if n <= 0 {
        Seq::<Thread>::empty()
    } else if rows[n - 1].board_id == board_id && status.admits(
        rows[n - 1].active,
        rows[n - 1].archived,
    ) {
        threads_of(rows, board_id, status, n - 1).push(rows[n - 1])
    } else {
        threads_of(rows, board_id, status, n - 1)
    }
}

/// Whether a thread has a response among the rows: one of its board, in
/// its shard, under its number.
pub open spec fn has_response(rows: Seq<StoredRes>, t: Thread) -> bool {
    exists|k: int|
        0 <= k < rows.len() && res_is(
            #[trigger] rows[k],
            t.board_id as usize,
            t.thread_number@,
            t.modulo as usize,
        )
}

/// A thread that has a response keeps it when a row is added.
pub proof fn lemma_has_response_grows(rows: Seq<StoredRes>, t: Thread, row: StoredRes)
    requires
        has_response(rows, t),
    ensures
        has_response(rows.push(row), t),
{
    let k = choose|k: int|
        0 <= k < rows.len() && res_is(
            #[trigger] rows[k],
            t.board_id as usize,
            t.thread_number@,
            t.modulo as usize,
        );
    assert(rows.push(row)[k] == rows[k]);
}

/// Whether the text `a` is the text `b`.
fn eq_text(a: &str, b: &str) -> (r: bool)
    ensures
        r == (a@ == b@),
{
    let x = chars_of(a);
    let y = chars_of(b);
    same_text(&x, &y)
}

impl MemoryStore {
    /// Whether the store keeps its rules: it has a shard; every thread has
    /// at least one response on its count, lies in a shard that there is,
    /// and has a response in that shard; and no two threads of a board
    /// share a number.
    pub open spec fn wf(&self) -> bool {
        &&& 1 <= self.shards <= u32::MAX
        &&& forall|i: int|
            0 <= i < self.threads@.len() ==> has_response(
                self.responses@,
                #[trigger] self.threads@[i],
            )
        &&& forall|i: int|
            0 <= i < self.threads@.len() ==> (#[trigger] self.threads@[i]).response_count >= 1
        &&& forall|i: int|
            0 <= i < self.threads@.len() ==> (#[trigger] self.threads@[i]).modulo < self.shards
        &&& forall|i: int, j: int|
            0 <= i < j < self.threads@.len() ==> !((#[trigger] self.threads@[i]).board_id == (
            #[trigger] self.threads@[j]).board_id && self.threads@[i].thread_number@
                == self.threads@[j].thread_number@)
    }

    /// An empty store with `shards` response shards.
    pub fn new(shards: usize) -> (r: Self)
        requires
            1 <= shards <= u32::MAX,
        ensures
            r.wf(),
            r.shards == shards,
            r.threads@.len() == 0,
            r.responses@.len() == 0,
            r.cookies@.len() == 0,
            r.caps@.len() == 0,
            r.boards@.len() == 0,
    {
        MemoryStore {
            boards: Vec::new(),
            threads: Vec::new(),
            responses: Vec::new(),
            cookies: Vec::new(),
            caps: Vec::new(),
            shards,
        }
    }

    /// The board with this id.
    pub fn get_board_info(&self, board_id: usize) -> (r: Option<Board>)
        ensures
            r == first_row(self.boards@, board_is(board_id)),
    {
        let mut i: usize = 0;
        while i < self.boards.len()
            invariant
                i <= self.boards.len(),
                first_where(self.boards@, board_is(board_id), i as int) is None,
            decreases self.boards.len() - i,
        {
            if self.boards[i].id == board_id {
                proof {
                    lemma_first_where_stays(
                        self.boards@,
                        board_is(board_id),
                        i + 1,
                        self.boards@.len() as int,
                    );
                }
                return Some(self.boards[i].copy());
            }
            i += 1;
        }
        None
    }

    /// The index of the thread `thread_id` of the board `board_id`.
    fn find_thread(&self, board_id: usize, thread_id: &str) -> (r: Option<usize>)
        ensures
            match r {
                Some(i) => first_where(
                    self.threads@,
                    thread_is(board_id, thread_id@),
                    self.threads@.len() as int,
                ) == Some(i as int) && i < self.threads@.len(),
                None => first_where(
                    self.threads@,
                    thread_is(board_id, thread_id@),
                    self.threads@.len() as int,
                ) is None,
            },
    {
        let mut i: usize = 0;
        while i < self.threads.len()
            invariant
                i <= self.threads.len(),
                first_where(self.threads@, thread_is(board_id, thread_id@), i as int) is None,
            decreases self.threads.len() - i,
        {
            if self.threads[i].board_id as usize == board_id && eq_text(
                self.threads[i].thread_number.as_str(),
                thread_id,
            ) {
                proof {
                    lemma_first_where_stays(
                        self.threads@,
                        thread_is(board_id, thread_id@),
                        i + 1,
                        self.threads@.len() as int,
                    );
                }
                return Some(i);
            }
            i += 1;
        }
        None
    }

    /// The thread `thread_id` of the board `board_id`.
    pub fn get_thread(&self, board_id: usize, thread_id: &str) -> (r: Option<Thread>)
        ensures
            r == first_row(self.threads@, thread_is(board_id, thread_id@)),
    {
        match self.find_thread(board_id, thread_id) {
            Some(i) => Some(self.threads[i].copy()),
            None => None,
        }
    }

    /// The threads of a board with a status, in the order in which they
    /// were made.
    pub fn get_threads(&self, board_id: usize, status: ThreadStatus) -> (r: Vec<Thread>)
        ensures
            r@ == threads_of(self.threads@, board_id, status, self.threads@.len() as int),
    {
        let mut out: Vec<Thread> = Vec::new();
        let mut i: usize = 0;
        while i < self.threads.len()
            invariant
                i <= self.threads.len(),
                out@ == threads_of(self.threads@, board_id, status, i as int),
            decreases self.threads.len() - i,
        {
            let t = &self.threads[i];
            if t.board_id as usize == board_id && status.matches(t.active, t.archived) {
                out.push(t.copy());
            }
            i += 1;
        }
        out
    }

    /// The responses of a thread in the shard that `modulo` names, in the
    /// order in which they were written.
    pub fn get_responses(&self, board_id: usize, thread_id: &str, modulo: usize) -> (r: Vec<Res>)
        ensures
            r@ == responses_of(
                self.responses@,
                board_id,
                thread_id@,
                shard_index(modulo, self.shards),
                self.responses@.len() as int,
            ),
    {
        let shard = get_responses_db(modulo, self.shards);
        let mut out: Vec<Res> = Vec::new();
        let mut i: usize = 0;
        while i < self.responses.len()
            invariant
                i <= self.responses.len(),
                out@ == responses_of(self.responses@, board_id, thread_id@, shard, i as int),
            decreases self.responses.len() - i,
        {
            let row = &self.responses[i];
            if row.board_id == board_id && row.shard == shard && eq_text(
                row.res.thread_id.as_str(),
                thread_id,
            ) {
                out.push(row.res.copy());
            }
            i += 1;
        }
        out
    }

    /// The moments of the responses written under a token after `since`,
    /// from every shard.
    pub fn get_responses_by_authed_token_and_timestamp(&self, token: &str, since: Option<u64>) -> (r:
        Vec<u64>)
        ensures
            r@ == moments_of(self.responses@, token@, since, self.responses@.len() as int),
    {
        let mut out: Vec<u64> = Vec::new();
        let mut i: usize = 0;
        while i < self.responses.len()
            invariant
                i <= self.responses.len(),
                out@ == moments_of(self.responses@, token@, since, i as int),
            decreases self.responses.len() - i,
        {
            let row = &self.responses[i];
            let under = match &row.res.authed_token {
                Some(t) => eq_text(t.as_str(), token),
                None => false,
            };
            let after = match since {
                Some(s) => row.res.timestamp > s,
                None => true,
            };
            if under && after {
                out.push(row.res.timestamp);
            }
            i += 1;
        }
        out
    }

    /// The index of the first row with this token.
    fn find_token(&self, token: &str, from: usize) -> (r: Option<usize>)
        requires
            from <= self.cookies@.len(),
            first_where(self.cookies@, token_is(token@), from as int) is None,
        ensures
            match r {
                Some(i) => first_where(
                    self.cookies@,
                    token_is(token@),
                    self.cookies@.len() as int,
                ) == Some(i as int) && i < self.cookies@.len(),
                None => first_where(
                    self.cookies@,
                    token_is(token@),
                    self.cookies@.len() as int,
                ) is None,
            },
    {
        let mut i: usize = from;
        while i < self.cookies.len()
            invariant
                i <= self.cookies.len(),
                first_where(self.cookies@, token_is(token@), i as int) is None,
            decreases self.cookies.len() - i,
        {
            if eq_text(self.cookies[i].cookie.as_str(), token) {
                proof {
                    lemma_first_where_stays(
                        self.cookies@,
                        token_is(token@),
                        i + 1,
                        self.cookies@.len() as int,
                    );
                }
                return Some(i);
            }
            i += 1;
        }
        None
    }

    /// The row of this token.
    pub fn get_authed_token(&self, token: &str) -> (r: Option<AuthedCookie>)
        ensures
            r == first_row(self.cookies@, token_is(token@)),
    {
        match self.find_token(token, 0) {
            Some(i) => Some(self.cookies[i].copy()),
            None => None,
        }
    }

    /// The row that was issued to this address with this code.
    pub fn get_authed_token_by_origin_ip_and_auth_code(&self, ip: &str, auth_code: &str) -> (r:
        Option<AuthedCookie>)
        ensures
            r == first_row(self.cookies@, code_is(ip@, auth_code@)),
    {
        let mut i: usize = 0;
        while i < self.cookies.len()
            invariant
                i <= self.cookies.len(),
                first_where(self.cookies@, code_is(ip@, auth_code@), i as int) is None,
            decreases self.cookies.len() - i,
        {
            if eq_text(self.cookies[i].origin_ip.as_str(), ip) && eq_text(
                self.cookies[i].auth_code.as_str(),
                auth_code,
            ) {
                proof {
                    lemma_first_where_stays(
                        self.cookies@,
                        code_is(ip@, auth_code@),
                        i + 1,
                        self.cookies@.len() as int,
                    );
                }
                return Some(self.cookies[i].copy());
            }
            i += 1;
        }
        None
    }

    /// The cap with this password hash.
    pub fn get_cap_by_password_hash(&self, hash: &str) -> (r: Option<Cap>)
        ensures
            r == first_row(self.caps@, hash_is(hash@)),
    {
        let mut i: usize = 0;
        while i < self.caps.len()
            invariant
                i <= self.caps.len(),
                first_where(self.caps@, hash_is(hash@), i as int) is None,
            decreases self.caps.len() - i,
        {
            if eq_text(self.caps[i].cap_password_hash.as_str(), hash) {
                proof {
                    lemma_first_where_stays(
                        self.caps@,
                        hash_is(hash@),
                        i + 1,
                        self.caps@.len() as int,
                    );
                }
                return Some(self.caps[i].copy());
            }
            i += 1;
        }
        None
    }

    /// Stores a token that is not yet authenticated.
    pub fn create_authed_token(&mut self, token: &CreatingAuthedToken)
        ensures
            final(self).cookies@.len() == old(self).cookies@.len() + 1,
            final(self).cookies@.drop_last() == old(self).cookies@,
            final(self).cookies@.last().cookie@ == token.token@,
            final(self).cookies@.last().origin_ip@ == token.origin_ip@,
            final(self).cookies@.last().writed_time@ == token.writed_time@,
            final(self).cookies@.last().auth_code@ == token.auth_code@,
            final(self).cookies@.last().authed == 0,
            final(self).cookies@.last().authed_time is None,
            final(self).cookies@.last().last_thread_creation is None,
            final(self).threads == old(self).threads,
            final(self).responses == old(self).responses,
            final(self).caps == old(self).caps,
            final(self).boards == old(self).boards,
            final(self).shards == old(self).shards,
    {
        let id: i64 = if self.cookies.len() < 0x7fff_ffff {
            self.cookies.len() as i64 + 1
        } else {
            0
        };
        self.cookies.push(
            AuthedCookie {
                id,
                cookie: token.token.to_owned(),
                authed_time: None,
                origin_ip: token.origin_ip.to_owned(),
                authed: 0,
                writed_time: token.writed_time.to_owned(),
                auth_code: token.auth_code.to_owned(),
                last_thread_creation: None,
                last_wrote_time: None,
            },
        );
    }

    /// Marks the first row of a token as authenticated at `authed_time`;
    /// says whether there is such a row.
    pub fn update_authed_status(&mut self, token: &str, authed_time: &str) -> (found: bool)
        ensures
            final(self).threads == old(self).threads,
            final(self).responses == old(self).responses,
            final(self).caps == old(self).caps,
            final(self).boards == old(self).boards,
            final(self).shards == old(self).shards,
            final(self).cookies@.len() == old(self).cookies@.len(),
            match first_where(old(self).cookies@, token_is(token@), old(self).cookies@.len() as int) {
                Some(i) => {
                    let before = old(self).cookies@[i];
                    let after = final(self).cookies@[i];
                    &&& found
                    &&& after.authed == 1
                    &&& after.authed_time is Some && after.authed_time->0@ == authed_time@
                    &&& after.cookie == before.cookie
                    &&& after.origin_ip == before.origin_ip
                    &&& after.auth_code == before.auth_code
                    &&& after.writed_time == before.writed_time
                    &&& after.last_thread_creation == before.last_thread_creation
                    &&& forall|k: int|
                        0 <= k < old(self).cookies@.len() && k != i ==> final(self).cookies@[k]
                            == old(self).cookies@[k]
                },
                None => !found && final(self).cookies == old(self).cookies,
            },
    {
        match self.find_token(token, 0) {
            Some(i) => {
                let mut row = self.cookies[i].copy();
                row.authed = 1;
                row.authed_time = Some(authed_time.to_owned());
                self.cookies.set(i, row);
                true
            },
            None => false,
        }
    }

    /// Records on the first row of a token that it made a thread at
    /// `unix_time`; says whether there is such a row.
    pub fn update_authed_token_last_thread_creation(&mut self, token: &str, unix_time: &str) -> (found:
        bool)
        ensures
            final(self).threads == old(self).threads,
            final(self).responses == old(self).responses,
            final(self).caps == old(self).caps,
            final(self).boards == old(self).boards,
            final(self).shards == old(self).shards,
            final(self).cookies@.len() == old(self).cookies@.len(),
            match first_where(old(self).cookies@, token_is(token@), old(self).cookies@.len() as int) {
                Some(i) => {
                    let before = old(self).cookies@[i];
                    let after = final(self).cookies@[i];
                    &&& found
                    &&& after.last_thread_creation is Some && after.last_thread_creation->0@
                        == unix_time@
                    &&& after.cookie == before.cookie
                    &&& after.origin_ip == before.origin_ip
                    &&& after.authed == before.authed
                    &&& after.auth_code == before.auth_code
                    &&& after.writed_time == before.writed_time
                    &&& forall|k: int|
                        0 <= k < old(self).cookies@.len() && k != i ==> final(self).cookies@[k]
                            == old(self).cookies@[k]
                },
                None => !found && final(self).cookies == old(self).cookies,
            },
    {
        match self.find_token(token, 0) {
            Some(i) => {
                let mut row = self.cookies[i].copy();
                row.last_thread_creation = Some(unix_time.to_owned());
                self.cookies.set(i, row);
                true
            },
            None => false,
        }
    }

    /// Stores a new thread with its first response. A thread whose number
    /// is taken on its board is not stored; neither is one whose creation
    /// time is no number or whose board id is out of range.
    pub fn create_thread(&mut self, thread: &CreatingThread) -> (result: ThreadInsert)
        requires
            old(self).wf(),
        ensures
            final(self).wf(),
            final(self).cookies == old(self).cookies,
            final(self).caps == old(self).caps,
            final(self).boards == old(self).boards,
            final(self).shards == old(self).shards,
            ({
                let row = new_thread_row(
                    thread.title@,
                    thread.unix_time@,
                    thread.board_id,
                    thread.metadent,
                    old(self).shards,
                );
                let first = first_response_of(*thread);
                let taken = first_where(
                    old(self).threads@,
                    thread_is(thread.board_id, thread.unix_time@),
                    old(self).threads@.len() as int,
                ) is Some;
                match result {
                    ThreadInsert::Failed => {
                        &&& row is None || first is None
                        &&& final(self).threads == old(self).threads
                        &&& final(self).responses == old(self).responses
                    },
                    ThreadInsert::AlreadyExists => {
                        &&& row is Some && first is Some && taken
                        &&& final(self).threads == old(self).threads
                        &&& final(self).responses == old(self).responses
                    },
                    ThreadInsert::Stored => {
                        &&& row is Some && first is Some && !taken
                        &&& final(self).threads@.len() == old(self).threads@.len() + 1
                        &&& final(self).threads@.drop_last() == old(self).threads@
                        &&& final(self).threads@.last()@ == row->0
                        &&& final(self).responses@.len() == old(self).responses@.len() + 1
                        &&& final(self).responses@.drop_last() == old(self).responses@
                        &&& final(self).responses@.last().res@ == first->0
                        &&& final(self).responses@.last().board_id == thread.board_id
                        &&& final(self).responses@.last().shard == row->0.modulo
                    },
                }
            }),
    {
        let row = match thread_row(thread, self.shards) {
            Some(row) => row,
            None => {
                return ThreadInsert::Failed;
            },
        };
        let first = match first_response_row(thread) {
            Some(first) => first,
            None => {
                return ThreadInsert::Failed;
            },
        };
        if self.find_thread(thread.board_id, thread.unix_time).is_some() {
            return ThreadInsert::AlreadyExists;
        }
        proof {
            lemma_first_where_sound(
                self.threads@,
                thread_is(thread.board_id, thread.unix_time@),
                self.threads@.len() as int,
            );
        }
        let shard = row.modulo as usize;
        let ghost old_threads = self.threads@;
        let ghost old_rows = self.responses@;
        self.threads.push(row);
        self.responses.push(StoredRes { board_id: thread.board_id, shard, res: first });
        proof {
            assert forall|i: int| 0 <= i < self.threads@.len() implies has_response(
                self.responses@,
                #[trigger] self.threads@[i],
            ) by {
                if i < old_threads.len() {
                    assert(self.threads@[i] == old_threads[i]);
                    lemma_has_response_grows(old_rows, old_threads[i], self.responses@.last());
                    assert(self.responses@ == old_rows.push(self.responses@.last()));
                } else {
                    let k = old_rows.len() as int;
                    assert(res_is(
                        self.responses@[k],
                        self.threads@[i].board_id as usize,
                        self.threads@[i].thread_number@,
                        self.threads@[i].modulo as usize,
                    ));
                }
            }
            assert forall|i: int, j: int| 0 <= i < j < self.threads@.len() implies !((
            #[trigger] self.threads@[i]).board_id == (#[trigger] self.threads@[j]).board_id
                && self.threads@[i].thread_number@ == self.threads@[j].thread_number@) by {
                if j == old_threads.len() {
                    assert(self.threads@[i] == old_threads[i]);
                    assert(!thread_is(thread.board_id, thread.unix_time@)(old_threads[i]));
                } else {
                    assert(self.threads@[i] == old_threads[i]);
                    assert(self.threads@[j] == old_threads[j]);
                }
            }
            assert forall|i: int| 0 <= i < self.threads@.len() implies (
            #[trigger] self.threads@[i]).response_count >= 1 by {
                if i < old_threads.len() {
                    assert(self.threads@[i] == old_threads[i]);
                }
            }
            assert forall|i: int| 0 <= i < self.threads@.len() implies (
            #[trigger] self.threads@[i]).modulo < self.shards by {
                if i < old_threads.len() {
                    assert(self.threads@[i] == old_threads[i]);
                }
            }
        }
        ThreadInsert::Stored
    }

    /// Stores a reply in the shard that `modulo` names and counts it on
    /// its thread, where there is such a thread. A reply whose moment is
    /// no number is not stored.
    pub fn create_response(&mut self, res: &CreatingRes, modulo: usize) -> (stored: bool)
        requires
            old(self).wf(),
        ensures
            final(self).wf(),
            final(self).cookies == old(self).cookies,
            final(self).caps == old(self).caps,
            final(self).boards == old(self).boards,
            final(self).shards == old(self).shards,
            stored == (reply_of(*res) is Some),
            final(self).threads@.len() == old(self).threads@.len(),
            !stored ==> final(self).threads == old(self).threads && final(self).responses == old(
                self,
            ).responses,
            stored ==> {
                &&& final(self).responses@.len() == old(self).responses@.len() + 1
                &&& final(self).responses@.drop_last() == old(self).responses@
                &&& final(self).responses@.last().res@ == reply_of(*res)->0
                &&& final(self).responses@.last().board_id == res.board_id
                &&& final(self).responses@.last().shard == shard_index(modulo, old(self).shards)
                &&& match first_where(
                    old(self).threads@,
                    thread_is(res.board_id, res.thread_id@),
                    old(self).threads@.len() as int,
                ) {
                    Some(i) => {
                        &&& final(self).threads@[i]@ == thread_after_reply(
                            old(self).threads@[i]@,
                            res.unix_time@,
                        )
                        &&& forall|k: int|
                            0 <= k < old(self).threads@.len() && k != i ==> final(self).threads@[k]
                                == old(self).threads@[k]
                    },
                    None => final(self).threads == old(self).threads,
                }
            },
    {
        let row = match reply_row(res) {
            Some(row) => row,
            None => {
                return false;
            },
        };
        let shard = get_responses_db(modulo, self.shards);
        let ghost before_threads = self.threads@;
        let ghost before_rows = self.responses@;
        match self.find_thread(res.board_id, res.thread_id) {
            Some(i) => {
                let ghost old_threads = self.threads@;
                let counted = count_reply(&self.threads[i], res.unix_time);
                self.threads.set(i, counted);
                proof {
                    assert forall|k: int| 0 <= k < self.threads@.len() implies has_response(
                        before_rows,
                        #[trigger] self.threads@[k],
                    ) by {
                        assert(has_response(before_rows, old_threads[k]));
                        let w = choose|w: int|
                            0 <= w < before_rows.len() && res_is(
                                #[trigger] before_rows[w],
                                old_threads[k].board_id as usize,
                                old_threads[k].thread_number@,
                                old_threads[k].modulo as usize,
                            );
                        assert(self.threads@[k]@.board_id == old_threads[k]@.board_id);
                        assert(self.threads@[k]@.thread_number == old_threads[k]@.thread_number);
                        assert(self.threads@[k]@.modulo == old_threads[k]@.modulo);
                        assert(res_is(
                            before_rows[w],
                            self.threads@[k].board_id as usize,
                            self.threads@[k].thread_number@,
                            self.threads@[k].modulo as usize,
                        ));
                    }
                    assert forall|a: int, b: int| 0 <= a < b < self.threads@.len() implies !((
                    #[trigger] self.threads@[a]).board_id == (
                    #[trigger] self.threads@[b]).board_id && self.threads@[a].thread_number@
                        == self.threads@[b].thread_number@) by {
                        assert(self.threads@[a]@.board_id == old_threads[a]@.board_id);
                        assert(self.threads@[b]@.board_id == old_threads[b]@.board_id);
                        assert(self.threads@[a]@.thread_number == old_threads[a]@.thread_number);
                        assert(self.threads@[b]@.thread_number == old_threads[b]@.thread_number);
                    }
                    assert forall|k: int| 0 <= k < self.threads@.len() implies (
                    #[trigger] self.threads@[k]).response_count >= 1 by {
                        assert(old_threads[k].response_count >= 1);
                        assert(self.threads@[k]@.response_count >= old_threads[k]@.response_count);
                    }
                    assert forall|k: int| 0 <= k < self.threads@.len() implies (
                    #[trigger] self.threads@[k]).modulo < self.shards by {
                        assert(old_threads[k].modulo < self.shards);
                        assert(self.threads@[k]@.modulo == old_threads[k]@.modulo);
                    }
                }
            },
            None => {},
        }
        self.responses.push(StoredRes { board_id: res.board_id, shard, res: row });
        proof {
            assert forall|k: int| 0 <= k < self.threads@.len() implies has_response(
                self.responses@,
                #[trigger] self.threads@[k],
            ) by {
                lemma_has_response_grows(before_rows, self.threads@[k], self.responses@.last());
                assert(self.responses@ == before_rows.push(self.responses@.last()));
            }
        }
        true
    }
}

/// Whether a response was written under `token`.
pub open spec fn written_under(r: StoredRes, token: Seq<char>) -> bool {
    r.res.authed_token is Some && r.res.authed_token->0@ == token
}

/// Any two responses that were written under `token` lie `span` seconds or
/// more apart.
pub open spec fn writes_apart(rows: Seq<StoredRes>, token: Seq<char>, span: int) -> bool {
    forall|i: int, j: int|
        0 <= i < j < rows.len() && written_under(#[trigger] rows[i], token) && written_under(
            #[trigger] rows[j],
            token,
        ) ==> gap(rows[i].res.timestamp, rows[j].res.timestamp) >= span
}

/// The moment of a recent response of a token is among those fetched.
pub proof fn lemma_moments_hold(
    rows: Seq<StoredRes>,
    token: Seq<char>,
    since: Option<u64>,
    n: int,
    k: int,
)
    requires
        0 <= k < n <= rows.len(),
        is_recent(rows[k], token, since),
    ensures
        moments_of(rows, token, since, n).contains(rows[k].res.timestamp),
    decreases n,
{
    let all = moments_of(rows, token, since, n);
    if k == n - 1 {
        assert(all.last() == rows[k].res.timestamp);
        assert(all[all.len() - 1] == rows[k].res.timestamp);
    } else {
        lemma_moments_hold(rows, token, since, n - 1, k);
        let front = moments_of(rows, token, since, n - 1);
        let w = choose|w: int| 0 <= w < front.len() && front[w] == rows[k].res.timestamp;
        assert(all[w] == front[w]);
    }
}

/// Under the hard cap the responses of a token stay five seconds or more
/// apart: where those in the store are, and the least distance among the
/// fetched recent ones and a write at `now` is five seconds or more, they
/// still are when the response of that write is added.
pub proof fn lemma_hard_cap_keeps_writes_apart(
    rows: Seq<StoredRes>,
    token: Seq<char>,
    now: u64,
    row: StoredRes,
)
    requires
        writes_apart(rows, token, MIN_RES_SPAN as int),
        row.res.timestamp == now,
        recent_span(
            moments_of(
                rows,
                token,
                if now >= RECENT_RES_SECONDS {
                    Some((now - RECENT_RES_SECONDS) as u64)
                } else {
                    None
                },
                rows.len() as int,
            ),
            now,
        ) >= MIN_RES_SPAN,
    ensures
        writes_apart(rows.push(row), token, MIN_RES_SPAN as int),
{
    let since: Option<u64> = if now >= RECENT_RES_SECONDS {
        Some((now - RECENT_RES_SECONDS) as u64)
    } else {
        None
    };
    let recent = moments_of(rows, token, since, rows.len() as int);
    let all = rows.push(row);
    assert forall|i: int, j: int|
        0 <= i < j < all.len() && written_under(#[trigger] all[i], token) && written_under(
            #[trigger] all[j],
            token,
        ) implies gap(all[i].res.timestamp, all[j].res.timestamp)
        >= MIN_RES_SPAN by {
        if j < rows.len() {
            assert(all[i] == rows[i] && all[j] == rows[j]);
        } else {
            assert(all[i] == rows[i]);
            let at = rows[i].res.timestamp;
            if is_recent(rows[i], token, since) {
                lemma_moments_hold(rows, token, since, rows.len() as int, i);
                let k = choose|k: int| 0 <= k < recent.len() && recent[k] == at;
                let with_now = recent.push(now);
                assert(with_now[k] == at);
                assert(with_now[recent.len() as int] == now);
                lemma_least_gap(
                    with_now,
                    recent.len() as int + 1,
                    k,
                    recent.len() as int,
                );
            }
        }
    }
}

} // verus!
