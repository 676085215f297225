//! What the repository is asked for and given: the status by which threads
//! are listed, the rows to be written, and the shard that a thread lives in.

use crate::metadent::{parse_u64, parsed_u64};
use crate::response::{copy_opt, Res, ResView};
use crate::routes::post_router::ThreadInsert;
use crate::text::{chars_of, contains, has};
use crate::thread::{MetadentType, Thread, ThreadView};
use vstd::prelude::*;

verus! {

/// The states by which threads are listed.
#[derive(Debug, Clone, Copy, PartialEq, Eq, Structural)]
pub enum ThreadStatus {
    /// Listed and open to replies.
    Active,
    /// Neither listed nor open to replies.
    Archived,
    /// Listed, but closed to replies.
    Inactive,
    /// Listed: active or inactive, but not archived.
    Unarchived,
}

impl ThreadStatus {
    /// Whether a thread with these flags is listed under this status.
    pub open spec fn admits(self, active: u32, archived: u32) -> bool {
        match self {
            ThreadStatus::Active => active == 1,
            ThreadStatus::Inactive => active == 0 && archived == 0,
            ThreadStatus::Archived => archived == 1,
            ThreadStatus::Unarchived => archived == 0,
        }
    }

    /// Whether a thread with these flags is listed under this status.
    pub fn matches(self, active: u32, archived: u32) -> (r: bool)
        ensures
            r == self.admits(active, archived),
    {
        match self {
            ThreadStatus::Active => active == 1,
            ThreadStatus::Inactive => active == 0 && archived == 0,
            ThreadStatus::Archived => archived == 1,
            ThreadStatus::Unarchived => archived == 0,
        }
    }
}

/// A thread to be created, with its first response.
#[derive(Debug, Clone)]
pub struct CreatingThread<'a> {
    pub title: &'a str,
    pub unix_time: &'a str,
    pub body: &'a str,
    pub name: &'a str,
    pub mail: &'a str,
    pub date_time: &'a str,
    pub author_ch5id: &'a str,
    pub authed_token: &'a str,
    pub ip_addr: &'a str,
    pub board_id: usize,
    pub metadent: MetadentType,
}

/// A reply to be added to a thread.
#[derive(Debug, Clone)]
pub struct CreatingRes<'a> {
    pub unix_time: &'a str,
    pub body: &'a str,
    pub name: &'a str,
    pub mail: &'a str,
    pub date_time: &'a str,
    pub author_ch5id: &'a str,
    pub authed_token: &'a str,
    pub ip_addr: &'a str,
    pub thread_id: &'a str,
    pub board_id: usize,
}

/// A token to be issued, not yet authenticated.
#[derive(Debug, Clone)]
pub struct CreatingAuthedToken<'a> {
    pub token: &'a str,
    pub origin_ip: &'a str,
    pub writed_time: &'a str,
    pub auth_code: &'a str,
}

/// The shard that holds the responses of a thread created at `unix_time`,
/// among `shards` shards.
pub open spec fn shard_of(unix_time: u64, shards: usize) -> int {
    unix_time as int % shards as int
}

/// Picks the shard for a thread created at `unix_time`.
pub fn shard_for(unix_time: u64, shards: usize) -> (r: usize)
    requires
        shards >= 1,
    ensures
        r == shard_of(unix_time, shards),
        r < shards,
{
    (unix_time % (shards as u64)) as usize
}

/// The shard to use where a caller names `modulo`: that one, or the first
/// where there is no such shard.
pub open spec fn shard_index(modulo: usize, shards: usize) -> usize {
    if modulo >= shards {
        0
    } else {
        modulo
    }
}

/// Picks the shard that a caller names, falling back to the first.
pub fn get_responses_db(modulo: usize, shards: usize) -> (r: usize)
    ensures
        r == shard_index(modulo, shards),
        shards >= 1 ==> r < shards,
{
    if modulo >= shards {
        0
    } else {
        modulo
    }
}

/// The number of responses from which on a thread is closed.
pub const STOPPER_COUNT: u32 = 1000;

/// The marker as the store holds it: empty where the level is `Off`.
pub open spec fn stored_marker(level: MetadentType) -> Seq<char> {
    match level.marker() {
        Some(m) => m,
        None => Seq::<char>::empty(),
    }
}

/// The row of a new thread: one response, active, not archived, in the
/// shard that its creation time gives. None where the creation time is no
/// number or the board id is out of range.
pub open spec fn new_thread_row(
    title: Seq<char>,
    unix_time: Seq<char>,
    board_id: usize,
    metadent: MetadentType,
    shards: usize,
) -> Option<ThreadView> {
    match parsed_u64(unix_time, 10) {
        Some(at) => if board_id <= u32::MAX && shards >= 1 {
            Some(
                ThreadView {
                    title,
                    response_count: 1,
                    thread_number: unix_time,
                    last_modified: unix_time,
                    board_id: board_id as u32,
                    non_auth_thread: 0,
                    archived: 0,
                    active: 1,
                    metadent: Some(stored_marker(metadent)),
                    no_pool: 0,
                    modulo: shard_of(at, shards) as u32,
                },
            )
        } else {
            None
        },
        None => None,
    }
}

/// Reads a moment that is written in decimal.
pub fn read_unix_time(text: &str) -> (r: Option<u64>)
    ensures
        r == parsed_u64(text@, 10),
{
    let v = chars_of(text);
    assert(v@.subrange(0, v.len() as int) == v@);
    parse_u64(&v, 0, v.len(), 10)
}

/// Makes the row of a new thread.
pub fn thread_row(thread: &CreatingThread, shards: usize) -> (r: Option<Thread>)
    requires
        shards <= u32::MAX,
    ensures
        match r {
            Some(t) => new_thread_row(
                thread.title@,
                thread.unix_time@,
                thread.board_id,
                thread.metadent,
                shards,
            ) == Some(t@),
            None => new_thread_row(
                thread.title@,
                thread.unix_time@,
                thread.board_id,
                thread.metadent,
                shards,
            ) is None,
        },
{
    let at = match read_unix_time(thread.unix_time) {
        Some(at) => at,
        None => {
            return None;
        },
    };
    if thread.board_id > u32::MAX as usize || shards < 1 {
        return None;
    }
    let marker: &str = match thread.metadent.as_marker() {
        Some(m) => m,
        None => "",
    };
    proof {
        reveal_strlit("");
        assert(""@ =~= Seq::<char>::empty());
    }
    Some(
        Thread {
            title: thread.title.to_owned(),
            response_count: 1,
            thread_number: thread.unix_time.to_owned(),
            last_modified: thread.unix_time.to_owned(),
            board_id: thread.board_id as u32,
            non_auth_thread: 0,
            archived: 0,
            active: 1,
            metadent: Some(marker.to_owned()),
            no_pool: 0,
            modulo: shard_for(at, shards) as u32,
        },
    )
}

/// The row of a response: what was posted, under the moment of the post.
pub open spec fn response_row(
    name: Seq<char>,
    mail: Seq<char>,
    date_time: Seq<char>,
    author_ch5id: Seq<char>,
    body: Seq<char>,
    thread_id: Seq<char>,
    ip_addr: Seq<char>,
    authed_token: Seq<char>,
    unix_time: Seq<char>,
) -> Option<ResView> {
    match parsed_u64(unix_time, 10) {
        Some(at) => Some(
            ResView {
                name: Some(name),
                mail: Some(mail),
                date: date_time,
                author_id: Some(author_ch5id),
                body,
                thread_id,
                ip_addr,
                authed_token: Some(authed_token),
                timestamp: at,
                is_abone: 0,
            },
        ),
        None => None,
    }
}

/// The row of the first response of a new thread; its thread is the one
/// that is numbered by the moment of the post.
pub open spec fn first_response_of(t: CreatingThread) -> Option<ResView> {
    response_row(
        t.name@,
        t.mail@,
        t.date_time@,
        t.author_ch5id@,
        t.body@,
        t.unix_time@,
        t.ip_addr@,
        t.authed_token@,
        t.unix_time@,
    )
}

/// The row of a reply.
pub open spec fn reply_of(r: CreatingRes) -> Option<ResView> {
    response_row(
        r.name@,
        r.mail@,
        r.date_time@,
        r.author_ch5id@,
        r.body@,
        r.thread_id@,
        r.ip_addr@,
        r.authed_token@,
        r.unix_time@,
    )
}

/// Makes the row of the first response of a new thread.
pub fn first_response_row(t: &CreatingThread) -> (r: Option<Res>)
    ensures
        opt_res_view(r) == first_response_of(*t),
{
    let at = match read_unix_time(t.unix_time) {
        Some(at) => at,
        None => {
            return None;
        },
    };
    Some(
        Res {
            name: Some(t.name.to_owned()),
            mail: Some(t.mail.to_owned()),
            date: t.date_time.to_owned(),
            author_id: Some(t.author_ch5id.to_owned()),
            body: t.body.to_owned(),
            thread_id: t.unix_time.to_owned(),
            ip_addr: t.ip_addr.to_owned(),
            authed_token: Some(t.authed_token.to_owned()),
            timestamp: at,
            is_abone: 0,
        },
    )
}

/// Makes the row of a reply.
pub fn reply_row(r: &CreatingRes) -> (row: Option<Res>)
    ensures
        opt_res_view(row) == reply_of(*r),
{
    let at = match read_unix_time(r.unix_time) {
        Some(at) => at,
        None => {
            return None;
        },
    };
    Some(
        Res {
            name: Some(r.name.to_owned()),
            mail: Some(r.mail.to_owned()),
            date: r.date_time.to_owned(),
            author_id: Some(r.author_ch5id.to_owned()),
            body: r.body.to_owned(),
            thread_id: r.thread_id.to_owned(),
            ip_addr: r.ip_addr.to_owned(),
            authed_token: Some(r.authed_token.to_owned()),
            timestamp: at,
            is_abone: 0,
        },
    )
}

/// The value of an optional response.
pub open spec fn opt_res_view(r: Option<Res>) -> Option<ResView> {
    match r {
        Some(x) => Some(x@),
        None => None,
    }
}

/// The row of a thread after one more reply at the moment that
/// `unix_time` names: one more response, changed at that moment, and
/// closed once the count reaches a thousand.
pub open spec fn thread_after_reply(t: ThreadView, unix_time: Seq<char>) -> ThreadView {
    ThreadView {
        response_count: if t.response_count < u32::MAX {
            (t.response_count + 1) as u32
        } else {
            t.response_count
        },
        last_modified: unix_time,
        active: if t.response_count >= STOPPER_COUNT - 1 {
            0
        } else {
            1
        },
        ..t
    }
}

/// Makes the row of a thread after one more reply.
pub fn count_reply(t: &Thread, unix_time: &str) -> (r: Thread)
    ensures
        r@ == thread_after_reply(t@, unix_time@),
{
    Thread {
        title: t.title.clone(),
        response_count: if t.response_count < u32::MAX {
            t.response_count + 1
        } else {
            t.response_count
        },
        thread_number: t.thread_number.clone(),
        last_modified: unix_time.to_owned(),
        board_id: t.board_id,
        non_auth_thread: t.non_auth_thread,
        archived: t.archived,
        active: if t.response_count >= STOPPER_COUNT - 1 {
            0
        } else {
            1
        },
        metadent: copy_opt(&t.metadent),
        no_pool: t.no_pool,
        modulo: t.modulo,
    }
}

/// A thread always has a response: a new one has one, and a reply never
/// takes one away. After a reply a thread is closed exactly where it holds
/// a thousand responses or more.
pub proof fn lemma_thread_has_responses(
    title: Seq<char>,
    unix_time: Seq<char>,
    board_id: usize,
    metadent: MetadentType,
    shards: usize,
    t: ThreadView,
    at: Seq<char>,
)
    ensures
        new_thread_row(title, unix_time, board_id, metadent, shards) is Some ==> new_thread_row(
            title,
            unix_time,
            board_id,
            metadent,
            shards,
        )->0.response_count == 1,
        t.response_count >= 1 ==> thread_after_reply(t, at).response_count >= 1,
        thread_after_reply(t, at).response_count >= t.response_count,
        t.response_count < u32::MAX ==> (thread_after_reply(t, at).active == 0
            <==> thread_after_reply(t, at).response_count >= STOPPER_COUNT),
{
}

/// The number of responses from which on the count of a thread is checked
/// against its shard by the sweep.
pub const RECONCILE_FROM: u32 = 100;

/// The count that the sweep writes on a thread, where it has to: the number
/// of responses that its shard holds, where the thread is long enough to be
/// checked and its count says otherwise.
pub open spec fn reconciled_count(response_count: u32, held: nat) -> Option<nat> {
    if response_count >= RECONCILE_FROM && response_count != held {
        Some(held)
    } else {
        None
    }
}

/// Decides whether the sweep corrects the count of a thread, and to what.
pub fn reconcile_count(response_count: u32, held: usize) -> (r: Option<usize>)
    ensures
        match r {
            Some(n) => reconciled_count(response_count, held as nat) == Some(n as nat),
            None => reconciled_count(response_count, held as nat) is None,
        },
{
    if response_count >= RECONCILE_FROM && response_count as u64 != held as u64 {
        Some(held)
    } else {
        None
    }
}

/// The small letter of an ASCII capital; any other character itself.
pub open spec fn ascii_lower(c: char) -> char {
    if 'A' <= c && c <= 'Z' {
        ((c as u8) + 32) as char
    } else {
        c
    }
}

/// The text with small letters for its ASCII capitals.
pub open spec fn ascii_lowered(s: Seq<char>) -> Seq<char> {
    Seq::new(s.len(), |i: int| ascii_lower(s[i]))
}

/// Whether the message of a failed insert tells of a broken uniqueness
/// rule: it holds `unique`, in capitals or small letters.
pub open spec fn tells_of_duplicate(message: Seq<char>) -> bool {
    contains(ascii_lowered(message), "unique"@)
}

/// How the attempt to store a thread ended, by the message of the store
/// where it failed: a broken uniqueness rule means that the thread number
/// is taken.
pub fn thread_insert_result(failure: Option<&str>) -> (r: ThreadInsert)
    ensures
        r == match failure {
            None => ThreadInsert::Stored,
            Some(m) => if tells_of_duplicate(m@) {
                ThreadInsert::AlreadyExists
            } else {
                ThreadInsert::Failed
            },
        },
{
    let message = match failure {
        None => {
            return ThreadInsert::Stored;
        },
        Some(m) => chars_of(m),
    };
    let mut lowered: Vec<char> = Vec::new();
    let mut i: usize = 0;
    while i < message.len()
        invariant
            i <= message.len(),
            lowered@ == ascii_lowered(message@.take(i as int)),
        decreases message.len() - i,
    {
        let c = message[i];
        let l = if 'A' <= c && c <= 'Z' {
            ((c as u8) + 32) as char
        } else {
            c
        };
        lowered.push(l);
        assert(lowered@ =~= ascii_lowered(message@.take(i + 1)));
        i += 1;
    }
    assert(message@.take(message.len() as int) == message@);
    let mark = chars_of("unique");
    if has(&lowered, &mark) {
        ThreadInsert::AlreadyExists
    } else {
        ThreadInsert::Failed
    }
}

/// The marker as the store holds it.
pub fn stored_marker_of(level: MetadentType) -> (r: &'static str)
    ensures
        r@ == stored_marker(level),
{
    proof {
        reveal_strlit("");
        assert(""@ =~= Seq::<char>::empty());
    }
    match level.as_marker() {
        Some(m) => m,
        None => "",
    }
}

} // verus!
