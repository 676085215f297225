//! The `.dat` responder: conditional requests, the archive fallback,
//! rendering and byte ranges.

use crate::cap::opt_str_view;
use crate::datetime::{parse_time, parsed_time};
use crate::metadent::{parse_u64, parsed_u64};
use crate::response::{dat_text, opt_view, res_views, Ch5ResponsesFormatter, Res, ResView};
use crate::routes::bbs_cgi::{ua_has, ua_holds};
use crate::sjis::{sjis_bytes, sjis_encode, MAX_TEXT};
use crate::text::{
    chars_of, contains, cuts, find_from, is_digit, lemma_pieces_nonempty, occurs_at, piece_ranges,
    pieces, push_all, push_str, ranges_within, slice_of, str_has, string_of,
};
use crate::thread::Thread;
use crate::trip::first_chars;
use vstd::prelude::*;

verus! {

/// The seconds by which Japan Standard Time is ahead of UTC.
pub const JST_OFFSET_SECS: i64 = 32400;

/// The format in which clients send `If-Modified-Since`.
pub open spec fn since_format() -> Seq<char> {
    "%Y/%m/%d %H:%M:%S"@
}

/// Whether a thread is unchanged for a client that names the moment of its
/// copy: the header reads as a date and time in Japan, and that moment is
/// not before the last change of the thread.
pub open spec fn not_modified(if_modified_since: Option<Seq<char>>, last_modified: Seq<char>) -> bool {
    match if_modified_since {
        Some(text) => match (parsed_time(text, since_format()), parsed_u64(last_modified, 10)) {
            (Some(at), Some(changed)) => at - JST_OFFSET_SECS >= changed,
            _ => false,
        },
        None => false,
    }
}

/// Decides whether the thread is unchanged for the client.
pub fn is_not_modified(if_modified_since: Option<&str>, last_modified: &str) -> (r: bool)
    ensures
        r == not_modified(opt_str_view(if_modified_since), last_modified@),
{
    let text = match if_modified_since {
        Some(t) => t,
        None => {
            return false;
        },
    };
    let at = match parse_time(text, "%Y/%m/%d %H:%M:%S") {
        Some(at) => at,
        None => {
            return false;
        },
    };
    let lm = chars_of(last_modified);
    assert(lm@.subrange(0, lm.len() as int) == lm@);
    let changed = match parse_u64(&lm, 0, lm.len(), 10) {
        Some(c) => c,
        None => {
            return false;
        },
    };
    if at < JST_OFFSET_SECS - 0x7fff_ffff_ffff_ffff {
        return false;
    }
    let local = at - JST_OFFSET_SECS;
    local >= 0 && local as u64 >= changed
}

/// The path of a thread in the archive:
/// `/{board_key}/kako/{id[0..4]}/{id[0..5]}/{id}.dat`.
pub open spec fn kako_location(board_key: Seq<char>, thread_id: Seq<char>) -> Seq<char> {
    "/"@ + board_key + "/kako/"@ + first_chars(thread_id, 4) + "/"@ + first_chars(thread_id, 5)
        + "/"@ + thread_id + ".dat"@
}

/// The name of a thread in the archive bucket: `{board_key}/dat/{id}.dat`.
pub open spec fn archive_key(board_key: Seq<char>, thread_id: Seq<char>) -> Seq<char> {
    board_key + "/dat/"@ + thread_id + ".dat"@
}

/// The first `n` characters of `s`.
fn head_of(s: &Vec<char>, n: usize) -> (r: Vec<char>)
    ensures
        r@ == first_chars(s@, n as nat),
{
    if s.len() <= n {
        let r = slice_of(s, 0, s.len());
        assert(s@.subrange(0, s.len() as int) == s@);
        r
    } else {
        let r = slice_of(s, 0, n);
        assert(s@.subrange(0, n as int) == s@.take(n as int));
        r
    }
}

/// Writes the path of a thread in the archive.
pub fn kako_path(board_key: &str, thread_id: &str) -> (r: String)
    ensures
        r@ == kako_location(board_key@, thread_id@),
{
    let id = chars_of(thread_id);
    let mut out = chars_of("/");
    push_str(&mut out, board_key);
    push_str(&mut out, "/kako/");
    push_all(&mut out, &head_of(&id, 4));
    push_str(&mut out, "/");
    push_all(&mut out, &head_of(&id, 5));
    push_str(&mut out, "/");
    push_all(&mut out, &id);
    push_str(&mut out, ".dat");
    string_of(&out)
}

/// Writes the name of a thread in the archive bucket.
pub fn archive_object_key(board_key: &str, thread_id: &str) -> (r: String)
    ensures
        r@ == archive_key(board_key@, thread_id@),
{
    let mut out = chars_of(board_key);
    push_str(&mut out, "/dat/");
    push_str(&mut out, thread_id);
    push_str(&mut out, ".dat");
    string_of(&out)
}

/// The numbers of a dotted version, up to its fourth; a part that is no
/// number counts as zero, and so does a missing one.
pub open spec fn version_part(parts: Seq<Seq<char>>, k: int) -> u64 {
    if 0 <= k < parts.len() {
        match parsed_u64(parts[k], 10) {
            Some(v) => v,
            None => 0,
        }
    } else {
        0
    }
}

/// Whether a dotted version is `0.8.10.174` or later.
pub open spec fn version_follows_archive(version: Seq<char>) -> bool {
    let p = pieces(version, '.');
    let a = version_part(p, 0);
    let b = version_part(p, 1);
    let c = version_part(p, 2);
    let d = version_part(p, 3);
    a > 0 || (a == 0 && (b > 8 || (b == 8 && (c > 10 || (c == 10 && d >= 174)))))
}

/// Where the version after the first `2chMate/` in a user agent ends: at
/// the first character from `from` on that is neither digit nor dot.
pub open spec fn version_end(ua: Seq<char>, from: int) -> int
    decreases ua.len() - from,
{
    if 0 <= from < ua.len() && (is_digit(ua[from]) || ua[from] == '.') {
        version_end(ua, from + 1)
    } else {
        from
    }
}

/// The index behind the first `2chMate/` of a user agent, if it holds one.
pub open spec fn mate_version_start(ua: Seq<char>) -> Option<int> {
    if contains(ua, "2chMate/"@) {
        Some(
            (choose|i: int|
                occurs_at(ua, "2chMate/"@, i) && forall|j: int|
                    0 <= j < i ==> !occurs_at(ua, "2chMate/"@, j)) + "2chMate/"@.len(),
        )
    } else {
        None
    }
}

/// Whether a 2chMate client is new enough to follow a redirect to the
/// archive: its user agent names a version of `0.8.10.174` or later behind
/// its first `2chMate/`.
pub open spec fn mate_follows_archive(ua: Seq<char>) -> bool {
    match mate_version_start(ua) {
        Some(start) => start <= ua.len() && version_follows_archive(
            ua.subrange(start, version_end(ua, start)),
        ),
        None => false,
    }
}

/// Whether a client follows a redirect to the archive: Siki, twinkle,
/// Xeno, mae2c, and 2chMate from version 0.8.10.174 on.
pub open spec fn follows_archive(ua: Option<Seq<char>>) -> bool {
    ua_holds(ua, "Siki"@) || ua_holds(ua, "twinkle"@) || ua_holds(ua, "Xeno"@) || ua_holds(
        ua,
        "mae2c"@,
    ) || (ua is Some && mate_follows_archive(ua->0))
}

/// Reads the number of one part of a version.
fn version_number(v: &Vec<char>, ranges: &Vec<(usize, usize)>, k: usize) -> (r: u64)
    requires
        ranges_within(ranges@, v@.len()),
    ensures
        r == version_part(cuts(v@, ranges@), k as int),
{
    if k < ranges.len() {
        let (from, to) = ranges[k];
        assert(ranges@[k as int].0 <= ranges@[k as int].1);
        match parse_u64(v, from, to, 10) {
            Some(n) => n,
            None => 0,
        }
    } else {
        0
    }
}

/// Decides whether a 2chMate client is new enough to follow a redirect to
/// the archive.
pub fn mate_is_recent(ua: &str) -> (r: bool)
    ensures
        r == mate_follows_archive(ua@),
{
    let u = chars_of(ua);
    let mark = chars_of("2chMate/");
    let start = match find_from(&u, &mark, 0) {
        Some(i) => {
            proof {
                let w = choose|w: int|
                    occurs_at(ua@, "2chMate/"@, w) && forall|j: int|
                        0 <= j < w ==> !occurs_at(ua@, "2chMate/"@, j);
                assert(occurs_at(ua@, "2chMate/"@, i as int));
                if w < i {
                    assert(!occurs_at(ua@, "2chMate/"@, w));
                }
                if i < w {
                    assert(!occurs_at(ua@, "2chMate/"@, i as int));
                }
                assert(w == i);
            }
            assert(occurs_at(u@, mark@, i as int));
            assert(i + mark.len() <= u.len());
            i + mark.len()
        },
        None => {
            assert forall|i: int| !occurs_at(ua@, "2chMate/"@, i) by {
                if i >= 0 {
                } else {
                }
            }
            return false;
        },
    };
    let mut end: usize = start;
    while end < u.len() && (('0' <= u[end] && u[end] <= '9') || u[end] == '.')
        invariant
            start <= end <= u.len(),
            version_end(u@, start as int) == version_end(u@, end as int),
        decreases u.len() - end,
    {
        end += 1;
    }
    let version = slice_of(&u, start, end);
    let ranges = piece_ranges(&version, '.');
    let a = version_number(&version, &ranges, 0);
    let b = version_number(&version, &ranges, 1);
    let c = version_number(&version, &ranges, 2);
    let d = version_number(&version, &ranges, 3);
    a > 0 || (a == 0 && (b > 8 || (b == 8 && (c > 10 || (c == 10 && d >= 174)))))
}

/// Decides whether a client follows a redirect to the archive.
pub fn client_follows_archive(ua: Option<&str>) -> (r: bool)
    ensures
        r == follows_archive(opt_str_view(ua)),
{
    if ua_has(ua, "Siki") || ua_has(ua, "twinkle") || ua_has(ua, "Xeno") || ua_has(ua, "mae2c") {
        return true;
    }
    match ua {
        Some(u) => mate_is_recent(u),
        None => false,
    }
}

/// What a request for a `.dat` brings, as the caller has read it.
pub struct DatRequest {
    pub board_id: usize,
    pub board_key: String,
    pub default_name: String,
    pub thread_id: String,
    /// The `Range` header.
    pub range: Option<String>,
    /// The `If-Modified-Since` header.
    pub if_modified_since: Option<String>,
    /// The user agent of the client.
    pub ua: Option<String>,
    /// The host that the request was sent to.
    pub host: String,
    /// Whether an archive bucket is configured.
    pub has_bucket: bool,
}

/// What went wrong outside the rules of the responder.
#[derive(Debug, Clone, Copy, PartialEq, Eq, Structural)]
pub enum DatFault {
    /// The thread could not be looked up.
    GetThread,
    /// The responses could not be fetched.
    GetResponses,
    /// The text is longer than an encoder is handed.
    Encoding,
}

impl DatFault {
    /// The text of the error response.
    pub open spec fn message_text(self) -> Seq<char> {
        match self {
            DatFault::GetThread => "internal server error - get thread"@,
            DatFault::GetResponses => "internal server error - failed to fetch responses"@,
            DatFault::Encoding => "internal server error - converting sjis"@,
        }
    }

    /// The text of the error response.
    pub fn message(self) -> (r: &'static str)
        ensures
            r@ == self.message_text(),
    {
        match self {
            DatFault::GetThread => "internal server error - get thread",
            DatFault::GetResponses => "internal server error - failed to fetch responses",
            DatFault::Encoding => "internal server error - converting sjis",
        }
    }
}

/// How a request for a `.dat` is answered.
#[derive(Debug)]
pub enum DatReply {
    /// 500 with the message of the fault.
    ServerError(DatFault),
    /// 404.
    NotFound,
    /// A redirect to the archive path of the thread.
    Redirect { location: String },
    /// The archive object under this name in the bucket, as Shift_JIS
    /// plain text, kept by caches for a day.
    ServeArchive { key: String },
    /// 304, kept by caches for one second.
    NotModified,
    /// 400.
    BadRequest,
    /// 200 with the whole file, kept by caches for `max_age` seconds.
    Full { body: Vec<u8>, max_age: u32 },
    /// 206 with the file from the asked byte on. `full` is the whole file,
    /// which caches keep for `max_age` seconds.
    Partial { body: Vec<u8>, full: Vec<u8>, max_age: u32 },
}

/// What the caller has to do next for a `.dat`.
#[derive(Debug)]
pub enum DatStep {
    /// Fetch the responses of this thread from the shard `modulo`; answer
    /// with `render_dat`.
    FetchResponses { board_id: usize, thread_id: String, modulo: u32 },
    /// Answer the request.
    Done(DatReply),
}

/// The notice that readers on the retired domain find at the end of the
/// first response.
pub open spec fn migration_notice() -> Seq<char> {
    "<br><br> 【以下運営からのメッセージ】<br>あなたは将来的に廃止される旧ドメインを使用しています。 <br>新ドメイン https://bbs.eddibb.cc/liveedge/ に移行してください<br>旧ドメインからの新規認証は終了しました。"@
}

/// The responses as a reader on `host` gets them: on the retired domain
/// the first carries the migration notice.
pub open spec fn as_read_on(rs: Seq<ResView>, host: Seq<char>) -> Seq<ResView> {
    if contains(host, "workers.dev"@) && rs.len() > 0 {
        rs.update(0, ResView { body: rs[0].body + migration_notice(), ..rs[0] })
    } else {
        rs
    }
}

/// The text of the `.dat` of a thread for a reader on `host`.
pub open spec fn dat_file_text(
    title: Seq<char>,
    rs: Seq<ResView>,
    default_name: Seq<char>,
    host: Seq<char>,
) -> Seq<char> {
    dat_text(as_read_on(rs, host), title, default_name)
}

/// The seconds for which caches keep the `.dat` of a thread: an hour once
/// the thread is closed, one second while it is active.
pub open spec fn dat_max_age(active: u32) -> u32 {
    if active == 0 {
        3600
    } else {
        1
    }
}

/// The byte from which on a `Range` header asks. The outer option is none
/// where the header holds no `=` and so asks for nothing; the inner one is
/// none where what stands between `=` and `-` is no number.
pub open spec fn range_start(range: Seq<char>) -> Option<Option<usize>> {
    let halves = pieces(range, '=');
    if halves.len() < 2 {
        None
    } else {
        match parsed_u64(pieces(halves[1], '-')[0], 10) {
            Some(v) => if v <= usize::MAX {
                Some(Some(v as usize))
            } else {
                Some(None)
            },
            None => Some(None),
        }
    }
}

/// Whether the client is served byte ranges: it names itself, and neither
/// as Mate nor as Xeno.
pub open spec fn serves_ranges(ua: Option<Seq<char>>) -> bool {
    ua is Some && !contains(ua->0, "Mate"@) && !contains(ua->0, "Xeno"@)
}

/// The bytes of `body` from `start` on; none where `start` lies behind
/// the end.
pub open spec fn from_byte(body: Seq<u8>, start: usize) -> Seq<u8> {
    if start <= body.len() {
        body.skip(start as int)
    } else {
        Seq::<u8>::empty()
    }
}

/// Reads the byte from which on a `Range` header asks.
pub fn read_range_start(range: &str) -> (r: Option<Option<usize>>)
    ensures
        r == range_start(range@),
{
    let chars = chars_of(range);
    let halves = piece_ranges(&chars, '=');
    if halves.len() < 2 {
        return None;
    }
    let (from, to) = halves[1];
    assert(halves@[1].0 <= halves@[1].1);
    let spec_part = slice_of(&chars, from, to);
    assert(spec_part@ == cuts(chars@, halves@)[1]);
    let ends = piece_ranges(&spec_part, '-');
    proof {
        lemma_pieces_nonempty(spec_part@, '-');
    }
    let (sf, st) = ends[0];
    assert(ends@[0].0 <= ends@[0].1);
    assert(cuts(spec_part@, ends@)[0] == spec_part@.subrange(sf as int, st as int));
    match parse_u64(&spec_part, sf, st, 10) {
        Some(v) => if v <= usize::MAX as u64 {
            Some(Some(v as usize))
        } else {
            Some(None)
        },
        None => Some(None),
    }
}

/// What the lookup of the thread leads to. A failed lookup is an error. A
/// thread that is not there is looked for in the archive, where there is
/// one: clients that follow redirects are sent to its archive path, the
/// others are served the archive object; without an archive the answer is
/// 404. A thread that the client holds unchanged is answered with 304.
/// Else the responses are asked for.
pub fn on_dat_thread(req: &DatRequest, found: Result<Option<Thread>, ()>) -> (step: DatStep)
    ensures
        match found {
            Err(_) => step == DatStep::Done(DatReply::ServerError(DatFault::GetThread)),
            Ok(None) => if !req.has_bucket {
                step == DatStep::Done(DatReply::NotFound)
            } else if follows_archive(opt_view(req.ua)) {
                match step {
                    DatStep::Done(DatReply::Redirect { location }) => location@ == kako_location(
                        req.board_key@,
                        req.thread_id@,
                    ),
                    _ => false,
                }
            } else {
                match step {
                    DatStep::Done(DatReply::ServeArchive { key }) => key@ == archive_key(
                        req.board_key@,
                        req.thread_id@,
                    ),
                    _ => false,
                }
            },
            Ok(Some(thread)) => if not_modified(
                opt_view(req.if_modified_since),
                thread.last_modified@,
            ) {
                step == DatStep::Done(DatReply::NotModified)
            } else {
                match step {
                    DatStep::FetchResponses { board_id, thread_id, modulo } => board_id
                        == req.board_id && thread_id@ == req.thread_id@ && modulo == thread.modulo,
                    _ => false,
                }
            },
        },
{
    let thread = match found {
        Err(_) => {
            return DatStep::Done(DatReply::ServerError(DatFault::GetThread));
        },
        Ok(None) => {
            if !req.has_bucket {
                return DatStep::Done(DatReply::NotFound);
            }
            let ua: Option<&str> = match &req.ua {
                Some(u) => Some(u.as_str()),
                None => None,
            };
            if client_follows_archive(ua) {
                return DatStep::Done(
                    DatReply::Redirect {
                        location: kako_path(req.board_key.as_str(), req.thread_id.as_str()),
                    },
                );
            }
            return DatStep::Done(
                DatReply::ServeArchive {
                    key: archive_object_key(req.board_key.as_str(), req.thread_id.as_str()),
                },
            );
        },
        Ok(Some(thread)) => thread,
    };
    let since: Option<&str> = match &req.if_modified_since {
        Some(s) => Some(s.as_str()),
        None => None,
    };
    if is_not_modified(since, thread.last_modified.as_str()) {
        return DatStep::Done(DatReply::NotModified);
    }
    DatStep::FetchResponses {
        board_id: req.board_id,
        thread_id: req.thread_id.clone(),
        modulo: thread.modulo,
    }
}

/// Renders the text of the `.dat` of a thread for a reader on `host`.
pub fn dat_file(title: &str, responses: Vec<Res>, default_name: &str, host: &str) -> (r: String)
    ensures
        r@ == dat_file_text(title@, res_views(responses@), default_name@, host@),
{
    let mut responses = responses;
    let ghost before = res_views(responses@);
    if str_has(host, "workers.dev") && responses.len() > 0 {
        let first = responses.remove(0);
        let mut body = chars_of(first.body.as_str());
        push_str(
            &mut body,
            "<br><br> 【以下運営からのメッセージ】<br>あなたは将来的に廃止される旧ドメインを使用しています。 <br>新ドメイン https://bbs.eddibb.cc/liveedge/ に移行してください<br>旧ドメインからの新規認証は終了しました。",
        );
        let noticed = Res {
            name: first.name,
            mail: first.mail,
            date: first.date,
            author_id: first.author_id,
            body: string_of(&body),
            thread_id: first.thread_id,
            ip_addr: first.ip_addr,
            authed_token: first.authed_token,
            timestamp: first.timestamp,
            is_abone: first.is_abone,
        };
        responses.insert(0, noticed);
        assert(res_views(responses@) =~= as_read_on(before, host@));
    }
    responses.format_responses(title, default_name)
}

/// How a rendered `.dat` is answered. Clients that are served ranges and
/// ask for one get the file from the asked byte on, or 400 where the range
/// names no byte; all others get the whole file.
pub open spec fn dat_reply_for(
    text: Seq<char>,
    active: u32,
    range: Option<Seq<char>>,
    ua: Option<Seq<char>>,
    reply: DatReply,
) -> bool {
    if text.len() > MAX_TEXT {
        reply == DatReply::ServerError(DatFault::Encoding)
    } else {
        let asked = if range is Some && serves_ranges(ua) {
            range_start(range->0)
        } else {
            None
        };
        match asked {
            Some(None) => reply == DatReply::BadRequest,
            Some(Some(start)) => match reply {
                DatReply::Partial { body, full, max_age } => {
                    &&& full@ == sjis_bytes(text)
                    &&& body@ == from_byte(sjis_bytes(text), start)
                    &&& max_age == dat_max_age(active)
                },
                _ => false,
            },
            None => match reply {
                DatReply::Full { body, max_age } => body@ == sjis_bytes(text) && max_age
                    == dat_max_age(active),
                _ => false,
            },
        }
    }
}

/// Answers a request with the rendered text of a `.dat`.
pub fn dat_reply(text: &str, active: u32, range: Option<&str>, ua: Option<&str>) -> (reply: DatReply)
    ensures
        dat_reply_for(text@, active, opt_str_view(range), opt_str_view(ua), reply),
{
    let chars = chars_of(text);
    if chars.len() > MAX_TEXT {
        return DatReply::ServerError(DatFault::Encoding);
    }
    let full = sjis_encode(text);
    let max_age: u32 = if active == 0 {
        3600
    } else {
        1
    };
    let wants_range = match ua {
        Some(u) => range.is_some() && !str_has(u, "Mate") && !str_has(u, "Xeno"),
        None => false,
    };
    let asked: Option<Option<usize>> = match range {
        Some(r) => if wants_range {
            read_range_start(r)
        } else {
            None
        },
        None => None,
    };
    match asked {
        Some(None) => DatReply::BadRequest,
        Some(Some(start)) => {
            let mut body: Vec<u8> = Vec::new();
            if start <= full.len() {
                let mut i: usize = start;
                while i < full.len()
                    invariant
                        start <= i <= full.len(),
                        body@ == full@.subrange(start as int, i as int),
                    decreases full.len() - i,
                {
                    body.push(full[i]);
                    i += 1;
                }
                assert(full@.subrange(start as int, full.len() as int) == full@.skip(
                    start as int,
                ));
            }
            DatReply::Partial { body, full, max_age }
        },
        None => DatReply::Full { body: full, max_age },
    }
}

/// Renders the `.dat` of a thread and answers the request with it. A
/// failed fetch of the responses is an error.
pub fn render_dat(req: &DatRequest, thread: &Thread, responses: Result<Vec<Res>, ()>) -> (reply:
    DatReply)
    ensures
        match responses {
            Err(_) => reply == DatReply::ServerError(DatFault::GetResponses),
            Ok(rs) => dat_reply_for(
                dat_file_text(thread.title@, res_views(rs@), req.default_name@, req.host@),
                thread.active,
                opt_view(req.range),
                opt_view(req.ua),
                reply,
            ),
        },
{
    let rs = match responses {
        Ok(rs) => rs,
        Err(_) => {
            return DatReply::ServerError(DatFault::GetResponses);
        },
    };
    let text = dat_file(
        thread.title.as_str(),
        rs,
        req.default_name.as_str(),
        req.host.as_str(),
    );
    let range: Option<&str> = match &req.range {
        Some(r) => Some(r.as_str()),
        None => None,
    };
    let ua: Option<&str> = match &req.ua {
        Some(u) => Some(u.as_str()),
        None => None,
    };
    dat_reply(text.as_str(), thread.active, range, ua)
}

/// Rendering is stable: the same thread, responses, default name and host
/// give the same text, and with it the same Shift_JIS bytes.
pub proof fn lemma_render_stable(
    title: Seq<char>,
    a: Seq<ResView>,
    b: Seq<ResView>,
    default_name: Seq<char>,
    host: Seq<char>,
)
    requires
        a == b,
    ensures
        dat_file_text(title, a, default_name, host) == dat_file_text(title, b, default_name, host),
        sjis_bytes(dat_file_text(title, a, default_name, host)) == sjis_bytes(
            dat_file_text(title, b, default_name, host),
        ),
{
}

} // verus!
