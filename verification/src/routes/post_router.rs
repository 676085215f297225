//! The state machine of a post: from an admitted request, step by step, to
//! what is written and answered. Each step says what the caller has to
//! fetch or store next; the caller does that and hands the result back.

use crate::authed_cookie::AuthedCookie;
use crate::board_config::{config_index, find_board, BoardConfig, BoardKeys};
use crate::cap::{cap_lookup, cap_lookup_hash, Cap};
use crate::inmemory_cache::{
    next_auth_count, too_fast, N_MAX_RECENT_AUTH_PER_IP, RateLimits, RateLimitsView,
};
use crate::metadent::{
    date_seed, generate_date_seed, generate_meta_ident, generate_name_with_metadent,
    lemma_decimal_parses, level_of, meta_ident, name_with_metadent, parse_u64, parsed_u64,
};
use crate::repositories::bbs_repository::{
    new_thread_row, shard_index, thread_after_reply, CreatingAuthedToken, CreatingRes,
    CreatingThread,
};
use crate::repositories::memory::{
    first_row, first_where, hash_is, lemma_first_where_sound, lemma_hard_cap_keeps_writes_apart,
    moments_of, thread_is, token_is, writes_apart, written_under, MemoryStore, StoredRes,
};
use crate::response::opt_view;
use crate::routes::bbs_cgi::{
    author_id, cadence_refuses, challenge_page, challenge_page_for, derive_author_id, extract_forms,
    form_of, gap, get_min_recent_res_span, metadent_request, mint_token, minted_token,
    name_under_cap, read_metadent_request, recent_since, recent_span, reply_refusal,
    select_token_source, thread_cadence_refuses, token_source, validation_error, BbsCgiForm,
    ChallengePage, MIN_RES_SPAN, RECENT_RES_SECONDS, Refusal,
};
use crate::text::{
    chars_of, contains, decimal, decimal_string, push_str, same_text, str_has, string_of,
};
use crate::thread::{metadent_of, MetadentType, Thread};
use crate::tinker::{after_write, too_soon, Tinker, TinkerCounts};
use crate::utils::{
    date_time_text, generate_six_digit_num, get_current_date_time_string, six_digit_code,
};
use vstd::prelude::*;

verus! {

/// What a request to the write endpoint brings, as the caller has read it.
pub struct PostRequest {
    /// The bytes of the request body.
    pub body: Vec<u8>,
    /// The address of the client as the edge reports it.
    pub client_ip: Option<String>,
    /// The address to use where the edge reports none: set for local runs.
    pub debug_ip: Option<String>,
    /// The host that the request was sent to.
    pub host_url: String,
    /// The user agent of the client.
    pub ua: Option<String>,
    /// The `edge-token` cookie of the request.
    pub token_cookie: Option<String>,
    /// The number of the autonomous system of the client, where known.
    pub asn: Option<u32>,
    /// Whether the hard cap on the write rate is switched on.
    pub using_hard_min_recent_res_span_cap: bool,
    /// Whether tinker tokens are issued.
    pub tinker_enabled: bool,
    /// The claim of the `tinker-token` cookie, where its signature holds.
    pub claimed_tinker: Option<Tinker>,
    /// The moment of the request in seconds after the epoch.
    pub unix_time: u64,
    /// The moment of the request in milliseconds after the epoch.
    pub now_millis: u64,
}

/// Why a request is not admitted to the state machine.
#[derive(Debug, Clone, Copy)]
pub enum PostRejection {
    /// No client address is known.
    NoClientIp,
    /// The body is not a well-formed form.
    BadForm,
    /// The form breaks a limit; the reason is that of the failure page.
    Invalid(&'static str),
    /// The form names no known board.
    NoSuchBoard,
}

/// A thread to be stored, with its first response.
#[derive(Debug, Clone)]
pub struct NewThread {
    pub title: String,
    pub unix_time: String,
    pub body: String,
    pub name: String,
    pub mail: String,
    pub date_time: String,
    pub author_ch5id: String,
    pub authed_token: String,
    pub ip_addr: String,
    pub board_id: usize,
    pub metadent: MetadentType,
}

/// A reply to be stored.
#[derive(Debug, Clone)]
pub struct NewReply {
    pub unix_time: String,
    pub body: String,
    pub name: String,
    pub mail: String,
    pub date_time: String,
    pub author_ch5id: String,
    pub authed_token: String,
    pub ip_addr: String,
    pub thread_id: String,
    pub board_id: usize,
}

/// What went wrong outside the rules of posting.
#[derive(Debug, Clone, Copy, PartialEq, Eq, Structural)]
pub enum ServerFault {
    /// The token could not be looked up.
    CheckAuth,
    /// The new token could not be stored.
    StoreToken,
    /// The recent responses could not be fetched.
    RecentResponses,
    /// The thread could not be looked up.
    GetThread,
    /// The thread could not be stored.
    InsertThread,
    /// The reply could not be stored.
    InsertReply,
    /// The moment of the request is beyond what the calendar holds.
    Clock,
}

impl ServerFault {
    /// The text of the error response.
    pub open spec fn message_text(self) -> Seq<char> {
        match self {
            ServerFault::CheckAuth => "internal server error - check auth"@,
            ServerFault::StoreToken => "internal server error - failed to insert authed_token"@,
            ServerFault::RecentResponses => "internal server error - auth min response span"@,
            ServerFault::GetThread => "internal server error - get thread"@,
            ServerFault::InsertThread => "internal server error - failed to insert thread"@,
            ServerFault::InsertReply => "internal server error - failed to insert response"@,
            ServerFault::Clock => "internal server error - date"@,
        }
    }

    /// The text of the error response.
    pub fn message(self) -> (r: &'static str)
        ensures
            r@ == self.message_text(),
    {
        match self {
            ServerFault::CheckAuth => "internal server error - check auth",
            ServerFault::StoreToken => "internal server error - failed to insert authed_token",
            ServerFault::RecentResponses => "internal server error - auth min response span",
            ServerFault::GetThread => "internal server error - get thread",
            ServerFault::InsertThread => "internal server error - failed to insert thread",
            ServerFault::InsertReply => "internal server error - failed to insert response",
            ServerFault::Clock => "internal server error - date",
        }
    }
}

/// How a post ends.
#[derive(Debug, Clone)]
pub enum PostOutcome {
    /// The failure page with the reason of the refusal.
    Refused(Refusal),
    /// The page that asks the client to authenticate, with the cookie that
    /// carries the new token.
    Challenge { token: String, auth_code: String, page: ChallengePage },
    /// The success page. `edge_token` is set as a cookie where the token
    /// came in through the cap field, `tinker` where tinker tokens are
    /// issued.
    Written { edge_token: Option<String>, tinker: Option<Tinker> },
    /// An error response.
    ServerError(ServerFault),
}

/// What the caller has to do next.
#[derive(Debug, Clone)]
pub enum Step {
    /// Look the cap with this password hash up; answer with `on_cap`.
    LookUpCap { hash: String },
    /// Look this token up; answer with `on_token`.
    LookUpToken { token: String },
    /// Store this token, not yet authenticated; answer with
    /// `on_token_stored`.
    StoreToken { token: String, origin_ip: String, writed_time: String, auth_code: String },
    /// Fetch from every shard the moments of the responses written under
    /// this token after `since`, or all of them where `since` is none;
    /// answer with `on_recent`.
    FetchRecent { cookie: String, since: Option<u64> },
    /// Look this thread up; answer with `on_thread`.
    FetchThread { board_id: usize, thread_id: String },
    /// Store this thread and its first response; answer with
    /// `on_thread_stored`.
    InsertThread(NewThread),
    /// Store this reply in the shard `modulo` and count it on its thread;
    /// answer with `on_reply_stored`.
    InsertReply { reply: NewReply, modulo: u32 },
    /// Record that the token made a thread at this moment, whether or not
    /// that succeeds, then answer the request with `then`.
    RecordThreadCreation { cookie: String, unix_time: String, then: PostOutcome },
    /// Answer the request.
    Done(PostOutcome),
}

/// How the attempt to store a thread ended.
#[derive(Debug, Clone, Copy, PartialEq, Eq, Structural)]
pub enum ThreadInsert {
    /// The thread and its first response are stored.
    Stored,
    /// A thread with this number exists on the board.
    AlreadyExists,
    /// The store failed.
    Failed,
}

/// A post on its way through the state machine.
pub struct BbsCgiRouter {
    pub board_id: usize,
    pub token_cookie: Option<String>,
    pub tinker_enabled: bool,
    pub claimed_tinker: Option<Tinker>,
    pub ip_addr: String,
    pub form: BbsCgiForm,
    pub unix_time: u64,
    pub now_millis: u64,
    pub ua: Option<String>,
    pub host_url: String,
    pub asn: u32,
    pub default_name: String,
    pub local_debugging: bool,
    pub using_hard_min_recent_res_span_cap: bool,
    /// The cap that the post is made under, once it is found.
    pub moderator_cap: Option<Cap>,
    /// The authenticated token of the post, once it is found.
    pub cookie: Option<AuthedCookie>,
    /// The id of the author, once it is derived.
    pub id: Option<String>,
    /// The tinker of the author after this write, once it is accepted.
    pub tinker: Option<Tinker>,
    /// The token and the code of the challenge, once they are made.
    pub minted: Option<(String, String)>,
    /// The date that the post carries, once it is written out.
    pub date_time: Option<String>,
}

/// The moment at which the token last made a thread, where it is on
/// record as a number.
pub open spec fn last_creation(cookie: AuthedCookie) -> Option<u64> {
    match cookie.last_thread_creation {
        Some(s) => parsed_u64(s@, 10),
        None => None,
    }
}

/// The tinker with which the author goes into this write: the claimed one
/// where it belongs to the token, else a fresh one; none where tinker
/// tokens are not issued.
pub open spec fn resumed_level(enabled: bool, claimed: Option<Tinker>, cookie: Seq<char>) -> Option<
    TinkerCounts,
> {
    if !enabled {
        None
    } else if claimed is Some && claimed->0.authed_token@ == cookie {
        Some(claimed->0.counts())
    } else {
        Some(
            TinkerCounts {
                wrote_count: 0,
                created_thread_count: 0,
                level: 0,
                last_level_up_at: 0,
                last_wrote_at: 0,
            },
        )
    }
}

/// Picks the tinker with which the author goes into this write.
pub fn resume_tinker(enabled: bool, claimed: &Option<Tinker>, cookie: &str) -> (r: Option<Tinker>)
    ensures
        match r {
            Some(t) => resumed_level(enabled, *claimed, cookie@) == Some(t.counts())
                && t.authed_token@ == cookie@,
            None => resumed_level(enabled, *claimed, cookie@) is None,
        },
{
    if !enabled {
        return None;
    }
    match claimed {
        Some(t) => {
            let a = chars_of(t.authed_token.as_str());
            let b = chars_of(cookie);
            if same_text(&a, &b) {
                return Some(
                    Tinker {
                        authed_token: cookie.to_owned(),
                        wrote_count: t.wrote_count,
                        created_thread_count: t.created_thread_count,
                        level: t.level,
                        last_level_up_at: t.last_level_up_at,
                        last_wrote_at: t.last_wrote_at,
                    },
                );
            }
        },
        None => {},
    }
    Some(Tinker::new(cookie.to_owned()))
}

impl BbsCgiRouter {
    /// Whether the form fits its kind: a new thread has a title, a reply
    /// the number of its thread.
    pub open spec fn wf(&self) -> bool {
        &&& self.form.is_thread ==> self.form.subject is Some
        &&& !self.form.is_thread ==> self.form.thread_id is Some
    }

    /// Whether the two hold the same request: all but what a run finds.
    pub open spec fn same_request(&self, other: &Self) -> bool {
        &&& self.board_id == other.board_id
        &&& self.token_cookie == other.token_cookie
        &&& self.tinker_enabled == other.tinker_enabled
        &&& self.claimed_tinker == other.claimed_tinker
        &&& self.ip_addr == other.ip_addr
        &&& self.form == other.form
        &&& self.unix_time == other.unix_time
        &&& self.now_millis == other.now_millis
        &&& self.ua == other.ua
        &&& self.host_url == other.host_url
        &&& self.asn == other.asn
        &&& self.default_name == other.default_name
        &&& self.local_debugging == other.local_debugging
        &&& self.using_hard_min_recent_res_span_cap == other.using_hard_min_recent_res_span_cap
    }

    /// The address under which the client is known: that which the edge
    /// reports, else the one set for local runs.
    pub open spec fn client_address(req: PostRequest) -> Option<Seq<char>> {
        match req.client_ip {
            Some(ip) => Some(ip@),
            None => opt_view(req.debug_ip),
        }
    }

    /// Admits a request to the state machine: reads and checks its form
    /// and finds its board.
    pub fn new(req: PostRequest, board_keys: &BoardKeys, boards: &Vec<BoardConfig>) -> (r: Result<
        BbsCgiRouter,
        PostRejection,
    >)
        ensures
            match r {
                Err(PostRejection::NoClientIp) => Self::client_address(req) is None,
                Err(PostRejection::BadForm) => Self::client_address(req) is Some && form_of(
                    req.body@,
                ) is None,
                Err(PostRejection::Invalid(reason)) => Self::client_address(req) is Some
                    && form_of(req.body@) is Some && validation_error(form_of(req.body@)->0)
                    == Some(reason@),
                Err(PostRejection::NoSuchBoard) => {
                    let form = form_of(req.body@);
                    &&& Self::client_address(req) is Some
                    &&& form is Some
                    &&& validation_error(form->0) is None
                    &&& (!board_keys@.contains_key(form->0.board_key) || config_index(
                        boards@,
                        board_keys@[form->0.board_key],
                    ) is None)
                },
                Ok(router) => {
                    let form = form_of(req.body@);
                    &&& Self::client_address(req) == Some(router.ip_addr@)
                    &&& form == Some(router.form@)
                    &&& validation_error(router.form@) is None
                    &&& board_keys@.contains_key(router.form@.board_key)
                    &&& router.board_id == board_keys@[router.form@.board_key]
                    &&& config_index(boards@, router.board_id) is Some
                    &&& router.default_name@ == boards@[config_index(
                        boards@,
                        router.board_id,
                    )->0].default_name@
                    &&& router.local_debugging == (req.client_ip is None)
                    &&& router.asn == if req.client_ip is None || req.asn is None {
                        0
                    } else {
                        req.asn->0
                    }
                    &&& router.token_cookie == req.token_cookie
                    &&& router.tinker_enabled == req.tinker_enabled
                    &&& router.claimed_tinker == req.claimed_tinker
                    &&& router.unix_time == req.unix_time
                    &&& router.now_millis == req.now_millis
                    &&& router.ua == req.ua
                    &&& router.host_url == req.host_url
                    &&& router.using_hard_min_recent_res_span_cap
                        == req.using_hard_min_recent_res_span_cap
                    &&& router.moderator_cap is None
                    &&& router.cookie is None
                    &&& router.id is None
                    &&& router.tinker is None
                    &&& router.minted is None
                    &&& router.date_time is None
                    &&& router.wf()
                },
            },
    {
        let PostRequest {
            body,
            client_ip,
            debug_ip,
            host_url,
            ua,
            token_cookie,
            asn,
            using_hard_min_recent_res_span_cap,
            tinker_enabled,
            claimed_tinker,
            unix_time,
            now_millis,
        } = req;
        let (ip_addr, local_debugging) = match client_ip {
            Some(ip) => (ip, false),
            None => match debug_ip {
                Some(ip) => (ip, true),
                None => {
                    return Err(PostRejection::NoClientIp);
                },
            },
        };
        let form = match extract_forms(body) {
            Some(form) => form,
            None => {
                return Err(PostRejection::BadForm);
            },
        };
        match form.validate() {
            Ok(_) => {},
            Err(reason) => {
                return Err(PostRejection::Invalid(reason));
            },
        }
        let board_id = match board_keys.get(form.board_key.as_str()) {
            Some(id) => id,
            None => {
                return Err(PostRejection::NoSuchBoard);
            },
        };
        let default_name = match find_board(boards, board_id) {
            Some(i) => boards[i].default_name.clone(),
            None => {
                return Err(PostRejection::NoSuchBoard);
            },
        };
        let asn: u32 = if local_debugging {
            0
        } else {
            match asn {
                Some(n) => n,
                None => 0,
            }
        };
        Ok(
            BbsCgiRouter {
                board_id,
                token_cookie,
                tinker_enabled,
                claimed_tinker,
                ip_addr,
                form,
                unix_time,
                now_millis,
                ua,
                host_url,
                asn,
                default_name,
                local_debugging,
                using_hard_min_recent_res_span_cap,
                moderator_cap: None,
                cookie: None,
                id: None,
                tinker: None,
                minted: None,
                date_time: None,
            },
        )
    }
}

impl BbsCgiRouter {
    /// Whether the two have found the same so far.
    pub open spec fn same_findings(&self, other: &Self) -> bool {
        &&& self.moderator_cap == other.moderator_cap
        &&& self.cookie == other.cookie
        &&& self.id == other.id
        &&& self.tinker == other.tinker
        &&& self.minted == other.minted
        &&& self.date_time == other.date_time
    }

    /// The token of the request and whether it comes from the cap field.
    pub open spec fn candidate(&self) -> (Option<Seq<char>>, bool) {
        token_source(opt_view(self.token_cookie), self.form@.cap, opt_view(self.ua))
    }

    /// What a challenge comes to. A request through the retired domain is
    /// refused. Any other counts as one more token request of its address;
    /// from the count of three on it is refused, below that a token and a
    /// code are minted and handed out to be stored.
    pub open spec fn challenged(
        &self,
        after: &Self,
        limits: RateLimitsView,
        limits_after: RateLimitsView,
        step: Step,
    ) -> bool {
        let n = next_auth_count(limits.recent_auth_by_ip, self.ip_addr@);
        &&& limits_after.last_by_ip == limits.last_by_ip
        &&& limits_after.last_by_cookie == limits.last_by_cookie
        &&& if contains(self.host_url@, "workers.dev"@) {
            &&& step == Step::Done(PostOutcome::Refused(Refusal::OldDomain))
            &&& limits_after.recent_auth_by_ip == limits.recent_auth_by_ip
            &&& after.minted == self.minted
        } else {
            &&& limits_after.recent_auth_by_ip == limits.recent_auth_by_ip.insert(self.ip_addr@, n)
            &&& if n >= N_MAX_RECENT_AUTH_PER_IP {
                &&& step == Step::Done(PostOutcome::Refused(Refusal::TooManyAuthAttempts))
                &&& after.minted == self.minted
            } else {
                match (step, after.minted) {
                    (
                        Step::StoreToken { token, origin_ip, writed_time, auth_code },
                        Some(kept),
                    ) => {
                        &&& token@ == minted_token(self.ip_addr@, self.unix_time)
                        &&& origin_ip@ == self.ip_addr@
                        &&& writed_time@ == decimal(self.unix_time as nat)
                        &&& auth_code@ == six_digit_code(self.now_millis)
                        &&& kept.0@ == token@
                        &&& kept.1@ == auth_code@
                    },
                    _ => false,
                }
            }
        }
    }

    /// Asks the client to authenticate, unless that is refused.
    fn challenge(&mut self, limits: &mut RateLimits) -> (step: Step)
        ensures
            final(self).same_request(old(self)),
            final(self).moderator_cap == old(self).moderator_cap,
            final(self).cookie == old(self).cookie,
            final(self).id == old(self).id,
            final(self).tinker == old(self).tinker,
            final(self).date_time == old(self).date_time,
            old(self).challenged(final(self), old(limits)@, final(limits)@, step),
    {
        if str_has(self.host_url.as_str(), "workers.dev") {
            return Step::Done(PostOutcome::Refused(Refusal::OldDomain));
        }
        let n = limits.n_recent_auth(self.ip_addr.as_str());
        if n >= N_MAX_RECENT_AUTH_PER_IP {
            return Step::Done(PostOutcome::Refused(Refusal::TooManyAuthAttempts));
        }
        let token = mint_token(self.ip_addr.as_str(), self.unix_time);
        let auth_code = generate_six_digit_num(self.now_millis);
        self.minted = Some((token.clone(), auth_code.clone()));
        Step::StoreToken {
            token,
            origin_ip: self.ip_addr.clone(),
            writed_time: decimal_string(self.unix_time),
            auth_code,
        }
    }

    /// What resolving the token comes to: the token of the request is
    /// looked up where there is one; where there is none the client is
    /// challenged.
    pub open spec fn resolved(
        &self,
        after: &Self,
        limits: RateLimitsView,
        limits_after: RateLimitsView,
        step: Step,
    ) -> bool {
        match self.candidate().0 {
            Some(tk) => {
                &&& limits_after == limits
                &&& after.minted == self.minted
                &&& match step {
                    Step::LookUpToken { token } => token@ == tk,
                    _ => false,
                }
            },
            None => self.challenged(after, limits, limits_after, step),
        }
    }

    /// Resolves the token of the request.
    fn resolve(&mut self, limits: &mut RateLimits) -> (step: Step)
        ensures
            final(self).same_request(old(self)),
            final(self).moderator_cap == old(self).moderator_cap,
            final(self).cookie == old(self).cookie,
            final(self).id == old(self).id,
            final(self).tinker == old(self).tinker,
            final(self).date_time == old(self).date_time,
            old(self).resolved(final(self), old(limits)@, final(limits)@, step),
    {
        let cookie: Option<&str> = match &self.token_cookie {
            Some(c) => Some(c.as_str()),
            None => None,
        };
        let cap: Option<&str> = match &self.form.cap {
            Some(c) => Some(c.as_str()),
            None => None,
        };
        let ua: Option<&str> = match &self.ua {
            Some(u) => Some(u.as_str()),
            None => None,
        };
        let (candidate, _) = select_token_source(cookie, cap, ua);
        match candidate {
            Some(tk) => {
                let token = tk.to_owned();
                Step::LookUpToken { token }
            },
            None => self.challenge(limits),
        }
    }

    /// The first step. A write from the same address within the last five
    /// seconds is refused. Else a claimed cap is looked up; where none is
    /// claimed the token is resolved.
    pub fn start(&mut self, limits: &mut RateLimits) -> (step: Step)
        ensures
            final(self).same_request(old(self)),
            final(self).moderator_cap == old(self).moderator_cap,
            final(self).cookie == old(self).cookie,
            final(self).id == old(self).id,
            final(self).tinker == old(self).tinker,
            final(self).date_time == old(self).date_time,
            ({
                let gate = RateLimitsView {
                    last_by_ip: old(limits)@.last_by_ip.insert(
                        old(self).ip_addr@,
                        old(self).now_millis,
                    ),
                    last_by_cookie: old(limits)@.last_by_cookie,
                    recent_auth_by_ip: old(limits)@.recent_auth_by_ip,
                };
                if too_fast(old(limits)@.last_by_ip, old(self).ip_addr@, old(self).now_millis) {
                    &&& step == Step::Done(PostOutcome::Refused(Refusal::TooFast))
                    &&& final(limits)@ == gate
                    &&& final(self).minted == old(self).minted
                } else {
                    match cap_lookup_hash(old(self).form@.cap, old(self).token_cookie is Some) {
                        Some(h) => {
                            &&& final(limits)@ == gate
                            &&& final(self).minted == old(self).minted
                            &&& match step {
                                Step::LookUpCap { hash } => hash@ == h,
                                _ => false,
                            }
                        },
                        None => old(self).resolved(final(self), gate, final(limits)@, step),
                    }
                }
            }),
    {
        if limits.maybe_reject_ip(self.ip_addr.as_str(), self.now_millis) {
            return Step::Done(PostOutcome::Refused(Refusal::TooFast));
        }
        let cap: Option<&str> = match &self.form.cap {
            Some(c) => Some(c.as_str()),
            None => None,
        };
        match cap_lookup(cap, self.token_cookie.is_some()) {
            Some(hash) => Step::LookUpCap { hash },
            None => self.resolve(limits),
        }
    }

    /// Takes the cap that the lookup found, if it found one, and resolves
    /// the token.
    pub fn on_cap(&mut self, cap: Option<Cap>, limits: &mut RateLimits) -> (step: Step)
        ensures
            final(self).same_request(old(self)),
            final(self).moderator_cap == cap,
            final(self).cookie == old(self).cookie,
            final(self).id == old(self).id,
            final(self).tinker == old(self).tinker,
            final(self).date_time == old(self).date_time,
            old(self).resolved(final(self), old(limits)@, final(limits)@, step),
    {
        self.moderator_cap = cap;
        self.resolve(limits)
    }
}

/// The text of an optional user agent, `Unknown` where there is none.
pub open spec fn ua_or_unknown(ua: Option<Seq<char>>) -> Seq<char> {
    match ua {
        Some(u) => u,
        None => "Unknown"@,
    }
}

impl BbsCgiRouter {
    /// The fingerprint of the client of this request.
    pub open spec fn ident(&self) -> Seq<char> {
        meta_ident(
            self.asn,
            self.ip_addr@,
            ua_or_unknown(opt_view(self.ua)),
            date_seed(self.unix_time),
        )
    }

    /// The name as posted, with the name of the cap where the post is
    /// made under one.
    pub open spec fn posted_name(&self) -> Seq<char> {
        match self.moderator_cap {
            Some(cap) => name_under_cap(self.form@.name, cap.cap_name@),
            None => self.form@.name,
        }
    }

    /// The name under which the post appears in a thread of the given
    /// level.
    pub open spec fn shown_name(&self, level: MetadentType) -> Seq<char> {
        name_with_metadent(
            self.posted_name(),
            level,
            level_of(self.tinker),
            self.default_name@,
            self.ident(),
            self.moderator_cap is Some,
        )
    }

    /// The id that the post carries: `????` under a cap, else the daily id
    /// of the author.
    pub open spec fn shown_id(&self) -> Option<Seq<char>> {
        if self.moderator_cap is Some {
            Some(crate::cap::CAP_ID_NONE@)
        } else {
            match self.cookie {
                Some(c) => author_id(c.origin_ip@, self.now_millis, self.board_id),
                None => None,
            }
        }
    }

    /// Makes the name under which the post appears in a thread of the
    /// given level.
    fn make_name(&self, level: MetadentType) -> (r: String)
        ensures
            r@ == self.shown_name(level),
    {
        let mut posted = chars_of(self.form.name.as_str());
        match &self.moderator_cap {
            Some(cap) => {
                push_str(&mut posted, "★ ");
                push_str(&mut posted, cap.cap_name.as_str());
            },
            None => {},
        }
        let posted = string_of(&posted);
        let ua: &str = match &self.ua {
            Some(u) => u.as_str(),
            None => "Unknown",
        };
        let ident = generate_meta_ident(
            self.asn,
            self.ip_addr.as_str(),
            ua,
            generate_date_seed(self.unix_time),
        );
        generate_name_with_metadent(
            posted.as_str(),
            level,
            &self.tinker,
            self.default_name.as_str(),
            ident.as_str(),
            self.moderator_cap.is_some(),
        )
    }

    /// What the gates behind the token come to, for a router that holds
    /// its authenticated token. A thread made within two minutes of the
    /// last one of the token is refused; so is a write within five seconds
    /// of the last one that the tinker records. Else the write is recorded
    /// on the tinker, the id and the date of the post are fixed, and a new
    /// thread is handed out to be stored or the thread of a reply asked
    /// for.
    pub open spec fn gated(&self, after: &Self, step: Step) -> bool {
        let cookie = self.cookie->0;
        let entering = resumed_level(self.tinker_enabled, self.claimed_tinker, cookie.cookie@);
        let id = author_id(cookie.origin_ip@, self.now_millis, self.board_id);
        let date = date_time_text(self.now_millis, true);
        if cadence_refuses(last_creation(cookie), self.form.is_thread, self.unix_time) {
            step == Step::Done(PostOutcome::Refused(Refusal::TooManyThreads))
        } else if id is None || date is None {
            step == Step::Done(PostOutcome::ServerError(ServerFault::Clock))
        } else if entering is Some && too_soon(entering->0.last_wrote_at, self.unix_time) {
            step == Step::Done(PostOutcome::Refused(Refusal::TooFast))
        } else {
            &&& opt_view(after.id) == self.shown_id()
            &&& opt_view(after.date_time) == date
            &&& match entering {
                Some(t) => after.tinker is Some && after.tinker->0.counts() == after_write(
                    t,
                    self.unix_time,
                    self.form.is_thread,
                ) && after.tinker->0.authed_token@ == cookie.cookie@,
                None => after.tinker is None,
            }
            &&& if self.form.is_thread {
                match step {
                    Step::InsertThread(t) => {
                        &&& Some(t.title@) == self.form@.subject
                        &&& t.unix_time@ == decimal(self.unix_time as nat)
                        &&& (t.metadent, t.body@) == metadent_request(self.form@.body)
                        &&& t.name@ == after.shown_name(t.metadent)
                        &&& t.mail@ == self.form@.mail
                        &&& Some(t.date_time@) == date
                        &&& Some(t.author_ch5id@) == self.shown_id()
                        &&& t.authed_token@ == cookie.cookie@
                        &&& t.ip_addr@ == self.ip_addr@
                        &&& t.board_id == self.board_id
                    },
                    _ => false,
                }
            } else {
                match step {
                    Step::FetchThread { board_id, thread_id } => board_id == self.board_id
                        && Some(thread_id@) == self.form@.thread_id,
                    _ => false,
                }
            }
        }
    }

    /// Passes the gates behind the token.
    fn gates(&mut self) -> (step: Step)
        requires
            old(self).wf(),
            old(self).cookie is Some,
        ensures
            final(self).same_request(old(self)),
            final(self).moderator_cap == old(self).moderator_cap,
            final(self).cookie == old(self).cookie,
            final(self).minted == old(self).minted,
            old(self).gated(final(self), step),
    {
        let (last, origin_ip, token) = match &self.cookie {
            Some(c) => {
                let last: Option<u64> = match &c.last_thread_creation {
                    Some(s) => {
                        let v = chars_of(s.as_str());
                        assert(v@.subrange(0, v.len() as int) == v@);
                        parse_u64(&v, 0, v.len(), 10)
                    },
                    None => None,
                };
                (last, c.origin_ip.clone(), c.cookie.clone())
            },
            None => vstd::pervasive::unreached(),
        };
        if thread_cadence_refuses(last, self.form.is_thread, self.unix_time) {
            return Step::Done(PostOutcome::Refused(Refusal::TooManyThreads));
        }
        let id = match derive_author_id(origin_ip.as_str(), self.now_millis, self.board_id) {
            Some(id) => id,
            None => {
                return Step::Done(PostOutcome::ServerError(ServerFault::Clock));
            },
        };
        let date = match get_current_date_time_string(self.now_millis, true) {
            Some(d) => d,
            None => {
                return Step::Done(PostOutcome::ServerError(ServerFault::Clock));
            },
        };
        let mut tinker = resume_tinker(self.tinker_enabled, &self.claimed_tinker, token.as_str());
        match &mut tinker {
            Some(t) => {
                if !t.record_write(self.unix_time, self.form.is_thread) {
                    return Step::Done(PostOutcome::Refused(Refusal::TooFast));
                }
            },
            None => {},
        }
        let id: String = if self.moderator_cap.is_some() {
            crate::cap::CAP_ID_NONE.to_owned()
        } else {
            id
        };
        self.tinker = tinker;
        self.id = Some(id.clone());
        self.date_time = Some(date.clone());
        if self.form.is_thread {
            let (metadent, body) = read_metadent_request(self.form.body.as_str());
            let name = self.make_name(metadent);
            let title: String = match &self.form.subject {
                Some(s) => s.clone(),
                None => vstd::pervasive::unreached(),
            };
            Step::InsertThread(
                NewThread {
                    title,
                    unix_time: decimal_string(self.unix_time),
                    body,
                    name,
                    mail: self.form.mail.clone(),
                    date_time: date,
                    author_ch5id: id,
                    authed_token: token,
                    ip_addr: self.ip_addr.clone(),
                    board_id: self.board_id,
                    metadent,
                },
            )
        } else {
            let thread_id: String = match &self.form.thread_id {
                Some(s) => s.clone(),
                None => vstd::pervasive::unreached(),
            };
            Step::FetchThread { board_id: self.board_id, thread_id }
        }
    }
}

impl BbsCgiRouter {
    /// What the success page comes with: the token as a cookie where it
    /// came in through the cap field, and the tinker where there is one.
    pub open spec fn written(&self, outcome: PostOutcome) -> bool {
        match outcome {
            PostOutcome::Written { edge_token, tinker } => {
                &&& tinker == self.tinker
                &&& opt_view(edge_token) == if self.candidate().1 && self.cookie is Some {
                    Some(self.cookie->0.cookie@)
                } else {
                    None
                }
            },
            _ => false,
        }
    }

    /// Makes the outcome of a post that is written.
    fn success(&self) -> (outcome: PostOutcome)
        ensures
            self.written(outcome),
    {
        let cookie: Option<&str> = match &self.token_cookie {
            Some(c) => Some(c.as_str()),
            None => None,
        };
        let cap: Option<&str> = match &self.form.cap {
            Some(c) => Some(c.as_str()),
            None => None,
        };
        let ua: Option<&str> = match &self.ua {
            Some(u) => Some(u.as_str()),
            None => None,
        };
        let (_, is_cap) = select_token_source(cookie, cap, ua);
        let edge_token: Option<String> = match &self.cookie {
            Some(c) => if is_cap {
                Some(c.cookie.clone())
            } else {
                None
            },
            None => None,
        };
        let tinker: Option<Tinker> = match &self.tinker {
            Some(t) => Some(
                Tinker {
                    authed_token: t.authed_token.clone(),
                    wrote_count: t.wrote_count,
                    created_thread_count: t.created_thread_count,
                    level: t.level,
                    last_level_up_at: t.last_level_up_at,
                    last_wrote_at: t.last_wrote_at,
                },
            ),
            None => None,
        };
        PostOutcome::Written { edge_token, tinker }
    }

    /// Takes what the lookup of the token found. A failed lookup is an
    /// error. A token that is not there or not authenticated leads to a
    /// challenge. An authenticated one is kept; a write under it within
    /// the last five seconds is refused; under the hard cap its recent
    /// writes are asked for; else the further gates follow.
    pub fn on_token(
        &mut self,
        found: Result<Option<AuthedCookie>, ()>,
        limits: &mut RateLimits,
    ) -> (step: Step)
        requires
            old(self).wf(),
        ensures
            final(self).same_request(old(self)),
            final(self).moderator_cap == old(self).moderator_cap,
            match found {
                Err(_) => {
                    &&& step == Step::Done(PostOutcome::ServerError(ServerFault::CheckAuth))
                    &&& final(self).same_findings(old(self))
                    &&& final(limits)@ == old(limits)@
                },
                Ok(row) => if row is Some && row->0.is_authed() {
                    let token = row->0.cookie@;
                    &&& final(self).cookie == row
                    &&& final(self).minted == old(self).minted
                    &&& final(limits)@.last_by_ip == old(limits)@.last_by_ip
                    &&& final(limits)@.recent_auth_by_ip == old(limits)@.recent_auth_by_ip
                    &&& final(limits)@.last_by_cookie == old(limits)@.last_by_cookie.insert(
                        token,
                        old(self).now_millis,
                    )
                    &&& if too_fast(old(limits)@.last_by_cookie, token, old(self).now_millis) {
                        step == Step::Done(PostOutcome::Refused(Refusal::TooFast))
                    } else if old(self).using_hard_min_recent_res_span_cap {
                        match step {
                            Step::FetchRecent { cookie, since } => cookie@ == token && since == (
                            if old(self).unix_time >= RECENT_RES_SECONDS {
                                Some((old(self).unix_time - RECENT_RES_SECONDS) as u64)
                            } else {
                                None
                            }),
                            _ => false,
                        }
                    } else {
                        (BbsCgiRouter { cookie: row, ..*old(self) }).gated(final(self), step)
                    }
                } else {
                    &&& final(self).cookie == old(self).cookie
                    &&& final(self).id == old(self).id
                    &&& final(self).tinker == old(self).tinker
                    &&& final(self).date_time == old(self).date_time
                    &&& old(self).challenged(final(self), old(limits)@, final(limits)@, step)
                },
            },
    {
        let row = match found {
            Ok(row) => row,
            Err(_) => {
                return Step::Done(PostOutcome::ServerError(ServerFault::CheckAuth));
            },
        };
        let authed = match &row {
            Some(c) => c.may_post(),
            None => false,
        };
        if !authed {
            return self.challenge(limits);
        }
        let token: String = match &row {
            Some(c) => c.cookie.clone(),
            None => vstd::pervasive::unreached(),
        };
        self.cookie = row;
        if limits.maybe_reject_cookie(token.as_str(), self.now_millis) {
            return Step::Done(PostOutcome::Refused(Refusal::TooFast));
        }
        if self.using_hard_min_recent_res_span_cap {
            return Step::FetchRecent { cookie: token, since: recent_since(self.unix_time) };
        }
        self.gates()
    }

    /// Takes whether the new token was stored, and answers with the
    /// challenge where it was.
    pub fn on_token_stored(&self, stored: bool) -> (step: Step)
        ensures
            match step {
                Step::Done(PostOutcome::Challenge { token, auth_code, page }) => {
                    &&& stored
                    &&& self.minted is Some
                    &&& token@ == minted_token_of(self.minted)
                    &&& auth_code@ == minted_code_of(self.minted)
                    &&& page == challenge_page_for(self.local_debugging, opt_view(self.ua))
                },
                Step::Done(PostOutcome::ServerError(fault)) => fault == ServerFault::StoreToken
                    && !(stored && self.minted is Some),
                _ => false,
            },
    {
        if !stored {
            return Step::Done(PostOutcome::ServerError(ServerFault::StoreToken));
        }
        match &self.minted {
            Some(kept) => {
                let ua: Option<&str> = match &self.ua {
                    Some(u) => Some(u.as_str()),
                    None => None,
                };
                Step::Done(
                    PostOutcome::Challenge {
                        token: kept.0.clone(),
                        auth_code: kept.1.clone(),
                        page: challenge_page(self.local_debugging, ua),
                    },
                )
            },
            None => Step::Done(PostOutcome::ServerError(ServerFault::StoreToken)),
        }
    }

    /// Takes the moments of the recent writes of the token. A failed
    /// fetch is an error. Where two among them and this write lie fewer
    /// than five seconds apart the post is refused; else the further gates
    /// follow.
    pub fn on_recent(&mut self, recent: Result<Vec<u64>, ()>) -> (step: Step)
        requires
            old(self).wf(),
            old(self).cookie is Some,
        ensures
            final(self).same_request(old(self)),
            final(self).moderator_cap == old(self).moderator_cap,
            final(self).cookie == old(self).cookie,
            final(self).minted == old(self).minted,
            match recent {
                Err(_) => step == Step::Done(
                    PostOutcome::ServerError(ServerFault::RecentResponses),
                ),
                Ok(ts) => if recent_span(ts@, old(self).unix_time) < MIN_RES_SPAN {
                    step == Step::Done(PostOutcome::Refused(Refusal::TooFast))
                } else {
                    old(self).gated(final(self), step)
                },
            },
    {
        let ts = match recent {
            Ok(ts) => ts,
            Err(_) => {
                return Step::Done(PostOutcome::ServerError(ServerFault::RecentResponses));
            },
        };
        if get_min_recent_res_span(&ts, self.unix_time) < MIN_RES_SPAN {
            return Step::Done(PostOutcome::Refused(Refusal::TooFast));
        }
        self.gates()
    }

    /// Takes what the lookup of the thread found. A failed lookup is an
    /// error; a thread that is not there, no longer active or archived is
    /// refused.
    /// Else the reply is handed out to be stored in the shard of the
    /// thread, under the name that the level of the thread asks for.
    pub fn on_thread(&self, found: Result<Option<Thread>, ()>) -> (step: Step)
        ensures
            match found {
                Err(_) => step == Step::Done(PostOutcome::ServerError(ServerFault::GetThread)),
                Ok(thread) => match reply_refusal(thread_view(thread)) {
                    Some(refusal) => step == Step::Done(PostOutcome::Refused(refusal)),
                    None => match step {
                        Step::InsertReply { reply, modulo } => {
                            &&& modulo == thread->0.modulo
                            &&& reply.unix_time@ == decimal(self.unix_time as nat)
                            &&& reply.body@ == self.form@.body
                            &&& reply.name@ == self.shown_name(metadent_of(thread->0@.metadent))
                            &&& reply.mail@ == self.form@.mail
                            &&& reply.date_time@ == text_or_empty(
                                opt_view(self.date_time),
                            )
                            &&& reply.author_ch5id@ == text_or_empty(
                                opt_view(self.id),
                            )
                            &&& reply.authed_token@ == text_or_empty(
                                token_of(self.cookie),
                            )
                            &&& reply.ip_addr@ == self.ip_addr@
                            &&& reply.thread_id@ == text_or_empty(
                                self.form@.thread_id,
                            )
                            &&& reply.board_id == self.board_id
                        },
                        _ => false,
                    },
                },
            },
    {
        let thread = match found {
            Ok(Some(thread)) => thread,
            Ok(None) => {
                return Step::Done(PostOutcome::Refused(Refusal::NoSuchThread));
            },
            Err(_) => {
                return Step::Done(PostOutcome::ServerError(ServerFault::GetThread));
            },
        };
        if thread.active == 0 || thread.archived == 1 {
            return Step::Done(PostOutcome::Refused(Refusal::ThreadStopped));
        }
        let name = self.make_name(thread.metadent_type());
        Step::InsertReply {
            reply: NewReply {
                unix_time: decimal_string(self.unix_time),
                body: self.form.body.clone(),
                name,
                mail: self.form.mail.clone(),
                date_time: own_or_empty(&self.date_time),
                author_ch5id: own_or_empty(&self.id),
                authed_token: match &self.cookie {
                    Some(c) => c.cookie.clone(),
                    None => String::new(),
                },
                ip_addr: self.ip_addr.clone(),
                thread_id: own_or_empty(&self.form.thread_id),
                board_id: self.board_id,
            },
            modulo: thread.modulo,
        }
    }

    /// Takes how storing the thread ended. A stored thread is recorded on
    /// the token and answered with the success page; a thread number that
    /// is taken is refused; a failure is an error.
    pub fn on_thread_stored(&self, result: ThreadInsert) -> (step: Step)
        ensures
            match result {
                ThreadInsert::Stored => match step {
                    Step::RecordThreadCreation { cookie, unix_time, then } => {
                        &&& cookie@ == text_or_empty(
                            token_of(self.cookie),
                        )
                        &&& unix_time@ == decimal(self.unix_time as nat)
                        &&& self.written(then)
                    },
                    _ => false,
                },
                ThreadInsert::AlreadyExists => step == Step::Done(
                    PostOutcome::Refused(Refusal::DuplicateThread),
                ),
                ThreadInsert::Failed => step == Step::Done(
                    PostOutcome::ServerError(ServerFault::InsertThread),
                ),
            },
    {
        match result {
            ThreadInsert::Stored => Step::RecordThreadCreation {
                cookie: match &self.cookie {
                    Some(c) => c.cookie.clone(),
                    None => String::new(),
                },
                unix_time: decimal_string(self.unix_time),
                then: self.success(),
            },
            ThreadInsert::AlreadyExists => Step::Done(
                PostOutcome::Refused(Refusal::DuplicateThread),
            ),
            ThreadInsert::Failed => Step::Done(PostOutcome::ServerError(ServerFault::InsertThread)),
        }
    }

    /// Takes whether the reply was stored and counted, and answers with
    /// the success page where it was.
    pub fn on_reply_stored(&self, stored: bool) -> (step: Step)
        ensures
            match step {
                Step::Done(outcome) => if stored {
                    self.written(outcome)
                } else {
                    outcome == PostOutcome::ServerError(ServerFault::InsertReply)
                },
                _ => false,
            },
    {
        if stored {
            Step::Done(self.success())
        } else {
            Step::Done(PostOutcome::ServerError(ServerFault::InsertReply))
        }
    }
}

/// The token of a made challenge.
pub open spec fn minted_token_of(minted: Option<(String, String)>) -> Seq<char> {
    match minted {
        Some(kept) => kept.0@,
        None => Seq::<char>::empty(),
    }
}

/// The code of a made challenge.
pub open spec fn minted_code_of(minted: Option<(String, String)>) -> Seq<char> {
    match minted {
        Some(kept) => kept.1@,
        None => Seq::<char>::empty(),
    }
}

/// The value of an optional thread.
pub open spec fn thread_view(thread: Option<Thread>) -> Option<crate::thread::ThreadView> {
    match thread {
        Some(t) => Some(t@),
        None => None,
    }
}

/// The text of an optional text, empty where there is none.
pub open spec fn text_or_empty(s: Option<Seq<char>>) -> Seq<char> {
    match s {
        Some(t) => t,
        None => Seq::<char>::empty(),
    }
}

/// The token of an optional row.
pub open spec fn token_of(cookie: Option<AuthedCookie>) -> Option<Seq<char>> {
    match cookie {
        Some(c) => Some(c.cookie@),
        None => None,
    }
}

/// A copy of an optional text, empty where there is none.
fn own_or_empty(s: &Option<String>) -> (r: String)
    ensures
        r@ == text_or_empty(opt_view(*s)),
{
    match s {
        Some(t) => t.clone(),
        None => String::new(),
    }
}

impl NewThread {
    /// The thread as the repository takes it.
    pub fn as_creating(&self) -> (r: CreatingThread<'_>)
        ensures
            r.title@ == self.title@,
            r.unix_time@ == self.unix_time@,
            r.body@ == self.body@,
            r.name@ == self.name@,
            r.mail@ == self.mail@,
            r.date_time@ == self.date_time@,
            r.author_ch5id@ == self.author_ch5id@,
            r.authed_token@ == self.authed_token@,
            r.ip_addr@ == self.ip_addr@,
            r.board_id == self.board_id,
            r.metadent == self.metadent,
    {
        CreatingThread {
            title: self.title.as_str(),
            unix_time: self.unix_time.as_str(),
            body: self.body.as_str(),
            name: self.name.as_str(),
            mail: self.mail.as_str(),
            date_time: self.date_time.as_str(),
            author_ch5id: self.author_ch5id.as_str(),
            authed_token: self.authed_token.as_str(),
            ip_addr: self.ip_addr.as_str(),
            board_id: self.board_id,
            metadent: self.metadent,
        }
    }
}

impl NewReply {
    /// The reply as the repository takes it.
    pub fn as_creating(&self) -> (r: CreatingRes<'_>)
        ensures
            r.unix_time@ == self.unix_time@,
            r.body@ == self.body@,
            r.name@ == self.name@,
            r.mail@ == self.mail@,
            r.date_time@ == self.date_time@,
            r.author_ch5id@ == self.author_ch5id@,
            r.authed_token@ == self.authed_token@,
            r.ip_addr@ == self.ip_addr@,
            r.thread_id@ == self.thread_id@,
            r.board_id == self.board_id,
    {
        CreatingRes {
            unix_time: self.unix_time.as_str(),
            body: self.body.as_str(),
            name: self.name.as_str(),
            mail: self.mail.as_str(),
            date_time: self.date_time.as_str(),
            author_ch5id: self.author_ch5id.as_str(),
            authed_token: self.authed_token.as_str(),
            ip_addr: self.ip_addr.as_str(),
            thread_id: self.thread_id.as_str(),
            board_id: self.board_id,
        }
    }
}

/// How a post ends, by kind.
pub enum Verdict {
    /// The failure page with this reason.
    Refused(Refusal),
    /// The page that asks the client to authenticate.
    Challenge,
    /// The success page.
    Written,
    /// An error response.
    ServerError(ServerFault),
}

/// The kind of an outcome.
pub open spec fn verdict_of(outcome: PostOutcome) -> Verdict {
    match outcome {
        PostOutcome::Refused(refusal) => Verdict::Refused(refusal),
        PostOutcome::Challenge { .. } => Verdict::Challenge,
        PostOutcome::Written { .. } => Verdict::Written,
        PostOutcome::ServerError(fault) => Verdict::ServerError(fault),
    }
}

/// From which moment on the writes of a token count as recent at `now`.
pub open spec fn recent_from(now: u64) -> Option<u64> {
    if now >= RECENT_RES_SECONDS {
        Some((now - RECENT_RES_SECONDS) as u64)
    } else {
        None
    }
}

impl BbsCgiRouter {
    /// The cap that the post is made under, as the store knows it: the one
    /// with the hash of the claimed password, where a cap is claimed.
    pub open spec fn cap_in(&self, store: &MemoryStore) -> Option<Cap> {
        match cap_lookup_hash(self.form@.cap, self.token_cookie is Some) {
            Some(h) => first_row(
                store.caps@,
                hash_is(h),
            ),
            None => self.moderator_cap,
        }
    }

    /// The authenticated row of the token of the post, where the store
    /// holds one.
    pub open spec fn token_row(&self, store: &MemoryStore) -> Option<AuthedCookie> {
        match self.candidate().0 {
            Some(tk) => match first_row(
                store.cookies@,
                token_is(tk),
            ) {
                Some(row) => if row.is_authed() {
                    Some(row)
                } else {
                    None
                },
                None => None,
            },
            None => None,
        }
    }

    /// How a challenge ends.
    pub open spec fn challenge_verdict(&self, limits: RateLimitsView) -> Verdict {
        if contains(self.host_url@, "workers.dev"@) {
            Verdict::Refused(Refusal::OldDomain)
        } else if next_auth_count(limits.recent_auth_by_ip, self.ip_addr@)
            >= N_MAX_RECENT_AUTH_PER_IP {
            Verdict::Refused(Refusal::TooManyAuthAttempts)
        } else {
            Verdict::Challenge
        }
    }

    /// The thread that a reply goes to, where the store holds it.
    pub open spec fn target(&self, store: &MemoryStore) -> Option<Thread> {
        first_row(
            store.threads@,
            thread_is(
                self.board_id,
                text_or_empty(self.form@.thread_id),
            ),
        )
    }

    /// How a post that has passed every gate ends. A new thread whose
    /// number is taken on its board is refused; a reply to a thread that
    /// is not there, not active or archived is refused; anything else is
    /// written.
    pub open spec fn commit_verdict(&self, store: &MemoryStore) -> Verdict {
        if self.form.is_thread {
            if self.board_id > u32::MAX {
                Verdict::ServerError(ServerFault::InsertThread)
            } else if first_where(
                store.threads@,
                thread_is(
                    self.board_id,
                    decimal(self.unix_time as nat),
                ),
                store.threads@.len() as int,
            ) is Some {
                Verdict::Refused(Refusal::DuplicateThread)
            } else {
                Verdict::Written
            }
        } else {
            match reply_refusal(thread_view(self.target(store))) {
                Some(refusal) => Verdict::Refused(refusal),
                None => Verdict::Written,
            }
        }
    }

    /// How a post under the authenticated row `row` ends at the gates
    /// behind the token, where it ends there.
    pub open spec fn gate_verdict(&self, row: AuthedCookie) -> Option<Verdict> {
        let entering = resumed_level(self.tinker_enabled, self.claimed_tinker, row.cookie@);
        if cadence_refuses(last_creation(row), self.form.is_thread, self.unix_time) {
            Some(Verdict::Refused(Refusal::TooManyThreads))
        } else if author_id(row.origin_ip@, self.now_millis, self.board_id) is None
            || date_time_text(self.now_millis, true) is None {
            Some(Verdict::ServerError(ServerFault::Clock))
        } else if entering is Some && too_soon(entering->0.last_wrote_at, self.unix_time) {
            Some(Verdict::Refused(Refusal::TooFast))
        } else {
            None
        }
    }

    /// How the post ends against a store and rate limits: at the first of
    /// the gates that turns it away, and written where none does.
    pub open spec fn verdict(&self, store: &MemoryStore, limits: RateLimitsView) -> Verdict {
        if too_fast(limits.last_by_ip, self.ip_addr@, self.now_millis) {
            Verdict::Refused(Refusal::TooFast)
        } else {
            match self.token_row(store) {
                None => self.challenge_verdict(limits),
                Some(row) => if too_fast(limits.last_by_cookie, row.cookie@, self.now_millis) {
                    Verdict::Refused(Refusal::TooFast)
                } else if self.using_hard_min_recent_res_span_cap && recent_span(
                    moments_of(
                        store.responses@,
                        row.cookie@,
                        recent_from(self.unix_time),
                        store.responses@.len() as int,
                    ),
                    self.unix_time,
                ) < MIN_RES_SPAN {
                    Verdict::Refused(Refusal::TooFast)
                } else {
                    match self.gate_verdict(row) {
                        Some(v) => v,
                        None => self.commit_verdict(store),
                    }
                },
            }
        }
    }

    /// The rate limits after the post: the address is on record with this
    /// moment; where the address was not too fast, the token is too where
    /// the post has an authenticated one, and else the address has one
    /// more token request to its name, unless it came through the retired
    /// domain.
    pub open spec fn limits_after(&self, store: &MemoryStore, limits: RateLimitsView) -> RateLimitsView {
        let by_ip = limits.last_by_ip.insert(self.ip_addr@, self.now_millis);
        if too_fast(limits.last_by_ip, self.ip_addr@, self.now_millis) {
            RateLimitsView { last_by_ip: by_ip, ..limits }
        } else {
            match self.token_row(store) {
                Some(row) => RateLimitsView {
                    last_by_ip: by_ip,
                    last_by_cookie: limits.last_by_cookie.insert(row.cookie@, self.now_millis),
                    recent_auth_by_ip: limits.recent_auth_by_ip,
                },
                None => if contains(self.host_url@, "workers.dev"@) {
                    RateLimitsView { last_by_ip: by_ip, ..limits }
                } else {
                    RateLimitsView {
                        last_by_ip: by_ip,
                        last_by_cookie: limits.last_by_cookie,
                        recent_auth_by_ip: limits.recent_auth_by_ip.insert(
                            self.ip_addr@,
                            next_auth_count(limits.recent_auth_by_ip, self.ip_addr@),
                        ),
                    }
                },
            }
        }
    }

    /// The level by which the name of the post is made: that which a new
    /// thread asks for, or that of the thread of a reply.
    pub open spec fn level_in(&self, store: &MemoryStore) -> MetadentType {
        if self.form.is_thread {
            metadent_request(self.form@.body).0
        } else {
            match self.target(store) {
                Some(t) => metadent_of(t@.metadent),
                None => MetadentType::Off,
            }
        }
    }
}

/// Runs a post through the state machine against the store in memory.
///
/// The post ends as `verdict` says, and the rate limits are afterwards as
/// `limits_after` says. The store keeps its rules. A post that is written
/// adds exactly one response: what was posted, under the name, id and date
/// that the gates fixed, written under the token of the post at the moment
/// of the post; a new thread adds its row too, a reply is counted on its
/// thread. Any other outcome leaves threads and responses as they were. A
/// challenge adds the new token, not yet authenticated, to the store. A
/// thread is made only where the token of the post is not on record with a
/// thread of the last two minutes, and afterwards the token is on record
/// with this one. Under the hard cap, responses of one token that lay five
/// seconds or more apart before still do so afterwards.
pub fn run_post(router: &mut BbsCgiRouter, store: &mut MemoryStore, limits: &mut RateLimits) -> (outcome:
    PostOutcome)
    requires
        old(router).wf(),
        old(store).wf(),
    ensures
        verdict_of(outcome) == old(router).verdict(old(store), old(limits)@),
        final(limits)@ == old(router).limits_after(old(store), old(limits)@),
        final(store).wf(),
        final(router).same_request(old(router)),
        if too_fast(old(limits)@.last_by_ip, old(router).ip_addr@, old(router).now_millis) {
            final(router).same_findings(old(router))
        } else {
            &&& final(router).moderator_cap == old(router).cap_in(old(store))
            &&& final(router).cookie == match old(router).token_row(old(store)) {
                Some(row) => Some(row),
                None => old(router).cookie,
            }
        },
        final(store).shards == old(store).shards,
        final(store).caps == old(store).caps,
        final(store).boards == old(store).boards,
        match outcome {
            PostOutcome::Written { edge_token, tinker } => {
                let row = old(router).token_row(old(store));
                let written = final(store).responses@.last();
                let entering = resumed_level(
                    old(router).tinker_enabled,
                    old(router).claimed_tinker,
                    row->0.cookie@,
                );
                &&& row is Some
                &&& final(router).cookie == row
                &&& final(router).moderator_cap == old(router).cap_in(old(store))
                &&& final(store).responses@.len() == old(store).responses@.len() + 1
                &&& final(store).responses@.drop_last() == old(store).responses@
                &&& written.res.timestamp == old(router).unix_time
                &&& written_under(written, row->0.cookie@)
                &&& written.board_id == old(router).board_id
                &&& written.res@.ip_addr == old(router).ip_addr@
                &&& written.res@.mail == Some(old(router).form@.mail)
                &&& Some(written.res@.date) == date_time_text(old(router).now_millis, true)
                &&& written.res@.author_id == final(router).shown_id()
                &&& written.res@.name == Some(
                    final(router).shown_name(old(router).level_in(old(store))),
                )
                &&& written.res@.is_abone == 0
                &&& if old(router).form.is_thread {
                    &&& written.res@.body == metadent_request(old(router).form@.body).1
                    &&& written.res@.thread_id == decimal(old(router).unix_time as nat)
                    &&& final(store).threads@.len() == old(store).threads@.len() + 1
                    &&& final(store).threads@.drop_last() == old(store).threads@
                    &&& Some(final(store).threads@.last()@)
                        == new_thread_row(
                        text_or_empty(old(router).form@.subject),
                        decimal(old(router).unix_time as nat),
                        old(router).board_id,
                        metadent_request(old(router).form@.body).0,
                        old(store).shards,
                    )
                    &&& written.shard == final(store).threads@.last().modulo
                } else {
                    let at = first_where(
                        old(store).threads@,
                        thread_is(
                            old(router).board_id,
                            text_or_empty(old(router).form@.thread_id),
                        ),
                        old(store).threads@.len() as int,
                    );
                    &&& written.res@.body == old(router).form@.body
                    &&& Some(written.res@.thread_id) == old(router).form@.thread_id
                    &&& at is Some
                    &&& written.shard == shard_index(
                        old(store).threads@[at->0].modulo as usize,
                        old(store).shards,
                    )
                    &&& final(store).threads@.len() == old(store).threads@.len()
                    &&& final(store).threads@[at->0]@
                        == thread_after_reply(
                        old(store).threads@[at->0]@,
                        decimal(old(router).unix_time as nat),
                    )
                    &&& forall|k: int|
                        0 <= k < old(store).threads@.len() && k != at->0
                            ==> final(store).threads@[k] == old(store).threads@[k]
                }
                &&& opt_view(edge_token) == if old(router).candidate().1 {
                    Some(row->0.cookie@)
                } else {
                    None
                }
                &&& tinker == final(router).tinker
                &&& match entering {
                    Some(t) => tinker is Some && tinker->0.counts() == after_write(
                        t,
                        old(router).unix_time,
                        old(router).form.is_thread,
                    ) && tinker->0.authed_token@ == row->0.cookie@,
                    None => tinker is None,
                }
                &&& final(store).cookies@.len() == old(store).cookies@.len()
            },
            PostOutcome::Challenge { token, auth_code, page } => {
                &&& final(store).threads == old(store).threads
                &&& final(store).responses == old(store).responses
                &&& final(store).cookies@.len() == old(store).cookies@.len() + 1
                &&& final(store).cookies@.drop_last() == old(store).cookies@
                &&& final(store).cookies@.last().cookie@ == token@
                &&& final(store).cookies@.last().auth_code@ == auth_code@
                &&& final(store).cookies@.last().origin_ip@ == old(router).ip_addr@
                &&& final(store).cookies@.last().writed_time@ == decimal(
                    old(router).unix_time as nat,
                )
                &&& final(store).cookies@.last().authed == 0
                &&& token@ == minted_token(old(router).ip_addr@, old(router).unix_time)
                &&& auth_code@ == six_digit_code(old(router).now_millis)
                &&& page == challenge_page_for(
                    old(router).local_debugging,
                    opt_view(old(router).ua),
                )
                &&& final(router).minted is Some
                &&& minted_token_of(final(router).minted) == token@
                &&& minted_code_of(final(router).minted) == auth_code@
            },
            _ => {
                &&& final(store).threads == old(store).threads
                &&& final(store).responses == old(store).responses
                &&& final(store).cookies == old(store).cookies
            },
        },
        outcome is Written && old(router).form.is_thread ==> {
            let found = first_where(
                old(store).cookies@,
                token_is(final(router).cookie->0.cookie@),
                old(store).cookies@.len() as int,
            );
            &&& found is Some
            &&& !cadence_refuses(
                last_creation(old(store).cookies@[found->0]),
                true,
                old(router).unix_time,
            )
            &&& last_creation(final(store).cookies@[found->0]) == Some(old(router).unix_time)
        },
        old(router).using_hard_min_recent_res_span_cap ==> forall|token: Seq<char>|
            writes_apart(
                old(store).responses@,
                token,
                MIN_RES_SPAN as int,
            ) ==> #[trigger] writes_apart(
                final(store).responses@,
                token,
                MIN_RES_SPAN as int,
            ),
{
    let ghost rows = store.responses@;
    let ghost now = router.unix_time;
    let ghost hard = router.using_hard_min_recent_res_span_cap;
    let step = router.start(limits);
    let step = match step {
        Step::LookUpCap { hash } => {
            let cap = store.get_cap_by_password_hash(hash.as_str());
            router.on_cap(cap, limits)
        },
        other => other,
    };
    let step = match step {
        Step::LookUpToken { token } => {
            let row = store.get_authed_token(token.as_str());
            proof {
                lemma_first_where_sound(
                    store.cookies@,
                    token_is(token@),
                    store.cookies@.len() as int,
                );
            }
            router.on_token(Ok(row), limits)
        },
        other => other,
    };
    let ghost mut span_held = false;
    let step = match step {
        Step::StoreToken { token, origin_ip, writed_time, auth_code } => {
            store.create_authed_token(
                &CreatingAuthedToken {
                    token: token.as_str(),
                    origin_ip: origin_ip.as_str(),
                    writed_time: writed_time.as_str(),
                    auth_code: auth_code.as_str(),
                },
            );
            router.on_token_stored(true)
        },
        Step::FetchRecent { cookie, since } => {
            let recent = store.get_responses_by_authed_token_and_timestamp(cookie.as_str(), since);
            proof {
                span_held = recent_span(recent@, now) >= MIN_RES_SPAN;
            }
            router.on_recent(Ok(recent))
        },
        other => other,
    };
    let step = match step {
        Step::FetchThread { board_id, thread_id } => {
            let thread = store.get_thread(board_id, thread_id.as_str());
            router.on_thread(Ok(thread))
        },
        Step::InsertThread(thread) => {
            proof {
                lemma_decimal_parses(now);
            }
            let result = store.create_thread(&thread.as_creating());
            proof {
                if hard && result == ThreadInsert::Stored {
                    assert(store.responses@ == rows.push(store.responses@.last()));
                    lemma_apart_after_write(
                        rows,
                        store.responses@.last(),
                        router.cookie->0.cookie@,
                        now,
                    );
                }
            }
            router.on_thread_stored(result)
        },
        other => other,
    };
    let step = match step {
        Step::InsertReply { reply, modulo } => {
            proof {
                lemma_decimal_parses(now);
            }
            let stored = store.create_response(&reply.as_creating(), modulo as usize);
            proof {
                if hard && stored {
                    assert(store.responses@ == rows.push(store.responses@.last()));
                    lemma_apart_after_write(
                        rows,
                        store.responses@.last(),
                        router.cookie->0.cookie@,
                        now,
                    );
                }
            }
            router.on_reply_stored(stored)
        },
        Step::RecordThreadCreation { cookie, unix_time, then } => {
            proof {
                lemma_decimal_parses(now);
            }
            let _ = store.update_authed_token_last_thread_creation(
                cookie.as_str(),
                unix_time.as_str(),
            );
            Step::Done(then)
        },
        other => other,
    };
    proof {
        if store.responses@ != rows {
            assert(store.responses@ == rows.push(store.responses@.last()));
        }
    }
    match step {
        Step::Done(outcome) => outcome,
        _ => vstd::pervasive::unreached(),
    }
}

/// Adding the response of a write that the hard cap let through keeps the
/// responses of every token five seconds or more apart.
proof fn lemma_apart_after_write(
    rows: Seq<StoredRes>,
    row: StoredRes,
    writer: Seq<char>,
    now: u64,
)
    requires
        row.res.timestamp == now,
        written_under(row, writer),
        recent_span(
            moments_of(
                rows,
                writer,
                if now >= RECENT_RES_SECONDS {
                    Some((now - RECENT_RES_SECONDS) as u64)
                } else {
                    None
                },
                rows.len() as int,
            ),
            now,
        ) >= MIN_RES_SPAN,
    ensures
        forall|token: Seq<char>|
            writes_apart(rows, token, MIN_RES_SPAN as int)
                ==> #[trigger] writes_apart(
                rows.push(row),
                token,
                MIN_RES_SPAN as int,
            ),
{
    assert forall|token: Seq<char>|
        writes_apart(
            rows,
            token,
            MIN_RES_SPAN as int,
        ) implies #[trigger] writes_apart(
        rows.push(row),
        token,
        MIN_RES_SPAN as int,
    ) by {
        if token == writer {
            lemma_hard_cap_keeps_writes_apart(rows, token, now, row);
        } else {
            let all = rows.push(row);
            assert forall|i: int, j: int|
                0 <= i < j < all.len() && written_under(
                    #[trigger] all[i],
                    token,
                ) && written_under(
                    #[trigger] all[j],
                    token,
                ) implies gap(all[i].res.timestamp, all[j].res.timestamp)
                >= MIN_RES_SPAN by {
                if j < rows.len() {
                    assert(all[i] == rows[i] && all[j] == rows[j]);
                }
            }
        }
    }
}

} // verus!
