use eddiner::board_config::{get_board_info, get_board_keys, BoardConfig, BoardKeys};
use eddiner::cap::{cap_password_hash, Cap};
use eddiner::inmemory_cache::RateLimits;
use eddiner::repositories::bbs_repository::{CreatingAuthedToken, CreatingThread};
use eddiner::repositories::memory::MemoryStore;
use eddiner::response::Ch5ResponsesFormatter;
use eddiner::routes::auth::{AuthReply, AuthStep};
use eddiner::routes::auth_code::{
    auth_code_after_captcha, auth_code_on_activated, auth_code_on_row,
};
use eddiner::routes::bbs_cgi::{ChallengePage, Refusal};
use eddiner::routes::post_router::{
    run_post, BbsCgiRouter, PostOutcome, PostRejection, PostRequest, ServerFault, Step,
    ThreadInsert,
};
use eddiner::thread::MetadentType;
use eddiner::tinker::Tinker;

const REPLY: &str =
    "submit=%8f%91%82%ab%8d%9e%82%de&bbs=liveedge&key=1666666666&FROM=&mail=&MESSAGE=hi";
const NEW_THREAD: &str = "submit=%90V%8BK%83X%83%8C%83b%83h%8D%EC%90%AC&bbs=liveedge&subject=%83e%83X%83g%91%E8%96%BC&FROM=&mail=&MESSAGE=first";

fn boards() -> (BoardKeys, Vec<BoardConfig>) {
    let keys = get_board_keys("liveedge");
    let conf = get_board_info("エッヂ,名無し", 1, "liveedge").unwrap();
    (keys, vec![conf])
}

fn request(body: &str, ip: &str, cookie: Option<&str>, unix_time: u64) -> PostRequest {
    PostRequest {
        body: body.as_bytes().to_vec(),
        client_ip: Some(ip.to_string()),
        debug_ip: None,
        host_url: "bbs.eddibb.cc".to_string(),
        ua: Some("Mozilla/5.0".to_string()),
        token_cookie: cookie.map(|c| c.to_string()),
        asn: Some(64512),
        using_hard_min_recent_res_span_cap: false,
        tinker_enabled: false,
        claimed_tinker: None,
        unix_time,
        now_millis: unix_time * 1000,
    }
}

fn store_with_thread() -> MemoryStore {
    let mut store = MemoryStore::new(3);
    let result = store.create_thread(&CreatingThread {
        title: "実況スレ",
        unix_time: "1666666666",
        body: "最初",
        name: "",
        mail: "",
        date_time: "2022/10/25(火) 11:57:46.000",
        author_ch5id: "abcdefghi",
        authed_token: "creator",
        ip_addr: "9.9.9.9",
        board_id: 1,
        metadent: MetadentType::Off,
    });
    assert_eq!(result, ThreadInsert::Stored);
    store
}

fn authed_cookie(store: &mut MemoryStore, token: &str, ip: &str) {
    store.create_authed_token(&CreatingAuthedToken {
        token,
        origin_ip: ip,
        writed_time: "1",
        auth_code: "000000",
    });
    assert!(store.update_authed_status(token, "2"));
}

fn post(
    req: PostRequest,
    store: &mut MemoryStore,
    limits: &mut RateLimits,
) -> PostOutcome {
    let (keys, confs) = boards();
    let mut router = BbsCgiRouter::new(req, &keys, &confs).unwrap();
    run_post(&mut router, store, limits)
}

#[test]
fn first_post_mints_a_pending_token() {
    let mut store = store_with_thread();
    let mut limits = RateLimits::new();
    let outcome = post(request(REPLY, "1.1.1.1", None, 1_700_000_000), &mut store, &mut limits);
    let (token, auth_code, page) = match outcome {
        PostOutcome::Challenge { token, auth_code, page } => (token, auth_code, page),
        other => panic!("{other:?}"),
    };
    assert_eq!(page, ChallengePage::Code);
    assert_eq!(token.len(), 32);
    assert!(token.chars().all(|c| c.is_ascii_hexdigit()));
    assert_eq!(token, "e3416ba39ec762ff16eea3d772b37474");
    assert_eq!(auth_code.len(), 6);
    assert!(auth_code.chars().all(|c| c.is_ascii_digit()));
    let row = store.get_authed_token(&token).unwrap();
    assert_eq!(row.cookie, token);
    assert_eq!(row.origin_ip, "1.1.1.1");
    assert_eq!(row.authed, 0);
    assert_eq!(row.auth_code, auth_code);
    assert_eq!(row.writed_time, "1700000000");
    assert_eq!(store.responses.len(), 1);
}

#[test]
fn auth_activates_the_row() {
    let mut store = store_with_thread();
    let mut limits = RateLimits::new();
    let outcome = post(request(REPLY, "1.1.1.1", None, 1_700_000_000), &mut store, &mut limits);
    let (token, auth_code) = match outcome {
        PostOutcome::Challenge { token, auth_code, .. } => (token, auth_code),
        other => panic!("{other:?}"),
    };
    let now = 1_700_000_000 + 299;
    let (ip, code) = match auth_code_after_captcha(true, "1.1.1.1", Some(&auth_code)) {
        AuthStep::LookUpCode { ip, auth_code } => (ip, auth_code),
        other => panic!("{other:?}"),
    };
    let row = store.get_authed_token_by_origin_ip_and_auth_code(&ip, &code);
    let (activated, authed_time) = match auth_code_on_row(Ok(row), now) {
        AuthStep::Activate { token, authed_time } => (token, authed_time),
        other => panic!("{other:?}"),
    };
    assert_eq!(activated, token);
    assert_eq!(authed_time, now.to_string());
    let updated = store.update_authed_status(&activated, &authed_time);
    match auth_code_on_activated(updated, &activated, true) {
        AuthReply::Succeeded { token: t, edge_token, tinker } => {
            assert_eq!(t, token);
            assert_eq!(edge_token.as_deref(), Some(token.as_str()));
            let tinker: Tinker = tinker.unwrap();
            assert_eq!(tinker.authed_token, token);
            assert_eq!(tinker.level, 0);
        }
        other => panic!("{other:?}"),
    }
    let row = store.get_authed_token(&token).unwrap();
    assert_eq!(row.authed, 1);
    assert_eq!(row.authed_time.as_deref(), Some(authed_time.as_str()));
}

#[test]
fn auth_code_expires_after_five_minutes() {
    let mut store = MemoryStore::new(1);
    store.create_authed_token(&CreatingAuthedToken {
        token: "tk",
        origin_ip: "1.1.1.1",
        writed_time: "1000",
        auth_code: "123456",
    });
    let row = || store.get_authed_token_by_origin_ip_and_auth_code("1.1.1.1", "123456");
    assert!(matches!(auth_code_on_row(Ok(row()), 1300), AuthStep::Activate { .. }));
    match auth_code_on_row(Ok(row()), 1301) {
        AuthStep::Done(AuthReply::Failed { reason }) => {
            assert_eq!(reason, "認証コードの有効期限が切れています")
        }
        other => panic!("{other:?}"),
    }
    match auth_code_on_row(Ok(None), 1000) {
        AuthStep::Done(AuthReply::Failed { reason }) => {
            assert_eq!(reason, "認証コード、もしくはIPアドレスが一致しません")
        }
        other => panic!("{other:?}"),
    }
    assert!(store.get_authed_token_by_origin_ip_and_auth_code("1.1.1.2", "123456").is_none());
    assert!(matches!(
        auth_code_after_captcha(false, "1.1.1.1", Some("123456")),
        AuthStep::Done(AuthReply::Failed { .. })
    ));
    assert!(matches!(
        auth_code_after_captcha(true, "1.1.1.1", None),
        AuthStep::Done(AuthReply::BadRequest)
    ));
}

#[test]
fn second_post_within_five_seconds_is_rejected() {
    let mut store = store_with_thread();
    authed_cookie(&mut store, "tk", "1.1.1.1");
    let mut limits = RateLimits::new();
    let first = post(request(REPLY, "1.1.1.1", Some("tk"), 100), &mut store, &mut limits);
    assert!(matches!(first, PostOutcome::Written { .. }), "{first:?}");
    assert_eq!(store.responses.len(), 2);
    let second = post(request(REPLY, "1.1.1.1", Some("tk"), 103), &mut store, &mut limits);
    match second {
        PostOutcome::Refused(refusal) => {
            assert_eq!(refusal, Refusal::TooFast);
            assert_eq!(refusal.reason(), "5秒以内の連続投稿はできません");
        }
        other => panic!("{other:?}"),
    }
    assert_eq!(store.responses.len(), 2);
}

#[test]
fn same_token_from_another_address_is_rejected_within_five_seconds() {
    let mut store = store_with_thread();
    authed_cookie(&mut store, "tk", "1.1.1.1");
    let mut limits = RateLimits::new();
    let first = post(request(REPLY, "1.1.1.1", Some("tk"), 100), &mut store, &mut limits);
    assert!(matches!(first, PostOutcome::Written { .. }));
    let second = post(request(REPLY, "2.2.2.2", Some("tk"), 104), &mut store, &mut limits);
    assert!(matches!(second, PostOutcome::Refused(Refusal::TooFast)));
    // Every attempt counts as the last write of the token.
    let third = post(request(REPLY, "3.3.3.3", Some("tk"), 109), &mut store, &mut limits);
    assert!(matches!(third, PostOutcome::Written { .. }), "{third:?}");
    assert_eq!(store.responses.len(), 3);
}

#[test]
fn reply_is_stored_and_counted() {
    let mut store = store_with_thread();
    authed_cookie(&mut store, "tk", "1.1.1.1");
    let mut limits = RateLimits::new();
    let outcome = post(
        request(REPLY, "1.1.1.1", Some("tk"), 1_700_000_000),
        &mut store,
        &mut limits,
    );
    match outcome {
        PostOutcome::Written { edge_token, tinker } => {
            assert_eq!(edge_token, None);
            assert!(tinker.is_none());
        }
        other => panic!("{other:?}"),
    }
    let thread = store.get_thread(1, "1666666666").unwrap();
    assert_eq!(thread.response_count, 2);
    assert_eq!(thread.last_modified, "1700000000");
    assert_eq!(thread.active, 1);
    let responses = store.get_responses(1, "1666666666", thread.modulo as usize);
    assert_eq!(responses.len(), 2);
    let reply = &responses[1];
    assert_eq!(reply.body, "hi");
    assert_eq!(reply.name.as_deref(), Some(""));
    assert_eq!(reply.date, "2023/11/15(水) 07:13:20.000");
    assert_eq!(reply.author_id.as_deref(), Some("KAtr/rXFI"));
    assert_eq!(reply.authed_token.as_deref(), Some("tk"));
    assert_eq!(reply.ip_addr, "1.1.1.1");
    assert_eq!(reply.timestamp, 1_700_000_000);
}

#[test]
fn new_thread_is_stored_with_its_first_response() {
    let mut store = MemoryStore::new(3);
    authed_cookie(&mut store, "tk", "1.1.1.1");
    let mut limits = RateLimits::new();
    let outcome = post(
        request(NEW_THREAD, "1.1.1.1", Some("tk"), 1_700_000_000),
        &mut store,
        &mut limits,
    );
    assert!(matches!(outcome, PostOutcome::Written { .. }), "{outcome:?}");
    let thread = store.get_thread(1, "1700000000").unwrap();
    assert_eq!(thread.title, "テスト題名");
    assert_eq!(thread.response_count, 1);
    assert_eq!(thread.active, 1);
    assert_eq!(thread.archived, 0);
    assert_eq!(thread.modulo, (1_700_000_000u64 % 3) as u32);
    let responses = store.get_responses(1, "1700000000", thread.modulo as usize);
    assert_eq!(responses.len(), 1);
    assert_eq!(responses[0].body, "first");
    let row = store.get_authed_token("tk").unwrap();
    assert_eq!(row.last_thread_creation.as_deref(), Some("1700000000"));
}

#[test]
fn threads_are_two_minutes_apart() {
    let mut store = MemoryStore::new(3);
    authed_cookie(&mut store, "tk", "1.1.1.1");
    let mut limits = RateLimits::new();
    let t0 = 1_700_000_000;
    let first = post(request(NEW_THREAD, "1.1.1.1", Some("tk"), t0), &mut store, &mut limits);
    assert!(matches!(first, PostOutcome::Written { .. }));
    let soon = post(request(NEW_THREAD, "1.1.1.1", Some("tk"), t0 + 119), &mut store, &mut limits);
    assert!(matches!(soon, PostOutcome::Refused(Refusal::TooManyThreads)), "{soon:?}");
    let later = post(request(NEW_THREAD, "1.1.1.1", Some("tk"), t0 + 239), &mut store, &mut limits);
    assert!(matches!(later, PostOutcome::Written { .. }), "{later:?}");
    assert_eq!(store.threads.len(), 2);
}

#[test]
fn two_threads_in_one_second_give_one_thread() {
    let mut store = MemoryStore::new(3);
    authed_cookie(&mut store, "a", "1.1.1.1");
    authed_cookie(&mut store, "b", "2.2.2.2");
    let mut limits = RateLimits::new();
    let t0 = 1_700_000_000;
    let first = post(request(NEW_THREAD, "1.1.1.1", Some("a"), t0), &mut store, &mut limits);
    assert!(matches!(first, PostOutcome::Written { .. }));
    let second = post(request(NEW_THREAD, "2.2.2.2", Some("b"), t0), &mut store, &mut limits);
    match second {
        PostOutcome::Refused(refusal) => {
            assert_eq!(refusal.reason(), "同じ時間に既にスレッドが立っています")
        }
        other => panic!("{other:?}"),
    }
    assert_eq!(store.threads.len(), 1);
    assert_eq!(store.responses.len(), 1);
}

#[test]
fn hard_cap_looks_at_recent_responses() {
    let mut store = store_with_thread();
    authed_cookie(&mut store, "tk", "1.1.1.1");
    let t0 = 1_700_000_000;
    let mut limits = RateLimits::new();
    let first = post(request(REPLY, "1.1.1.1", Some("tk"), t0), &mut store, &mut limits);
    assert!(matches!(first, PostOutcome::Written { .. }));
    // The in-process cache is lost on a restart; the hard cap is not.
    let mut limits = RateLimits::new();
    let mut req = request(REPLY, "1.1.1.1", Some("tk"), t0 + 4);
    req.using_hard_min_recent_res_span_cap = true;
    let second = post(req, &mut store, &mut limits);
    assert!(matches!(second, PostOutcome::Refused(Refusal::TooFast)), "{second:?}");
    let mut limits = RateLimits::new();
    let mut req = request(REPLY, "1.1.1.1", Some("tk"), t0 + 5);
    req.using_hard_min_recent_res_span_cap = true;
    let third = post(req, &mut store, &mut limits);
    assert!(matches!(third, PostOutcome::Written { .. }), "{third:?}");
}

#[test]
fn replies_to_missing_or_stopped_threads_are_refused() {
    let mut store = MemoryStore::new(3);
    authed_cookie(&mut store, "tk", "1.1.1.1");
    let mut limits = RateLimits::new();
    let outcome = post(request(REPLY, "1.1.1.1", Some("tk"), 100), &mut store, &mut limits);
    assert!(matches!(outcome, PostOutcome::Refused(Refusal::NoSuchThread)));
    let mut store = store_with_thread();
    authed_cookie(&mut store, "tk", "1.1.1.1");
    store.threads[0].active = 0;
    let mut limits = RateLimits::new();
    let outcome = post(request(REPLY, "1.1.1.1", Some("tk"), 100), &mut store, &mut limits);
    assert!(matches!(outcome, PostOutcome::Refused(Refusal::ThreadStopped)));
    assert_eq!(store.responses.len(), 1);
    store.threads[0].active = 1;
    store.threads[0].archived = 1;
    let outcome = post(request(REPLY, "1.1.1.1", Some("tk"), 200), &mut store, &mut limits);
    assert!(matches!(outcome, PostOutcome::Refused(Refusal::ThreadStopped)));
    assert_eq!(store.responses.len(), 1);
}

#[test]
fn thread_stops_at_a_thousand_responses() {
    let mut store = store_with_thread();
    authed_cookie(&mut store, "tk", "1.1.1.1");
    store.threads[0].response_count = 998;
    let mut limits = RateLimits::new();
    let outcome = post(request(REPLY, "1.1.1.1", Some("tk"), 100), &mut store, &mut limits);
    assert!(matches!(outcome, PostOutcome::Written { .. }));
    assert_eq!(store.threads[0].response_count, 999);
    assert_eq!(store.threads[0].active, 1);
    let outcome = post(request(REPLY, "1.1.1.1", Some("tk"), 200), &mut store, &mut limits);
    assert!(matches!(outcome, PostOutcome::Written { .. }));
    assert_eq!(store.threads[0].response_count, 1000);
    assert_eq!(store.threads[0].active, 0);
    let outcome = post(request(REPLY, "1.1.1.1", Some("tk"), 300), &mut store, &mut limits);
    assert!(matches!(outcome, PostOutcome::Refused(Refusal::ThreadStopped)));
}

#[test]
fn old_domain_and_auth_attempts_are_refused() {
    let mut store = store_with_thread();
    let mut limits = RateLimits::new();
    let mut req = request(REPLY, "1.1.1.1", None, 100);
    req.host_url = "edge.edgebb.workers.dev".to_string();
    let outcome = post(req, &mut store, &mut limits);
    assert!(matches!(outcome, PostOutcome::Refused(Refusal::OldDomain)));
    assert_eq!(store.cookies.len(), 0);
    for i in 0..3 {
        let outcome = post(request(REPLY, "1.1.1.1", None, 200 + 10 * i), &mut store, &mut limits);
        assert!(matches!(outcome, PostOutcome::Challenge { .. }), "{outcome:?}");
    }
    let outcome = post(request(REPLY, "1.1.1.1", None, 300), &mut store, &mut limits);
    assert!(matches!(outcome, PostOutcome::Refused(Refusal::TooManyAuthAttempts)));
    assert_eq!(store.cookies.len(), 3);
}

#[test]
fn challenge_page_follows_the_client() {
    let mut store = store_with_thread();
    let mut limits = RateLimits::new();
    let mut req = request(REPLY, "1.1.1.1", None, 100);
    req.ua = Some("Monazilla/1.00 2chMate/0.8.10.174".to_string());
    let outcome = post(req, &mut store, &mut limits);
    assert!(matches!(outcome, PostOutcome::Challenge { page: ChallengePage::BrowserToken, .. }));
    let mut req = request(REPLY, "5.5.5.5", None, 100);
    req.client_ip = None;
    req.debug_ip = Some("127.0.0.1".to_string());
    let outcome = post(req, &mut store, &mut limits);
    assert!(matches!(outcome, PostOutcome::Challenge { page: ChallengePage::Local, .. }));
}

#[test]
fn cap_grants_suffix_and_masks_the_id() {
    let mut store = store_with_thread();
    authed_cookie(&mut store, "tk", "1.1.1.1");
    store.caps.push(Cap {
        id: 1,
        cap_name: "管理人".to_string(),
        cap_password_hash: cap_password_hash("pw"),
    });
    let mut limits = RateLimits::new();
    let body = "submit=%8f%91%82%ab%8d%9e%82%de&bbs=liveedge&key=1666666666&FROM=mod&mail=sage%23%40pw&MESSAGE=hi";
    let outcome = post(request(body, "1.1.1.1", Some("tk"), 100), &mut store, &mut limits);
    assert!(matches!(outcome, PostOutcome::Written { .. }), "{outcome:?}");
    let reply = &store.responses[1].res;
    assert_eq!(reply.name.as_deref(), Some("mod★ 管理人"));
    assert_eq!(reply.author_id.as_deref(), Some("????"));
    assert_eq!(reply.mail.as_deref(), Some("sage"));
}

#[test]
fn tinker_is_updated_and_shown_in_metadent_threads() {
    let mut store = store_with_thread();
    store.threads[0].metadent = Some("v".to_string());
    authed_cookie(&mut store, "tk", "1.1.1.1");
    let mut limits = RateLimits::new();
    let mut claimed = Tinker::new("tk".to_string());
    claimed.level = 3;
    claimed.wrote_count = 9;
    claimed.last_wrote_at = 50;
    claimed.last_level_up_at = 50;
    let mut req = request(REPLY, "1.1.1.1", Some("tk"), 100_000);
    req.tinker_enabled = true;
    req.claimed_tinker = Some(claimed);
    match post(req, &mut store, &mut limits) {
        PostOutcome::Written { tinker, .. } => {
            let tinker = tinker.unwrap();
            assert_eq!(tinker.wrote_count, 10);
            assert_eq!(tinker.level, 4);
            assert_eq!(tinker.last_wrote_at, 100_000);
        }
        other => panic!("{other:?}"),
    }
    assert_eq!(store.responses[1].res.name.as_deref(), Some("名無し </b>(L4)<b>"));
    // A claim of another token is not taken over.
    let mut stolen = Tinker::new("other".to_string());
    stolen.level = 20;
    let mut req = request(REPLY, "1.1.1.1", Some("tk"), 200_000);
    req.tinker_enabled = true;
    req.claimed_tinker = Some(stolen);
    match post(req, &mut store, &mut limits) {
        PostOutcome::Written { tinker, .. } => assert_eq!(tinker.unwrap().level, 1),
        other => panic!("{other:?}"),
    }
}

#[test]
fn requests_are_admitted_or_rejected() {
    let (keys, confs) = boards();
    let mut req = request(REPLY, "1.1.1.1", None, 100);
    req.client_ip = None;
    assert!(matches!(BbsCgiRouter::new(req, &keys, &confs), Err(PostRejection::NoClientIp)));
    let req = request("x", "1.1.1.1", None, 100);
    assert!(matches!(BbsCgiRouter::new(req, &keys, &confs), Err(PostRejection::BadForm)));
    let long = format!("{REPLY}{}", "a".repeat(5000));
    let req = request(&long, "1.1.1.1", None, 100);
    match BbsCgiRouter::new(req, &keys, &confs) {
        Err(PostRejection::Invalid(reason)) => assert_eq!(reason, "本文が長すぎます"),
        _ => panic!(),
    }
    let other = REPLY.replace("liveedge", "nosuch");
    let req = request(&other, "1.1.1.1", None, 100);
    assert!(matches!(BbsCgiRouter::new(req, &keys, &confs), Err(PostRejection::NoSuchBoard)));
    let req = request(REPLY, "1.1.1.1", None, 100);
    let router = BbsCgiRouter::new(req, &keys, &confs).ok().unwrap();
    assert_eq!(router.board_id, 1);
    assert_eq!(router.default_name, "名無し");
    assert_eq!(router.asn, 64512);
    assert!(!router.local_debugging);
}

#[test]
fn failed_lookups_are_server_errors() {
    let (keys, confs) = boards();
    let mut limits = RateLimits::new();
    let mut router =
        BbsCgiRouter::new(request(REPLY, "1.1.1.1", Some("tk"), 100), &keys, &confs).ok().unwrap();
    match router.start(&mut limits) {
        Step::LookUpToken { token } => assert_eq!(token, "tk"),
        other => panic!("{other:?}"),
    }
    match router.on_token(Err(()), &mut limits) {
        Step::Done(PostOutcome::ServerError(fault)) => {
            assert_eq!(fault, ServerFault::CheckAuth);
            assert_eq!(fault.message(), "internal server error - check auth");
        }
        other => panic!("{other:?}"),
    }
    assert!(matches!(
        router.on_thread(Err(())),
        Step::Done(PostOutcome::ServerError(ServerFault::GetThread))
    ));
    assert!(matches!(
        router.on_thread_stored(ThreadInsert::Failed),
        Step::Done(PostOutcome::ServerError(ServerFault::InsertThread))
    ));
    assert!(matches!(
        router.on_reply_stored(false),
        Step::Done(PostOutcome::ServerError(ServerFault::InsertReply))
    ));
    assert!(matches!(
        router.on_token_stored(false),
        Step::Done(PostOutcome::ServerError(ServerFault::StoreToken))
    ));
}

#[test]
fn failed_fetch_of_recent_responses_is_a_server_error() {
    let (keys, confs) = boards();
    let mut store = store_with_thread();
    authed_cookie(&mut store, "tk", "1.1.1.1");
    let mut limits = RateLimits::new();
    let mut req = request(REPLY, "1.1.1.1", Some("tk"), 100);
    req.using_hard_min_recent_res_span_cap = true;
    let mut router = BbsCgiRouter::new(req, &keys, &confs).ok().unwrap();
    assert!(matches!(router.start(&mut limits), Step::LookUpToken { .. }));
    match router.on_token(Ok(store.get_authed_token("tk")), &mut limits) {
        Step::FetchRecent { cookie, since } => {
            assert_eq!(cookie, "tk");
            assert_eq!(since, Some(60));
        }
        other => panic!("{other:?}"),
    }
    assert!(matches!(
        router.on_recent(Err(())),
        Step::Done(PostOutcome::ServerError(ServerFault::RecentResponses))
    ));
}

#[test]
fn a_moment_beyond_the_calendar_is_a_server_error() {
    let mut store = store_with_thread();
    authed_cookie(&mut store, "tk", "1.1.1.1");
    let mut limits = RateLimits::new();
    let mut req = request(REPLY, "1.1.1.1", Some("tk"), 100);
    req.now_millis = u64::MAX;
    let outcome = post(req, &mut store, &mut limits);
    assert!(matches!(outcome, PostOutcome::ServerError(ServerFault::Clock)), "{outcome:?}");
    assert_eq!(store.responses.len(), 1);
}

#[test]
fn first_response_carries_the_title_of_its_thread() {
    let mut store = MemoryStore::new(3);
    authed_cookie(&mut store, "tk", "1.1.1.1");
    let mut limits = RateLimits::new();
    let body = "submit=%90V%8BK%83X%83%8C%83b%83h%8D%EC%90%AC&bbs=liveedge&subject=%3Cb%3E%83e%83X%83g%26%2310%3B&FROM=&mail=&MESSAGE=first";
    let outcome = post(request(body, "1.1.1.1", Some("tk"), 1_700_000_000), &mut store, &mut limits);
    assert!(matches!(outcome, PostOutcome::Written { .. }), "{outcome:?}");
    let thread = store.get_thread(1, "1700000000").unwrap();
    assert_eq!(thread.title, "&lt;b&gt;テスト");
    assert!(thread.response_count >= 1);
    let responses = store.get_responses(1, "1700000000", thread.modulo as usize);
    let dat = responses.format_responses(&thread.title, "名無し");
    assert!(dat.lines().next().unwrap().ends_with("<>&lt;b&gt;テスト"));
}
