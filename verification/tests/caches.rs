use eddiner::board_config::{board_key_names, find_board, get_board_info, get_board_keys};
use eddiner::cookies::{cookie_from_header, get_tinker_token_cookies, get_token_cookies};
use eddiner::inmemory_cache::RateLimits;
use eddiner::repositories::bbs_repository::{
    count_reply, reconcile_count, thread_row, CreatingThread,
};
use eddiner::repositories::responses_cache::{cache_key_of, ResponsesCache};
use eddiner::response::Res;
use eddiner::routes::head_txt::route_head_txt;
use eddiner::routes::setting_txt::route_setting_txt;
use eddiner::routes::subject_txt::{route_subject_txt, subject_order};
use eddiner::board::Board;
use eddiner::thread::{MetadentType, Thread};
use eddiner::utils::{
    cache_control_value, check_webui_disabled, get_unix_timestamp_sec, hard_cap_enabled,
    response_shift_jis_text_html, response_shift_jis_text_plain,
    response_shift_jis_text_plain_with_cache,
};

#[test]
fn writes_within_five_seconds_are_rejected() {
    let mut limits = RateLimits::new();
    assert!(!limits.maybe_reject_ip("1.1.1.1", 100_000));
    assert!(limits.maybe_reject_ip("1.1.1.1", 104_999));
    // The rejected attempt is on record too.
    assert!(limits.maybe_reject_ip("1.1.1.1", 109_000));
    assert!(!limits.maybe_reject_ip("1.1.1.1", 114_000));
    assert!(!limits.maybe_reject_ip("2.2.2.2", 114_001));
    assert!(limits.maybe_reject_ip("1.1.1.1", 113_000));
    assert!(!limits.maybe_reject_cookie("1.1.1.1", 113_001));
    assert!(limits.maybe_reject_cookie("1.1.1.1", 118_000));
    assert!(!limits.maybe_reject_cookie("1.1.1.1", 123_000));
}

#[test]
fn auth_attempts_are_counted_from_zero() {
    let mut limits = RateLimits::new();
    assert_eq!(limits.n_recent_auth("1.1.1.1"), 0);
    assert_eq!(limits.n_recent_auth("1.1.1.1"), 1);
    assert_eq!(limits.n_recent_auth("2.2.2.2"), 0);
    assert_eq!(limits.n_recent_auth("1.1.1.1"), 2);
    assert_eq!(limits.n_recent_auth("1.1.1.1"), 3);
}

fn res(body: &str) -> Res {
    Res {
        name: None,
        mail: None,
        date: String::new(),
        author_id: None,
        body: body.to_string(),
        thread_id: "1".to_string(),
        ip_addr: String::new(),
        authed_token: None,
        timestamp: 0,
        is_abone: 0,
    }
}

#[test]
fn responses_are_cached_for_a_second() {
    let mut cache = ResponsesCache::new();
    assert!(cache.get_responses_cache(1, "1666666666", 0, 10_000).is_none());
    cache.put_responses_cache(1, "1666666666", 0, vec![res("a")], 10_000);
    assert_eq!(cache.get_responses_cache(1, "1666666666", 0, 10_000).unwrap()[0].body, "a");
    assert_eq!(cache.get_responses_cache(1, "1666666666", 0, 11_000).unwrap().len(), 1);
    assert!(cache.get_responses_cache(1, "1666666666", 0, 11_001).is_none());
    assert!(cache.get_responses_cache(1, "1666666666", 1, 10_000).is_none());
    assert!(cache.get_responses_cache(2, "1666666666", 0, 10_000).is_none());
    assert!(cache.get_responses_cache(1, "1666666667", 0, 10_000).is_none());
    cache.put_responses_cache(1, "1666666666", 0, vec![res("b"), res("c")], 10_500);
    assert_eq!(cache.get_responses_cache(1, "1666666666", 0, 11_400).unwrap().len(), 2);
}

#[test]
fn cache_is_emptied_every_five_minutes() {
    let mut cache = ResponsesCache::new();
    cache.put_responses_cache(1, "a", 0, vec![res("a")], 0);
    cache.put_responses_cache(1, "b", 0, vec![res("b")], 300_000);
    assert!(cache.get_responses_cache(1, "b", 0, 300_000).is_some());
    cache.put_responses_cache(1, "c", 0, vec![res("c")], 300_001);
    assert!(cache.get_responses_cache(1, "b", 0, 300_001).is_none());
    assert!(cache.get_responses_cache(1, "c", 0, 300_001).is_some());
    assert_eq!(cache_key_of(1, "1666666666", 2), "1/1666666666/2");
}

fn thread(number: &str, last_modified: &str, count: u32) -> Thread {
    Thread {
        title: format!("t{number}"),
        response_count: count,
        thread_number: number.to_string(),
        last_modified: last_modified.to_string(),
        board_id: 1,
        non_auth_thread: 0,
        archived: 0,
        active: 1,
        metadent: None,
        no_pool: 0,
        modulo: 0,
    }
}

#[test]
fn subject_txt_lists_the_last_changed_first() {
    let threads = vec![
        thread("1", "100", 1),
        thread("2", "300", 2),
        thread("3", "200", 3),
        thread("4", "300", 4),
        thread("5", "x", 5),
    ];
    assert_eq!(subject_order(&threads), vec![1, 3, 2, 0, 4]);
    assert_eq!(
        route_subject_txt(&threads),
        "2.dat<>t2 (2)\n4.dat<>t4 (4)\n3.dat<>t3 (3)\n1.dat<>t1 (1)\n5.dat<>t5 (5)\n"
    );
    assert_eq!(route_subject_txt(&vec![]), "");
}

#[test]
fn subject_txt_leaves_archived_threads_out() {
    let mut archived = thread("9", "999", 9);
    archived.archived = 1;
    let threads = vec![thread("1", "100", 1), archived, thread("2", "300", 2)];
    assert_eq!(route_subject_txt(&threads), "2.dat<>t2 (2)\n1.dat<>t1 (1)\n");
}

#[test]
fn setting_txt() {
    let conf = get_board_info("エッヂ,名無し,rest", 1, "liveedge").unwrap();
    let text = route_setting_txt(&conf);
    assert!(text.starts_with(
        "liveedge@liveedge\nBBS_TITLE=エッヂ\nBBS_TITLE_ORIG=エッヂ\nBBS_NONAME_NAME=名無し\nBBS_TITLE_COLOR=#000000\n"
    ));
    assert!(text.contains("\nBBS_SUBJECT_COUNT=96\nBBS_NAME_COUNT=64\nBBS_MAIL_COUNT=64\nBBS_MESSAGE_COUNT=4096\n"));
    assert!(text.ends_with("\nBBS_USE_VIPQ2=16\n                "));
    assert_eq!(text.lines().count(), 42);
}

#[test]
fn head_txt() {
    let board = Board {
        id: 1,
        board_key: Some("liveedge".to_string()),
        name: "エッヂ".to_string(),
        local_rule: "rule".to_string(),
    };
    assert_eq!(route_head_txt(Ok(Some(board))).as_deref(), Some("rule"));
    assert_eq!(route_head_txt(Ok(None)), None);
    assert_eq!(route_head_txt(Err(())), None);
}

#[test]
fn board_keys_and_infos_from_settings() {
    assert_eq!(board_key_names("liveedge,news"), vec!["liveedge", "news"]);
    assert_eq!(board_key_names(""), vec![""]);
    let keys = get_board_keys("liveedge,news,liveedge");
    assert_eq!(keys.get("news"), Some(2));
    assert_eq!(keys.get("liveedge"), Some(3));
    assert_eq!(keys.get("other"), None);
    assert!(get_board_info("title", 1, "k").is_none());
    assert!(get_board_info("", 1, "k").is_none());
    let conf = get_board_info("title,name", 7, "k").unwrap();
    assert_eq!((conf.board_id, conf.board_key.as_str()), (7, "k"));
    assert_eq!((conf.title.as_str(), conf.default_name.as_str()), ("title", "name"));
    let boards = vec![get_board_info("a,b", 1, "x").unwrap(), conf];
    assert_eq!(find_board(&boards, 7), Some(1));
    assert_eq!(find_board(&boards, 2), None);
}

#[test]
fn cookies_are_found_by_name() {
    let header = "a=1; edge-token=abc; tinker-token=x.y.z; edge-token=second";
    assert_eq!(get_token_cookies(Some(header)).as_deref(), Some("abc"));
    assert_eq!(get_tinker_token_cookies(Some(header)).as_deref(), Some("x.y.z"));
    assert_eq!(cookie_from_header(Some(header), "a").as_deref(), Some("1"));
    assert_eq!(cookie_from_header(Some(header), "b"), None);
    assert_eq!(get_token_cookies(Some("broken; ;edge-token = v ")).as_deref(), Some("v"));
    assert_eq!(get_token_cookies(Some("")), None);
    assert_eq!(get_token_cookies(None), None);
}

#[test]
fn rows_of_new_threads_and_replies() {
    let creating = CreatingThread {
        title: "t",
        unix_time: "1700000000",
        body: "b",
        name: "n",
        mail: "m",
        date_time: "d",
        author_ch5id: "i",
        authed_token: "tk",
        ip_addr: "1.1.1.1",
        board_id: 1,
        metadent: MetadentType::VVerbose,
    };
    let row = thread_row(&creating, 3).unwrap();
    assert_eq!(row.response_count, 1);
    assert_eq!((row.active, row.archived), (1, 0));
    assert_eq!(row.modulo, 2);
    assert_eq!(row.metadent.as_deref(), Some("vv"));
    assert_eq!(row.metadent_type(), MetadentType::VVerbose);
    assert_eq!(row.thread_number, "1700000000");
    assert_eq!(row.last_modified, "1700000000");
    let mut bad = creating.clone();
    bad.unix_time = "soon";
    assert!(thread_row(&bad, 3).is_none());
    let replied = count_reply(&row, "1700000001");
    assert_eq!(replied.response_count, 2);
    assert_eq!(replied.last_modified, "1700000001");
    assert_eq!(replied.active, 1);
    let mut full = row.copy();
    full.response_count = 999;
    assert_eq!(count_reply(&full, "1").active, 0);
    full.response_count = u32::MAX;
    assert_eq!(count_reply(&full, "1").response_count, u32::MAX);
}

#[test]
fn sweep_corrects_long_threads_only() {
    assert_eq!(reconcile_count(100, 99), Some(99));
    assert_eq!(reconcile_count(100, 100), None);
    assert_eq!(reconcile_count(99, 5), None);
    assert_eq!(reconcile_count(1000, 1001), Some(1001));
}

#[test]
fn response_helpers() {
    assert_eq!(response_shift_jis_text_plain("テスト").unwrap(), vec![0x83, 0x65, 0x83, 0x58, 0x83, 0x67]);
    assert_eq!(response_shift_jis_text_html("abc".to_string()).unwrap(), b"abc");
    let (body, cache) = response_shift_jis_text_plain_with_cache("a", 86400).unwrap();
    assert_eq!((body.as_slice(), cache.as_str()), (&b"a"[..], "s-maxage=86400"));
    assert_eq!(cache_control_value(1), "s-maxage=1");
    assert_eq!(cache_control_value(3600), "s-maxage=3600");
    assert_eq!(get_unix_timestamp_sec(1_700_000_000_999), 1_700_000_000);
    assert!(check_webui_disabled(Some("false")));
    assert!(!check_webui_disabled(Some("true")));
    assert!(!check_webui_disabled(None));
    assert!(eddiner::utils::on_retired_domain("edge.edgebb.workers.dev"));
    assert!(!eddiner::utils::on_retired_domain("bbs.eddibb.cc"));
    assert!(hard_cap_enabled(Some("true")));
    assert!(!hard_cap_enabled(Some("TRUE")));
    assert!(!hard_cap_enabled(None));
}
