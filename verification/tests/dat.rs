use eddiner::response::{Ch5ResponsesFormatter, Res};
use eddiner::routes::dat_routing::{
    archive_object_key, client_follows_archive, dat_file, dat_reply, is_not_modified, kako_path,
    mate_is_recent, on_dat_thread, read_range_start, render_dat, DatFault, DatReply, DatRequest,
    DatStep,
};
use eddiner::thread::Thread;
use eddiner::utils::response_shift_jis_text_plain;

fn thread(last_modified: &str, active: u32) -> Thread {
    Thread {
        title: "題".to_string(),
        response_count: 1,
        thread_number: "1666666666".to_string(),
        last_modified: last_modified.to_string(),
        board_id: 1,
        non_auth_thread: 0,
        archived: 0,
        active,
        metadent: None,
        no_pool: 0,
        modulo: 1,
    }
}

fn res(body: &str) -> Res {
    Res {
        name: None,
        mail: None,
        date: "d".to_string(),
        author_id: Some("i".to_string()),
        body: body.to_string(),
        thread_id: "1666666666".to_string(),
        ip_addr: "1.1.1.1".to_string(),
        authed_token: None,
        timestamp: 0,
        is_abone: 0,
    }
}

fn request(ua: Option<&str>, range: Option<&str>, since: Option<&str>) -> DatRequest {
    DatRequest {
        board_id: 1,
        board_key: "liveedge".to_string(),
        default_name: "名無し".to_string(),
        thread_id: "1666666666".to_string(),
        range: range.map(|s| s.to_string()),
        if_modified_since: since.map(|s| s.to_string()),
        ua: ua.map(|s| s.to_string()),
        host: "bbs.eddibb.cc".to_string(),
        has_bucket: false,
    }
}

#[test]
fn conditional_get_is_answered_with_304() {
    // 1700000000 is 2023/11/15 07:13:20 in Japan.
    let req = request(None, None, Some("2023/11/15 07:13:20"));
    let step = on_dat_thread(&req, Ok(Some(thread("1700000000", 1))));
    assert!(matches!(step, DatStep::Done(DatReply::NotModified)), "{step:?}");
    assert!(is_not_modified(Some("2023/11/15 07:13:21"), "1700000000"));
    assert!(!is_not_modified(Some("2023/11/15 07:13:19"), "1700000000"));
}

#[test]
fn conditional_get_takes_the_header_as_japan_time() {
    // The same wall-clock reading in UTC lies nine hours before the change.
    assert!(!is_not_modified(Some("2023/11/14 22:13:20"), "1700000000"));
    assert!(!is_not_modified(None, "1700000000"));
    assert!(!is_not_modified(Some("Wed, 15 Nov 2023 07:13:20 GMT"), "1700000000"));
    assert!(!is_not_modified(Some("2023/11/15 07:13:20"), "not a number"));
    let req = request(None, None, Some("2023/11/14 22:13:20"));
    match on_dat_thread(&req, Ok(Some(thread("1700000000", 1)))) {
        DatStep::FetchResponses { board_id, thread_id, modulo } => {
            assert_eq!((board_id, thread_id.as_str(), modulo), (1, "1666666666", 1));
        }
        other => panic!("{other:?}"),
    }
}

#[test]
fn dat_range() {
    let req = request(Some("ThreadMaster/1.0"), Some("bytes=10-"), None);
    let responses = vec![res("body")];
    let rendered = responses.format_responses("題", "名無し");
    let whole = response_shift_jis_text_plain(&rendered).unwrap();
    match render_dat(&req, &thread("1700000000", 1), Ok(responses)) {
        DatReply::Partial { body, full, max_age } => {
            assert_eq!(full, whole);
            assert_eq!(body, whole[10..].to_vec());
            assert_eq!(max_age, 1);
        }
        other => panic!("{other:?}"),
    }
}

#[test]
fn dat_whole_file() {
    let bytes = vec![
        150, 188, 150, 179, 130, 181, 60, 62, 60, 62, 100, 32, 73, 68, 58, 105, 60, 62, 32, 98,
        111, 100, 121, 60, 62, 145, 232, 10,
    ];
    for (ua, range) in [
        (Some("2chMate/0.8"), Some("bytes=10-")),
        (Some("Xeno/1"), Some("bytes=10-")),
        (None, Some("bytes=10-")),
        (Some("ThreadMaster/1.0"), None),
        (Some("ThreadMaster/1.0"), Some("bytes")),
    ] {
        let req = request(ua, range, None);
        match render_dat(&req, &thread("1700000000", 1), Ok(vec![res("body")])) {
            DatReply::Full { body, max_age } => {
                assert_eq!(body, bytes);
                assert_eq!(max_age, 1);
            }
            other => panic!("{other:?}"),
        }
    }
    let req = request(None, None, None);
    match render_dat(&req, &thread("1700000000", 0), Ok(vec![res("body")])) {
        DatReply::Full { max_age, .. } => assert_eq!(max_age, 3600),
        other => panic!("{other:?}"),
    }
}

#[test]
fn dat_range_edges() {
    assert_eq!(read_range_start("bytes=10-"), Some(Some(10)));
    assert_eq!(read_range_start("bytes=10-20"), Some(Some(10)));
    assert_eq!(read_range_start("bytes=0"), Some(Some(0)));
    assert_eq!(read_range_start("bytes=-5"), Some(None));
    assert_eq!(read_range_start("bytes=x-"), Some(None));
    assert_eq!(read_range_start("bytes="), Some(None));
    assert_eq!(read_range_start("bytes"), None);
    assert!(matches!(
        dat_reply("abc", 1, Some("bytes=x-"), Some("Siki")),
        DatReply::BadRequest
    ));
    match dat_reply("abc", 1, Some("bytes=3-"), Some("Siki")) {
        DatReply::Partial { body, full, .. } => {
            assert!(body.is_empty());
            assert_eq!(full, b"abc");
        }
        other => panic!("{other:?}"),
    }
    match dat_reply("abc", 1, Some("bytes=99-"), Some("Siki")) {
        DatReply::Partial { body, .. } => assert!(body.is_empty()),
        other => panic!("{other:?}"),
    }
}

#[test]
fn dat_on_the_old_domain_carries_the_notice() {
    let text = dat_file("題", vec![res("a"), res("b")], "名無し", "edge.edgebb.workers.dev");
    let lines: Vec<&str> = text.lines().collect();
    assert_eq!(lines.len(), 2);
    assert!(lines[0].starts_with("名無し<><>d ID:i<> a<br><br> 【以下運営からのメッセージ】"));
    assert!(lines[0].ends_with("旧ドメインからの新規認証は終了しました。<>題"));
    assert_eq!(lines[1], "名無し<><>d ID:i<> b<>");
    assert_eq!(dat_file("題", vec![], "名無し", "edge.edgebb.workers.dev"), "");
    assert_eq!(
        dat_file("題", vec![res("a")], "名無し", "bbs.eddibb.cc"),
        "名無し<><>d ID:i<> a<>題\n"
    );
}

#[test]
fn dat_render_is_stable() {
    let req = request(None, None, None);
    let once = render_dat(&req, &thread("1", 1), Ok(vec![res("a\nb"), res("c")]));
    let twice = render_dat(&req, &thread("1", 1), Ok(vec![res("a\nb"), res("c")]));
    match (once, twice) {
        (DatReply::Full { body: a, .. }, DatReply::Full { body: b, .. }) => assert_eq!(a, b),
        _ => panic!(),
    }
}

#[test]
fn missing_threads_fall_back_to_the_archive() {
    let mut req = request(Some("Mozilla/5.0"), None, None);
    assert!(matches!(on_dat_thread(&req, Ok(None)), DatStep::Done(DatReply::NotFound)));
    req.has_bucket = true;
    match on_dat_thread(&req, Ok(None)) {
        DatStep::Done(DatReply::ServeArchive { key }) => {
            assert_eq!(key, "liveedge/dat/1666666666.dat")
        }
        other => panic!("{other:?}"),
    }
    req.ua = Some("Siki/1.0".to_string());
    match on_dat_thread(&req, Ok(None)) {
        DatStep::Done(DatReply::Redirect { location }) => {
            assert_eq!(location, "/liveedge/kako/1666/16666/1666666666.dat")
        }
        other => panic!("{other:?}"),
    }
    assert!(matches!(
        on_dat_thread(&req, Err(())),
        DatStep::Done(DatReply::ServerError(DatFault::GetThread))
    ));
    assert!(matches!(
        render_dat(&req, &thread("1", 1), Err(())),
        DatReply::ServerError(DatFault::GetResponses)
    ));
    assert_eq!(DatFault::GetThread.message(), "internal server error - get thread");
}

#[test]
fn archive_paths() {
    assert_eq!(kako_path("liveedge", "1666666666"), "/liveedge/kako/1666/16666/1666666666.dat");
    assert_eq!(kako_path("b", "abc"), "/b/kako/abc/abc/abc.dat");
    assert_eq!(archive_object_key("b", "123"), "b/dat/123.dat");
}

#[test]
fn clients_that_follow_archive_redirects() {
    for ua in ["Siki/1", "twinkle/2", "Xeno/1.0", "mae2c/3"] {
        assert!(client_follows_archive(Some(ua)), "{ua}");
    }
    assert!(!client_follows_archive(Some("Mozilla/5.0")));
    assert!(!client_follows_archive(None));
    assert!(client_follows_archive(Some("Monazilla/1.00 2chMate/0.8.10.174 Dalvik/2.1")));
    assert!(!client_follows_archive(Some("Monazilla/1.00 2chMate/0.8.10.173 Dalvik/2.1")));
    assert!(mate_is_recent("2chMate/0.8.11"));
    assert!(mate_is_recent("2chMate/0.9"));
    assert!(mate_is_recent("2chMate/1"));
    assert!(mate_is_recent("2chMate/0.8.10.174.1"));
    assert!(!mate_is_recent("2chMate/0.8.10"));
    assert!(!mate_is_recent("2chMate/0.8.9.999"));
    assert!(!mate_is_recent("2chMate/"));
    assert!(!mate_is_recent("2chMate"));
    assert!(!mate_is_recent("x 2chMate/dev"));
}
