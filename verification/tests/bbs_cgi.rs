use eddiner::cap::{cap_lookup, cap_password_hash};
use eddiner::routes::bbs_cgi::{
    challenge_page, count_occurrences, derive_author_id, extract_forms, form_from_fields,
    get_min_recent_res_span, mail_from_field, mint_token, name_from_field,
    read_metadent_request, recent_since, select_token_source, set_cookie_value,
    thread_cadence_refuses, BbsCgiForm, ChallengePage, Refusal,
};
use eddiner::thread::MetadentType;
use eddiner::utils::shift_jis_url_encodeded_body_to_vec;

#[test]
fn test_form_validation() {
    let test_cases = [
        (
            BbsCgiForm {
                subject: Some("あ".repeat(97)),
                name: "".to_string(),
                mail: "".to_string(),
                body: "a".repeat(12),
                board_key: "abc".to_string(),
                is_thread: true,
                thread_id: None,
                cap: None,
            },
            Err("スレッドタイトルが長すぎます"),
        ),
        (
            BbsCgiForm {
                subject: None,
                name: "".to_string(),
                mail: "".to_string(),
                body: "あい\n".repeat(60).to_string(),
                board_key: "abc".to_string(),
                is_thread: true,
                thread_id: None,
                cap: None,
            },
            Err("本文に改行が多すぎます"),
        ),
    ];

    for (case, expected) in test_cases.into_iter() {
        assert_eq!(expected, case.validate());
    }
}

fn form(subject: Option<&str>, name: &str, mail: &str, body: &str) -> BbsCgiForm {
    BbsCgiForm {
        subject: subject.map(|s| s.to_string()),
        name: name.to_string(),
        mail: mail.to_string(),
        body: body.to_string(),
        board_key: "liveedge".to_string(),
        is_thread: subject.is_some(),
        thread_id: if subject.is_some() { None } else { Some("1666666666".to_string()) },
        cap: None,
    }
}

#[test]
fn validation_limits_are_exact() {
    assert_eq!(form(Some(&"あ".repeat(96)), "", "", "a").validate(), Ok(()));
    assert_eq!(form(None, &"n".repeat(64), &"m".repeat(64), &"b".repeat(4096)).validate(), Ok(()));
    assert_eq!(form(None, &"n".repeat(65), "", "").validate(), Err("名前が長すぎます"));
    assert_eq!(form(None, "", &"m".repeat(65), "").validate(), Err("メールアドレスが長すぎます"));
    assert_eq!(form(None, "", "", &"b".repeat(4097)).validate(), Err("本文が長すぎます"));
    assert_eq!(form(None, "", "", &"a\n".repeat(32)).validate(), Ok(()));
    assert_eq!(form(None, "", "", &"a\n".repeat(33)).validate(), Err("本文に改行が多すぎます"));
    assert_eq!(form(None, "", "", &"a<br>".repeat(32)).validate(), Ok(()));
    assert_eq!(form(None, "", "", &"a<br>".repeat(33)).validate(), Err("本文に改行が多すぎます"));
    // The first broken limit is the one that is reported.
    assert_eq!(
        form(Some(&"あ".repeat(97)), &"n".repeat(65), "", "").validate(),
        Err("スレッドタイトルが長すぎます")
    );
}

#[test]
fn occurrences_do_not_overlap() {
    let s: Vec<char> = "aaaa".chars().collect();
    let p: Vec<char> = "aa".chars().collect();
    assert_eq!(count_occurrences(&s, &p), 2);
    let s: Vec<char> = "<br><br>x<br".chars().collect();
    let p: Vec<char> = "<br>".chars().collect();
    assert_eq!(count_occurrences(&s, &p), 2);
}

const REPLY: &str = "submit=%8f%91%82%ab%8d%9e%82%de&bbs=liveedge&key=1666666666&FROM=&mail=&MESSAGE=hi";

#[test]
fn reply_form_is_extracted() {
    let f = extract_forms(REPLY.as_bytes().to_vec()).unwrap();
    assert!(!f.is_thread);
    assert_eq!(f.subject, None);
    assert_eq!(f.thread_id.as_deref(), Some("1666666666"));
    assert_eq!(f.board_key, "liveedge");
    assert_eq!(f.name, "");
    assert_eq!(f.mail, "");
    assert_eq!(f.body, "hi");
    assert_eq!(f.cap, None);
}

#[test]
fn thread_form_is_extracted_and_sanitised() {
    let body = "submit=%90V%8BK%83X%83%8C%83b%83h%8D%EC%90%AC&bbs=liveedge&subject=%83e%83X%83g%91%E8%96%BC%26%2332x&FROM=a%3Cb&mail=sage%23%40pw%23x&MESSAGE=l1%0D%0Al2%3Cb%3E";
    let f = extract_forms(body.as_bytes().to_vec()).unwrap();
    assert!(f.is_thread);
    assert_eq!(f.subject.as_deref(), Some("テスト題名x"));
    assert_eq!(f.thread_id, None);
    assert_eq!(f.name, "a&lt;b");
    assert_eq!(f.mail, "sage");
    assert_eq!(f.cap.as_deref(), Some("@pwx"));
    assert_eq!(f.body, "l1<br>l2&lt;b&gt;");
}

#[test]
fn trip_computation_in_names() {
    let long = "submit=%8f%91%82%ab%8d%9e%82%de&bbs=liveedge&key=1666666666&FROM=%82%A6%82%C1%82%C0%23aaaaaaaaaaaa&mail=&MESSAGE=hi";
    let f = extract_forms(long.as_bytes().to_vec()).unwrap();
    assert!(f.name.contains("◆OE/NFgqzszF0"));
    assert_eq!(f.name, "えっぢ◆OE/NFgqzszF0");
    let short = "submit=%8f%91%82%ab%8d%9e%82%de&bbs=liveedge&key=1666666666&FROM=%82%A6%82%C1%82%C0%23a&mail=&MESSAGE=hi";
    let f = extract_forms(short.as_bytes().to_vec()).unwrap();
    assert!(f.name.contains("◆ZnBI2EKkq."));
}

#[test]
fn names_cannot_fake_marks() {
    assert_eq!(name_from_field("a◆b★c").unwrap(), "a◇b☆c");
    assert_eq!(name_from_field("◆◆").unwrap(), "◇◇");
    assert_eq!(name_from_field("0123456789abcdef0123456789abcdef").unwrap(), "");
    assert_eq!(name_from_field("<x>#a").unwrap(), "&lt;x&gt;◆ZnBI2EKkq.");
    assert_eq!(name_from_field("n#a#").unwrap(), "n◆ZnBI2EKkq.");
    assert_eq!(name_from_field("n##a").unwrap(), "n◆ZnBI2EKkq.");
}

#[test]
fn mail_and_cap_are_split_at_the_hash() {
    assert_eq!(mail_from_field("sage"), ("sage".to_string(), None));
    assert_eq!(mail_from_field("sage#@pw"), ("sage".to_string(), Some("@pw".to_string())));
    assert_eq!(mail_from_field("#"), ("".to_string(), Some("".to_string())));
    assert_eq!(mail_from_field("a<#b#c>"), ("a&lt;".to_string(), Some("bc&gt;".to_string())));
}

#[test]
fn malformed_forms_are_refused() {
    assert!(extract_forms(b"".to_vec()).is_none());
    assert!(extract_forms(b"submit=x&bbs=liveedge&key=1&FROM=&mail=&MESSAGE=hi".to_vec()).is_none());
    let no_key = "submit=%8f%91%82%ab%8d%9e%82%de&bbs=liveedge&FROM=&mail=&MESSAGE=hi";
    assert!(extract_forms(no_key.as_bytes().to_vec()).is_none());
    let no_subject = "submit=%90V%8BK%83X%83%8C%83b%83h%8D%EC%90%AC&bbs=liveedge&key=1&FROM=&mail=&MESSAGE=hi";
    assert!(extract_forms(no_subject.as_bytes().to_vec()).is_none());
    let no_message = "submit=%8f%91%82%ab%8d%9e%82%de&bbs=liveedge&key=1&FROM=&mail=";
    assert!(extract_forms(no_message.as_bytes().to_vec()).is_none());
    let fields = shift_jis_url_encodeded_body_to_vec("bbs=liveedge").unwrap();
    assert!(form_from_fields(&fields).is_none());
}

#[test]
fn token_source_precedence() {
    let bathy = Some("Monazilla/1.00 BathyScaphe/3.0");
    let mate = Some("Monazilla/1.00 2chMate/0.8.10.174");
    let other = Some("Mozilla/5.0");
    assert_eq!(select_token_source(Some("ck"), Some("cap"), bathy), (Some("cap"), true));
    assert_eq!(select_token_source(None, Some("cap"), bathy), (Some("cap"), true));
    assert_eq!(select_token_source(Some("ck"), None, bathy), (Some("ck"), false));
    assert_eq!(select_token_source(None, Some("cap"), mate), (None, false));
    assert_eq!(select_token_source(None, None, mate), (None, false));
    assert_eq!(select_token_source(Some("ck"), Some("cap"), mate), (Some("ck"), false));
    assert_eq!(select_token_source(Some("ck"), Some("cap"), other), (Some("ck"), false));
    assert_eq!(select_token_source(None, Some("cap"), other), (Some("cap"), true));
    assert_eq!(select_token_source(None, Some("cap"), None), (Some("cap"), true));
    assert_eq!(select_token_source(None, None, None), (None, false));
}

#[test]
fn min_recent_span() {
    assert_eq!(get_min_recent_res_span(&vec![], 100), u64::MAX);
    assert_eq!(get_min_recent_res_span(&vec![97], 100), 3);
    assert_eq!(get_min_recent_res_span(&vec![90, 70, 80], 100), 10);
    assert_eq!(get_min_recent_res_span(&vec![90, 94], 100), 4);
    assert_eq!(get_min_recent_res_span(&vec![100], 100), 0);
    assert_eq!(get_min_recent_res_span(&vec![105], 100), 5);
    assert_eq!(recent_since(100), Some(60));
    assert_eq!(recent_since(40), Some(0));
    assert_eq!(recent_since(39), None);
}

#[test]
fn thread_cadence() {
    assert!(!thread_cadence_refuses(None, true, 1000));
    assert!(thread_cadence_refuses(Some(900), true, 1000));
    assert!(thread_cadence_refuses(Some(881), true, 1000));
    assert!(!thread_cadence_refuses(Some(880), true, 1000));
    assert!(!thread_cadence_refuses(Some(900), false, 1000));
    assert!(thread_cadence_refuses(Some(2000), true, 1000));
}

#[test]
fn minted_tokens_are_md5_of_address_and_time() {
    assert_eq!(mint_token("1.1.1.1", 1_700_000_000), "e3416ba39ec762ff16eea3d772b37474");
    assert_eq!(mint_token("1.1.1.1", 1_700_000_000).len(), 32);
}

#[test]
fn cap_hashes_are_sha512_in_hex() {
    let hash = "bd2b1aaf7ef4f09be9f52ce2d8d599674d81aa9d6a4421696dc4d93dd0619d682ce56b4d64a9ef097761ced99e0f67265b5f76085e5b0ee7ca4696b2ad6fe2b2";
    assert_eq!(cap_password_hash("secret"), hash);
    assert_eq!(cap_lookup(Some("@secret"), true).as_deref(), Some(hash));
    assert_eq!(cap_lookup(Some("@secret"), false), None);
    assert_eq!(cap_lookup(Some("secret"), true), None);
    assert_eq!(cap_lookup(None, true), None);
}

#[test]
fn challenge_pages() {
    assert_eq!(challenge_page(true, Some("2chMate")), ChallengePage::Local);
    assert_eq!(challenge_page(false, Some("Monazilla 2chMate/1")), ChallengePage::BrowserToken);
    assert_eq!(challenge_page(false, Some("Mozilla/5.0")), ChallengePage::Code);
    assert_eq!(challenge_page(false, None), ChallengePage::Code);
}

#[test]
fn cookies_are_kept_for_a_year() {
    assert_eq!(
        set_cookie_value("edge-token", "abc"),
        "edge-token=abc; Max-Age=31536000; Path=/"
    );
}

#[test]
fn author_ids_follow_address_day_and_board() {
    let now = 1_700_000_000_000;
    assert_eq!(derive_author_id("1.1.1.1", now, 1).unwrap(), "KAtr/rXFI");
    assert_eq!(derive_author_id("2001:db8:1:2:3:4:5:6", now, 3).unwrap(), "ZmlHwQlAV");
    assert_eq!(
        derive_author_id("2001:db8:1:2:ffff::", now, 3).unwrap(),
        derive_author_id("2001:db8:1:2:3:4:5:6", now, 3).unwrap()
    );
    assert_ne!(derive_author_id("1.1.1.1", now + 86_400_000, 1).unwrap(), "KAtr/rXFI");
    assert!(derive_author_id("1.1.1.1", u64::MAX, 1).is_none());
}

#[test]
fn metadent_requests() {
    assert_eq!(
        read_metadent_request("!metadent:v:hello"),
        (MetadentType::Verbose, "!metadent:v - configuredhello".to_string())
    );
    assert_eq!(
        read_metadent_request("!metadent:vv:"),
        (MetadentType::VVerbose, "!metadent:vv - configured".to_string())
    );
    assert_eq!(
        read_metadent_request("!metadent:vvv:<br>x"),
        (MetadentType::VVVerbose, "!metadent:vvv - configured<br>x".to_string())
    );
    assert_eq!(
        read_metadent_request("x !metadent:v:"),
        (MetadentType::Off, "x !metadent:v:".to_string())
    );
    assert_eq!(read_metadent_request(""), (MetadentType::Off, "".to_string()));
}

#[test]
fn refusal_reasons() {
    assert_eq!(Refusal::TooFast.reason(), "5秒以内の連続投稿はできません");
    assert_eq!(Refusal::TooManyThreads.reason(), "ちょっとスレ立てすぎ！");
    assert_eq!(Refusal::DuplicateThread.reason(), "同じ時間に既にスレッドが立っています");
    assert_eq!(Refusal::NoSuchThread.reason(), "そのようなスレは存在しません");
    assert_eq!(Refusal::NoSuchBoard.reason(), "書き込もうとしている板が存在しません");
}
