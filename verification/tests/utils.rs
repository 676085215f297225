use eddiner::utils::{
    convert_weekday_to_ja, equals_ip_addr, generate_six_digit_num, get_current_date_time_string,
    get_reduced_ip_addr, percent_decode, shift_jis_url_encodeded_body_to_vec, unix_ts_to_bytes,
};

#[test]
fn test_siki_shift_jis_encodeded_body_to_vec() {
    let data = "submit=%8f%91%82%ab%8d%9e%82%de&time=%31%36%39%36%32%37%30%31%34%38&bbs=%6c%69%76%65%65%64%67%65&key=%31%36%39%36%32%35%31%38%35%39&MESSAGE=%82%c4%82%93%82%94&FROM=&mail=";
    let result = shift_jis_url_encodeded_body_to_vec(data);
    println!("{:?}", result);
}

#[test]
fn form_body_fields_are_decoded() {
    let data = "submit=%8f%91%82%ab%8d%9e%82%de&time=%31%36%39%36%32%37%30%31%34%38&bbs=%6c%69%76%65%65%64%67%65&key=%31%36%39%36%32%35%31%38%35%39&MESSAGE=%82%c4%82%93%82%94&FROM=&mail=";
    let fields = shift_jis_url_encodeded_body_to_vec(data).unwrap();
    assert_eq!(fields.get("submit").unwrap(), "書き込む");
    assert_eq!(fields.get("time").unwrap(), "1696270148");
    assert_eq!(fields.get("bbs").unwrap(), "liveedge");
    assert_eq!(fields.get("key").unwrap(), "1696251859");
    assert_eq!(fields.get("MESSAGE").unwrap(), "てｓｔ");
    assert_eq!(fields.get("FROM").unwrap(), "");
    assert_eq!(fields.get("mail").unwrap(), "");
    assert!(fields.get("subject").is_none());
}

#[test]
fn form_body_last_duplicate_wins() {
    let fields = shift_jis_url_encodeded_body_to_vec("a=1&b=2&a=3").unwrap();
    assert_eq!(fields.get("a").unwrap(), "3");
    assert_eq!(fields.get("b").unwrap(), "2");
}

#[test]
fn form_body_malformed() {
    assert!(shift_jis_url_encodeded_body_to_vec("").is_err());
    assert!(shift_jis_url_encodeded_body_to_vec("a").is_err());
    assert!(shift_jis_url_encodeded_body_to_vec("a=b=c").is_err());
    assert!(shift_jis_url_encodeded_body_to_vec("a=1&&b=2").is_err());
    assert!(shift_jis_url_encodeded_body_to_vec("a=%zz").is_err());
    assert!(shift_jis_url_encodeded_body_to_vec("a=%4").is_ok());
}

#[test]
fn percent_decoding() {
    assert_eq!(percent_decode(b"a+b%20c%2B"), Some(b"a b c+".to_vec()));
    assert_eq!(percent_decode(b"%41%5a%7A"), Some(b"AZz".to_vec()));
    assert_eq!(percent_decode(b"%ff%00"), Some(vec![0xff, 0x00]));
    assert_eq!(percent_decode(b"ab%4"), Some(b"ab".to_vec()));
    assert_eq!(percent_decode(b"ab%"), Some(b"ab".to_vec()));
    assert_eq!(percent_decode(b"%4g"), None);
    assert_eq!(percent_decode(b"%g4x"), None);
    assert_eq!(percent_decode(b""), Some(vec![]));
}

#[test]
fn ip_addresses_compare_by_their_first_four_groups() {
    assert!(equals_ip_addr("1.1.1.1", "1.1.1.1"));
    assert!(!equals_ip_addr("1.1.1.1", "1.1.1.2"));
    assert!(equals_ip_addr("2001:db8:1:2:3:4:5:6", "2001:db8:1:2:ffff:0:0:1"));
    assert!(!equals_ip_addr("2001:db8:1:2:3:4:5:6", "2001:db8:1:3:3:4:5:6"));
    assert!(!equals_ip_addr("2001:db8:1:2:3:4:5:6", "1.1.1.1"));
    assert!(equals_ip_addr("::1", "::1"));
    assert!(!equals_ip_addr("::1", "::2"));
    assert!(!equals_ip_addr("a:b:c", "a:b:c:d"));
}

#[test]
fn ip_addresses_are_reduced_to_four_groups() {
    assert_eq!(get_reduced_ip_addr("1.1.1.1"), "1.1.1.1");
    assert_eq!(get_reduced_ip_addr("2001:db8:1:2:3:4:5:6"), "2001:db8:1:2");
    assert_eq!(get_reduced_ip_addr("866c:0fa3::f3:aa"), "866c:0fa3::f3");
    assert_eq!(get_reduced_ip_addr("::1"), "::1");
    assert_eq!(get_reduced_ip_addr("a:b:c:d"), "a:b:c:d");
    assert_eq!(get_reduced_ip_addr(""), "");
}

#[test]
fn weekdays_in_japanese() {
    let pairs = [
        ("Mon", "月"),
        ("Tue", "火"),
        ("Wed", "水"),
        ("Thu", "木"),
        ("Fri", "金"),
        ("Sat", "土"),
        ("Sun", "日"),
        ("xyz", "xyz"),
    ];
    for (en, ja) in pairs {
        assert_eq!(convert_weekday_to_ja(en), ja);
    }
}

#[test]
fn post_dates_are_in_japan_time() {
    // 2023-11-14 22:13:20 UTC is 2023-11-15 07:13:20 in Japan, a Wednesday.
    assert_eq!(
        get_current_date_time_string(1_700_000_000_123, true).unwrap(),
        "2023/11/15(水) 07:13:20.123"
    );
    assert_eq!(
        get_current_date_time_string(1_700_000_000_123, false).unwrap(),
        "2023/11/15(Wed) 07:13:20.123"
    );
    assert_eq!(
        get_current_date_time_string(0, true).unwrap(),
        "1970/01/01(木) 09:00:00.000"
    );
    assert!(get_current_date_time_string(u64::MAX, true).is_none());
}

#[test]
fn seed_holds_the_moment_big_endian() {
    let seed = unix_ts_to_bytes(0x0102_0304_0506_0708);
    assert_eq!(&seed[..8], &[1, 2, 3, 4, 5, 6, 7, 8]);
    assert!(seed[8..].iter().all(|b| *b == 0));
    assert_eq!(unix_ts_to_bytes(u64::MAX)[..8], [0xff; 8]);
}

#[test]
fn auth_codes_have_six_digits_and_follow_the_moment() {
    for now in [0u64, 1, 1_700_000_000_000, u64::MAX] {
        let code = generate_six_digit_num(now);
        assert_eq!(code.len(), 6);
        assert!(code.chars().all(|c| c.is_ascii_digit()));
        assert_eq!(code, generate_six_digit_num(now));
    }
    assert_ne!(generate_six_digit_num(1), generate_six_digit_num(2));
}
