use eddiner::thread::{Ch5ThreadFormatter, MetadentType, Thread};

fn make_test_thread(title: &str, number: u64, count: u32) -> Thread {
    Thread {
        title: title.to_owned(),
        response_count: count,
        thread_number: number.to_string(),
        last_modified: format!("{}", 36000 + count),
        board_id: 1,
        non_auth_thread: 0,
        archived: 0,
        active: 1,
        metadent: None,
        no_pool: 0,
        modulo: 0,
    }
}

#[test]
fn test_render_subject_txt() {
    let thread_1 = make_test_thread("実況スレ", 1666666666, 334);
    let thread_2 = make_test_thread("雑談 \n スレ", 1666666667, 88);
    let threads = vec![thread_1, thread_2];
    let formatted = threads.format_threads();
    assert_eq!(
        formatted,
        r"1666666666.dat<>実況スレ (334)
1666666667.dat<>雑談  スレ (88)
"
    )
}

#[test]
fn subject_txt_counts_in_decimal() {
    let threads = vec![
        make_test_thread("a", 1, 0),
        make_test_thread("b", 2, 7),
        make_test_thread("c", 3, 1000),
        make_test_thread("d", 4, u32::MAX),
    ];
    assert_eq!(
        threads.format_threads(),
        "1.dat<>a (0)\n2.dat<>b (7)\n3.dat<>c (1000)\n4.dat<>d (4294967295)\n"
    );
}

#[test]
fn metadent_type_of_stored_marker() {
    let mut t = make_test_thread("a", 1, 1);
    assert_eq!(t.metadent_type(), MetadentType::Off);
    t.metadent = Some("v".to_string());
    assert_eq!(t.metadent_type(), MetadentType::Verbose);
    t.metadent = Some("vv".to_string());
    assert_eq!(t.metadent_type(), MetadentType::VVerbose);
    t.metadent = Some("vvv".to_string());
    assert_eq!(t.metadent_type(), MetadentType::VVVerbose);
    t.metadent = Some("".to_string());
    assert_eq!(t.metadent_type(), MetadentType::Off);
    t.metadent = Some("vvvv".to_string());
    assert_eq!(t.metadent_type(), MetadentType::Off);
}

#[test]
fn metadent_marker_round_trip() {
    for level in [
        MetadentType::Off,
        MetadentType::Verbose,
        MetadentType::VVerbose,
        MetadentType::VVVerbose,
    ] {
        let mut t = make_test_thread("a", 1, 1);
        t.metadent = level.as_marker().map(|m| m.to_string());
        assert_eq!(t.metadent_type(), level);
    }
}
