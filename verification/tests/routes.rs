use eddiner::board_config::BoardKeys;
use eddiner::routes::{analyze_route, Route};

fn generate_board_keys() -> BoardKeys {
    let mut map = BoardKeys::new();
    map.insert("liveedge".to_string(), 1);
    map
}

#[test]
fn test_const_path() {
    let paths = ["/", "/auth", "/auth-code", "/test/bbs.cgi"];
    let expecteds = [Route::Index, Route::Auth, Route::AuthCode, Route::BbsCgi];

    for (path, expected) in paths.iter().zip(expecteds.iter()) {
        assert_eq!(analyze_route(path, &BoardKeys::new()), *expected);
    }
}

#[test]
fn test_dat() {
    let paths = [
        "/liveedge/dat/1666666666.dat",
        "/liveedge/dat/fewdgerfef.dat",
        "/liveedge/kako/1666/16666/1666666666.dat",
        "/liveedge/dat/1666666666222.dat",
    ];
    let expecteds = [
        Route::Dat {
            board_key: "liveedge",
            thread_id: "1666666666",
            board_id: 1,
        },
        Route::Dat {
            board_key: "liveedge",
            thread_id: "fewdgerfef",
            board_id: 1,
        },
        Route::KakoDat {
            board_key: "liveedge",
            thread_id: "1666666666",
            board_id: 1,
        },
        Route::NotFound,
    ];

    for (path, expected) in paths.iter().zip(expecteds.iter()) {
        assert_eq!(analyze_route(path, &generate_board_keys()), *expected);
    }
}

#[test]
fn test_txt() {
    let paths = ["/liveedge/SETTING.TXT", "/liveedge/subject.txt"];
    let expecteds = [
        Route::SettingTxt {
            board_key: "liveedge",
            board_id: 1,
        },
        Route::SubjectTxt {
            board_key: "liveedge",
            board_id: 1,
        },
    ];

    for (path, expected) in paths.iter().zip(expecteds.iter()) {
        assert_eq!(analyze_route(path, &generate_board_keys()), *expected);
    }
}

#[test]
fn test_thread_web_ui() {
    let paths = [
        "/liveedge/1666666667/",
        "/test/read.cgi/liveedge/1666666668/",
        "/liveedge/1666666669",
        "/test/read.cgi/liveedge/1666666666",
    ];
    let expecteds = [
        Route::ThreadWebUI {
            board_key: "liveedge",
            thread_id: "1666666667",
            board_id: 1,
        },
        Route::ThreadWebUI {
            board_key: "liveedge",
            thread_id: "1666666668",
            board_id: 1,
        },
        Route::ThreadWebUI {
            board_key: "liveedge",
            thread_id: "1666666669",
            board_id: 1,
        },
        Route::ThreadWebUI {
            board_key: "liveedge",
            thread_id: "1666666666",
            board_id: 1,
        },
    ];

    for (path, expected) in paths.iter().zip(expecteds.iter()) {
        assert_eq!(analyze_route(path, &generate_board_keys()), *expected);
    }
}

#[test]
fn route_fixed_paths_with_trailing_slash() {
    let keys = generate_board_keys();
    assert_eq!(analyze_route("/index.html", &keys), Route::Index);
    assert_eq!(analyze_route("/auth/", &keys), Route::Auth);
    assert_eq!(analyze_route("/auth-code/", &keys), Route::AuthCode);
}

#[test]
fn route_head_txt_and_board_index() {
    let keys = generate_board_keys();
    assert_eq!(
        analyze_route("/liveedge/head.txt", &keys),
        Route::HeadTxt { board_key: "liveedge", board_id: 1 }
    );
    assert_eq!(
        analyze_route("/liveedge", &keys),
        Route::BoardIndex { board_key: "liveedge", board_id: 1 }
    );
    assert_eq!(
        analyze_route("/liveedge/", &keys),
        Route::BoardIndex { board_key: "liveedge", board_id: 1 }
    );
}

#[test]
fn route_unknown_board_is_not_found() {
    let keys = generate_board_keys();
    assert_eq!(analyze_route("/nosuch", &keys), Route::NotFound);
    assert_eq!(analyze_route("/nosuch/dat/1666666666.dat", &keys), Route::NotFound);
    assert_eq!(analyze_route("/nosuch/subject.txt", &keys), Route::NotFound);
    assert_eq!(analyze_route("/nosuch/1666666666", &keys), Route::NotFound);
    assert_eq!(analyze_route("/liveedge/other.txt", &keys), Route::NotFound);
}

#[test]
fn route_thread_numbers_must_be_ten_digits() {
    let keys = generate_board_keys();
    assert_eq!(analyze_route("/liveedge/abcdefghij", &keys), Route::NotFound);
    assert_eq!(analyze_route("/liveedge/166666666", &keys), Route::NotFound);
    assert_eq!(
        analyze_route("/liveedge/kako/fewd/fewdg/fewdgerfef.dat", &keys),
        Route::NotFound
    );
    assert_eq!(
        analyze_route("/liveedge/kako/1666/16667/1666666666.dat", &keys),
        Route::NotFound
    );
    assert_eq!(analyze_route("/test/read.cgi/liveedge/16666x6666", &keys), Route::NotFound);
}

#[test]
fn route_odd_paths_do_not_panic() {
    let keys = generate_board_keys();
    assert_eq!(analyze_route("", &keys), Route::NotFound);
    assert_eq!(analyze_route("あい", &keys), Route::NotFound);
    assert_eq!(analyze_route("/a/kako/1/2/3.dat", &keys), Route::NotFound);
    assert_eq!(analyze_route("liveedge/dat/1666666666.dat", &keys), Route::NotFound);
    assert_eq!(analyze_route("/liveedge.dat.1666666666.dat", &keys), Route::NotFound);
}

#[test]
fn route_short_board_key() {
    let mut keys = BoardKeys::new();
    keys.insert("ab".to_string(), 7);
    assert_eq!(analyze_route("/ab", &keys), Route::BoardIndex { board_key: "ab", board_id: 7 });
}
