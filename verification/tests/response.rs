use eddiner::response::{Ch5ResponsesFormatter, Res};

fn make_test_res(name: Option<&str>, body: &str, sec: u32, is_abone: bool) -> Res {
    Res {
        name: name.map(ToOwned::to_owned),
        mail: None,
        date: format!("2099/9/09(金) 0:0:{}.00", sec),
        author_id: Some(format!("abC/DEf{}", sec)),
        body: body.to_owned(),
        thread_id: "1666666666".to_owned(),
        ip_addr: "1.1.1.1".to_owned(),
        authed_token: None,
        timestamp: 0,
        is_abone: if is_abone { 1 } else { 0 },
    }
}

#[test]
fn test_render_dat() {
    let res_1 = make_test_res(Some("コテハン"), "ええ？", 10, false);
    let res_2 = make_test_res(Some(""), "うん？\n。。。", 20, false);
    let res_3 = make_test_res(None, "そう...", 30, false);
    let res_4 = make_test_res(Some("#abcdefg"), "認証てすと", 40, false);
    // name.len() == 30
    let res_5 = make_test_res(
        Some("a0b1c2d3e4f5g6h7i8j9k10l11m12n"),
        "認証できた？",
        50,
        false,
    );
    let responses = vec![res_1, res_2, res_3, res_4, res_5];
    let formatted = responses.format_responses("実況スレ", "デフォルト名無し");
    assert_eq!(
        r"コテハン<><>2099/9/09(金) 0:0:10.00 ID:abC/DEf10<> ええ？<>実況スレ
デフォルト名無し<><>2099/9/09(金) 0:0:20.00 ID:abC/DEf20<> うん？<br>。。。<>
デフォルト名無し<><>2099/9/09(金) 0:0:30.00 ID:abC/DEf30<> そう...<>
#abcdefg<><>2099/9/09(金) 0:0:40.00 ID:abC/DEf40<> 認証てすと<>
a0b1c2d3e4f5g6h7i8j9k10l11m12n<><>2099/9/09(金) 0:0:50.00 ID:abC/DEf50<> 認証できた？<>
",
        formatted,
    )
}

#[test]
fn render_dat_abone_rows() {
    let first = make_test_res(Some("a"), "b", 1, true);
    let second = make_test_res(Some("c"), "d", 2, true);
    let formatted = vec![first, second].format_responses("題\n名", "名無し");
    assert_eq!(
        formatted,
        "あぼーん<>あぼーん<> <> あぼーん<>題名\nあぼーん<>あぼーん<> <> あぼーん<>\n"
    );
}

#[test]
fn render_dat_rewrites_old_domain_and_strips_name_newlines() {
    let mut res = make_test_res(Some("な\nまえ"), "see https://edge.edgebb.workers.dev/x", 3, false);
    res.author_id = None;
    let formatted = vec![res].format_responses("t", "名無し");
    assert_eq!(
        formatted,
        "なまえ<><>2099/9/09(金) 0:0:3.00 ID:<> see https://bbs.eddibb.cc/x<>t\n"
    );
}

#[test]
fn render_dat_is_stable() {
    let responses = vec![
        make_test_res(Some("x"), "y\nz", 5, false),
        make_test_res(None, "w", 6, true),
    ];
    let once = responses.format_responses("title", "anon");
    let twice = responses.format_responses("title", "anon");
    assert_eq!(once, twice);
}

#[test]
fn render_dat_of_nothing_is_empty() {
    let responses: Vec<Res> = Vec::new();
    assert_eq!(responses.format_responses("title", "anon"), "");
}
