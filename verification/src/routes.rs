//! The route analyser: a pure function from request path to route.

use crate::board_config::BoardKeys;
use crate::text::{
    all_digits, byte_len, byte_len_is, chars_of, cuts, digits_only, ends_with, has_char,
    lemma_pieces_nonempty, piece_ranges, pieces, range_ends_with, range_is, ranges_within,
    same_text, slice_of,
};
use vstd::prelude::*;

pub mod auth;
pub mod auth_code;
pub mod bbs_cgi;
pub mod dat_routing;
pub mod head_txt;
pub mod setting_txt;
pub mod subject_txt;
pub mod post_router;

verus! {

/// Where a request path leads.
#[derive(Debug, Clone, PartialEq, Eq)]
pub enum Route<'a> {
    Index,
    Auth,
    AuthCode,
    BbsCgi,
    Dat { board_key: &'a str, board_id: usize, thread_id: &'a str },
    KakoDat { board_key: &'a str, board_id: usize, thread_id: &'a str },
    SettingTxt { board_key: &'a str, board_id: usize },
    SubjectTxt { board_key: &'a str, board_id: usize },
    HeadTxt { board_key: &'a str, board_id: usize },
    BoardIndex { board_key: &'a str, board_id: usize },
    ThreadWebUI { board_key: &'a str, board_id: usize, thread_id: &'a str },
    NotFound,
}

/// The mathematical value of a [`Route`].
pub enum RouteView {
    Index,
    Auth,
    AuthCode,
    BbsCgi,
    Dat { board_key: Seq<char>, board_id: usize, thread_id: Seq<char> },
    KakoDat { board_key: Seq<char>, board_id: usize, thread_id: Seq<char> },
    SettingTxt { board_key: Seq<char>, board_id: usize },
    SubjectTxt { board_key: Seq<char>, board_id: usize },
    HeadTxt { board_key: Seq<char>, board_id: usize },
    BoardIndex { board_key: Seq<char>, board_id: usize },
    ThreadWebUI { board_key: Seq<char>, board_id: usize, thread_id: Seq<char> },
    NotFound,
}

impl<'a> View for Route<'a> {
    type V = RouteView;

    open spec fn view(&self) -> RouteView {
        match *self {
            Route::Index => RouteView::Index,
            Route::Auth => RouteView::Auth,
            Route::AuthCode => RouteView::AuthCode,
            Route::BbsCgi => RouteView::BbsCgi,
            Route::Dat { board_key, board_id, thread_id } => RouteView::Dat {
                board_key: board_key@,
                board_id,
                thread_id: thread_id@,
            },
            Route::KakoDat { board_key, board_id, thread_id } => RouteView::KakoDat {
                board_key: board_key@,
                board_id,
                thread_id: thread_id@,
            },
            Route::SettingTxt { board_key, board_id } => RouteView::SettingTxt {
                board_key: board_key@,
                board_id,
            },
            Route::SubjectTxt { board_key, board_id } => RouteView::SubjectTxt {
                board_key: board_key@,
                board_id,
            },
            Route::HeadTxt { board_key, board_id } => RouteView::HeadTxt {
                board_key: board_key@,
                board_id,
            },
            Route::BoardIndex { board_key, board_id } => RouteView::BoardIndex {
                board_key: board_key@,
                board_id,
            },
            Route::ThreadWebUI { board_key, board_id, thread_id } => RouteView::ThreadWebUI {
                board_key: board_key@,
                board_id,
                thread_id: thread_id@,
            },
            Route::NotFound => RouteView::NotFound,
        }
    }
}

/// A thread number as it appears in a path: exactly ten ASCII digits.
pub open spec fn is_thread_number(s: Seq<char>) -> bool {
    s.len() == 10 && all_digits(s)
}

/// The route of a path whose last segment ends in `.dat`.
pub open spec fn dat_route(parts: Seq<Seq<char>>, keys: Map<Seq<char>, usize>) -> RouteView {
    let file = parts.last();
    let stem = file.take(file.len() - 4);
    let key = parts[1];
    if parts.len() == 4 && parts[2] == "dat"@ && !key.contains('.') && !stem.contains('.')
        && byte_len(stem) == 10 && keys.contains_key(key) {
        RouteView::Dat { board_key: key, board_id: keys[key], thread_id: stem }
    } else if parts.len() == 6 && parts[2] == "kako"@ && !key.contains('.') && is_thread_number(
        stem,
    ) && parts[3] == stem.take(4) && parts[4] == stem.take(5) && keys.contains_key(key) {
        RouteView::KakoDat { board_key: key, board_id: keys[key], thread_id: stem }
    } else {
        RouteView::NotFound
    }
}

/// The route of a path whose last segment ends in `.txt` or `.TXT`.
pub open spec fn txt_route(parts: Seq<Seq<char>>, keys: Map<Seq<char>, usize>) -> RouteView {
    let file = parts.last();
    let key = parts[1];
    if parts.len() == 3 && keys.contains_key(key) {
        if file == "SETTING.TXT"@ {
            RouteView::SettingTxt { board_key: key, board_id: keys[key] }
        } else if file == "subject.txt"@ {
            RouteView::SubjectTxt { board_key: key, board_id: keys[key] }
        } else if file == "head.txt"@ {
            RouteView::HeadTxt { board_key: key, board_id: keys[key] }
        } else {
            RouteView::NotFound
        }
    } else {
        RouteView::NotFound
    }
}

/// The route of a path to a page: a board index or a thread. `parts` has
/// lost the empty segment that a trailing slash leaves.
pub open spec fn page_route(parts: Seq<Seq<char>>, keys: Map<Seq<char>, usize>) -> RouteView {
    if parts.len() == 2 && keys.contains_key(parts[1]) {
        RouteView::BoardIndex { board_key: parts[1], board_id: keys[parts[1]] }
    } else if parts.len() == 3 && is_thread_number(parts[2]) && keys.contains_key(parts[1]) {
        RouteView::ThreadWebUI {
            board_key: parts[1],
            board_id: keys[parts[1]],
            thread_id: parts[2],
        }
    } else if parts.len() == 5 && parts[1] == "test"@ && parts[2] == "read.cgi"@
        && is_thread_number(parts[4]) && keys.contains_key(parts[3]) {
        RouteView::ThreadWebUI {
            board_key: parts[3],
            board_id: keys[parts[3]],
            thread_id: parts[4],
        }
    } else {
        RouteView::NotFound
    }
}

/// The route that a request path leads to, given the known board keys.
///
/// The fixed paths come first. Any other path is cut at its slashes; it must
/// begin with one, and the ending of its last segment decides among `.dat`
/// files, `.txt` files and pages.
pub open spec fn route_of(path: Seq<char>, keys: Map<Seq<char>, usize>) -> RouteView {
    let parts = pieces(path, '/');
    let file = parts.last();
    if path == "/"@ || path == "/index.html"@ {
        RouteView::Index
    } else if path == "/auth/"@ || path == "/auth"@ {
        RouteView::Auth
    } else if path == "/auth-code/"@ || path == "/auth-code"@ {
        RouteView::AuthCode
    } else if path == "/test/bbs.cgi"@ {
        RouteView::BbsCgi
    } else if parts[0].len() != 0 {
        RouteView::NotFound
    } else if ends_with(file, ".dat"@) {
        dat_route(parts, keys)
    } else if ends_with(file, ".txt"@) || ends_with(file, ".TXT"@) {
        txt_route(parts, keys)
    } else if file.len() == 0 {
        page_route(parts.drop_last(), keys)
    } else {
        page_route(parts, keys)
    }
}

/// The text that range `k` of `ranges` cuts out of `path`.
fn part<'a>(path: &'a str, ranges: &Vec<(usize, usize)>, k: usize) -> (r: &'a str)
    requires
        ranges_within(ranges@, path@.len()),
        k < ranges.len(),
    ensures
        r@ == cuts(path@, ranges@)[k as int],
{
    let (from, to) = ranges[k];
    assert(ranges@[k as int].0 <= ranges@[k as int].1);
    path.substring_char(from, to)
}

/// Finds the route of a request path among the known boards.
pub fn analyze_route<'a>(path: &'a str, board_keys: &BoardKeys) -> (r: Route<'a>)
    ensures
        r@ == route_of(path@, board_keys@),
{
    let chars = chars_of(path);
    let len = chars.len();
    assert(chars@.subrange(0, len as int) == chars@);
    if range_is(&chars, 0, len, "/") || range_is(&chars, 0, len, "/index.html") {
        return Route::Index;
    }
    if range_is(&chars, 0, len, "/auth/") || range_is(&chars, 0, len, "/auth") {
        return Route::Auth;
    }
    if range_is(&chars, 0, len, "/auth-code/") || range_is(&chars, 0, len, "/auth-code") {
        return Route::AuthCode;
    }
    if range_is(&chars, 0, len, "/test/bbs.cgi") {
        return Route::BbsCgi;
    }
    let ranges = piece_ranges(&chars, '/');
    proof {
        lemma_pieces_nonempty(path@, '/');
    }
    let ghost parts = pieces(path@, '/');
    let n = ranges.len();
    let (f0, t0) = ranges[0];
    assert(parts[0] == chars@.subrange(f0 as int, t0 as int));
    if f0 != t0 {
        return Route::NotFound;
    }
    let (lf, lt) = ranges[n - 1];
    assert(ranges@[n - 1].0 <= ranges@[n - 1].1);
    assert(parts.last() == chars@.subrange(lf as int, lt as int));
    if range_ends_with(&chars, lf, lt, ".dat") {
        proof {
            reveal_strlit(".dat");
        }
        let ghost stem = parts.last().take(parts.last().len() - 4);
        assert(stem == chars@.subrange(lf as int, lt - 4));
        if n != 4 && n != 6 {
            return Route::NotFound;
        }
        let (kf, kt) = ranges[1];
        assert(ranges@[1].0 <= ranges@[1].1);
        assert(parts[1] == chars@.subrange(kf as int, kt as int));
        if has_char(&chars, kf, kt, '.') {
            return Route::NotFound;
        }
        let board_key = part(path, &ranges, 1);
        let thread_id = path.substring_char(lf, lt - 4);
        let (df, dt) = ranges[2];
        assert(ranges@[2].0 <= ranges@[2].1);
        assert(parts[2] == chars@.subrange(df as int, dt as int));
        if n == 4 {
            if !range_is(&chars, df, dt, "dat") || has_char(&chars, lf, lt - 4, '.')
                || !byte_len_is(&chars, lf, lt - 4, 10) {
                return Route::NotFound;
            }
            return match board_keys.get(board_key) {
                Some(board_id) => Route::Dat { board_key, board_id, thread_id },
                None => Route::NotFound,
            };
        }
        if !range_is(&chars, df, dt, "kako") || lt - 4 - lf != 10 || !digits_only(
            &chars,
            lf,
            lt - 4,
        ) {
            return Route::NotFound;
        }
        let top_4 = part(path, &ranges, 3);
        let top_5 = part(path, &ranges, 4);
        let top_4 = chars_of(top_4);
        let top_5 = chars_of(top_5);
        let id_4 = slice_of(&chars, lf, lf + 4);
        let id_5 = slice_of(&chars, lf, lf + 5);
        assert(stem.take(4) == chars@.subrange(lf as int, lf + 4));
        assert(stem.take(5) == chars@.subrange(lf as int, lf + 5));
        if !same_text(&top_4, &id_4) || !same_text(&top_5, &id_5) {
            return Route::NotFound;
        }
        return match board_keys.get(board_key) {
            Some(board_id) => Route::KakoDat { board_key, board_id, thread_id },
            None => Route::NotFound,
        };
    }
    if range_ends_with(&chars, lf, lt, ".txt") || range_ends_with(&chars, lf, lt, ".TXT") {
        if n != 3 {
            return Route::NotFound;
        }
        let board_key = part(path, &ranges, 1);
        let board_id = match board_keys.get(board_key) {
            Some(board_id) => board_id,
            None => {
                return Route::NotFound;
            },
        };
        if range_is(&chars, lf, lt, "SETTING.TXT") {
            return Route::SettingTxt { board_key, board_id };
        }
        if range_is(&chars, lf, lt, "subject.txt") {
            return Route::SubjectTxt { board_key, board_id };
        }
        if range_is(&chars, lf, lt, "head.txt") {
            return Route::HeadTxt { board_key, board_id };
        }
        return Route::NotFound;
    }
    let m = if lf == lt {
        n - 1
    } else {
        n
    };
    let ghost page = if lf == lt {
        parts.drop_last()
    } else {
        parts
    };
    assert(page.len() == m);
    assert(forall|k: int| 0 <= k < m ==> page[k] == parts[k]);
    if m == 2 {
        let board_key = part(path, &ranges, 1);
        return match board_keys.get(board_key) {
            Some(board_id) => Route::BoardIndex { board_key, board_id },
            None => Route::NotFound,
        };
    }
    if m == 3 || m == 5 {
        let (tf, tt) = ranges[m - 1];
        assert(ranges@[m - 1].0 <= ranges@[m - 1].1);
        assert(parts[m - 1] == chars@.subrange(tf as int, tt as int));
        if tt - tf != 10 || !digits_only(&chars, tf, tt) {
            return Route::NotFound;
        }
        if m == 5 {
            let (af, at) = ranges[1];
            let (bf, bt) = ranges[2];
            assert(ranges@[1].0 <= ranges@[1].1);
            assert(ranges@[2].0 <= ranges@[2].1);
            assert(parts[1] == chars@.subrange(af as int, at as int));
            assert(parts[2] == chars@.subrange(bf as int, bt as int));
            if !range_is(&chars, af, at, "test") || !range_is(&chars, bf, bt, "read.cgi") {
                return Route::NotFound;
            }
        }
        let board_key = part(path, &ranges, m - 2);
        let thread_id = part(path, &ranges, m - 1);
        return match board_keys.get(board_key) {
            Some(board_id) => Route::ThreadWebUI { board_key, board_id, thread_id },
            None => Route::NotFound,
        };
    }
    Route::NotFound
}

} // verus!
