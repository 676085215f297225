//! The paths that lead to each route, and the law that analysing such a path
//! gives the route back.

use crate::routes::{is_thread_number, route_of, RouteView};
use crate::text::{
    all_digits, byte_len, ends_with, is_digit, lemma_pieces_append, lemma_pieces_plain, pieces,
};
use vstd::prelude::*;

verus! {

/// The segments joined by single slashes.
pub open spec fn slash_joined(segs: Seq<Seq<char>>) -> Seq<char>
    decreases segs.len(),
{
    if segs.len() == 0 {
        Seq::<char>::empty()
    } else if segs.len() == 1 {
        segs[0]
    } else {
        slash_joined(segs.drop_last()) + seq!['/'] + segs.last()
    }
}

/// No segment holds a slash.
pub open spec fn slash_free(segs: Seq<Seq<char>>) -> bool {
    forall|k: int| 0 <= k < segs.len() ==> !(#[trigger] segs[k]).contains('/')
}

/// Cutting a joined path at its slashes gives the segments back.
pub proof fn lemma_pieces_of_joined(segs: Seq<Seq<char>>)
    requires
        segs.len() >= 1,
        slash_free(segs),
    ensures
        pieces(slash_joined(segs), '/') == segs,
    decreases segs.len(),
{
    if segs.len() == 1 {
        assert(!segs[0].contains('/'));
        lemma_pieces_plain(segs[0], '/');
        assert(seq![segs[0]] == segs);
    } else {
        let front = segs.drop_last();
        assert forall|k: int| 0 <= k < front.len() implies !(#[trigger] front[k]).contains('/') by {
            assert(front[k] == segs[k]);
        }
        lemma_pieces_of_joined(front);
        assert(!segs[segs.len() - 1].contains('/'));
        lemma_pieces_append(slash_joined(front), '/', segs.last());
        assert(front.push(segs.last()) == segs);
    }
}

/// A board key that can stand in a path and be told from the fixed paths.
pub open spec fn is_path_key(key: Seq<char>) -> bool {
    key.len() > 0 && !key.contains('/') && !key.contains('.') && key != "auth"@ && key
        != "auth-code"@
}

/// A thread id that a `.dat` path can carry: ten bytes, no slash, no dot.
pub open spec fn is_dat_id(id: Seq<char>) -> bool {
    byte_len(id) == 10 && !id.contains('/') && !id.contains('.')
}

/// `/{key}/dat/{id}.dat`
pub open spec fn dat_path(key: Seq<char>, id: Seq<char>) -> Seq<char> {
    slash_joined(seq![Seq::<char>::empty(), key, "dat"@, id + ".dat"@])
}

/// `/{key}/kako/{id[0..4]}/{id[0..5]}/{id}.dat`
pub open spec fn kako_path(key: Seq<char>, id: Seq<char>) -> Seq<char> {
    slash_joined(
        seq![Seq::<char>::empty(), key, "kako"@, id.take(4), id.take(5), id + ".dat"@],
    )
}

/// `/{key}/{file}`
pub open spec fn file_path(key: Seq<char>, file: Seq<char>) -> Seq<char> {
    slash_joined(seq![Seq::<char>::empty(), key, file])
}

/// `/{key}`
pub open spec fn board_path(key: Seq<char>) -> Seq<char> {
    slash_joined(seq![Seq::<char>::empty(), key])
}

/// `/{key}/{id}`
pub open spec fn thread_path(key: Seq<char>, id: Seq<char>) -> Seq<char> {
    slash_joined(seq![Seq::<char>::empty(), key, id])
}

/// `/test/read.cgi/{key}/{id}`
pub open spec fn read_cgi_path(key: Seq<char>, id: Seq<char>) -> Seq<char> {
    slash_joined(seq![Seq::<char>::empty(), "test"@, "read.cgi"@, key, id])
}

/// The same path with a slash at its end.
pub open spec fn with_slash(path: Seq<char>) -> Seq<char> {
    path + seq!['/']
}

/// What the fixed paths are cut into.
proof fn lemma_fixed_pieces()
    ensures
        pieces("/"@, '/') == seq![Seq::<char>::empty(), Seq::<char>::empty()],
        pieces("/index.html"@, '/') == seq![Seq::<char>::empty(), "index.html"@],
        pieces("/auth"@, '/') == seq![Seq::<char>::empty(), "auth"@],
        pieces("/auth/"@, '/') == seq![Seq::<char>::empty(), "auth"@, Seq::<char>::empty()],
        pieces("/auth-code"@, '/') == seq![Seq::<char>::empty(), "auth-code"@],
        pieces("/auth-code/"@, '/') == seq![
            Seq::<char>::empty(),
            "auth-code"@,
            Seq::<char>::empty(),
        ],
        pieces("/test/bbs.cgi"@, '/') == seq![Seq::<char>::empty(), "test"@, "bbs.cgi"@],
{
    reveal_strlit("/");
    reveal_strlit("/index.html");
    reveal_strlit("index.html");
    reveal_strlit("/auth");
    reveal_strlit("auth");
    reveal_strlit("/auth/");
    reveal_strlit("/auth-code");
    reveal_strlit("auth-code");
    reveal_strlit("/auth-code/");
    reveal_strlit("/test/bbs.cgi");
    reveal_strlit("test");
    reveal_strlit("bbs.cgi");
    reveal_with_fuel(slash_joined, 4);
    let e = Seq::<char>::empty();
    assert(!e.contains('/'));
    assert(!"index.html"@.contains('/'));
    assert(!"auth"@.contains('/'));
    assert(!"auth-code"@.contains('/'));
    assert(!"test"@.contains('/'));
    assert(!"bbs.cgi"@.contains('/'));
    lemma_pieces_of_joined(seq![e, e]);
    assert("/"@ =~= slash_joined(seq![e, e]));
    lemma_pieces_of_joined(seq![e, "index.html"@]);
    assert("/index.html"@ =~= slash_joined(seq![e, "index.html"@]));
    lemma_pieces_of_joined(seq![e, "auth"@]);
    assert("/auth"@ =~= slash_joined(seq![e, "auth"@]));
    lemma_pieces_of_joined(seq![e, "auth"@, e]);
    assert("/auth/"@ =~= slash_joined(seq![e, "auth"@, e]));
    lemma_pieces_of_joined(seq![e, "auth-code"@]);
    assert("/auth-code"@ =~= slash_joined(seq![e, "auth-code"@]));
    lemma_pieces_of_joined(seq![e, "auth-code"@, e]);
    assert("/auth-code/"@ =~= slash_joined(seq![e, "auth-code"@, e]));
    lemma_pieces_of_joined(seq![e, "test"@, "bbs.cgi"@]);
    assert("/test/bbs.cgi"@ =~= slash_joined(seq![e, "test"@, "bbs.cgi"@]));
}

/// A text of digits holds neither slash nor dot.
proof fn lemma_digits_plain(id: Seq<char>)
    requires
        all_digits(id),
    ensures
        !id.contains('/'),
        !id.contains('.'),
{
    assert forall|i: int| 0 <= i < id.len() implies id[i] != '/' && id[i] != '.' by {
        assert(is_digit(id[i]));
    }
}

/// Joining two slash-free texts leaves the result slash-free.
proof fn lemma_concat_slash_free(a: Seq<char>, b: Seq<char>)
    requires
        !a.contains('/'),
        !b.contains('/'),
    ensures
        !(a + b).contains('/'),
{
    assert forall|i: int| 0 <= i < (a + b).len() implies (a + b)[i] != '/' by {
        if i < a.len() {
            assert(a[i] == (a + b)[i]);
        } else {
            assert(b[i - a.len()] == (a + b)[i]);
        }
    }
}

/// A path of four or more segments is none of the fixed paths, and neither
/// is one whose segments differ from theirs.
proof fn lemma_not_fixed(segs: Seq<Seq<char>>)
    requires
        segs.len() >= 2,
        slash_free(segs),
        segs[0].len() == 0,
        segs.len() == 2 ==> segs[1].len() > 0 && segs[1] != "index.html"@ && segs[1] != "auth"@
            && segs[1] != "auth-code"@,
        segs.len() == 3 ==> segs[1] != "auth"@ && segs[1] != "auth-code"@ && segs[2]
            != "bbs.cgi"@,
    ensures
        pieces(slash_joined(segs), '/') == segs,
        slash_joined(segs) != "/"@,
        slash_joined(segs) != "/index.html"@,
        slash_joined(segs) != "/auth"@,
        slash_joined(segs) != "/auth/"@,
        slash_joined(segs) != "/auth-code"@,
        slash_joined(segs) != "/auth-code/"@,
        slash_joined(segs) != "/test/bbs.cgi"@,
{
    lemma_fixed_pieces();
    lemma_pieces_of_joined(segs);
    let e = Seq::<char>::empty();
    let path = slash_joined(segs);
    if path == "/"@ {
        assert(segs == seq![e, e]);
        assert(segs[1] == e);
    }
    if path == "/index.html"@ {
        assert(segs == seq![e, "index.html"@]);
        assert(segs[1] == "index.html"@);
    }
    if path == "/auth"@ {
        assert(segs == seq![e, "auth"@]);
        assert(segs[1] == "auth"@);
    }
    if path == "/auth/"@ {
        assert(segs == seq![e, "auth"@, e]);
        assert(segs[1] == "auth"@);
    }
    if path == "/auth-code"@ {
        assert(segs == seq![e, "auth-code"@]);
        assert(segs[1] == "auth-code"@);
    }
    if path == "/auth-code/"@ {
        assert(segs == seq![e, "auth-code"@, e]);
        assert(segs[1] == "auth-code"@);
    }
    if path == "/test/bbs.cgi"@ {
        assert(segs == seq![e, "test"@, "bbs.cgi"@]);
        assert(segs[2] == "bbs.cgi"@);
    }
}

/// A text without a dot ends in none of the file endings.
proof fn lemma_no_ending(file: Seq<char>)
    requires
        !file.contains('.'),
    ensures
        !ends_with(file, ".dat"@),
        !ends_with(file, ".txt"@),
        !ends_with(file, ".TXT"@),
{
    reveal_strlit(".dat");
    reveal_strlit(".txt");
    reveal_strlit(".TXT");
    if file.len() >= 4 {
        let tail = file.skip(file.len() - 4);
        assert(tail[0] == file[file.len() - 4]);
        assert(tail[0] != '.');
    }
}

/// Analysing `/{key}/dat/{id}.dat` gives the `.dat` route of that board and thread.
pub proof fn lemma_dat_round_trip(key: Seq<char>, id: Seq<char>, keys: Map<Seq<char>, usize>)
    requires
        keys.contains_key(key),
        is_path_key(key),
        is_dat_id(id),
    ensures
        route_of(dat_path(key, id), keys) == (RouteView::Dat {
            board_key: key,
            board_id: keys[key],
            thread_id: id,
        }),
{
    reveal_strlit("dat");
    reveal_strlit(".dat");
    let e = Seq::<char>::empty();
    let file = id + ".dat"@;
    let segs = seq![e, key, "dat"@, file];
    assert(!".dat"@.contains('/'));
    lemma_concat_slash_free(id, ".dat"@);
    assert(!"dat"@.contains('/'));
    assert(!e.contains('/'));
    lemma_not_fixed(segs);
    assert(file.skip(file.len() - 4) == ".dat"@);
    assert(file.take(file.len() - 4) == id);
}

/// Analysing `/{key}/kako/{id[0..4]}/{id[0..5]}/{id}.dat` gives the archive
/// route of that board and thread.
pub proof fn lemma_kako_round_trip(key: Seq<char>, id: Seq<char>, keys: Map<Seq<char>, usize>)
    requires
        keys.contains_key(key),
        is_path_key(key),
        is_thread_number(id),
    ensures
        route_of(kako_path(key, id), keys) == (RouteView::KakoDat {
            board_key: key,
            board_id: keys[key],
            thread_id: id,
        }),
{
    reveal_strlit("kako");
    reveal_strlit("dat");
    reveal_strlit(".dat");
    let e = Seq::<char>::empty();
    let file = id + ".dat"@;
    let segs = seq![e, key, "kako"@, id.take(4), id.take(5), file];
    lemma_digits_plain(id);
    assert(!".dat"@.contains('/'));
    lemma_concat_slash_free(id, ".dat"@);
    assert(!"kako"@.contains('/'));
    assert(!e.contains('/'));
    assert(!id.take(4).contains('/')) by {
        assert forall|i: int| 0 <= i < 4 implies id.take(4)[i] != '/' by {
            assert(id.take(4)[i] == id[i]);
        }
    }
    assert(!id.take(5).contains('/')) by {
        assert forall|i: int| 0 <= i < 5 implies id.take(5)[i] != '/' by {
            assert(id.take(5)[i] == id[i]);
        }
    }
    lemma_not_fixed(segs);
    assert(file.skip(file.len() - 4) == ".dat"@);
    assert(file.take(file.len() - 4) == id);
}

/// Analysing `/{key}/SETTING.TXT`, `/{key}/subject.txt` and `/{key}/head.txt`
/// gives the route of that file of the board.
pub proof fn lemma_txt_round_trip(key: Seq<char>, keys: Map<Seq<char>, usize>)
    requires
        keys.contains_key(key),
        is_path_key(key),
    ensures
        route_of(file_path(key, "SETTING.TXT"@), keys) == (RouteView::SettingTxt {
            board_key: key,
            board_id: keys[key],
        }),
        route_of(file_path(key, "subject.txt"@), keys) == (RouteView::SubjectTxt {
            board_key: key,
            board_id: keys[key],
        }),
        route_of(file_path(key, "head.txt"@), keys) == (RouteView::HeadTxt {
            board_key: key,
            board_id: keys[key],
        }),
{
    reveal_strlit("SETTING.TXT");
    reveal_strlit("subject.txt");
    reveal_strlit("head.txt");
    reveal_strlit("bbs.cgi");
    reveal_strlit(".dat");
    reveal_strlit(".txt");
    reveal_strlit(".TXT");
    let e = Seq::<char>::empty();
    assert(!e.contains('/'));
    assert(!"SETTING.TXT"@.contains('/'));
    assert(!"subject.txt"@.contains('/'));
    assert(!"head.txt"@.contains('/'));
    lemma_not_fixed(seq![e, key, "SETTING.TXT"@]);
    lemma_not_fixed(seq![e, key, "subject.txt"@]);
    lemma_not_fixed(seq![e, key, "head.txt"@]);
    assert("SETTING.TXT"@.skip(7) =~= ".TXT"@);
    assert("subject.txt"@.skip(7) =~= ".txt"@);
    assert("head.txt"@.skip(4) =~= ".txt"@);
    assert("SETTING.TXT"@.skip(7)[3] == 'T');
    assert("subject.txt"@.skip(7)[1] == 't');
    assert("head.txt"@.skip(4)[1] == 't');
}

/// Analysing `/{key}` or `/{key}/` gives the index of that board.
pub proof fn lemma_board_round_trip(key: Seq<char>, keys: Map<Seq<char>, usize>)
    requires
        keys.contains_key(key),
        is_path_key(key),
    ensures
        route_of(board_path(key), keys) == (RouteView::BoardIndex {
            board_key: key,
            board_id: keys[key],
        }),
        route_of(with_slash(board_path(key)), keys) == (RouteView::BoardIndex {
            board_key: key,
            board_id: keys[key],
        }),
{
    reveal_strlit("index.html");
    reveal_strlit("bbs.cgi");
    let e = Seq::<char>::empty();
    assert(!e.contains('/'));
    assert(!e.contains('.'));
    assert("index.html"@[5] == '.');
    lemma_not_fixed(seq![e, key]);
    lemma_not_fixed(seq![e, key, e]);
    lemma_no_ending(key);
    lemma_no_ending(e);
    reveal_with_fuel(slash_joined, 4);
    assert(with_slash(board_path(key)) =~= slash_joined(seq![e, key, e]));
    assert(seq![e, key, e].drop_last() == seq![e, key]);
}

/// Analysing `/{key}/{id}` or `/test/read.cgi/{key}/{id}`, with or without a
/// slash at the end, gives the page of that thread.
pub proof fn lemma_thread_round_trip(key: Seq<char>, id: Seq<char>, keys: Map<Seq<char>, usize>)
    requires
        keys.contains_key(key),
        is_path_key(key),
        is_thread_number(id),
    ensures
        route_of(thread_path(key, id), keys) == (RouteView::ThreadWebUI {
            board_key: key,
            board_id: keys[key],
            thread_id: id,
        }),
        route_of(with_slash(thread_path(key, id)), keys) == (RouteView::ThreadWebUI {
            board_key: key,
            board_id: keys[key],
            thread_id: id,
        }),
        route_of(read_cgi_path(key, id), keys) == (RouteView::ThreadWebUI {
            board_key: key,
            board_id: keys[key],
            thread_id: id,
        }),
        route_of(with_slash(read_cgi_path(key, id)), keys) == (RouteView::ThreadWebUI {
            board_key: key,
            board_id: keys[key],
            thread_id: id,
        }),
{
    reveal_strlit("bbs.cgi");
    reveal_strlit("test");
    reveal_strlit("read.cgi");
    let e = Seq::<char>::empty();
    assert(!e.contains('/'));
    assert(!"test"@.contains('/'));
    assert(!"read.cgi"@.contains('/'));
    lemma_digits_plain(id);
    lemma_no_ending(id);
    lemma_no_ending(e);
    lemma_not_fixed(seq![e, key, id]);
    lemma_not_fixed(seq![e, key, id, e]);
    lemma_not_fixed(seq![e, "test"@, "read.cgi"@, key, id]);
    lemma_not_fixed(seq![e, "test"@, "read.cgi"@, key, id, e]);
    reveal_with_fuel(slash_joined, 7);
    assert(with_slash(thread_path(key, id)) =~= slash_joined(seq![e, key, id, e]));
    assert(seq![e, key, id, e].drop_last() == seq![e, key, id]);
    assert(with_slash(read_cgi_path(key, id)) =~= slash_joined(
        seq![e, "test"@, "read.cgi"@, key, id, e],
    ));
    assert(seq![e, "test"@, "read.cgi"@, key, id, e].drop_last() == seq![
        e,
        "test"@,
        "read.cgi"@,
        key,
        id,
    ]);
}

/// Each fixed path leads to its own route, whatever the boards are.
pub proof fn lemma_fixed_round_trip(keys: Map<Seq<char>, usize>)
    ensures
        route_of("/"@, keys) == RouteView::Index,
        route_of("/index.html"@, keys) == RouteView::Index,
        route_of("/auth"@, keys) == RouteView::Auth,
        route_of("/auth/"@, keys) == RouteView::Auth,
        route_of("/auth-code"@, keys) == RouteView::AuthCode,
        route_of("/auth-code/"@, keys) == RouteView::AuthCode,
        route_of("/test/bbs.cgi"@, keys) == RouteView::BbsCgi,
{
    reveal_strlit("/");
    reveal_strlit("/index.html");
    reveal_strlit("/auth");
    reveal_strlit("/auth/");
    reveal_strlit("/auth-code");
    reveal_strlit("/auth-code/");
    reveal_strlit("/test/bbs.cgi");
    assert("/"@.len() == 1);
    assert("/index.html"@.len() == 11);
    assert("/auth"@.len() == 5);
    assert("/auth/"@.len() == 6);
    assert("/auth-code"@.len() == 10);
    assert("/auth-code/"@.len() == 11);
    assert("/test/bbs.cgi"@.len() == 13);
    assert("/index.html"@[1] == 'i');
    assert("/auth-code/"@[1] == 'a');
}

} // verus!
