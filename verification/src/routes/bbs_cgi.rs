//! The write endpoint: the form of a post, its validation, and the
//! decisions that lead from a posted form to a stored response.

use crate::cap::opt_str_view;
use crate::datetime::{format_time, formatted_time};
use crate::hashes::{hex_lower, hex_text, is_lower_hex, lemma_hex_text, md5, md5_digest};
use crate::response::opt_view;
use crate::sanitize::{
    has_token_run, sanitize, sanitize_chars, sanitize_thread_name, sanitized, sanitized_title,
    TokenRemover,
};
use crate::sjis::{sjis_decode, sjis_text, MAX_BYTES, MAX_TEXT};
use crate::text::{
    chars_of, contains, cuts, decimal, decimal_string, lemma_pieces_nonempty, matches_at,
    piece_ranges, pieces, push_all, push_decimal, push_str, ranges_within, replace_str, replaced,
    same_text, slice_of, starts_with, str_has, string_of,
};
use crate::thread::{MetadentType, ThreadView};
use crate::trip::{calculate_trip, first_chars, trip_of};
use crate::utils::{
    field_value, form_fields, get_reduced_ip_addr, reduced_ip, shift_jis_url_encodeded_body_to_vec,
    FormFields, JST_OFFSET_MILLIS,
};
use vstd::prelude::*;
use vstd::string::StrSliceExecFns;

verus! {

/// A posted form after decoding and sanitisation.
#[derive(Debug, Clone)]
pub struct BbsCgiForm {
    pub subject: Option<String>,
    pub name: String,
    pub mail: String,
    pub body: String,
    pub board_key: String,
    pub is_thread: bool,
    pub thread_id: Option<String>,
    pub cap: Option<String>,
}

/// The mathematical value of a [`BbsCgiForm`].
pub struct FormView {
    pub subject: Option<Seq<char>>,
    pub name: Seq<char>,
    pub mail: Seq<char>,
    pub body: Seq<char>,
    pub board_key: Seq<char>,
    pub is_thread: bool,
    pub thread_id: Option<Seq<char>>,
    pub cap: Option<Seq<char>>,
}

impl View for BbsCgiForm {
    type V = FormView;

    open spec fn view(&self) -> FormView {
        FormView {
            subject: opt_view(self.subject),
            name: self.name@,
            mail: self.mail@,
            body: self.body@,
            board_key: self.board_key@,
            is_thread: self.is_thread,
            thread_id: opt_view(self.thread_id),
            cap: opt_view(self.cap),
        }
    }
}

/// The longest thread title, in characters.
pub const MAX_SUBJECT: usize = 96;

/// The longest name and the longest mail field, in characters.
pub const MAX_NAME: usize = 64;

/// The longest body, in characters.
pub const MAX_BODY: usize = 4096;

/// The most line breaks that a body may hold.
pub const MAX_LINE_BREAKS: usize = 32;

/// How often `pat` occurs in `s`, counted from the left without overlap.
pub open spec fn occurrences(s: Seq<char>, pat: Seq<char>) -> nat
    decreases s.len(),
{
    if pat.len() == 0 || s.len() < pat.len() {
        0
    } else if s.take(pat.len() as int) == pat {
        1 + occurrences(s.skip(pat.len() as int), pat)
    } else {
        occurrences(s.skip(1), pat)
    }
}

/// The line breaks of a body: its line feeds and, as sanitisation writes
/// them, its `<br>`.
pub open spec fn line_breaks(body: Seq<char>) -> nat {
    occurrences(body, "\n"@) + occurrences(body, "<br>"@)
}

/// Why a form is refused, if it is: the first of the limits that it breaks.
pub open spec fn validation_error(f: FormView) -> Option<Seq<char>> {
    if f.subject is Some && f.subject->0.len() > MAX_SUBJECT {
        Some("スレッドタイトルが長すぎます"@)
    } else if f.name.len() > MAX_NAME {
        Some("名前が長すぎます"@)
    } else if f.mail.len() > MAX_NAME {
        Some("メールアドレスが長すぎます"@)
    } else if f.body.len() > MAX_BODY {
        Some("本文が長すぎます"@)
    } else if line_breaks(f.body) > MAX_LINE_BREAKS {
        Some("本文に改行が多すぎます"@)
    } else {
        None
    }
}

/// Counts the occurrences of `pat` in `s`.
pub fn count_occurrences(s: &Vec<char>, pat: &Vec<char>) -> (r: usize)
    requires
        pat.len() > 0,
    ensures
        r == occurrences(s@, pat@),
{
    let mut n: usize = 0;
    let mut i: usize = 0;
    assert(s@.skip(0) == s@);
    while i < s.len()
        invariant
            i <= s.len(),
            pat.len() > 0,
            n <= i,
            occurrences(s@, pat@) == n + occurrences(s@.skip(i as int), pat@),
        decreases s.len() - i,
    {
        let ghost rest = s@.skip(i as int);
        if matches_at(s, pat, i) {
            assert(rest.take(pat.len() as int) == s@.subrange(i as int, i + pat.len()));
            assert(rest.skip(pat.len() as int) == s@.skip(i + pat.len()));
            n += 1;
            i += pat.len();
        } else {
            assert(rest.len() >= pat.len() ==> rest.take(pat.len() as int) == s@.subrange(
                i as int,
                i + pat.len(),
            ));
            assert(rest.skip(1) == s@.skip(i + 1));
            assert(rest.len() < pat.len() ==> occurrences(rest.skip(1), pat@) == 0);
            i += 1;
        }
    }
    assert(s@.skip(s.len() as int).len() == 0);
    n
}

impl BbsCgiForm {
    /// Checks the form against the limits of a post.
    pub fn validate(&self) -> (r: Result<(), &'static str>)
        ensures
            match r {
                Ok(_) => validation_error(self@) is None,
                Err(reason) => validation_error(self@) == Some(reason@),
            },
    {
        match &self.subject {
            Some(subject) => {
                if chars_of(subject.as_str()).len() > MAX_SUBJECT {
                    return Err("スレッドタイトルが長すぎます");
                }
            },
            None => {},
        }
        if chars_of(self.name.as_str()).len() > MAX_NAME {
            return Err("名前が長すぎます");
        }
        if chars_of(self.mail.as_str()).len() > MAX_NAME {
            return Err("メールアドレスが長すぎます");
        }
        let body = chars_of(self.body.as_str());
        if body.len() > MAX_BODY {
            return Err("本文が長すぎます");
        }
        proof {
            reveal_strlit("\n");
            reveal_strlit("<br>");
        }
        let feed = chars_of("\n");
        let br = chars_of("<br>");
        let feeds = count_occurrences(&body, &feed);
        let brs = count_occurrences(&body, &br);
        if feeds > MAX_LINE_BREAKS || brs > MAX_LINE_BREAKS || feeds + brs > MAX_LINE_BREAKS {
            return Err("本文に改行が多すぎます");
        }
        Ok(())
    }
}

/// The segments from the second to the `n`th, joined without anything
/// between them.
pub open spec fn tail_joined(parts: Seq<Seq<char>>, n: int) -> Seq<char>
    decreases n,
{
    if n <= 1 {
        Seq::<char>::empty()
    } else {
        tail_joined(parts, n - 1) + parts[n - 1]
    }
}

/// `s` with white diamonds for the black ones that mark a tripcode.
pub open spec fn diamondless(s: Seq<char>) -> Seq<char> {
    replaced(replaced(s, "◆"@, "◇"@), "&#9670;"@, "◇"@)
}

/// `s` with white signs for the diamonds and stars that mark tripcodes
/// and caps.
pub open spec fn markless(s: Seq<char>) -> Seq<char> {
    replaced(replaced(diamondless(s), "★"@, "☆"@), "&#9733;"@, "☆"@)
}

/// The name, or nothing where it holds a run of thirty token characters.
pub open spec fn token_free(name: Seq<char>) -> Seq<char> {
    if has_token_run(name, 30) {
        Seq::<char>::empty()
    } else {
        name
    }
}

/// The key from which the tripcode of a `FROM` field is computed: what
/// follows its first `#`, without further `#`, sanitised and freed of
/// diamonds.
pub open spec fn trip_key(from: Seq<char>) -> Seq<char> {
    let segs = pieces(from, '#');
    diamondless(sanitized(tail_joined(segs, segs.len() as int)))
}

/// The name that a `FROM` field gives. Without a `#` it is the field
/// itself, blanked where it holds a token, sanitised and freed of marks.
/// With one it is the sanitised part before the `#`, a black diamond and
/// the tripcode of the rest. None where the key of the tripcode is longer
/// than an encoder is handed.
pub open spec fn posted_name(from: Seq<char>) -> Option<Seq<char>> {
    let segs = pieces(from, '#');
    if segs.len() == 1 {
        Some(markless(sanitized(token_free(segs[0]))))
    } else if trip_key(from).len() > MAX_TEXT {
        None
    } else {
        Some(sanitized(segs[0]) + "◆"@ + trip_of(trip_key(from)))
    }
}

/// The mail that a `mail` field gives: its part before the first `#`,
/// sanitised.
pub open spec fn posted_mail(mail: Seq<char>) -> Seq<char> {
    sanitized(pieces(mail, '#')[0])
}

/// The cap that a `mail` field claims: what follows its first `#`, without
/// further `#`, sanitised. None where the field holds no `#`.
pub open spec fn posted_cap(mail: Seq<char>) -> Option<Seq<char>> {
    let segs = pieces(mail, '#');
    if segs.len() == 1 {
        None
    } else {
        Some(sanitized(tail_joined(segs, segs.len() as int)))
    }
}

/// Whether a `submit` field asks for a new thread; none where it asks for
/// nothing that is known.
pub open spec fn submit_kind(submit: Seq<char>) -> Option<bool> {
    if submit == "書き込む"@ {
        Some(false)
    } else if submit == "新規スレッド作成"@ {
        Some(true)
    } else {
        None
    }
}

/// The form that decoded fields give. The fields `submit`, `mail`, `FROM`,
/// `MESSAGE` and `bbs` are required, and so is `subject` for a new thread
/// and `key` for a reply.
pub open spec fn form_of_fields(fields: Seq<(Seq<char>, Seq<char>)>) -> Option<FormView> {
    let submit = field_value(fields, "submit"@);
    let mail = field_value(fields, "mail"@);
    let from = field_value(fields, "FROM"@);
    let message = field_value(fields, "MESSAGE"@);
    let bbs = field_value(fields, "bbs"@);
    let subject = field_value(fields, "subject"@);
    let key = field_value(fields, "key"@);
    if submit is None || mail is None || from is None || message is None || bbs is None {
        None
    } else if submit_kind(submit->0) is None || posted_name(from->0) is None {
        None
    } else if submit_kind(submit->0) == Some(true) {
        if subject is None {
            None
        } else {
            Some(
                FormView {
                    subject: Some(sanitized_title(subject->0)),
                    name: posted_name(from->0)->0,
                    mail: posted_mail(mail->0),
                    body: sanitized(message->0),
                    board_key: bbs->0,
                    is_thread: true,
                    thread_id: None,
                    cap: posted_cap(mail->0),
                },
            )
        }
    } else {
        if key is None {
            None
        } else {
            Some(
                FormView {
                    subject: None,
                    name: posted_name(from->0)->0,
                    mail: posted_mail(mail->0),
                    body: sanitized(message->0),
                    board_key: bbs->0,
                    is_thread: false,
                    thread_id: Some(key->0),
                    cap: posted_cap(mail->0),
                },
            )
        }
    }
}

/// The form that the bytes of a request body give: the bytes read as
/// Shift_JIS, cut into fields, and the fields made into a form. None where
/// the body is longer than a decoder is handed or anything is malformed.
pub open spec fn form_of(bytes: Seq<u8>) -> Option<FormView> {
    if bytes.len() > MAX_BYTES {
        None
    } else {
        match form_fields(sjis_text(bytes)) {
            Some(fields) => form_of_fields(fields),
            None => None,
        }
    }
}

/// Joins the segments after the first.
fn join_tail(s: &Vec<char>, ranges: &Vec<(usize, usize)>) -> (r: Vec<char>)
    requires
        ranges_within(ranges@, s@.len()),
    ensures
        r@ == tail_joined(cuts(s@, ranges@), ranges@.len() as int),
{
    let mut out: Vec<char> = Vec::new();
    let mut k: usize = 1;
    if ranges.len() <= 1 {
        return out;
    }
    while k < ranges.len()
        invariant
            1 <= k <= ranges.len(),
            ranges_within(ranges@, s@.len()),
            out@ == tail_joined(cuts(s@, ranges@), k as int),
        decreases ranges.len() - k,
    {
        let (from, to) = ranges[k];
        assert(ranges@[k as int].0 <= ranges@[k as int].1);
        let seg = slice_of(s, from, to);
        assert(seg@ == cuts(s@, ranges@)[k as int]);
        push_all(&mut out, &seg);
        k += 1;
    }
    out
}

/// Replaces the black diamonds of `s` by white ones.
fn without_diamonds(s: &Vec<char>) -> (r: Vec<char>)
    ensures
        r@ == diamondless(s@),
{
    proof {
        reveal_strlit("◆");
        reveal_strlit("&#9670;");
    }
    let a = replace_str(s, "◆", "◇");
    replace_str(&a, "&#9670;", "◇")
}

/// Replaces the marks of tripcodes and caps in `s` by white signs.
fn without_marks(s: &Vec<char>) -> (r: Vec<char>)
    ensures
        r@ == markless(s@),
{
    proof {
        reveal_strlit("★");
        reveal_strlit("&#9733;");
    }
    let a = without_diamonds(s);
    let b = replace_str(&a, "★", "☆");
    replace_str(&b, "&#9733;", "☆")
}

/// Makes the name of a post from its `FROM` field.
pub fn name_from_field(from: &str) -> (r: Option<String>)
    ensures
        match r {
            Some(n) => posted_name(from@) == Some(n@),
            None => posted_name(from@) is None,
        },
{
    let chars = chars_of(from);
    let segs = piece_ranges(&chars, '#');
    proof {
        lemma_pieces_nonempty(from@, '#');
    }
    let (f0, t0) = segs[0];
    assert(segs@[0].0 <= segs@[0].1);
    let head = slice_of(&chars, f0, t0);
    assert(head@ == cuts(chars@, segs@)[0]);
    if segs.len() == 1 {
        let remover = TokenRemover::new();
        let kept: Vec<char> = if remover.looks_like_token(&head) {
            Vec::new()
        } else {
            head
        };
        let clean = sanitize_chars(&kept);
        let out = without_marks(&clean);
        Some(string_of(&out))
    } else {
        let tail = join_tail(&chars, &segs);
        let clean = sanitize_chars(&tail);
        let key = without_diamonds(&clean);
        if key.len() > MAX_TEXT {
            return None;
        }
        let key = string_of(&key);
        let trip = calculate_trip(key.as_str());
        let mut out = sanitize_chars(&head);
        push_str(&mut out, "◆");
        push_str(&mut out, trip.as_str());
        Some(string_of(&out))
    }
}

/// Makes the mail and the claimed cap of a post from its `mail` field.
pub fn mail_from_field(mail: &str) -> (r: (String, Option<String>))
    ensures
        r.0@ == posted_mail(mail@),
        opt_view(r.1) == posted_cap(mail@),
{
    let chars = chars_of(mail);
    let segs = piece_ranges(&chars, '#');
    proof {
        lemma_pieces_nonempty(mail@, '#');
    }
    let (f0, t0) = segs[0];
    assert(segs@[0].0 <= segs@[0].1);
    let head = slice_of(&chars, f0, t0);
    assert(head@ == cuts(chars@, segs@)[0]);
    let address = string_of(&sanitize_chars(&head));
    if segs.len() == 1 {
        (address, None)
    } else {
        let tail = join_tail(&chars, &segs);
        let cap = string_of(&sanitize_chars(&tail));
        (address, Some(cap))
    }
}

/// Whether the text `s` is the text `lit`.
fn is_text(s: &str, lit: &str) -> (r: bool)
    ensures
        r == (s@ == lit@),
{
    let a = chars_of(s);
    let b = chars_of(lit);
    same_text(&a, &b)
}

/// Makes the form of a post from the decoded fields of a request body.
pub fn form_from_fields(fields: &FormFields) -> (r: Option<BbsCgiForm>)
    ensures
        match r {
            Some(f) => form_of_fields(fields@) == Some(f@),
            None => form_of_fields(fields@) is None,
        },
{
    let submit = match fields.get("submit") {
        Some(v) => v,
        None => {
            return None;
        },
    };
    let mail = match fields.get("mail") {
        Some(v) => v,
        None => {
            return None;
        },
    };
    let from = match fields.get("FROM") {
        Some(v) => v,
        None => {
            return None;
        },
    };
    let message = match fields.get("MESSAGE") {
        Some(v) => v,
        None => {
            return None;
        },
    };
    let bbs = match fields.get("bbs") {
        Some(v) => v,
        None => {
            return None;
        },
    };
    let is_thread = if is_text(submit.as_str(), "書き込む") {
        false
    } else if is_text(submit.as_str(), "新規スレッド作成") {
        true
    } else {
        return None;
    };
    let name = match name_from_field(from.as_str()) {
        Some(n) => n,
        None => {
            return None;
        },
    };
    let (mail, cap) = mail_from_field(mail.as_str());
    let body = sanitize(message.as_str());
    let board_key = bbs.clone();
    if is_thread {
        let subject = match fields.get("subject") {
            Some(v) => sanitize_thread_name(v.as_str()),
            None => {
                return None;
            },
        };
        Some(
            BbsCgiForm {
                subject: Some(subject),
                name,
                mail,
                body,
                board_key,
                is_thread,
                thread_id: None,
                cap,
            },
        )
    } else {
        let key = match fields.get("key") {
            Some(v) => v.clone(),
            None => {
                return None;
            },
        };
        Some(
            BbsCgiForm {
                subject: None,
                name,
                mail,
                body,
                board_key,
                is_thread,
                thread_id: Some(key),
                cap,
            },
        )
    }
}

/// Reads the form of a post from the bytes of a request body.
pub fn extract_forms(bytes: Vec<u8>) -> (r: Option<BbsCgiForm>)
    ensures
        match r {
            Some(f) => form_of(bytes@) == Some(f@),
            None => form_of(bytes@) is None,
        },
{
    if bytes.len() > MAX_BYTES {
        return None;
    }
    let data = sjis_decode(bytes.as_slice());
    match shift_jis_url_encodeded_body_to_vec(data.as_str()) {
        Ok(fields) => form_from_fields(&fields),
        Err(_) => None,
    }
}

/// Why a post is turned away with a failure page.
#[derive(Debug, Clone, Copy, PartialEq, Eq, Structural)]
pub enum Refusal {
    /// A write from the same address or token came within five seconds.
    TooFast,
    /// A token was asked for through the retired domain.
    OldDomain,
    /// The address has asked for tokens too often.
    TooManyAuthAttempts,
    /// The token made a thread within the last two minutes.
    TooManyThreads,
    /// The thread has reached its last response.
    ThreadStopped,
    /// There is no such thread.
    NoSuchThread,
    /// A thread was already made in the same second.
    DuplicateThread,
    /// There is no such board.
    NoSuchBoard,
}

impl Refusal {
    /// The reason as the failure page words it.
    pub open spec fn reason_text(self) -> Seq<char> {
        match self {
            Refusal::TooFast => "5秒以内の連続投稿はできません"@,
            Refusal::OldDomain => "旧ドメインからの新規認証は終了しました。<br>新ドメインの板 https://bbs.eddibb.cc/liveedge/ を新規に外部板登録してから書き込んでください。"@,
            Refusal::TooManyAuthAttempts => "発行ずみの認証トークンを使うか、時間を置いて再度アクセスして下さい"@,
            Refusal::TooManyThreads => "ちょっとスレ立てすぎ！"@,
            Refusal::ThreadStopped => "スレッドストッパーが働いたみたいなので書き込めません"@,
            Refusal::NoSuchThread => "そのようなスレは存在しません"@,
            Refusal::DuplicateThread => "同じ時間に既にスレッドが立っています"@,
            Refusal::NoSuchBoard => "書き込もうとしている板が存在しません"@,
        }
    }

    /// The reason as the failure page words it.
    pub fn reason(self) -> (r: &'static str)
        ensures
            r@ == self.reason_text(),
    {
        match self {
            Refusal::TooFast => "5秒以内の連続投稿はできません",
            Refusal::OldDomain => "旧ドメインからの新規認証は終了しました。<br>新ドメインの板 https://bbs.eddibb.cc/liveedge/ を新規に外部板登録してから書き込んでください。",
            Refusal::TooManyAuthAttempts => "発行ずみの認証トークンを使うか、時間を置いて再度アクセスして下さい",
            Refusal::TooManyThreads => "ちょっとスレ立てすぎ！",
            Refusal::ThreadStopped => "スレッドストッパーが働いたみたいなので書き込めません",
            Refusal::NoSuchThread => "そのようなスレは存在しません",
            Refusal::DuplicateThread => "同じ時間に既にスレッドが立っています",
            Refusal::NoSuchBoard => "書き込もうとしている板が存在しません",
        }
    }
}

/// Whether a user agent is given and holds `mark`.
pub open spec fn ua_holds(ua: Option<Seq<char>>, mark: Seq<char>) -> bool {
    ua is Some && contains(ua->0, mark)
}

/// Whether a user agent is given and holds `mark`.
pub fn ua_has(ua: Option<&str>, mark: &str) -> (r: bool)
    ensures
        r == ua_holds(opt_str_view(ua), mark@),
{
    match ua {
        Some(u) => str_has(u, mark),
        None => false,
    }
}

/// Where the token of a request is taken from, and whether that is the
/// cap field. By the first rule that applies: a BathyScaphe client that
/// sends a cap gives the cap; a 2chMate client without a cookie gives none;
/// a cookie is taken where there is one; else the cap where there is one;
/// else none.
pub open spec fn token_source(
    cookie: Option<Seq<char>>,
    cap: Option<Seq<char>>,
    ua: Option<Seq<char>>,
) -> (Option<Seq<char>>, bool) {
    if cap is Some && ua_holds(ua, "BathyScaphe"@) {
        (cap, true)
    } else if cookie is None && ua_holds(ua, "2chMate"@) {
        (None, false)
    } else if cookie is Some {
        (cookie, false)
    } else if cap is Some {
        (cap, true)
    } else {
        (None, false)
    }
}

/// Picks the source of the token of a request.
pub fn select_token_source<'a>(
    cookie: Option<&'a str>,
    cap: Option<&'a str>,
    ua: Option<&str>,
) -> (r: (Option<&'a str>, bool))
    ensures
        (opt_str_view(r.0), r.1) == token_source(
            opt_str_view(cookie),
            opt_str_view(cap),
            opt_str_view(ua),
        ),
{
    if cap.is_some() && ua_has(ua, "BathyScaphe") {
        (cap, true)
    } else if cookie.is_none() && ua_has(ua, "2chMate") {
        (None, false)
    } else if cookie.is_some() {
        (cookie, false)
    } else if cap.is_some() {
        (cap, true)
    } else {
        (None, false)
    }
}

/// The seconds that the hard cap looks back.
pub const RECENT_RES_SECONDS: u64 = 40;

/// The seconds that must lie between two writes under one token.
pub const MIN_RES_SPAN: u64 = 5;

/// The seconds that must lie between two threads made under one token.
pub const MIN_THREAD_SPAN: u64 = 120;

/// The distance between two moments.
pub open spec fn gap(a: u64, b: u64) -> int {
    if a <= b {
        b - a
    } else {
        a - b
    }
}

/// Any two of the moments lie `span` or more apart.
pub open spec fn apart(ts: Seq<u64>, span: int) -> bool {
    forall|i: int, j: int| 0 <= i < j < ts.len() ==> gap(#[trigger] ts[i], #[trigger] ts[j]) >= span
}

/// The least distance from `x` to one of the first `n` moments; the largest
/// number where there is none.
pub open spec fn least_gap_to(ts: Seq<u64>, n: int, x: u64) -> int
    decreases n,
{
    if n <= 0 {
        u64::MAX as int
    } else {
        let rest = least_gap_to(ts, n - 1, x);
        if gap(ts[n - 1], x) < rest {
            gap(ts[n - 1], x)
        } else {
            rest
        }
    }
}

/// The least distance between two of the first `n` moments; the largest
/// number where there are fewer than two.
pub open spec fn least_gap(ts: Seq<u64>, n: int) -> int
    decreases n,
{
    if n <= 1 {
        u64::MAX as int
    } else {
        let rest = least_gap(ts, n - 1);
        let last = least_gap_to(ts, n - 1, ts[n - 1]);
        if last < rest {
            last
        } else {
            rest
        }
    }
}

/// The least distance between two writes among the recent ones and the one
/// at `now`.
pub open spec fn recent_span(recent: Seq<u64>, now: u64) -> int {
    least_gap(recent.push(now), recent.len() as int + 1)
}

/// No moment among the first `n` is nearer to `x` than the least gap.
pub proof fn lemma_least_gap_to(ts: Seq<u64>, n: int, x: u64, i: int)
    requires
        0 <= i < n <= ts.len(),
    ensures
        least_gap_to(ts, n, x) <= gap(ts[i], x),
    decreases n,
{
    if i < n - 1 {
        lemma_least_gap_to(ts, n - 1, x, i);
    }
}

/// No two moments among the first `n` are nearer than the least gap.
pub proof fn lemma_least_gap(ts: Seq<u64>, n: int, i: int, j: int)
    requires
        0 <= i < j < n <= ts.len(),
    ensures
        least_gap(ts, n) <= gap(ts[i], ts[j]),
    decreases n,
{
    if j < n - 1 {
        lemma_least_gap(ts, n - 1, i, j);
    } else {
        lemma_least_gap_to(ts, n - 1, ts[n - 1], i);
    }
}

/// The distance between two moments.
fn gap_of(a: u64, b: u64) -> (r: u64)
    ensures
        r == gap(a, b),
{
    if a <= b {
        b - a
    } else {
        a - b
    }
}

/// Finds the least distance between two writes among the recent ones and
/// the one at `now`.
pub fn get_min_recent_res_span(recent: &Vec<u64>, now: u64) -> (r: u64)
    ensures
        r == recent_span(recent@, now),
{
    let mut all: Vec<u64> = recent.clone();
    all.push(now);
    assert(all@ == recent@.push(now));
    let mut best: u64 = u64::MAX;
    let mut n: usize = 0;
    while n < all.len()
        invariant
            n <= all.len(),
            best == least_gap(all@, if n == 0 {
                0
            } else {
                n as int
            }),
        decreases all.len() - n,
    {
        let x = all[n];
        let mut near: u64 = u64::MAX;
        let mut i: usize = 0;
        while i < n
            invariant
                i <= n < all.len(),
                x == all@[n as int],
                near == least_gap_to(all@, i as int, x),
            decreases n - i,
        {
            let g = gap_of(all[i], x);
            if g < near {
                near = g;
            }
            i += 1;
        }
        if n >= 1 && near < best {
            best = near;
        }
        n += 1;
    }
    best
}

/// From which moment on the writes of a token count as recent at `now`:
/// forty seconds back, or from the beginning where `now` is earlier than
/// that.
pub fn recent_since(now: u64) -> (r: Option<u64>)
    ensures
        r == if now >= RECENT_RES_SECONDS {
            Some((now - RECENT_RES_SECONDS) as u64)
        } else {
            None
        },
{
    if now >= RECENT_RES_SECONDS {
        Some(now - RECENT_RES_SECONDS)
    } else {
        None
    }
}

/// Under the hard cap, the writes of one token lie five seconds or more
/// apart: where the earlier writes do, and every one of them from the last
/// forty seconds is among those fetched, a write that the cap lets through
/// lies five seconds or more from each of them.
pub proof fn lemma_hard_cap_spacing(history: Seq<u64>, recent: Seq<u64>, now: u64)
    requires
        apart(history, MIN_RES_SPAN as int),
        forall|i: int|
            0 <= i < history.len() && history[i] + RECENT_RES_SECONDS > now
                ==> recent.contains(#[trigger] history[i]),
        recent_span(recent, now) >= MIN_RES_SPAN,
    ensures
        apart(history.push(now), MIN_RES_SPAN as int),
{
    let all = history.push(now);
    assert forall|i: int, j: int| 0 <= i < j < all.len() implies gap(
        #[trigger] all[i],
        #[trigger] all[j],
    ) >= MIN_RES_SPAN by {
        if j < history.len() {
            assert(all[i] == history[i] && all[j] == history[j]);
        } else {
            let h = history[i];
            assert(all[i] == h);
            if h + RECENT_RES_SECONDS > now {
                assert(recent.contains(h));
                let k = choose|k: int| 0 <= k < recent.len() && recent[k] == h;
                let with_now = recent.push(now);
                assert(with_now[k] == h);
                assert(with_now[recent.len() as int] == now);
                lemma_least_gap(with_now, recent.len() as int + 1, k, recent.len() as int);
            }
        }
    }
}

/// Whether a new thread at `now` comes too soon after the last one that
/// the token made.
pub open spec fn cadence_refuses(last: Option<u64>, is_thread: bool, now: u64) -> bool {
    is_thread && last is Some && now - last->0 < MIN_THREAD_SPAN
}

/// Decides whether a post is refused for making threads too fast.
pub fn thread_cadence_refuses(last: Option<u64>, is_thread: bool, now: u64) -> (r: bool)
    ensures
        r == cadence_refuses(last, is_thread, now),
{
    match last {
        Some(at) => is_thread && (now < at || now - at < MIN_THREAD_SPAN),
        None => false,
    }
}

/// The threads that one token makes lie two minutes or more apart: where
/// the earlier ones do and `last` is the latest of them, a thread that is
/// let through at `now` lies two minutes or more from each of them.
pub proof fn lemma_thread_spacing(created: Seq<u64>, last: Option<u64>, now: u64)
    requires
        apart(created, MIN_THREAD_SPAN as int),
        created.len() > 0 ==> last is Some,
        forall|i: int| 0 <= i < created.len() ==> #[trigger] created[i] <= last->0,
        !cadence_refuses(last, true, now),
    ensures
        apart(created.push(now), MIN_THREAD_SPAN as int),
{
    let all = created.push(now);
    assert forall|i: int, j: int| 0 <= i < j < all.len() implies gap(
        #[trigger] all[i],
        #[trigger] all[j],
    ) >= MIN_THREAD_SPAN by {
        if j < created.len() {
            assert(all[i] == created[i] && all[j] == created[j]);
        } else {
            assert(all[i] == created[i]);
            assert(created[i] <= last->0);
        }
    }
}

/// The token that is minted for an address at a moment: the MD5 digest,
/// in hexadecimal, of the address followed by the moment in decimal.
pub open spec fn minted_token(ip: Seq<char>, unix_time: u64) -> Seq<char> {
    hex_text(
        md5_digest(
            vstd::utf8::encode_utf8(ip) + vstd::utf8::encode_utf8(
                decimal(unix_time as nat),
            ),
        ),
    )
}

/// Mints the token for an address at a moment: thirty-two digits of
/// lower-case hexadecimal.
pub fn mint_token(ip_addr: &str, unix_time: u64) -> (r: String)
    ensures
        r@ == minted_token(ip_addr@, unix_time),
        r@.len() == 32,
        forall|i: int| 0 <= i < 32 ==> is_lower_hex(#[trigger] r@[i]),
{
    let mut bytes = ip_addr.as_bytes_vec();
    let time = decimal_string(unix_time);
    let mut tail = time.as_str().as_bytes_vec();
    bytes.append(&mut tail);
    let digest = md5(bytes.as_slice());
    proof {
        lemma_hex_text(digest@);
    }
    hex_lower(digest.as_slice())
}

/// The page that asks a client to authenticate.
#[derive(Debug, Clone, Copy, PartialEq, Eq, Structural)]
pub enum ChallengePage {
    /// The page for a locally run server: it shows the token.
    Local,
    /// The page for clients with a browser: it links to the token form.
    BrowserToken,
    /// The page that shows the code to enter.
    Code,
}

/// Which page asks the client to authenticate.
pub open spec fn challenge_page_for(local_debugging: bool, ua: Option<Seq<char>>) -> ChallengePage {
    if local_debugging {
        ChallengePage::Local
    } else if ua_holds(ua, "Mate"@) {
        ChallengePage::BrowserToken
    } else {
        ChallengePage::Code
    }
}

/// Picks the page that asks the client to authenticate.
pub fn challenge_page(local_debugging: bool, ua: Option<&str>) -> (r: ChallengePage)
    ensures
        r == challenge_page_for(local_debugging, opt_str_view(ua)),
{
    if local_debugging {
        ChallengePage::Local
    } else if ua_has(ua, "Mate") {
        ChallengePage::BrowserToken
    } else {
        ChallengePage::Code
    }
}

/// The `Set-Cookie` value that gives a client the cookie `name`, kept for
/// a year on every path.
pub open spec fn cookie_header(name: Seq<char>, value: Seq<char>) -> Seq<char> {
    name + "="@ + value + "; Max-Age=31536000; Path=/"@
}

/// Writes the `Set-Cookie` value for the cookie `name`.
pub fn set_cookie_value(name: &str, value: &str) -> (r: String)
    ensures
        r@ == cookie_header(name@, value@),
{
    let mut out = chars_of(name);
    push_str(&mut out, "=");
    push_str(&mut out, value);
    push_str(&mut out, "; Max-Age=31536000; Path=/");
    string_of(&out)
}

/// The date in Japan at a moment given in milliseconds, as `YYYY-MM-DD`.
pub open spec fn jst_date(now_millis: u64) -> Option<Seq<char>> {
    let at = now_millis + JST_OFFSET_MILLIS;
    if at > i64::MAX {
        None
    } else {
        formatted_time(at, "%Y-%m-%d"@)
    }
}

/// The text from which the daily id of an author is computed.
pub open spec fn author_id_source(origin_ip: Seq<char>, date: Seq<char>, board_id: usize) -> Seq<
    char,
> {
    reduced_ip(origin_ip) + ":"@ + date + ":"@ + decimal(
        board_id as nat,
    )
}

/// The id under which an author is known on a board for a day: the first
/// nine characters of the tripcode of the reduced address, the date in
/// Japan and the board. None where the date cannot be written or the
/// address is longer than an encoder is handed.
pub open spec fn author_id(origin_ip: Seq<char>, now_millis: u64, board_id: usize) -> Option<
    Seq<char>,
> {
    match jst_date(now_millis) {
        Some(date) => {
            let source = author_id_source(origin_ip, date, board_id);
            if source.len() > MAX_TEXT {
                None
            } else {
                Some(first_chars(trip_of(source), 9))
            }
        },
        None => None,
    }
}

/// Derives the daily id of an author.
pub fn derive_author_id(origin_ip: &str, now_millis: u64, board_id: usize) -> (r: Option<String>)
    ensures
        opt_view(r) == author_id(origin_ip@, now_millis, board_id),
{
    if now_millis > 0x7fff_ffff_ffff_ffff - JST_OFFSET_MILLIS {
        return None;
    }
    let at = (now_millis + JST_OFFSET_MILLIS) as i64;
    let date = match format_time(at, "%Y-%m-%d") {
        Some(d) => d,
        None => {
            return None;
        },
    };
    let reduced = get_reduced_ip_addr(origin_ip);
    let mut source = chars_of(reduced.as_str());
    push_str(&mut source, ":");
    push_str(&mut source, date.as_str());
    push_str(&mut source, ":");
    push_decimal(&mut source, board_id as u64);
    if source.len() > MAX_TEXT {
        return None;
    }
    let source = string_of(&source);
    let trip = calculate_trip(source.as_str());
    let chars = chars_of(trip.as_str());
    if chars.len() <= 9 {
        Some(trip)
    } else {
        let head = slice_of(&chars, 0, 9);
        assert(chars@.subrange(0, 9) == chars@.take(9));
        Some(string_of(&head))
    }
}

/// The level that the body of a first post asks for, by the marker that
/// the body begins with, and the body as it is stored: with the marker
/// rewritten to say that the level is configured.
pub open spec fn metadent_request(body: Seq<char>) -> (MetadentType, Seq<char>) {
    if starts_with(body, "!metadent:vvv:"@) {
        (
            MetadentType::VVVerbose,
            "!metadent:vvv - configured"@ + body.skip("!metadent:vvv:"@.len() as int),
        )
    } else if starts_with(body, "!metadent:vv:"@) {
        (
            MetadentType::VVerbose,
            "!metadent:vv - configured"@ + body.skip("!metadent:vv:"@.len() as int),
        )
    } else if starts_with(body, "!metadent:v:"@) {
        (
            MetadentType::Verbose,
            "!metadent:v - configured"@ + body.skip("!metadent:v:"@.len() as int),
        )
    } else {
        (MetadentType::Off, body)
    }
}

/// Rewrites a marker at the beginning of `body`, where it stands there.
fn rewrite_marker(body: &Vec<char>, marker: &str, written: &str) -> (r: Option<Vec<char>>)
    ensures
        match r {
            Some(b) => starts_with(body@, marker@) && b@ == written@ + body@.skip(
                marker@.len() as int,
            ),
            None => !starts_with(body@, marker@),
        },
{
    let m = chars_of(marker);
    if matches_at(body, &m, 0) {
        let mut out = chars_of(written);
        let rest = slice_of(body, m.len(), body.len());
        assert(body@.subrange(m.len() as int, body.len() as int) == body@.skip(m.len() as int));
        push_all(&mut out, &rest);
        Some(out)
    } else {
        None
    }
}

/// Reads the level that the body of a first post asks for and rewrites its
/// marker.
pub fn read_metadent_request(body: &str) -> (r: (MetadentType, String))
    ensures
        (r.0, r.1@) == metadent_request(body@),
{
    let chars = chars_of(body);
    match rewrite_marker(&chars, "!metadent:vvv:", "!metadent:vvv - configured") {
        Some(b) => {
            return (MetadentType::VVVerbose, string_of(&b));
        },
        None => {},
    }
    match rewrite_marker(&chars, "!metadent:vv:", "!metadent:vv - configured") {
        Some(b) => {
            return (MetadentType::VVerbose, string_of(&b));
        },
        None => {},
    }
    match rewrite_marker(&chars, "!metadent:v:", "!metadent:v - configured") {
        Some(b) => {
            return (MetadentType::Verbose, string_of(&b));
        },
        None => {},
    }
    (MetadentType::Off, string_of(&chars))
}

/// Why a reply to a thread is refused, if it is: there is no such thread,
/// or the thread is no longer active or is archived.
pub open spec fn reply_refusal(thread: Option<ThreadView>) -> Option<Refusal> {
    match thread {
        None => Some(Refusal::NoSuchThread),
        Some(t) => if t.active == 0 || t.archived == 1 {
            Some(Refusal::ThreadStopped)
        } else {
            None
        },
    }
}

/// The name of a post made under a cap: the name as posted, a black star
/// and the name of the cap.
pub open spec fn name_under_cap(name: Seq<char>, cap_name: Seq<char>) -> Seq<char> {
    name + "★ "@ + cap_name
}

} // verus!
