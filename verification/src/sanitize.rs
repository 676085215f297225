//! Sanitisation of user text before it is stored or rendered.

use crate::text::{chars_of, contains, occurs_at, replace, replaced, string_of};
use vstd::prelude::*;

verus! {

/// What a single character becomes: the three HTML-special characters are
/// written as entities, a line feed as `<br>`, a carriage return as nothing.
pub open spec fn escape_of(c: char) -> Seq<char> {
    if c == '<' {
        seq!['&', 'l', 't', ';']
    } else if c == '>' {
        seq!['&', 'g', 't', ';']
    } else if c == '"' {
        seq!['&', 'q', 'u', 'o', 't', ';']
    } else if c == '\n' {
        seq!['<', 'b', 'r', '>']
    } else if c == '\r' {
        Seq::<char>::empty()
    } else {
        seq![c]
    }
}

/// The text with each character escaped.
pub open spec fn escaped(s: Seq<char>) -> Seq<char>
    decreases s.len(),
{
    if s.len() == 0 {
        Seq::<char>::empty()
    } else {
        escaped(s.drop_last()) + escape_of(s.last())
    }
}

/// The written-out line feed reference that sanitisation removes.
pub open spec fn line_feed_ref() -> Seq<char> {
    seq!['&', '#', '1', '0', ';']
}

/// The sanitised form of a text: every character escaped, then each `&#10;`
/// that the result holds removed, from the left.
pub open spec fn sanitized(s: Seq<char>) -> Seq<char> {
    replaced(escaped(s), line_feed_ref(), Seq::<char>::empty())
}

/// Escapes one character onto the end of `out`.
fn push_escaped(out: &mut Vec<char>, c: char)
    ensures
        final(out)@ == old(out)@ + escape_of(c),
{
    if c == '<' {
        out.push('&');
        out.push('l');
        out.push('t');
        out.push(';');
    } else if c == '>' {
        out.push('&');
        out.push('g');
        out.push('t');
        out.push(';');
    } else if c == '"' {
        out.push('&');
        out.push('q');
        out.push('u');
        out.push('o');
        out.push('t');
        out.push(';');
    } else if c == '\n' {
        out.push('<');
        out.push('b');
        out.push('r');
        out.push('>');
    } else if c == '\r' {
    } else {
        out.push(c);
    }
    assert(out@ =~= old(out)@ + escape_of(c));
}

/// Sanitises a text given as characters.
pub fn sanitize_chars(input: &Vec<char>) -> (r: Vec<char>)
    ensures
        r@ == sanitized(input@),
{
    let mut out: Vec<char> = Vec::new();
    let mut i: usize = 0;
    assert(input@.take(0) == Seq::<char>::empty());
    while i < input.len()
        invariant
            i <= input.len(),
            out@ == escaped(input@.take(i as int)),
        decreases input.len() - i,
    {
        assert(input@.take(i + 1).drop_last() == input@.take(i as int));
        assert(input@.take(i + 1).last() == input@[i as int]);
        push_escaped(&mut out, input[i]);
        i += 1;
    }
    assert(input@.take(input.len() as int) == input@);
    let mut pat: Vec<char> = Vec::new();
    pat.push('&');
    pat.push('#');
    pat.push('1');
    pat.push('0');
    pat.push(';');
    assert(pat@ == line_feed_ref());
    let rep: Vec<char> = Vec::new();
    replace(&out, &pat, &rep)
}

/// Sanitises a user-supplied text.
pub fn sanitize(input: &str) -> (r: String)
    ensures
        r@ == sanitized(input@),
{
    let chars = chars_of(input);
    let out = sanitize_chars(&chars);
    string_of(&out)
}

/// Where a pattern does not occur, replacing it changes nothing.
pub proof fn lemma_replaced_absent(s: Seq<char>, pat: Seq<char>, rep: Seq<char>)
    requires
        !contains(s, pat),
    ensures
        replaced(s, pat, rep) == s,
    decreases s.len(),
{
    if pat.len() == 0 || s.len() < pat.len() {
    } else {
        if s.take(pat.len() as int) == pat {
            assert(s.subrange(0, 0 + pat.len() as int) == s.take(pat.len() as int));
            assert(occurs_at(s, pat, 0));
            assert(false);
        }
        let rest = s.skip(1);
        if contains(rest, pat) {
            let i = choose|i: int| occurs_at(rest, pat, i);
            assert(s.subrange(i + 1, i + 1 + pat.len()) == rest.subrange(i, i + pat.len()));
            assert(occurs_at(s, pat, i + 1));
            assert(false);
        }
        lemma_replaced_absent(rest, pat, rep);
        assert(seq![s[0]] + rest == s);
    }
}

/// Removing a pattern leaves only characters that were there before.
pub proof fn lemma_removed_chars(s: Seq<char>, pat: Seq<char>, c: char)
    requires
        replaced(s, pat, Seq::<char>::empty()).contains(c),
    ensures
        s.contains(c),
    decreases s.len(),
{
    let e = Seq::<char>::empty();
    let out = replaced(s, pat, e);
    if pat.len() == 0 || s.len() < pat.len() {
    } else if s.take(pat.len() as int) == pat {
        let rest = s.skip(pat.len() as int);
        assert(out == e + replaced(rest, pat, e));
        assert(e + replaced(rest, pat, e) == replaced(rest, pat, e));
        lemma_removed_chars(rest, pat, c);
        let i = choose|i: int| 0 <= i < rest.len() && rest[i] == c;
        assert(s[i + pat.len()] == c);
    } else {
        let rest = s.skip(1);
        let tail = replaced(rest, pat, e);
        let j = choose|j: int| 0 <= j < out.len() && out[j] == c;
        if j == 0 {
            assert(s[0] == c);
        } else {
            assert(tail[j - 1] == c);
            lemma_removed_chars(rest, pat, c);
            let i = choose|i: int| 0 <= i < rest.len() && rest[i] == c;
            assert(s[i + 1] == c);
        }
    }
}

/// A character that escaping rewrites or drops.
pub open spec fn is_special(c: char) -> bool {
    c == '<' || c == '>' || c == '"' || c == '\n' || c == '\r'
}

/// Escaping leaves a text without special characters as it is.
pub proof fn lemma_escaped_plain(s: Seq<char>)
    requires
        forall|i: int| 0 <= i < s.len() ==> !is_special(#[trigger] s[i]),
    ensures
        escaped(s) == s,
    decreases s.len(),
{
    if s.len() > 0 {
        assert(!is_special(s[s.len() - 1]));
        lemma_escaped_plain(s.drop_last());
        assert(s.drop_last() + seq![s.last()] == s);
    }
}

/// An escaped text holds no special character but the `<` and `>` of the
/// `<br>` that stand for line feeds.
pub proof fn lemma_escaped_chars(s: Seq<char>, i: int)
    requires
        0 <= i < escaped(s).len(),
    ensures
        escaped(s)[i] != '"',
        escaped(s)[i] != '\n',
        escaped(s)[i] != '\r',
        !s.contains('\n') ==> !is_special(escaped(s)[i]),
    decreases s.len(),
{
    if s.len() > 0 {
        let front = escaped(s.drop_last());
        if i < front.len() {
            if !s.contains('\n') && s.drop_last().contains('\n') {
                let k = choose|k: int| 0 <= k < s.drop_last().len() && s.drop_last()[k] == '\n';
                assert(s[k] == '\n');
            }
            lemma_escaped_chars(s.drop_last(), i);
        } else {
            let c = s.last();
            assert(escaped(s)[i] == escape_of(c)[i - front.len()]);
            if c == '\n' {
                assert(s[s.len() - 1] == '\n');
            }
        }
    }
}

/// Sanitisation is idempotent on its output wherever that output is free of
/// markup of its own: for a text without line feeds whose sanitised form
/// holds no `&#10;`, sanitising the sanitised form changes nothing.
pub proof fn lemma_sanitize_idempotent(s: Seq<char>)
    requires
        !s.contains('\n'),
        !contains(sanitized(s), line_feed_ref()),
    ensures
        sanitized(sanitized(s)) == sanitized(s),
{
    let out = sanitized(s);
    assert forall|i: int| 0 <= i < out.len() implies !is_special(#[trigger] out[i]) by {
        let c = out[i];
        assert(out.contains(c));
        lemma_removed_chars(escaped(s), line_feed_ref(), c);
        let k = choose|k: int| 0 <= k < escaped(s).len() && escaped(s)[k] == c;
        lemma_escaped_chars(s, k);
    }
    lemma_escaped_plain(out);
    lemma_replaced_absent(out, line_feed_ref(), Seq::<char>::empty());
}

/// The index of the first character at or after `from` that is not `0`.
pub open spec fn zeros_end(s: Seq<char>, from: int) -> int
    decreases s.len() - from,
{
    if 0 <= from < s.len() && s[from] == '0' {
        zeros_end(s, from + 1)
    } else {
        from
    }
}

/// Where the written-out line feed that starts at index `i` ends, if one
/// starts there: `&#`, then `x` or `X`, any zeros and `a` or `A`, or else any
/// zeros and `10`, then `;`.
pub open spec fn line_feed_end(s: Seq<char>, i: int) -> Option<int> {
    if 0 <= i && i + 2 < s.len() && s[i] == '&' && s[i + 1] == '#' {
        if s[i + 2] == 'x' || s[i + 2] == 'X' {
            let p = zeros_end(s, i + 3);
            if p + 1 < s.len() && (s[p] == 'a' || s[p] == 'A') && s[p + 1] == ';' {
                Some(p + 2)
            } else {
                None
            }
        } else {
            let p = zeros_end(s, i + 2);
            if p + 2 < s.len() && s[p] == '1' && s[p + 1] == '0' && s[p + 2] == ';' {
                Some(p + 3)
            } else {
                None
            }
        }
    } else {
        None
    }
}

/// What is left of `s` from index `i` on when every written-out line feed,
/// found from the left, is removed.
pub open spec fn line_feeds_removed_from(s: Seq<char>, i: int) -> Seq<char>
    decreases s.len() - i,
{
    if i < 0 || i >= s.len() {
        Seq::<char>::empty()
    } else {
        match line_feed_end(s, i) {
            Some(e) => if i < e {
                line_feeds_removed_from(s, e)
            } else {
                Seq::<char>::empty()
            },
            None => seq![s[i]] + line_feeds_removed_from(s, i + 1),
        }
    }
}

/// `s` without the written-out line feeds `&#xa;`, `&#10;` and their variants.
pub open spec fn line_feeds_removed(s: Seq<char>) -> Seq<char> {
    line_feeds_removed_from(s, 0)
}

/// Finds the end of the run of zeros that starts at `from`.
fn skip_zeros(s: &Vec<char>, from: usize) -> (p: usize)
    requires
        from <= s.len(),
    ensures
        p == zeros_end(s@, from as int),
        from <= p <= s.len(),
{
    let mut p: usize = from;
    while p < s.len() && s[p] == '0'
        invariant
            from <= p <= s.len(),
            zeros_end(s@, from as int) == zeros_end(s@, p as int),
        decreases s.len() - p,
    {
        p += 1;
    }
    p
}

/// Finds the end of the written-out line feed that starts at `i`.
fn line_feed_at(s: &Vec<char>, i: usize) -> (r: Option<usize>)
    requires
        i < s.len(),
    ensures
        match r {
            Some(e) => line_feed_end(s@, i as int) == Some(e as int) && i < e <= s.len(),
            None => line_feed_end(s@, i as int) is None,
        },
{
    let len = s.len();
    if len - i < 3 || s[i] != '&' || s[i + 1] != '#' {
        return None;
    }
    if s[i + 2] == 'x' || s[i + 2] == 'X' {
        let p = skip_zeros(s, i + 3);
        if len - p >= 2 && (s[p] == 'a' || s[p] == 'A') && s[p + 1] == ';' {
            Some(p + 2)
        } else {
            None
        }
    } else {
        let p = skip_zeros(s, i + 2);
        if len - p >= 3 && s[p] == '1' && s[p + 1] == '0' && s[p + 2] == ';' {
            Some(p + 3)
        } else {
            None
        }
    }
}

/// Removes every written-out line feed from `s`.
pub fn remove_line_feed_refs(s: &Vec<char>) -> (r: Vec<char>)
    ensures
        r@ == line_feeds_removed(s@),
{
    let mut out: Vec<char> = Vec::new();
    let mut i: usize = 0;
    while i < s.len()
        invariant
            i <= s.len(),
            line_feeds_removed(s@) == out@ + line_feeds_removed_from(s@, i as int),
        decreases s.len() - i,
    {
        match line_feed_at(s, i) {
            Some(e) => {
                i = e;
            },
            None => {
                out.push(s[i]);
                i += 1;
            },
        }
    }
    out
}

/// Where the scan for unclosed numeric character references stands.
#[derive(Clone, Copy, PartialEq, Eq, Structural, Debug)]
pub enum RefMode {
    /// In plain text.
    Text,
    /// Just behind an `&`.
    Amp,
    /// Just behind `&#`.
    Open,
    /// In the digits of a hexadecimal reference.
    Hex,
    /// In the digits of a decimal reference.
    Dec,
}

/// The state of the scan: what is kept so far, where in it the last `&`
/// stands, and the mode.
pub struct RefScan {
    pub out: Seq<char>,
    pub amp: int,
    pub mode: RefMode,
}

/// Whether `c` is a hexadecimal digit.
pub open spec fn is_hex_digit(c: char) -> bool {
    ('0' <= c && c <= '9') || ('a' <= c && c <= 'f') || ('A' <= c && c <= 'F')
}

/// The scan after one more character. A reference whose digits end in
/// anything but `;` is dropped from its `&` on, and the scan goes on with the
/// character that ended it.
pub open spec fn ref_step(st: RefScan, c: char) -> RefScan {
    match st.mode {
        RefMode::Text | RefMode::Amp => {
            if c == '&' {
                RefScan { out: st.out.push(c), amp: st.out.len() as int, mode: RefMode::Amp }
            } else if st.mode == RefMode::Amp && c == '#' {
                RefScan { out: st.out.push(c), amp: st.amp, mode: RefMode::Open }
            } else {
                RefScan { out: st.out.push(c), amp: st.amp, mode: RefMode::Text }
            }
        },
        RefMode::Open => {
            let mode = if c == 'x' || c == 'X' {
                RefMode::Hex
            } else if '0' <= c && c <= '9' {
                RefMode::Dec
            } else {
                RefMode::Text
            };
            RefScan { out: st.out.push(c), amp: st.amp, mode }
        },
        RefMode::Hex | RefMode::Dec => {
            if c == ';' {
                RefScan { out: st.out.push(c), amp: st.amp, mode: RefMode::Text }
            } else if (st.mode == RefMode::Hex && is_hex_digit(c)) || (st.mode == RefMode::Dec
                && '0' <= c && c <= '9') {
                RefScan { out: st.out.push(c), amp: st.amp, mode: st.mode }
            } else {
                RefScan {
                    out: st.out.take(st.amp).push(c),
                    amp: st.amp,
                    mode: if c == '&' {
                        RefMode::Amp
                    } else {
                        RefMode::Text
                    },
                }
            }
        },
    }
}

/// The scan after all of `s`.
pub open spec fn ref_scan(s: Seq<char>) -> RefScan
    decreases s.len(),
{
    if s.len() == 0 {
        RefScan { out: Seq::<char>::empty(), amp: 0, mode: RefMode::Text }
    } else {
        ref_step(ref_scan(s.drop_last()), s.last())
    }
}

/// `s` without its numeric character references that no `;` closes. A
/// reference still open at the end is dropped too.
pub open spec fn open_refs_removed(s: Seq<char>) -> Seq<char> {
    let st = ref_scan(s);
    match st.mode {
        RefMode::Open | RefMode::Hex | RefMode::Dec => st.out.take(st.amp),
        _ => st.out,
    }
}

/// Outside plain text the last `&` stands within what is kept.
pub proof fn lemma_ref_scan_amp(s: Seq<char>)
    ensures
        ref_scan(s).mode != RefMode::Text ==> 0 <= ref_scan(s).amp < ref_scan(s).out.len(),
        0 <= ref_scan(s).amp,
    decreases s.len(),
{
    if s.len() > 0 {
        lemma_ref_scan_amp(s.drop_last());
    }
}

/// Removes the numeric character references that no `;` closes.
pub fn remove_open_refs(s: &Vec<char>) -> (r: Vec<char>)
    ensures
        r@ == open_refs_removed(s@),
{
    let mut out: Vec<char> = Vec::new();
    let mut amp: usize = 0;
    let mut mode = RefMode::Text;
    let mut i: usize = 0;
    assert(s@.take(0) == Seq::<char>::empty());
    while i < s.len()
        invariant
            i <= s.len(),
            ref_scan(s@.take(i as int)) == (RefScan { out: out@, amp: amp as int, mode }),
        decreases s.len() - i,
    {
        let c = s[i];
        proof {
            lemma_ref_scan_amp(s@.take(i as int));
            assert(s@.take(i + 1).drop_last() == s@.take(i as int));
            assert(s@.take(i + 1).last() == c);
        }
        match mode {
            RefMode::Text | RefMode::Amp => {
                if c == '&' {
                    amp = out.len();
                    mode = RefMode::Amp;
                } else if mode == RefMode::Amp && c == '#' {
                    mode = RefMode::Open;
                } else {
                    mode = RefMode::Text;
                }
                out.push(c);
            },
            RefMode::Open => {
                if c == 'x' || c == 'X' {
                    mode = RefMode::Hex;
                } else if '0' <= c && c <= '9' {
                    mode = RefMode::Dec;
                } else {
                    mode = RefMode::Text;
                }
                out.push(c);
            },
            RefMode::Hex | RefMode::Dec => {
                let digit = ('0' <= c && c <= '9') || (mode == RefMode::Hex && (('a' <= c && c
                    <= 'f') || ('A' <= c && c <= 'F')));
                if c == ';' {
                    mode = RefMode::Text;
                } else if digit {
                } else {
                    out.truncate(amp);
                    mode = if c == '&' {
                        RefMode::Amp
                    } else {
                        RefMode::Text
                    };
                }
                out.push(c);
            },
        }
        i += 1;
    }
    assert(s@.take(s.len() as int) == s@);
    proof {
        lemma_ref_scan_amp(s@);
    }
    match mode {
        RefMode::Open | RefMode::Hex | RefMode::Dec => {
            out.truncate(amp);
        },
        _ => {},
    }
    out
}

/// Removes from a text given as `&str` the numeric character references
/// that no `;` closes.
pub fn sanitize_non_semi_closing_num_char_refs(target: &str) -> (r: String)
    ensures
        r@ == open_refs_removed(target@),
{
    let chars = chars_of(target);
    let out = remove_open_refs(&chars);
    string_of(&out)
}

/// The sanitised form of a thread title: sanitised as any text, then freed
/// of written-out line feeds, then of unclosed numeric character references.
pub open spec fn sanitized_title(s: Seq<char>) -> Seq<char> {
    open_refs_removed(line_feeds_removed(sanitized(s)))
}

/// Sanitises a thread title.
pub fn sanitize_thread_name(input: &str) -> (r: String)
    ensures
        r@ == sanitized_title(input@),
{
    let chars = chars_of(input);
    let clean = sanitize_chars(&chars);
    let no_feeds = remove_line_feed_refs(&clean);
    let out = remove_open_refs(&no_feeds);
    string_of(&out)
}

/// A character that an authentication token is written in.
pub open spec fn is_token_char(c: char) -> bool {
    ('a' <= c && c <= 'z') || ('0' <= c && c <= '9')
}

/// `s` holds `n` token characters in a row from index `i` on.
pub open spec fn token_run_at(s: Seq<char>, i: int, n: int) -> bool {
    0 <= i && i + n <= s.len() && forall|j: int| i <= j < i + n ==> is_token_char(#[trigger] s[j])
}

/// `s` holds a run of `n` token characters somewhere.
pub open spec fn has_token_run(s: Seq<char>, n: int) -> bool {
    exists|i: int| token_run_at(s, i, n)
}

/// Blanks names that look like they carry a pasted authentication token.
pub struct TokenRemover {
    /// The length of a run of token characters that counts as a token.
    pub run: usize,
}

impl TokenRemover {
    /// A remover for tokens of thirty characters or more.
    pub fn new() -> (r: TokenRemover)
        ensures
            r.run == 30,
    {
        TokenRemover { run: 30 }
    }

    /// Whether `name` holds a run of token characters of the set length.
    pub fn looks_like_token(&self, name: &Vec<char>) -> (r: bool)
        ensures
            r == has_token_run(name@, self.run as int),
    {
        let n = self.run;
        if n == 0 {
            assert(token_run_at(name@, 0, 0));
            return true;
        }
        let mut run: usize = 0;
        let mut i: usize = 0;
        while i < name.len()
            invariant
                i <= name.len(),
                n == self.run,
                n > 0,
                run < n,
                run <= i,
                token_run_at(name@, i - run, run as int),
                run < i ==> !is_token_char(name@[i - run - 1]),
                forall|k: int| 0 <= k && k + n <= i ==> !token_run_at(name@, k, n as int),
            decreases name.len() - i,
        {
            let c = name[i];
            if ('a' <= c && c <= 'z') || ('0' <= c && c <= '9') {
                run += 1;
                if run == n {
                    assert(token_run_at(name@, i + 1 - n, n as int));
                    return true;
                }
                assert forall|k: int| 0 <= k && k + n <= i + 1 implies !token_run_at(
                    name@,
                    k,
                    n as int,
                ) by {
                    if k + n == i + 1 {
                        assert(k < i + 1 - run);
                        assert(k <= i - run <= k + n - 1);
                        if token_run_at(name@, k, n as int) {
                            assert(is_token_char(name@[i - run]));
                        }
                    }
                }
            } else {
                run = 0;
                assert forall|k: int| 0 <= k && k + n <= i + 1 implies !token_run_at(
                    name@,
                    k,
                    n as int,
                ) by {
                    if k + n == i + 1 {
                        if token_run_at(name@, k, n as int) {
                            assert(is_token_char(name@[i as int]));
                        }
                    }
                }
            }
            i += 1;
        }
        assert forall|k: int| !token_run_at(name@, k, n as int) by {}
        false
    }

    /// The name, or nothing where the name holds a token.
    pub fn remove(&self, name: String) -> (r: String)
        ensures
            r@ == if has_token_run(name@, self.run as int) {
                Seq::<char>::empty()
            } else {
                name@
            },
    {
        let chars = chars_of(name.as_str());
        if self.looks_like_token(&chars) {
            String::new()
        } else {
            name
        }
    }
}

} // verus!
