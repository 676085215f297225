//! Character-sequence primitives shared by the rest of the crate.
//!
//! Text is modelled as `Seq<char>`; executable code works on `Vec<char>` and
//! converts at the edges.

use vstd::prelude::*;

verus! {

/// Appends one character to a string.
///
/// Trusted: `String::push` of the standard library adds exactly `c` at the end.
#[verifier::external_body]
pub(crate) fn push_char(s: &mut String, c: char)
    ensures
        final(s)@ == old(s)@.push(c),
{
    s.push(c);
}

/// The characters of `s`, in order.
pub fn chars_of(s: &str) -> (v: Vec<char>)
    ensures
        v@ == s@,
{
    let mut v: Vec<char> = Vec::new();
    for c in iter: s.chars()
        invariant
            iter.seq() == s@,
            v@ == s@.take(iter.index() as int),
    {
        v.push(c);
    }
    v
}

/// The string made of the characters of `v`, in order.
pub fn string_of(v: &Vec<char>) -> (s: String)
    ensures
        s@ == v@,
{
    let mut s = String::new();
    let mut i: usize = 0;
    while i < v.len()
        invariant
            i <= v.len(),
            s@ == v@.take(i as int),
        decreases v.len() - i,
    {
        push_char(&mut s, v[i]);
        i += 1;
    }
    s
}

/// Appends every character of `src` to `dst`.
pub fn push_all(dst: &mut Vec<char>, src: &Vec<char>)
    ensures
        final(dst)@ == old(dst)@ + src@,
{
    let mut i: usize = 0;
    while i < src.len()
        invariant
            i <= src.len(),
            dst@ == old(dst)@ + src@.take(i as int),
        decreases src.len() - i,
    {
        dst.push(src[i]);
        i += 1;
    }
}

/// Appends the characters of `src` to `dst`.
pub fn push_str(dst: &mut Vec<char>, src: &str)
    ensures
        final(dst)@ == old(dst)@ + src@,
{
    let tail = chars_of(src);
    push_all(dst, &tail);
}

/// A copy of `s[from..to]`.
pub fn slice_of(s: &Vec<char>, from: usize, to: usize) -> (r: Vec<char>)
    requires
        from <= to <= s.len(),
    ensures
        r@ == s@.subrange(from as int, to as int),
{
    let mut r: Vec<char> = Vec::new();
    let mut i: usize = from;
    while i < to
        invariant
            from <= i <= to <= s.len(),
            r@ == s@.subrange(from as int, i as int),
        decreases to - i,
    {
        r.push(s[i]);
        i += 1;
    }
    r
}

/// Whether two character vectors hold the same text.
pub fn same_text(a: &Vec<char>, b: &Vec<char>) -> (r: bool)
    ensures
        r == (a@ == b@),
{
    if a.len() != b.len() {
        return false;
    }
    let mut i: usize = 0;
    while i < a.len()
        invariant
            i <= a.len(),
            a.len() == b.len(),
            a@.take(i as int) == b@.take(i as int),
        decreases a.len() - i,
    {
        if a[i] != b[i] {
            return false;
        }
        assert(a@.take(i + 1) == a@.take(i as int).push(a@[i as int]));
        assert(b@.take(i + 1) == b@.take(i as int).push(b@[i as int]));
        i += 1;
    }
    assert(a@.take(a.len() as int) == a@);
    assert(b@.take(b.len() as int) == b@);
    true
}

/// `pat` occurs in `s` starting at index `i`.
pub open spec fn occurs_at(s: Seq<char>, pat: Seq<char>, i: int) -> bool {
    0 <= i && i + pat.len() <= s.len() && s.subrange(i, i + pat.len()) == pat
}

/// `pat` occurs somewhere in `s`.
pub open spec fn contains(s: Seq<char>, pat: Seq<char>) -> bool {
    exists|i: int| occurs_at(s, pat, i)
}

/// `s` begins with `pat`.
pub open spec fn starts_with(s: Seq<char>, pat: Seq<char>) -> bool {
    occurs_at(s, pat, 0)
}

/// Whether `pat` occurs in `s` at index `i`.
pub fn matches_at(s: &Vec<char>, pat: &Vec<char>, i: usize) -> (r: bool)
    ensures
        r == occurs_at(s@, pat@, i as int),
{
    if pat.len() > s.len() || i > s.len() - pat.len() {
        return false;
    }
    let mut k: usize = 0;
    while k < pat.len()
        invariant
            k <= pat.len(),
            i + pat.len() <= s.len(),
            s@.subrange(i as int, i + k) == pat@.take(k as int),
        decreases pat.len() - k,
    {
        if s[i + k] != pat[k] {
            assert(s@.subrange(i as int, i + pat.len())[k as int] != pat@[k as int]);
            return false;
        }
        assert(s@.subrange(i as int, i + k + 1) == s@.subrange(i as int, i + k).push(
            s@[i + k],
        ));
        assert(pat@.take(k + 1) == pat@.take(k as int).push(pat@[k as int]));
        k += 1;
    }
    assert(pat@.take(pat.len() as int) == pat@);
    true
}

/// The index of the first occurrence of `pat` in `s` at or after `from`.
pub fn find_from(s: &Vec<char>, pat: &Vec<char>, from: usize) -> (r: Option<usize>)
    ensures
        match r {
            Some(i) => from <= i && occurs_at(s@, pat@, i as int) && forall|j: int|
                from <= j < i ==> !occurs_at(s@, pat@, j),
            None => forall|j: int| from <= j ==> !occurs_at(s@, pat@, j),
        },
{
    let mut i: usize = from;
    while i < s.len()
        invariant
            from <= i,
            forall|j: int| from <= j < i ==> !occurs_at(s@, pat@, j),
        decreases s.len() - i,
    {
        if matches_at(s, pat, i) {
            return Some(i);
        }
        i += 1;
    }
    if matches_at(s, pat, i) {
        Some(i)
    } else {
        None
    }
}

/// Whether `pat` occurs somewhere in `s`.
pub fn has(s: &Vec<char>, pat: &Vec<char>) -> (r: bool)
    ensures
        r == contains(s@, pat@),
{
    find_from(s, pat, 0).is_some()
}

/// Whether the text `pat` occurs somewhere in the text `s`.
pub fn str_has(s: &str, pat: &str) -> (r: bool)
    ensures
        r == contains(s@, pat@),
{
    let sv = chars_of(s);
    let pv = chars_of(pat);
    has(&sv, &pv)
}

/// `s` with every occurrence of the non-empty `pat`, found from the left and
/// not overlapping, replaced by `rep`.
pub open spec fn replaced(s: Seq<char>, pat: Seq<char>, rep: Seq<char>) -> Seq<char>
    decreases s.len(),
{
    if pat.len() == 0 || s.len() < pat.len() {
        s
    } else if s.take(pat.len() as int) == pat {
        rep + replaced(s.skip(pat.len() as int), pat, rep)
    } else {
        seq![s[0]] + replaced(s.skip(1), pat, rep)
    }
}

/// Replaces every occurrence of `pat` in `s` by `rep`.
pub fn replace(s: &Vec<char>, pat: &Vec<char>, rep: &Vec<char>) -> (r: Vec<char>)
    requires
        pat.len() > 0,
    ensures
        r@ == replaced(s@, pat@, rep@),
{
    let mut out: Vec<char> = Vec::new();
    let mut i: usize = 0;
    assert(s@.skip(0) == s@);
    while i < s.len()
        invariant
            i <= s.len(),
            pat.len() > 0,
            replaced(s@, pat@, rep@) == out@ + replaced(s@.skip(i as int), pat@, rep@),
        decreases s.len() - i,
    {
        let ghost rest = s@.skip(i as int);
        if matches_at(s, pat, i) {
            assert(rest.take(pat.len() as int) == s@.subrange(i as int, i + pat.len()));
            assert(rest.skip(pat.len() as int) == s@.skip(i + pat.len()));
            push_all(&mut out, rep);
            i += pat.len();
        } else {
            assert(rest.len() >= pat.len() ==> rest.take(pat.len() as int) == s@.subrange(
                i as int,
                i + pat.len(),
            ));
            assert(rest.skip(1) == s@.skip(i + 1));
            assert(rest.len() < pat.len() ==> replaced(rest, pat@, rep@) == seq![rest[0]]
                + replaced(rest.skip(1), pat@, rep@)) by {
                if rest.len() < pat.len() {
                    lemma_replaced_short(rest, pat@, rep@);
                    lemma_replaced_short(rest.skip(1), pat@, rep@);
                    assert(rest == seq![rest[0]] + rest.skip(1));
                }
            }
            out.push(s[i]);
            i += 1;
        }
    }
    assert(s@.skip(s.len() as int) == Seq::<char>::empty());
    out
}

/// A text shorter than the pattern is left as it is.
pub proof fn lemma_replaced_short(s: Seq<char>, pat: Seq<char>, rep: Seq<char>)
    requires
        s.len() < pat.len(),
    ensures
        replaced(s, pat, rep) == s,
{
}

/// Replaces every occurrence of the text `pat` in `s` by the text `rep`.
pub fn replace_str(s: &Vec<char>, pat: &str, rep: &str) -> (r: Vec<char>)
    requires
        pat@.len() > 0,
    ensures
        r@ == replaced(s@, pat@, rep@),
{
    let pv = chars_of(pat);
    let rv = chars_of(rep);
    replace(s, &pv, &rv)
}


/// The pieces of `s` that lie between occurrences of `sep`. There is always at
/// least one piece; a separator at either end leaves an empty piece there.
pub open spec fn pieces(s: Seq<char>, sep: char) -> Seq<Seq<char>>
    decreases s.len(),
{
    if s.len() == 0 {
        seq![Seq::<char>::empty()]
    } else {
        let before = pieces(s.drop_last(), sep);
        if s.last() == sep {
            before.push(Seq::<char>::empty())
        } else {
            before.drop_last().push(before.last().push(s.last()))
        }
    }
}

/// `pieces` never yields an empty list.
pub proof fn lemma_pieces_nonempty(s: Seq<char>, sep: char)
    ensures
        pieces(s, sep).len() >= 1,
    decreases s.len(),
{
    if s.len() > 0 {
        lemma_pieces_nonempty(s.drop_last(), sep);
    }
}

/// A text without the separator is its own single piece.
pub proof fn lemma_pieces_plain(s: Seq<char>, sep: char)
    requires
        !s.contains(sep),
    ensures
        pieces(s, sep) == seq![s],
    decreases s.len(),
{
    if s.len() > 0 {
        let t = s.drop_last();
        assert forall|c: char| t.contains(c) implies s.contains(c) by {
            let i = choose|i: int| 0 <= i < t.len() && t[i] == c;
            assert(s[i] == c);
        }
        lemma_pieces_plain(t, sep);
        assert(s[s.len() - 1] == s.last());
        assert(s.last() != sep);
        assert(seq![t].drop_last().push(seq![t].last().push(s.last())) == seq![s]) by {
            assert(t.push(s.last()) == s);
        }
    } else {
        assert(s == Seq::<char>::empty());
    }
}

/// Joining `a`, a separator and a separator-free `b` adds `b` as the last piece.
pub proof fn lemma_pieces_append(a: Seq<char>, sep: char, b: Seq<char>)
    requires
        !b.contains(sep),
    ensures
        pieces(a + seq![sep] + b, sep) == pieces(a, sep).push(b),
    decreases b.len(),
{
    let whole = a + seq![sep] + b;
    if b.len() == 0 {
        assert(whole.drop_last() == a);
        assert(whole.last() == sep);
        assert(b == Seq::<char>::empty());
    } else {
        let t = b.drop_last();
        assert forall|c: char| t.contains(c) implies b.contains(c) by {
            let i = choose|i: int| 0 <= i < t.len() && t[i] == c;
            assert(b[i] == c);
        }
        lemma_pieces_append(a, sep, t);
        assert(whole.drop_last() == a + seq![sep] + t);
        assert(whole.last() == b.last());
        assert(b[b.len() - 1] == b.last());
        assert(b.last() != sep);
        let before = pieces(a, sep).push(t);
        assert(before.drop_last() == pieces(a, sep));
        assert(t.push(b.last()) == b);
    }
}

/// The texts that the index ranges `r` cut out of `s`.
pub open spec fn cuts(s: Seq<char>, r: Seq<(usize, usize)>) -> Seq<Seq<char>> {
    Seq::new(r.len(), |k: int| s.subrange(r[k].0 as int, r[k].1 as int))
}

/// Every range of `r` lies within a text of length `len`.
pub open spec fn ranges_within(r: Seq<(usize, usize)>, len: nat) -> bool {
    forall|k: int| 0 <= k < r.len() ==> (#[trigger] r[k]).0 <= r[k].1 <= len
}

/// The pieces of `s` as index ranges `(start, end)` into `s`.
pub fn piece_ranges(s: &Vec<char>, sep: char) -> (r: Vec<(usize, usize)>)
    ensures
        ranges_within(r@, s@.len()),
        cuts(s@, r@) == pieces(s@, sep),
{
    let mut r: Vec<(usize, usize)> = Vec::new();
    let mut start: usize = 0;
    let mut i: usize = 0;
    assert(s@.take(0) == Seq::<char>::empty());
    assert(s@.subrange(0, 0) == Seq::<char>::empty());
    assert(pieces(s@.take(0), sep) == cuts(s@, r@).push(s@.subrange(0, 0)));
    while i < s.len()
        invariant
            start <= i <= s.len(),
            ranges_within(r@, s@.len()),
            pieces(s@.take(i as int), sep) == cuts(s@, r@).push(
                s@.subrange(start as int, i as int),
            ),
        decreases s.len() - i,
    {
        let ghost before = pieces(s@.take(i as int), sep);
        let ghost old_r = r@;
        assert(s@.take(i + 1).drop_last() == s@.take(i as int));
        assert(s@.take(i + 1).last() == s@[i as int]);
        assert(before.drop_last() == cuts(s@, old_r));
        assert(before.last() == s@.subrange(start as int, i as int));
        if s[i] == sep {
            r.push((start, i));
            start = i + 1;
            assert(s@.subrange(i + 1, i + 1) == Seq::<char>::empty());
            assert(cuts(s@, r@) == before);
        } else {
            assert(s@.subrange(start as int, i + 1) == s@.subrange(start as int, i as int).push(
                s@[i as int],
            ));
        }
        i += 1;
    }
    assert(s@.take(s.len() as int) == s@);
    let ghost old_r = r@;
    r.push((start, i));
    assert(cuts(s@, r@) == cuts(s@, old_r).push(s@.subrange(start as int, i as int)));
    r
}

/// The pieces of `s`, each as a vector of its own.
pub fn split(s: &Vec<char>, sep: char) -> (r: Vec<Vec<char>>)
    ensures
        r@.len() == pieces(s@, sep).len(),
        forall|k: int| 0 <= k < r@.len() ==> #[trigger] r@[k]@ == pieces(s@, sep)[k],
{
    let ranges = piece_ranges(s, sep);
    let mut r: Vec<Vec<char>> = Vec::new();
    let mut k: usize = 0;
    while k < ranges.len()
        invariant
            k <= ranges.len(),
            r@.len() == k,
            ranges_within(ranges@, s@.len()),
            cuts(s@, ranges@) == pieces(s@, sep),
            forall|j: int| 0 <= j < k ==> #[trigger] r@[j]@ == pieces(s@, sep)[j],
        decreases ranges.len() - k,
    {
        let (from, to) = ranges[k];
        assert(ranges@[k as int].0 <= ranges@[k as int].1);
        assert(cuts(s@, ranges@)[k as int] == s@.subrange(from as int, to as int));
        r.push(slice_of(s, from, to));
        k += 1;
    }
    r
}

/// Whether `c` is one of the ten ASCII digits.
pub open spec fn is_digit(c: char) -> bool {
    '0' <= c && c <= '9'
}

/// Whether every character of `s` is an ASCII digit.
pub open spec fn all_digits(s: Seq<char>) -> bool {
    forall|i: int| 0 <= i < s.len() ==> is_digit(#[trigger] s[i])
}

/// Whether `s[from..to]` consists of ASCII digits only.
pub fn digits_only(s: &Vec<char>, from: usize, to: usize) -> (r: bool)
    requires
        from <= to <= s.len(),
    ensures
        r == all_digits(s@.subrange(from as int, to as int)),
{
    let mut i: usize = from;
    while i < to
        invariant
            from <= i <= to <= s.len(),
            all_digits(s@.subrange(from as int, i as int)),
        decreases to - i,
    {
        let c = s[i];
        if !('0' <= c && c <= '9') {
            assert(s@.subrange(from as int, to as int)[i - from] == c);
            return false;
        }
        assert forall|j: int| 0 <= j < i + 1 - from implies is_digit(
            #[trigger] s@.subrange(from as int, i + 1)[j],
        ) by {
            if j < i - from {
                assert(s@.subrange(from as int, i as int)[j] == s@[from + j]);
            }
        }
        i += 1;
    }
    true
}

/// Whether `c` occurs in `s[from..to]`.
pub fn has_char(s: &Vec<char>, from: usize, to: usize, c: char) -> (r: bool)
    requires
        from <= to <= s.len(),
    ensures
        r == s@.subrange(from as int, to as int).contains(c),
{
    let mut i: usize = from;
    while i < to
        invariant
            from <= i <= to <= s.len(),
            !s@.subrange(from as int, i as int).contains(c),
        decreases to - i,
    {
        if s[i] == c {
            assert(s@.subrange(from as int, to as int)[i - from] == c);
            return true;
        }
        assert forall|j: int| 0 <= j < i + 1 - from implies #[trigger] s@.subrange(
            from as int,
            i + 1,
        )[j] != c by {
            if j < i - from {
                assert(s@.subrange(from as int, i as int)[j] == s@[from + j]);
            }
        }
        i += 1;
    }
    false
}

/// Whether `s[from..to]` is the text `lit`.
pub fn range_is(s: &Vec<char>, from: usize, to: usize, lit: &str) -> (r: bool)
    requires
        from <= to <= s.len(),
    ensures
        r == (s@.subrange(from as int, to as int) == lit@),
{
    let l = chars_of(lit);
    if l.len() != to - from {
        return false;
    }
    let r = matches_at(s, &l, from);
    r
}


/// `s` ends with `suffix`.
pub open spec fn ends_with(s: Seq<char>, suffix: Seq<char>) -> bool {
    s.len() >= suffix.len() && s.skip(s.len() - suffix.len()) == suffix
}

/// Whether `s[from..to]` ends with the text `lit`.
pub fn range_ends_with(s: &Vec<char>, from: usize, to: usize, lit: &str) -> (r: bool)
    requires
        from <= to <= s.len(),
    ensures
        r == ends_with(s@.subrange(from as int, to as int), lit@),
{
    let l = chars_of(lit);
    if to - from < l.len() {
        return false;
    }
    let r = matches_at(s, &l, to - l.len());
    assert(s@.subrange(from as int, to as int).skip(to - from - l.len()) == s@.subrange(
        to - l.len(),
        to as int,
    ));
    r
}

/// The number of bytes that `c` takes in UTF-8.
pub open spec fn char_width(c: char) -> nat {
    if (c as u32) < 0x80 {
        1
    } else if (c as u32) < 0x800 {
        2
    } else if (c as u32) < 0x10000 {
        3
    } else {
        4
    }
}

/// The number of bytes that `s` takes in UTF-8.
pub open spec fn byte_len(s: Seq<char>) -> nat
    decreases s.len(),
{
    if s.len() == 0 {
        0
    } else {
        byte_len(s.drop_last()) + char_width(s.last())
    }
}

/// A prefix takes no more bytes than the whole.
pub proof fn lemma_byte_len_prefix(s: Seq<char>, i: int)
    requires
        0 <= i <= s.len(),
    ensures
        byte_len(s.take(i)) <= byte_len(s),
    decreases s.len(),
{
    if i < s.len() {
        lemma_byte_len_prefix(s.drop_last(), i);
        assert(s.drop_last().take(i) == s.take(i));
    } else {
        assert(s.take(i) == s);
    }
}

/// Whether `s[from..to]` takes exactly `want` bytes in UTF-8.
pub fn byte_len_is(s: &Vec<char>, from: usize, to: usize, want: usize) -> (r: bool)
    requires
        from <= to <= s.len(),
        want < usize::MAX - 4,
    ensures
        r == (byte_len(s@.subrange(from as int, to as int)) == want),
{
    let ghost whole = s@.subrange(from as int, to as int);
    let mut acc: usize = 0;
    let mut i: usize = from;
    assert(whole.take(0) == Seq::<char>::empty());
    while i < to
        invariant
            from <= i <= to <= s.len(),
            want < usize::MAX - 4,
            whole == s@.subrange(from as int, to as int),
            acc == byte_len(whole.take(i - from)),
            acc <= want,
        decreases to - i,
    {
        let c = s[i] as u32;
        let w: usize = if c < 0x80 {
            1
        } else if c < 0x800 {
            2
        } else if c < 0x10000 {
            3
        } else {
            4
        };
        assert(whole.take(i + 1 - from).drop_last() == whole.take(i - from));
        assert(whole.take(i + 1 - from).last() == s@[i as int]);
        acc = acc + w;
        if acc > want {
            proof {
                lemma_byte_len_prefix(whole, i + 1 - from);
            }
            return false;
        }
        i += 1;
    }
    assert(whole.take(to - from) == whole);
    acc == want
}


/// The character of a decimal digit.
pub open spec fn digit_char(d: nat) -> char {
    (d + 48) as u8 as char
}

/// The decimal text of `n`, without leading zeros.
pub open spec fn decimal(n: nat) -> Seq<char>
    decreases n,
{
    if n < 10 {
        seq![digit_char(n)]
    } else {
        decimal(n / 10).push(digit_char(n % 10))
    }
}

/// Appends the decimal text of `n` to `out`.
pub fn push_decimal(out: &mut Vec<char>, n: u64)
    ensures
        final(out)@ == old(out)@ + decimal(n as nat),
{
    let mut digits: Vec<char> = Vec::new();
    let mut rest: u64 = n;
    // The digits from the last to the first, then reversed onto `out`.
    digits.push(((rest % 10) as u8 + 48) as char);
    rest = rest / 10;
    while rest > 0
        invariant
            digits@.len() >= 1,
            decimal(n as nat) == if rest == 0 {
                digits@.reverse()
            } else {
                decimal(rest as nat) + digits@.reverse()
            },
        decreases rest,
    {
        let ghost old_digits = digits@;
        let ghost old_rest = rest;
        digits.push(((rest % 10) as u8 + 48) as char);
        rest = rest / 10;
        proof {
            let d = digit_char((old_rest % 10) as nat);
            assert(digits@.reverse() == seq![d] + old_digits.reverse());
            if old_rest < 10 {
                assert(decimal(old_rest as nat) == seq![d]);
            } else {
                assert(decimal(old_rest as nat) == decimal(rest as nat).push(d));
                assert(decimal(rest as nat).push(d) + old_digits.reverse() == decimal(rest as nat)
                    + (seq![d] + old_digits.reverse()));
            }
        }
    }
    let ghost start = out@;
    let mut k: usize = digits.len();
    while k > 0
        invariant
            k <= digits.len(),
            out@ == start + digits@.reverse().take(digits.len() - k),
        decreases k,
    {
        k -= 1;
        out.push(digits[k]);
        assert(digits@.reverse().take(digits.len() - k) == digits@.reverse().take(
            digits.len() - k - 1,
        ).push(digits@[k as int]));
    }
    assert(digits@.reverse().take(digits.len() as int) == digits@.reverse());
}

/// The decimal text of `n`.
pub fn decimal_string(n: u64) -> (r: String)
    ensures
        r@ == decimal(n as nat),
{
    let mut out: Vec<char> = Vec::new();
    push_decimal(&mut out, n);
    string_of(&out)
}

} // verus!
