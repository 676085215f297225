//! Metadent: the opt-in fingerprint that a thread shows beside each name.

use crate::hashes::{md5, md5_digest};
use crate::text::{
    chars_of, contains, cuts, decimal, digit_char, has, has_char, piece_ranges, pieces,
    push_decimal, push_str, ranges_within, string_of,
};
use crate::thread::MetadentType;
use crate::tinker::Tinker;
use vstd::prelude::*;
use vstd::string::StrSliceExecFns;

verus! {

/// The value of a digit in the given radix, where `c` is one.
pub open spec fn digit_value(c: char, radix: nat) -> Option<nat> {
    let v: int = if '0' <= c && c <= '9' {
        c as int - 48
    } else if 'a' <= c && c <= 'z' {
        c as int - 97 + 10
    } else if 'A' <= c && c <= 'Z' {
        c as int - 65 + 10
    } else {
        radix as int
    };
    if v < radix {
        Some(v as nat)
    } else {
        None
    }
}

/// The number that the digits of `s` write in the given radix; none where
/// a character is no digit.
pub open spec fn digits_value(s: Seq<char>, radix: nat) -> Option<nat>
    decreases s.len(),
{
    if s.len() == 0 {
        Some(0)
    } else {
        match (digits_value(s.drop_last(), radix), digit_value(s.last(), radix)) {
            (Some(v), Some(d)) => Some(v * radix + d),
            _ => None,
        }
    }
}

/// The number that `s` writes, as the standard library parses unsigned
/// numbers: an optional `+`, then one digit or more; none where the text is
/// otherwise or the number does not fit.
pub open spec fn parsed_u64(s: Seq<char>, radix: nat) -> Option<u64> {
    let body = if s.len() > 0 && s[0] == '+' {
        s.skip(1)
    } else {
        s
    };
    if body.len() == 0 {
        None
    } else {
        match digits_value(body, radix) {
            Some(v) => if v <= u64::MAX {
                Some(v as u64)
            } else {
                None
            },
            None => None,
        }
    }
}

/// The value of one digit.
fn digit_of(c: char, radix: u64) -> (r: Option<u64>)
    requires
        2 <= radix <= 36,
    ensures
        match r {
            Some(d) => digit_value(c, radix as nat) == Some(d as nat) && d < radix,
            None => digit_value(c, radix as nat) is None,
        },
{
    let v: u64 = if '0' <= c && c <= '9' {
        (c as u32 - 48) as u64
    } else if 'a' <= c && c <= 'z' {
        (c as u32 - 97 + 10) as u64
    } else if 'A' <= c && c <= 'Z' {
        (c as u32 - 65 + 10) as u64
    } else {
        radix
    };
    if v < radix {
        Some(v)
    } else {
        None
    }
}

/// Parses `s[from..to]` as an unsigned number in the given radix.
pub fn parse_u64(s: &Vec<char>, from: usize, to: usize, radix: u64) -> (r: Option<u64>)
    requires
        from <= to <= s.len(),
        2 <= radix <= 36,
    ensures
        r == parsed_u64(s@.subrange(from as int, to as int), radix as nat),
{
    let ghost whole = s@.subrange(from as int, to as int);
    let start: usize = if from < to && s[from] == '+' {
        from + 1
    } else {
        from
    };
    let ghost body = s@.subrange(start as int, to as int);
    assert(body == if whole.len() > 0 && whole[0] == '+' {
        whole.skip(1)
    } else {
        whole
    });
    if start == to {
        return None;
    }
    let mut value: u64 = 0;
    let mut over = false;
    let mut i: usize = start;
    assert(body.take(0) == Seq::<char>::empty());
    while i < to
        invariant
            start <= i <= to <= s.len(),
            2 <= radix <= 36,
            body == s@.subrange(start as int, to as int),
            whole == s@.subrange(from as int, to as int),
            body.len() > 0,
            body == if whole.len() > 0 && whole[0] == '+' {
                whole.skip(1)
            } else {
                whole
            },
            digits_value(body.take(i - start), radix as nat) is Some,
            over <==> digits_value(body.take(i - start), radix as nat)->0 > u64::MAX,
            !over ==> value == digits_value(body.take(i - start), radix as nat)->0,
        decreases to - i,
    {
        let ghost before = digits_value(body.take(i - start), radix as nat)->0;
        assert(body.take(i + 1 - start).drop_last() == body.take(i - start));
        assert(body.take(i + 1 - start).last() == s@[i as int]);
        let d = match digit_of(s[i], radix) {
            Some(d) => d,
            None => {
                proof {
                    lemma_digits_fail(body, i + 1 - start, radix as nat);
                    assert(body.take(body.len() as int) == body);
                }
                return None;
            },
        };
        if over {
            assert(before * radix + d > u64::MAX) by (nonlinear_arith)
                requires
                    before > u64::MAX,
                    radix >= 2,
                    d >= 0,
            ;
        } else if value > (u64::MAX - d) / radix {
            over = true;
            assert(before * radix + d > u64::MAX) by (nonlinear_arith)
                requires
                    before > (u64::MAX - d) / (radix as int),
                    radix >= 2,
                    0 <= d < radix,
                    before >= 0,
            ;
        } else {
            assert(value * radix + d <= u64::MAX) by (nonlinear_arith)
                requires
                    value <= (u64::MAX - d) / (radix as int),
                    radix >= 2,
                    0 <= d,
                    d <= u64::MAX,
            ;
            value = value * radix + d;
        }
        i += 1;
    }
    assert(body.take(to - start) == body);
    if over {
        None
    } else {
        Some(value)
    }
}

/// Once a character is no digit, no longer text is a number.
pub proof fn lemma_digits_fail(s: Seq<char>, n: int, radix: nat)
    requires
        0 <= n <= s.len(),
        digits_value(s.take(n), radix) is None,
    ensures
        digits_value(s, radix) is None,
    decreases s.len() - n,
{
    if n < s.len() {
        assert(s.take(n + 1).drop_last() == s.take(n));
        lemma_digits_fail(s, n + 1, radix);
    } else {
        assert(s.take(n) == s);
    }
}

/// The character for a number below sixty-two: digits, then capitals, then
/// small letters; `0` for any other number.
pub open spec fn base62_char(x: nat) -> char {
    if x < 10 {
        (x + 48) as u8 as char
    } else if x < 36 {
        (x - 10 + 65) as u8 as char
    } else if x < 62 {
        (x - 36 + 97) as u8 as char
    } else {
        '0'
    }
}

/// The two characters that write a number below 62 × 62 in base 62.
pub open spec fn base62_pair(x: nat) -> Seq<char> {
    seq![base62_char(x / 62), base62_char(x % 62)]
}

/// The character for a number below sixty-two.
fn alpha_char_62(x: u8) -> (c: char)
    ensures
        c == base62_char(x as nat),
{
    if x < 10 {
        (x + 48) as char
    } else if x < 36 {
        (x - 10 + 65) as char
    } else if x < 62 {
        (x - 36 + 97) as char
    } else {
        '0'
    }
}

/// Appends the base-62 pair of `x` to `out`.
fn push_base62_pair(out: &mut Vec<char>, x: u32)
    requires
        x < 3844,
    ensures
        final(out)@ == old(out)@ + base62_pair(x as nat),
{
    out.push(alpha_char_62((x / 62) as u8));
    out.push(alpha_char_62((x % 62) as u8));
    assert(out@ =~= old(out)@ + base62_pair(x as nat));
}

/// The number that stands for the family of a client, by the first of
/// these names that its user agent holds.
pub open spec fn ua_family(ua: Seq<char>) -> nat {
    if contains(ua, "Mate"@) {
        0
    } else if contains(ua, "twinkle"@) {
        1
    } else if contains(ua, "mae"@) {
        2
    } else if contains(ua, "Siki"@) {
        3
    } else if contains(ua, "Xeno"@) {
        4
    } else if contains(ua, "ThreadMaster"@) {
        5
    } else {
        6
    }
}

/// Whether the text `s` holds the text `lit`.
fn holds(s: &Vec<char>, lit: &str) -> (r: bool)
    ensures
        r == contains(s@, lit@),
{
    let l = chars_of(lit);
    has(s, &l)
}

/// Finds the family of a client.
fn ua_family_of(ua: &Vec<char>) -> (r: u32)
    ensures
        r == ua_family(ua@),
        r <= 6,
{
    if holds(ua, "Mate") {
        0
    } else if holds(ua, "twinkle") {
        1
    } else if holds(ua, "mae") {
        2
    } else if holds(ua, "Siki") {
        3
    } else if holds(ua, "Xeno") {
        4
    } else if holds(ua, "ThreadMaster") {
        5
    } else {
        6
    }
}

/// The number that a group of an address writes, in hexadecimal for IPv6
/// and in decimal for IPv4; zero where it writes none.
pub open spec fn group_value(group: Seq<char>, v6: bool) -> nat {
    match parsed_u64(
        group,
        if v6 {
            16
        } else {
            10
        },
    ) {
        Some(v) => v as nat,
        None => 0,
    }
}

/// The sum of the first `n` groups.
pub open spec fn groups_sum(groups: Seq<Seq<char>>, v6: bool, n: int) -> nat
    decreases n,
{
    if n <= 0 {
        0
    } else {
        groups_sum(groups, v6, n - 1) + group_value(groups[n - 1], v6)
    }
}

/// The sum of the first four groups of an address, or of all where there
/// are fewer. An address with a colon is IPv6, with groups between colons;
/// any other is IPv4, with groups between dots.
pub open spec fn ip_sum(ip: Seq<char>) -> nat {
    let v6 = ip.contains(':');
    let groups = pieces(
        ip,
        if v6 {
            ':'
        } else {
            '.'
        },
    );
    groups_sum(
        groups,
        v6,
        if groups.len() >= 4 {
            4
        } else {
            groups.len() as int
        },
    )
}

/// Whether a byte, taken as a character, is an ASCII letter or digit.
pub open spec fn is_alnum(b: u8) -> bool {
    (48 <= b <= 57) || (65 <= b <= 90) || (97 <= b <= 122)
}

/// The first `n` letters and digits among the bytes, as characters, or all
/// of them where there are fewer.
pub open spec fn first_alnums(bytes: Seq<u8>, n: nat) -> Seq<char>
    decreases bytes.len(),
{
    if n == 0 || bytes.len() == 0 {
        Seq::<char>::empty()
    } else if is_alnum(bytes[0]) {
        seq![bytes[0] as char] + first_alnums(bytes.skip(1), (n - 1) as nat)
    } else {
        first_alnums(bytes.skip(1), n)
    }
}

/// The fingerprint `XXYY-zABB` made with a given digest of the user agent.
/// `XX` writes the AS number plus the seed, `YY` the sum of the address
/// groups plus the seed, both modulo 62 × 62; `z` is `6` for IPv6 and `4`
/// for IPv4; `A` writes the client family plus the seed modulo 62; `BB` are
/// the first two letters or digits of the digest.
pub open spec fn meta_ident_with(
    asn: u32,
    ip: Seq<char>,
    ua: Seq<char>,
    seed: u32,
    digest: Seq<u8>,
) -> Seq<char> {
    base62_pair(((asn + seed) % 3844) as nat) + base62_pair(((ip_sum(ip) + seed) % 3844) as nat)
        + seq![
        '-',
        if ip.contains(':') {
            '6'
        } else {
            '4'
        },
        base62_char(((ua_family(ua) + seed) % 62) as nat),
    ] + first_alnums(digest, 2)
}

/// The fingerprint of a client: that made with the MD5 digest of its user
/// agent.
pub open spec fn meta_ident(asn: u32, ip: Seq<char>, ua: Seq<char>, seed: u32) -> Seq<char> {
    meta_ident_with(asn, ip, ua, seed, md5_digest(vstd::utf8::encode_utf8(ua)))
}

/// Adds up the first groups of an address.
fn ip_sum_of(ip: &Vec<char>) -> (r: u128)
    ensures
        r == ip_sum(ip@),
        r <= 4 * u64::MAX,
{
    assert(ip@.subrange(0, ip.len() as int) == ip@);
    let v6 = has_char(ip, 0, ip.len(), ':');
    let ranges = piece_ranges(
        ip,
        if v6 {
            ':'
        } else {
            '.'
        },
    );
    let n: usize = if ranges.len() >= 4 {
        4
    } else {
        ranges.len()
    };
    let ghost groups = cuts(ip@, ranges@);
    let mut sum: u128 = 0;
    let mut k: usize = 0;
    while k < n
        invariant
            k <= n <= 4,
            n <= ranges.len(),
            ranges_within(ranges@, ip@.len()),
            groups == cuts(ip@, ranges@),
            sum == groups_sum(groups, v6, k as int),
            sum <= k * u64::MAX,
        decreases n - k,
    {
        let (from, to) = ranges[k];
        assert(ranges@[k as int].0 <= ranges@[k as int].1);
        assert(groups[k as int] == ip@.subrange(from as int, to as int));
        let v = match parse_u64(
            ip,
            from,
            to,
            if v6 {
                16
            } else {
                10
            },
        ) {
            Some(v) => v,
            None => 0,
        };
        sum = sum + v as u128;
        k += 1;
    }
    sum
}

/// Makes the fingerprint of a client with a given digest of its user agent.
pub fn meta_ident_from_digest(asn: u32, ip_addr: &str, ua: &str, seed: u32, digest: &[u8]) -> (r:
    String)
    ensures
        r@ == meta_ident_with(asn, ip_addr@, ua@, seed, digest@),
{
    let ip = chars_of(ip_addr);
    let uav = chars_of(ua);
    let mut out: Vec<char> = Vec::new();
    let xx = ((asn as u64 + seed as u64) % 3844) as u32;
    push_base62_pair(&mut out, xx);
    let sum = ip_sum_of(&ip);
    let yy = ((sum + seed as u128) % 3844) as u32;
    push_base62_pair(&mut out, yy);
    out.push('-');
    assert(ip@.subrange(0, ip.len() as int) == ip@);
    if has_char(&ip, 0, ip.len(), ':') {
        out.push('6');
    } else {
        out.push('4');
    }
    let a = ((ua_family_of(&uav) as u64 + seed as u64) % 62) as u8;
    out.push(alpha_char_62(a));
    let ghost head = out@;
    let mut taken: usize = 0;
    let mut i: usize = 0;
    assert(digest@.skip(0) == digest@);
    while i < digest.len() && taken < 2
        invariant
            i <= digest.len(),
            taken <= 2,
            head + first_alnums(digest@, 2) == out@ + first_alnums(
                digest@.skip(i as int),
                (2 - taken) as nat,
            ),
        decreases digest.len() - i,
    {
        let b = digest[i];
        let ghost rest = digest@.skip(i as int);
        assert(rest[0] == b);
        assert(rest.skip(1) == digest@.skip(i + 1));
        if (48 <= b && b <= 57) || (65 <= b && b <= 90) || (97 <= b && b <= 122) {
            let ghost before = out@;
            out.push(b as char);
            assert(before + (seq![b as char] + first_alnums(rest.skip(1), (1 - taken) as nat))
                == out@ + first_alnums(rest.skip(1), (1 - taken) as nat));
            taken += 1;
        }
        i += 1;
    }
    assert(out@ == head + first_alnums(digest@, 2)) by {
        assert(first_alnums(digest@.skip(i as int), (2 - taken) as nat) == Seq::<char>::empty());
        assert(out@ + Seq::<char>::empty() == out@);
    }
    string_of(&out)
}

/// Makes the fingerprint of a client.
pub fn generate_meta_ident(asn: u32, ip_addr: &str, ua: &str, seed: u32) -> (r: String)
    ensures
        r@ == meta_ident(asn, ip_addr@, ua@, seed),
{
    let bytes = ua.as_bytes_vec();
    let digest = md5(bytes.as_slice());
    meta_ident_from_digest(asn, ip_addr, ua, seed, digest.as_slice())
}

/// The seed of a week: the number of whole weeks since the epoch, modulo
/// the largest 32-bit signed number.
pub open spec fn date_seed(unix_sec: u64) -> u32 {
    ((unix_sec / 604_800) % 0x7fff_ffff) as u32
}

/// Computes the seed of the week that holds `unix_sec`.
pub fn generate_date_seed(unix_sec: u64) -> (r: u32)
    ensures
        r == date_seed(unix_sec),
{
    ((unix_sec / 604_800) % 0x7fff_ffff) as u32
}

/// The name under which a post appears in a thread of the given level.
/// Without a tinker, or in a thread without metadent, it is the name as
/// posted. Otherwise the name, or the board's default for an empty one, is
/// followed by the level of the tinker, the fingerprint, or both; a post
/// made under a cap shows `????-????` for its fingerprint.
pub open spec fn name_with_metadent(
    name: Seq<char>,
    level: MetadentType,
    tinker_level: Option<u32>,
    default_name: Seq<char>,
    ident: Seq<char>,
    under_cap: bool,
) -> Seq<char> {
    let base = if name.len() == 0 {
        default_name
    } else {
        name
    };
    let shown = if under_cap {
        "????-????"@
    } else {
        ident
    };
    match (tinker_level, level) {
        (None, _) => name,
        (Some(_), MetadentType::Off) => name,
        (Some(l), MetadentType::Verbose) => base + " </b>(L"@ + decimal(l as nat) + ")<b>"@,
        (Some(_), MetadentType::VVerbose) => base + " </b>("@ + shown + ")<b>"@,
        (Some(l), MetadentType::VVVerbose) => base + " </b>(L"@ + decimal(l as nat) + " "@
            + shown + ")<b>"@,
    }
}

/// The level of an optional tinker.
pub open spec fn level_of(tinker: Option<Tinker>) -> Option<u32> {
    match tinker {
        Some(t) => Some(t.level),
        None => None,
    }
}

/// Makes the name under which a post appears. `ident` is the fingerprint
/// of the client, and `under_cap` says whether the post is made under a
/// moderator cap.
pub fn generate_name_with_metadent(
    name: &str,
    metadent_type: MetadentType,
    tinker: &Option<Tinker>,
    default_name: &str,
    ident: &str,
    under_cap: bool,
) -> (r: String)
    ensures
        r@ == name_with_metadent(
            name@,
            metadent_type,
            level_of(*tinker),
            default_name@,
            ident@,
            under_cap,
        ),
{
    let given = chars_of(name);
    let tinker_level: u32 = match tinker {
        Some(t) => t.level,
        None => {
            return string_of(&given);
        },
    };
    let mut out: Vec<char> = if given.len() == 0 {
        chars_of(default_name)
    } else {
        chars_of(name)
    };
    let shown: &str = if under_cap {
        "????-????"
    } else {
        ident
    };
    match metadent_type {
        MetadentType::Off => {
            return string_of(&given);
        },
        MetadentType::Verbose => {
            push_str(&mut out, " </b>(L");
            push_decimal(&mut out, tinker_level as u64);
            push_str(&mut out, ")<b>");
        },
        MetadentType::VVerbose => {
            push_str(&mut out, " </b>(");
            push_str(&mut out, shown);
            push_str(&mut out, ")<b>");
        },
        MetadentType::VVVerbose => {
            push_str(&mut out, " </b>(L");
            push_decimal(&mut out, tinker_level as u64);
            push_str(&mut out, " ");
            push_str(&mut out, shown);
            push_str(&mut out, ")<b>");
        },
    }
    string_of(&out)
}

/// The digits of a number write that number.
pub proof fn lemma_decimal_value(n: nat)
    ensures
        digits_value(decimal(n), 10) == Some(n),
        decimal(n).len() >= 1,
        decimal(n)[0] != '+',
    decreases n,
{
    let d = digit_char(n % 10);
    assert(digit_value(d, 10) == Some(n % 10));
    if n < 10 {
        assert(decimal(n) == seq![d]);
        assert(decimal(n).drop_last() == Seq::<char>::empty());
        assert(digits_value(Seq::<char>::empty(), 10) == Some(0nat));
        assert(decimal(n).last() == d);
    } else {
        lemma_decimal_value(n / 10);
        let front = decimal(n / 10);
        assert(decimal(n) == front.push(d));
        assert(decimal(n).drop_last() == front);
        assert(decimal(n).last() == d);
        assert(decimal(n)[0] == front[0]);
        assert((n / 10) * 10 + n % 10 == n);
    }
}

/// A number that is written in decimal is read back as itself.
pub proof fn lemma_decimal_parses(n: u64)
    ensures
        parsed_u64(decimal(n as nat), 10) == Some(n),
{
    lemma_decimal_value(n as nat);
}

} // verus!
