//! Small helpers: IP addresses, dates, authentication codes and the decoding
//! of form bodies.

use crate::datetime::{format_time, formatted_time};
use crate::random::{draw_below, seeded_draw};
use crate::sjis::{sjis_bytes, sjis_decode, sjis_encode, sjis_text, MAX_BYTES, MAX_TEXT};
use crate::text::{all_digits, is_digit, contains, str_has, 
    chars_of, cuts, decimal, has_char, piece_ranges, pieces, push_all, push_decimal, range_is,
    ranges_within, replace_str, replaced, same_text, slice_of, string_of,
};
use vstd::prelude::*;
use vstd::string::StringSliceAdditionalSpecFns;

verus! {

/// The colon-separated groups by which an address is compared and reduced:
/// the first four where there are four or more, else all of them.
pub open spec fn ip_head(ip: Seq<char>) -> Seq<Seq<char>> {
    let groups = pieces(ip, ':');
    if groups.len() >= 4 {
        groups.take(4)
    } else {
        groups
    }
}

/// Whether two addresses count as the same: two IPv6 addresses where their
/// first four groups agree, any others where they are equal.
pub open spec fn same_ip(a: Seq<char>, b: Seq<char>) -> bool {
    if a.contains(':') && b.contains(':') {
        ip_head(a) == ip_head(b)
    } else {
        a == b
    }
}

/// Compares two client addresses.
pub fn equals_ip_addr(a: &str, b: &str) -> (r: bool)
    ensures
        r == same_ip(a@, b@),
{
    let av = chars_of(a);
    let bv = chars_of(b);
    assert(av@.subrange(0, av.len() as int) == av@);
    assert(bv@.subrange(0, bv.len() as int) == bv@);
    if has_char(&av, 0, av.len(), ':') && has_char(&bv, 0, bv.len(), ':') {
        let ar = piece_ranges(&av, ':');
        let br = piece_ranges(&bv, ':');
        let an = if ar.len() >= 4 {
            4
        } else {
            ar.len()
        };
        let bn = if br.len() >= 4 {
            4
        } else {
            br.len()
        };
        if an != bn {
            return false;
        }
        let ghost ah = ip_head(a@);
        let ghost bh = ip_head(b@);
        let mut k: usize = 0;
        while k < an
            invariant
                k <= an,
                an == bn,
                an <= ar.len(),
                bn <= br.len(),
                ah == ip_head(a@),
                bh == ip_head(b@),
                ah.len() == an,
                bh.len() == bn,
                av@ == a@,
                bv@ == b@,
                ranges_within(ar@, av@.len()),
                ranges_within(br@, bv@.len()),
                cuts(av@, ar@) == pieces(a@, ':'),
                cuts(bv@, br@) == pieces(b@, ':'),
                forall|j: int| 0 <= j < k ==> ah[j] == bh[j],
            decreases an - k,
        {
            let (af, at) = ar[k];
            let (bf, bt) = br[k];
            assert(ar@[k as int].0 <= ar@[k as int].1);
            assert(br@[k as int].0 <= br@[k as int].1);
            let x = slice_of(&av, af, at);
            let y = slice_of(&bv, bf, bt);
            assert(x@ == cuts(av@, ar@)[k as int]);
            assert(y@ == cuts(bv@, br@)[k as int]);
            assert(ah[k as int] == x@);
            assert(bh[k as int] == y@);
            if !same_text(&x, &y) {
                return false;
            }
            k += 1;
        }
        assert(ah =~= bh);
        true
    } else {
        same_text(&av, &bv)
    }
}

/// The address by which an author is known for a day: an IPv6 address cut
/// to its first four groups, any other as it is.
pub open spec fn reduced_ip(ip: Seq<char>) -> Seq<char> {
    let groups = pieces(ip, ':');
    if ip.contains(':') && groups.len() >= 4 {
        groups[0] + ":"@ + groups[1] + ":"@ + groups[2] + ":"@ + groups[3]
    } else {
        ip
    }
}

/// Reduces a client address.
pub fn get_reduced_ip_addr(ip_addr: &str) -> (r: String)
    ensures
        r@ == reduced_ip(ip_addr@),
{
    let v = chars_of(ip_addr);
    assert(v@.subrange(0, v.len() as int) == v@);
    if has_char(&v, 0, v.len(), ':') {
        let ranges = piece_ranges(&v, ':');
        if ranges.len() >= 4 {
            let mut out: Vec<char> = Vec::new();
            let mut k: usize = 0;
            proof {
                reveal_strlit(":");
            }
            let ghost groups = pieces(ip_addr@, ':');
            while k < 4
                invariant
                    k <= 4,
                    ranges.len() >= 4,
                    v@ == ip_addr@,
                    groups == pieces(ip_addr@, ':'),
                    ranges_within(ranges@, v@.len()),
                    cuts(v@, ranges@) == groups,
                    ":"@ == seq![':'],
                    k == 0 ==> out@ == Seq::<char>::empty(),
                    k == 1 ==> out@ == groups[0],
                    k == 2 ==> out@ == groups[0] + ":"@ + groups[1],
                    k == 3 ==> out@ == groups[0] + ":"@ + groups[1] + ":"@ + groups[2],
                    k == 4 ==> out@ == groups[0] + ":"@ + groups[1] + ":"@ + groups[2] + ":"@
                        + groups[3],
                decreases 4 - k,
            {
                let (from, to) = ranges[k];
                assert(ranges@[k as int].0 <= ranges@[k as int].1);
                assert(cuts(v@, ranges@)[k as int] == v@.subrange(from as int, to as int));
                if k > 0 {
                    out.push(':');
                }
                let g = slice_of(&v, from, to);
                push_all(&mut out, &g);
                k += 1;
            }
            return string_of(&out);
        }
    }
    string_of(&v)
}

/// The Japanese name of a weekday given by its English short name; any
/// other text stays as it is.
pub open spec fn weekday_ja(weekday: Seq<char>) -> Seq<char> {
    if weekday == "Mon"@ {
        "月"@
    } else if weekday == "Tue"@ {
        "火"@
    } else if weekday == "Wed"@ {
        "水"@
    } else if weekday == "Thu"@ {
        "木"@
    } else if weekday == "Fri"@ {
        "金"@
    } else if weekday == "Sat"@ {
        "土"@
    } else if weekday == "Sun"@ {
        "日"@
    } else {
        weekday
    }
}

/// Gives the Japanese name of a weekday for its English short name.
pub fn convert_weekday_to_ja(weekday: &str) -> (r: &str)
    ensures
        r@ == weekday_ja(weekday@),
{
    let v = chars_of(weekday);
    let n = v.len();
    assert(v@.subrange(0, n as int) == v@);
    if range_is(&v, 0, n, "Mon") {
        "月"
    } else if range_is(&v, 0, n, "Tue") {
        "火"
    } else if range_is(&v, 0, n, "Wed") {
        "水"
    } else if range_is(&v, 0, n, "Thu") {
        "木"
    } else if range_is(&v, 0, n, "Fri") {
        "金"
    } else if range_is(&v, 0, n, "Sat") {
        "土"
    } else if range_is(&v, 0, n, "Sun") {
        "日"
    } else {
        weekday
    }
}

/// The milliseconds by which Japan Standard Time is ahead of UTC.
pub const JST_OFFSET_MILLIS: u64 = 32_400_000;

/// The text of the moment `now_millis`, in Japan Standard Time, as posts
/// carry it: `YYYY/MM/DD(weekday) HH:MM:SS.mmm`, the weekday in Japanese or
/// in English. None where the moment is beyond what the calendar holds.
pub open spec fn date_time_text(now_millis: u64, is_ja: bool) -> Option<Seq<char>> {
    let at = now_millis + JST_OFFSET_MILLIS;
    if at > i64::MAX {
        None
    } else if is_ja {
        match (
            formatted_time(at, "%Y/%m/%d({weekday}) %H:%M:%S.%3f"@),
            formatted_time(at, "%a"@),
        ) {
            (Some(text), Some(day)) => Some(replaced(text, "{weekday}"@, weekday_ja(day))),
            _ => None,
        }
    } else {
        formatted_time(at, "%Y/%m/%d(%a) %H:%M:%S.%3f"@)
    }
}

/// Writes the moment `now_millis` (milliseconds after the epoch) as the date
/// of a post.
pub fn get_current_date_time_string(now_millis: u64, is_ja: bool) -> (r: Option<String>)
    ensures
        match r {
            Some(s) => date_time_text(now_millis, is_ja) == Some(s@),
            None => date_time_text(now_millis, is_ja) is None,
        },
{
    if now_millis > 0x7fff_ffff_ffff_ffff - JST_OFFSET_MILLIS {
        return None;
    }
    let at = (now_millis + JST_OFFSET_MILLIS) as i64;
    if is_ja {
        let text = match format_time(at, "%Y/%m/%d({weekday}) %H:%M:%S.%3f") {
            Some(t) => t,
            None => {
                return None;
            },
        };
        let day = match format_time(at, "%a") {
            Some(d) => d,
            None => {
                return None;
            },
        };
        let day = convert_weekday_to_ja(day.as_str());
        proof {
            reveal_strlit("{weekday}");
        }
        let chars = chars_of(text.as_str());
        let out = replace_str(&chars, "{weekday}", day);
        Some(string_of(&out))
    } else {
        format_time(at, "%Y/%m/%d(%a) %H:%M:%S.%3f")
    }
}

/// The seed that a moment gives: its eight bytes, the most significant
/// first, then twenty-four zero bytes.
pub open spec fn seed_of(ts: u64) -> Seq<u8> {
    seq![
        (ts / 0x100_0000_0000_0000) as u8,
        (ts / 0x1_0000_0000_0000 % 256) as u8,
        (ts / 0x100_0000_0000 % 256) as u8,
        (ts / 0x1_0000_0000 % 256) as u8,
        (ts / 0x100_0000 % 256) as u8,
        (ts / 0x1_0000 % 256) as u8,
        (ts / 0x100 % 256) as u8,
        (ts % 256) as u8,
    ] + Seq::new(24, |i: int| 0u8)
}

/// Spreads a moment over the seed of the code generator.
pub fn unix_ts_to_bytes(ts: u64) -> (r: [u8; 32])
    ensures
        r@ == seed_of(ts),
{
    let mut bytes: [u8; 32] = [0;32];
    bytes[0] = (ts / 0x100_0000_0000_0000) as u8;
    bytes[1] = (ts / 0x1_0000_0000_0000 % 256) as u8;
    bytes[2] = (ts / 0x100_0000_0000 % 256) as u8;
    bytes[3] = (ts / 0x1_0000_0000 % 256) as u8;
    bytes[4] = (ts / 0x100_0000 % 256) as u8;
    bytes[5] = (ts / 0x1_0000 % 256) as u8;
    bytes[6] = (ts / 0x100 % 256) as u8;
    bytes[7] = (ts % 256) as u8;
    assert(bytes@ =~= seed_of(ts));
    bytes
}

/// The decimal text of `n`, with zeros in front up to `width` characters.
pub open spec fn zero_padded(n: nat, width: nat) -> Seq<char> {
    let digits = decimal(n);
    if digits.len() >= width {
        digits
    } else {
        Seq::new((width - digits.len()) as nat, |i: int| '0') + digits
    }
}

/// The authentication code that the moment `now_millis` gives: six decimal
/// digits, drawn by a generator that the moment seeds.
pub open spec fn six_digit_code(now_millis: u64) -> Seq<char> {
    zero_padded(seeded_draw(seed_of(now_millis), 1_000_000) as nat, 6)
}

/// A number below a million has six decimal digits at most.
pub proof fn lemma_six_digits(n: nat)
    requires
        n < 1_000_000,
    ensures
        decimal(n).len() <= 6,
        zero_padded(n, 6).len() == 6,
        all_digits(zero_padded(n, 6)),
{
    reveal_with_fuel(decimal, 7);
    lemma_decimal_digits(n);
    let digits = decimal(n);
    assert forall|i: int| 0 <= i < zero_padded(n, 6).len() implies is_digit(
        #[trigger] zero_padded(n, 6)[i],
    ) by {
        if digits.len() < 6 {
            if i >= 6 - digits.len() {
                assert(zero_padded(n, 6)[i] == digits[i - (6 - digits.len())]);
            }
        }
    }
}

/// The decimal text of a number holds digits only.
pub proof fn lemma_decimal_digits(n: nat)
    ensures
        all_digits(decimal(n)),
    decreases n,
{
    if n >= 10 {
        lemma_decimal_digits(n / 10);
    }
}

/// Makes the six-digit authentication code for the moment `now_millis`.
pub fn generate_six_digit_num(now_millis: u64) -> (r: String)
    ensures
        r@ == six_digit_code(now_millis),
        r@.len() == 6,
        all_digits(r@),
{
    let n = draw_below(unix_ts_to_bytes(now_millis), 1_000_000);
    proof {
        lemma_six_digits(n as nat);
    }
    let mut digits: Vec<char> = Vec::new();
    push_decimal(&mut digits, n as u64);
    let pad: usize = if digits.len() >= 6 {
        0
    } else {
        6 - digits.len()
    };
    let mut out: Vec<char> = Vec::new();
    let mut k: usize = 0;
    while k < pad
        invariant
            k <= pad,
            out@ == Seq::new(k as nat, |i: int| '0'),
        decreases pad - k,
    {
        out.push('0');
        k += 1;
    }
    push_all(&mut out, &digits);
    assert(out@ =~= zero_padded(n as nat, 6));
    string_of(&out)
}

/// The value of an ASCII hexadecimal digit.
pub open spec fn hex_value(b: u8) -> Option<u8> {
    if 0x30 <= b <= 0x39 {
        Some((b - 0x30) as u8)
    } else if 0x41 <= b <= 0x46 {
        Some((b - 0x41 + 10) as u8)
    } else if 0x61 <= b <= 0x66 {
        Some((b - 0x61 + 10) as u8)
    } else {
        None
    }
}

/// The bytes that a form value stands for: `%HH` is the byte with that
/// hexadecimal value, `+` a space, anything else itself. A `%` with fewer
/// than two bytes behind it ends the value. None where a `%` is followed by
/// something other than two hexadecimal digits.
pub open spec fn percent_decoded(bytes: Seq<u8>) -> Option<Seq<u8>>
    decreases bytes.len(),
{
    if bytes.len() == 0 {
        Some(Seq::<u8>::empty())
    } else if bytes[0] == 0x25 {
        if bytes.len() < 3 {
            Some(Seq::<u8>::empty())
        } else {
            match (hex_value(bytes[1]), hex_value(bytes[2]), percent_decoded(bytes.skip(3))) {
                (Some(hi), Some(lo), Some(rest)) => Some(seq![(hi * 16 + lo) as u8] + rest),
                _ => None,
            }
        }
    } else {
        match percent_decoded(bytes.skip(1)) {
            Some(rest) => Some(
                seq![
                    if bytes[0] == 0x2b {
                        0x20u8
                    } else {
                        bytes[0]
                    },
                ] + rest,
            ),
            None => None,
        }
    }
}

/// The value of an ASCII hexadecimal digit.
fn ascii_hex_digit_to_byte(value: u8) -> (r: Option<u8>)
    ensures
        r == hex_value(value),
{
    if 0x30 <= value && value <= 0x39 {
        Some(value - 0x30)
    } else if 0x41 <= value && value <= 0x46 {
        Some(value - 0x41 + 10)
    } else if 0x61 <= value && value <= 0x66 {
        Some(value - 0x61 + 10)
    } else {
        None
    }
}

/// Decodes the percent escapes of a form value.
pub fn percent_decode(bytes: &[u8]) -> (r: Option<Vec<u8>>)
    ensures
        match r {
            Some(v) => percent_decoded(bytes@) == Some(v@),
            None => percent_decoded(bytes@) is None,
        },
{
    let mut out: Vec<u8> = Vec::new();
    let mut i: usize = 0;
    assert(bytes@.skip(0) == bytes@);
    while i < bytes.len()
        invariant
            i <= bytes.len(),
            match percent_decoded(bytes@.skip(i as int)) {
                Some(rest) => percent_decoded(bytes@) == Some(out@ + rest),
                None => percent_decoded(bytes@) is None,
            },
        decreases bytes.len() - i,
    {
        let ghost here = bytes@.skip(i as int);
        let item = bytes[i];
        assert(here[0] == item);
        if item == 0x25 {
            if bytes.len() - i < 3 {
                assert(out@ + Seq::<u8>::empty() == out@);
                return Some(out);
            }
            assert(here[1] == bytes@[i + 1]);
            assert(here[2] == bytes@[i + 2]);
            assert(here.skip(3) == bytes@.skip(i + 3));
            let hi = match ascii_hex_digit_to_byte(bytes[i + 1]) {
                Some(h) => h,
                None => {
                    return None;
                },
            };
            let lo = match ascii_hex_digit_to_byte(bytes[i + 2]) {
                Some(l) => l,
                None => {
                    return None;
                },
            };
            let ghost old_out = out@;
            out.push(hi * 16 + lo);
            proof {
                match percent_decoded(here.skip(3)) {
                    Some(rest) => {
                        assert(old_out + (seq![(hi * 16 + lo) as u8] + rest) == out@ + rest);
                    },
                    None => {},
                }
            }
            i += 3;
        } else {
            assert(here.skip(1) == bytes@.skip(i + 1));
            let ghost old_out = out@;
            let b: u8 = if item == 0x2b {
                0x20
            } else {
                item
            };
            out.push(b);
            proof {
                match percent_decoded(here.skip(1)) {
                    Some(rest) => {
                        assert(old_out + (seq![b] + rest) == out@ + rest);
                    },
                    None => {},
                }
            }
            i += 1;
        }
    }
    assert(bytes@.skip(bytes.len() as int) == Seq::<u8>::empty());
    assert(out@ + Seq::<u8>::empty() == out@);
    Some(out)
}

/// The text of a form value: its UTF-8 bytes percent-decoded and then read
/// as Shift_JIS. None where the escapes are malformed or the decoded bytes
/// are more than a decoder is handed.
pub open spec fn form_value(raw: Seq<char>) -> Option<Seq<char>> {
    match percent_decoded(vstd::utf8::encode_utf8(raw)) {
        Some(bytes) => if bytes.len() <= MAX_BYTES {
            Some(sjis_text(bytes))
        } else {
            None
        },
        None => None,
    }
}

/// The field that one `key=value` item of a form body stands for.
pub open spec fn form_field(item: Seq<char>) -> Option<(Seq<char>, Seq<char>)> {
    let halves = pieces(item, '=');
    if halves.len() == 2 {
        match form_value(halves[1]) {
            Some(v) => Some((halves[0], v)),
            None => None,
        }
    } else {
        None
    }
}

/// The fields of the first `n` items, in order; none where one is malformed.
pub open spec fn form_fields_upto(items: Seq<Seq<char>>, n: int) -> Option<
    Seq<(Seq<char>, Seq<char>)>,
>
    decreases n,
{
    if n <= 0 {
        Some(Seq::<(Seq<char>, Seq<char>)>::empty())
    } else {
        match (form_fields_upto(items, n - 1), form_field(items[n - 1])) {
            (Some(front), Some(f)) => Some(front.push(f)),
            _ => None,
        }
    }
}

/// The fields of a form body: its items, which `&` separates, each cut at
/// its `=` into key and value. None where an item is malformed.
pub open spec fn form_fields(data: Seq<char>) -> Option<Seq<(Seq<char>, Seq<char>)>> {
    form_fields_upto(pieces(data, '&'), pieces(data, '&').len() as int)
}

/// The value of the last field with the key `key`, if there is one.
pub open spec fn field_value(fields: Seq<(Seq<char>, Seq<char>)>, key: Seq<char>) -> Option<
    Seq<char>,
>
    decreases fields.len(),
{
    if fields.len() == 0 {
        None
    } else if fields.last().0 == key {
        Some(fields.last().1)
    } else {
        field_value(fields.drop_last(), key)
    }
}

/// The fields of a decoded form body, in the order of the body. Of two
/// fields with one key the later counts.
#[derive(Debug)]
pub struct FormFields {
    pub pairs: Vec<(String, String)>,
}

/// The key and value of a pair as texts.
pub open spec fn pair_view(p: (String, String)) -> (Seq<char>, Seq<char>) {
    (p.0@, p.1@)
}

impl View for FormFields {
    type V = Seq<(Seq<char>, Seq<char>)>;

    open spec fn view(&self) -> Seq<(Seq<char>, Seq<char>)> {
        Seq::new(self.pairs@.len(), |i: int| pair_view(self.pairs@[i]))
    }
}

impl FormFields {
    /// The value of the field `key`.
    pub fn get(&self, key: &str) -> (r: Option<&String>)
        ensures
            match r {
                Some(v) => field_value(self@, key@) == Some(v@),
                None => field_value(self@, key@) is None,
            },
    {
        let want = chars_of(key);
        let mut k: usize = self.pairs.len();
        assert(self@.take(k as int) == self@);
        while k > 0
            invariant
                k <= self.pairs.len(),
                want@ == key@,
                field_value(self@, key@) == field_value(self@.take(k as int), key@),
            decreases k,
        {
            k -= 1;
            let have = chars_of(self.pairs[k].0.as_str());
            assert(self@.take(k + 1).last() == pair_view(self.pairs@[k as int]));
            assert(self@.take(k + 1).drop_last() == self@.take(k as int));
            if same_text(&have, &want) {
                return Some(&self.pairs[k].1);
            }
        }
        None
    }
}

/// Decodes one value of a form body.
fn decode_form_value(raw: &str) -> (r: Option<String>)
    ensures
        match r {
            Some(v) => form_value(raw@) == Some(v@),
            None => form_value(raw@) is None,
        },
{
    let bytes = raw.as_bytes_vec();
    match percent_decode(bytes.as_slice()) {
        Some(decoded) => {
            if decoded.len() <= MAX_BYTES {
                Some(sjis_decode(decoded.as_slice()))
            } else {
                None
            }
        },
        None => None,
    }
}

/// Decodes a form body in which the values are percent-encoded Shift_JIS.
pub fn shift_jis_url_encodeded_body_to_vec(data: &str) -> (r: Result<FormFields, ()>)
    ensures
        match r {
            Ok(f) => form_fields(data@) == Some(f@),
            Err(_) => form_fields(data@) is None,
        },
{
    let chars = chars_of(data);
    let items = piece_ranges(&chars, '&');
    let mut pairs: Vec<(String, String)> = Vec::new();
    let mut k: usize = 0;
    let ghost all = pieces(data@, '&');
    while k < items.len()
        invariant
            k <= items.len(),
            chars@ == data@,
            all == pieces(data@, '&'),
            ranges_within(items@, chars@.len()),
            cuts(chars@, items@) == all,
            form_fields_upto(all, k as int) == Some(
                Seq::new(pairs@.len(), |i: int| pair_view(pairs@[i])),
            ),
        decreases items.len() - k,
    {
        let (from, to) = items[k];
        assert(items@[k as int].0 <= items@[k as int].1);
        assert(cuts(chars@, items@)[k as int] == chars@.subrange(from as int, to as int));
        let item = slice_of(&chars, from, to);
        let halves = piece_ranges(&item, '=');
        if halves.len() != 2 {
            proof {
                lemma_fields_fail(all, k as int + 1, items.len() as int);
            }
            return Err(());
        }
        let (kf, kt) = halves[0];
        let (vf, vt) = halves[1];
        assert(halves@[0].0 <= halves@[0].1);
        assert(halves@[1].0 <= halves@[1].1);
        assert(cuts(item@, halves@)[0] == item@.subrange(kf as int, kt as int));
        assert(cuts(item@, halves@)[1] == item@.subrange(vf as int, vt as int));
        let key = string_of(&slice_of(&item, kf, kt));
        let raw = string_of(&slice_of(&item, vf, vt));
        let value = match decode_form_value(raw.as_str()) {
            Some(v) => v,
            None => {
                proof {
                    lemma_fields_fail(all, k as int + 1, items.len() as int);
                }
                return Err(());
            },
        };
        let ghost before = Seq::new(pairs@.len(), |i: int| pair_view(pairs@[i]));
        pairs.push((key, value));
        assert(Seq::new(pairs@.len(), |i: int| pair_view(pairs@[i])) == before.push(
            (key@, value@),
        ));
        k += 1;
    }
    Ok(FormFields { pairs })
}

/// Once an item is malformed, so is every longer list of items.
pub proof fn lemma_fields_fail(items: Seq<Seq<char>>, n: int, m: int)
    requires
        0 <= n <= m,
        form_fields_upto(items, n) is None,
    ensures
        form_fields_upto(items, m) is None,
    decreases m - n,
{
    if n < m {
        lemma_fields_fail(items, n, m - 1);
    }
}

/// The content type of the plain-text files; the charset is left out.
pub const TEXT_PLAIN: &'static str = "text/plain";

/// The content type of the HTML pages that are sent in Shift_JIS.
pub const TEXT_HTML_SJIS: &'static str = "text/html; charset=x-sjis";

/// The seconds after the epoch of a moment given in milliseconds.
pub fn get_unix_timestamp_sec(now_millis: u64) -> (r: u64)
    ensures
        r == now_millis / 1000,
{
    now_millis / 1000
}

/// The Shift_JIS body of a text response; none where the text is longer
/// than an encoder is handed.
pub open spec fn shift_jis_body(body: Seq<char>) -> Option<Seq<u8>> {
    if body.len() <= MAX_TEXT {
        Some(sjis_bytes(body))
    } else {
        None
    }
}

/// The value of an optional byte string.
pub open spec fn opt_bytes(b: Option<Vec<u8>>) -> Option<Seq<u8>> {
    match b {
        Some(v) => Some(v@),
        None => None,
    }
}

/// Encodes the body of a plain-text response in Shift_JIS.
pub fn response_shift_jis_text_plain(body: &str) -> (r: Option<Vec<u8>>)
    ensures
        opt_bytes(r) == shift_jis_body(body@),
{
    let chars = chars_of(body);
    if chars.len() > MAX_TEXT {
        None
    } else {
        Some(sjis_encode(body))
    }
}

/// Encodes the body of an HTML response in Shift_JIS.
pub fn response_shift_jis_text_html(body: String) -> (r: Option<Vec<u8>>)
    ensures
        opt_bytes(r) == shift_jis_body(body@),
{
    response_shift_jis_text_plain(body.as_str())
}

/// The `Cache-Control` value that lets shared caches keep a response for
/// `ttl` seconds.
pub open spec fn cache_control(ttl: usize) -> Seq<char> {
    "s-maxage="@ + decimal(ttl as nat)
}

/// Writes the `Cache-Control` value for `ttl` seconds.
pub fn cache_control_value(ttl: usize) -> (r: String)
    ensures
        r@ == cache_control(ttl),
{
    let mut out = chars_of("s-maxage=");
    push_decimal(&mut out, ttl as u64);
    string_of(&out)
}

/// Encodes the body of a plain-text response in Shift_JIS and writes the
/// `Cache-Control` value that goes with it.
pub fn response_shift_jis_text_plain_with_cache(body: &str, ttl: usize) -> (r: Option<
    (Vec<u8>, String),
>)
    ensures
        match r {
            Some(p) => shift_jis_body(body@) == Some(p.0@) && p.1@ == cache_control(ttl),
            None => shift_jis_body(body@) is None,
        },
{
    match response_shift_jis_text_plain(body) {
        Some(bytes) => Some((bytes, cache_control_value(ttl))),
        None => None,
    }
}

/// Whether a setting is given as `value`.
pub fn setting_is(setting: Option<&str>, value: &str) -> (r: bool)
    ensures
        r == (setting is Some && setting->0@ == value@),
{
    match setting {
        Some(s) => {
            let a = chars_of(s);
            let b = chars_of(value);
            same_text(&a, &b)
        },
        None => false,
    }
}

/// Whether the HTML pages are switched off: the setting `WEBUI` is
/// `false`.
pub fn check_webui_disabled(setting: Option<&str>) -> (r: bool)
    ensures
        r == (setting is Some && setting->0@ == "false"@),
{
    setting_is(setting, "false")
}

/// Whether the hard cap on the write rate is switched on: the setting
/// `HARD_MIN_RECENT_RES_SPAN_CAP` is `true`.
pub fn hard_cap_enabled(setting: Option<&str>) -> (r: bool)
    ensures
        r == (setting is Some && setting->0@ == "true"@),
{
    setting_is(setting, "true")
}

/// Whether a host belongs to the retired domain.
pub fn on_retired_domain(host: &str) -> (r: bool)
    ensures
        r == contains(host@, "workers.dev"@),
{
    str_has(host, "workers.dev")
}

} // verus!
