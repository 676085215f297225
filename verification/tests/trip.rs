use eddiner::trip::{calculate_trip, salt_for, trip_from_base64, trip_from_bytes, trip_from_crypt};

#[test]
fn test_calculate_trip_over_12() {
    let test_cases = [
        ("aaaaaaaaaaaa", "OE/NFgqzszF0"),
        ("babababababababababa", "39J6Edxx77KI"),
        ("あああああああああああああああ", "3Djq3jN287f."),
    ];
    for (case, expected) in test_cases.iter() {
        assert_eq!(&calculate_trip(case), expected);
    }
}

#[test]
fn test_calculate_trip_under_12() {
    let test_cases = [
        ("a", "ZnBI2EKkq."),
        ("あああ", "GJolKKvjNA"),
        ("aaあaあ", "oR7LYZCwJk"),
        ("6g9@Bt(6", "qCscNtsFCg"),
    ];

    for (case, expected) in test_cases.iter() {
        assert_eq!(&calculate_trip(case), expected);
    }
}

#[test]
fn trip_is_deterministic() {
    assert_eq!(calculate_trip("えっぢ"), calculate_trip("えっぢ"));
    assert_eq!(calculate_trip("aaaaaaaaaaaa"), calculate_trip("aaaaaaaaaaaa"));
}

#[test]
fn trip_depends_on_the_encoding_only() {
    // Shift_JIS has no sign for U+00A5 of its own: it shares the byte of `\`.
    assert_eq!(calculate_trip("a\u{a5}b"), calculate_trip("a\\b"));
    assert_eq!(trip_from_bytes(b"a"), calculate_trip("a"));
}

#[test]
fn trip_from_base64_takes_twelve_and_swaps_plus() {
    assert_eq!(trip_from_base64("ab+d+fghijklmnop"), "ab.d.fghijkl");
    assert_eq!(trip_from_base64("a+c"), "a.c");
    assert_eq!(trip_from_base64(""), "");
    assert_eq!(trip_from_base64("0123456789ab+"), "0123456789ab");
}

#[test]
fn trip_from_crypt_drops_three() {
    assert_eq!(trip_from_crypt("H.ZZnBI2EKkq."), "ZnBI2EKkq.");
    assert_eq!(trip_from_crypt("ab"), "");
    assert_eq!(trip_from_crypt("abc"), "");
}

#[test]
fn salt_of_short_keys() {
    assert_eq!(salt_for(b"a"), "H.");
    assert_eq!(salt_for(b"ab"), "H.");
    assert_eq!(salt_for(b"abc"), "bcH.");
    assert_eq!(salt_for(b"a:@c"), "AGH.");
    assert_eq!(salt_for(b"a[`c"), "afH.");
    assert_eq!(salt_for(b"a!\xffc"), "..H.");
    assert_eq!(salt_for(b"a./c"), "./H.");
}

#[test]
fn trip_of_eleven_and_twelve_bytes_differ_in_kind() {
    assert_eq!(calculate_trip("aaaaaaaaaaa").chars().count(), 10);
    assert_eq!(calculate_trip("aaaaaaaaaaaa").chars().count(), 12);
}
