use eddiner::metadent::{
    generate_date_seed, generate_meta_ident, generate_name_with_metadent, meta_ident_from_digest,
    parse_u64,
};
use eddiner::thread::MetadentType;
use eddiner::tinker::Tinker;

#[test]
fn test_metadent() {
    let n = std::time::SystemTime::now()
        .duration_since(std::time::UNIX_EPOCH)
        .unwrap()
        .as_secs();
    let seed = ((n / (60 * 60 * 24) / 7) % i32::max_value() as u64) as u32;
    let cands = [
        (17676, "127.0.0.1", "Mate/1.0.0"),
        (9605, "91b4:320f:123a:ff", "Xeno/1.0.0"),
        (2516, "866c:0fa3::f3:aa", "Mate/2.0.123"),
    ];

    for c in cands.iter() {
        let result = generate_meta_ident(c.0, c.1, c.2, seed);
        println!("{result}");
    }
}

#[test]
fn meta_ident_exact_values() {
    assert_eq!(generate_meta_ident(17676, "127.0.0.1", "Mate/1.0.0", 0), "b624-40AX");
    assert_eq!(generate_meta_ident(9605, "91b4:320f:123a:ff", "Xeno/1.0.0", 5), "V0Jl-69of");
    assert_eq!(generate_meta_ident(2516, "866c:0fa3::f3:aa", "Mate/2.0.123", 2900), "PMoI-6mz5");
    assert_eq!(generate_meta_ident(0, "1.2.3.4", "Mozilla/5.0", 0), "000A-46U0");
}

#[test]
fn meta_ident_does_not_overflow() {
    assert_eq!(
        generate_meta_ident(u32::MAX, "255.255.255.255", "x", 2147483646),
        "n3rS-46a4"
    );
    let huge = "18446744073709551615.18446744073709551615.18446744073709551615.18446744073709551615";
    let text = generate_meta_ident(u32::MAX, huge, "x", u32::MAX);
    assert_eq!(text.chars().nth(4), Some('-'));
}

#[test]
fn meta_ident_takes_letters_and_digits_of_the_digest() {
    assert_eq!(meta_ident_from_digest(0, "0.0.0.0", "", 0, &[0xff, b'a', 0x00, b'Z', b'9']), "0000-46aZ");
    assert_eq!(meta_ident_from_digest(0, "0.0.0.0", "", 0, &[0xff, b'7']), "0000-467");
    assert_eq!(meta_ident_from_digest(0, "0.0.0.0", "", 0, &[]), "0000-46");
    assert_eq!(meta_ident_from_digest(0, "::", "twinkle", 1, &[b'_', b'q', b'q']), "0101-62qq");
}

#[test]
fn numbers_parse_as_the_standard_library_does() {
    let cases = ["0", "42", "+42", "-1", "", "+", "0042", "18446744073709551615",
        "18446744073709551616", "4a", "ff", "FF", " 1", "1 ", "١"];
    for case in cases {
        let chars: Vec<char> = case.chars().collect();
        assert_eq!(parse_u64(&chars, 0, chars.len(), 10), case.parse::<u64>().ok(), "{case}");
        assert_eq!(
            parse_u64(&chars, 0, chars.len(), 16),
            u64::from_str_radix(case, 16).ok(),
            "{case}"
        );
    }
}

#[test]
fn date_seed_counts_weeks() {
    assert_eq!(generate_date_seed(0), 0);
    assert_eq!(generate_date_seed(604_799), 0);
    assert_eq!(generate_date_seed(604_800), 1);
    assert_eq!(generate_date_seed(1_700_000_000), 2810);
}

#[test]
fn names_with_metadent() {
    let mut tinker = Tinker::new("tk".to_string());
    tinker.level = 7;
    let some = Some(tinker);
    let none: Option<Tinker> = None;
    let f = |name: &str, level: MetadentType, t: &Option<Tinker>, cap: bool| {
        generate_name_with_metadent(name, level, t, "名無し", "abCD-4xyz", cap)
    };
    assert_eq!(f("太郎", MetadentType::Off, &some, false), "太郎");
    assert_eq!(f("", MetadentType::Off, &some, false), "");
    assert_eq!(f("太郎", MetadentType::VVVerbose, &none, false), "太郎");
    assert_eq!(f("太郎", MetadentType::Verbose, &some, false), "太郎 </b>(L7)<b>");
    assert_eq!(f("", MetadentType::Verbose, &some, false), "名無し </b>(L7)<b>");
    assert_eq!(f("太郎", MetadentType::VVerbose, &some, false), "太郎 </b>(abCD-4xyz)<b>");
    assert_eq!(f("太郎", MetadentType::VVerbose, &some, true), "太郎 </b>(????-????)<b>");
    assert_eq!(f("", MetadentType::VVVerbose, &some, false), "名無し </b>(L7 abCD-4xyz)<b>");
    assert_eq!(f("x", MetadentType::VVVerbose, &some, true), "x </b>(L7 ????-????)<b>");
}
