use rota::block_hash::{check_hash_length, decode_hex, hash_from_response, HashError};
use rota::calendar::CalendarDay;
use rota::rota::{default_roster, get_names, join_names, schedule_line, week_schedule};
use rota::seed::{seed_from_date, seed_from_digest, seed_from_hash};
use rota::shuffle::shuffle_names;

fn day(y: u32, m: u32, d: u32) -> CalendarDay {
    CalendarDay::new(y, m, d).unwrap()
}

fn sorted(mut v: Vec<String>) -> Vec<String> {
    v.sort();
    v
}

fn hash_ending_in(tail: [u8; 8]) -> Vec<u8> {
    let mut h: Vec<u8> = (0u8..24).collect();
    h.extend_from_slice(&tail);
    h
}

#[test]
fn calendar_day_new_accepts_real_days_only() {
    assert!(CalendarDay::new(2024, 2, 29).is_some());
    assert!(CalendarDay::new(2023, 2, 29).is_none());
    assert!(CalendarDay::new(1900, 2, 29).is_none());
    assert!(CalendarDay::new(2000, 2, 29).is_some());
    assert!(CalendarDay::new(2024, 4, 31).is_none());
    assert!(CalendarDay::new(2024, 13, 1).is_none());
    assert!(CalendarDay::new(2024, 0, 1).is_none());
    assert!(CalendarDay::new(2024, 1, 0).is_none());
    assert!(CalendarDay::new(10000, 1, 1).is_none());
    assert!(CalendarDay::new(9999, 12, 31).is_some());
}

#[test]
fn iso_text_is_zero_padded() {
    assert_eq!(day(2024, 3, 5).to_iso_string(), "2024-03-05");
    assert_eq!(day(7, 11, 30).to_iso_string(), "0007-11-30");
    assert_eq!(day(0, 1, 1).to_iso_string(), "0000-01-01");
    assert_eq!(day(9999, 12, 31).to_iso_string(), "9999-12-31");
}

#[test]
fn following_day_rolls_over() {
    assert_eq!(day(2024, 2, 28).following(), Some(day(2024, 2, 29)));
    assert_eq!(day(2023, 2, 28).following(), Some(day(2023, 3, 1)));
    assert_eq!(day(2024, 4, 30).following(), Some(day(2024, 5, 1)));
    assert_eq!(day(2023, 12, 31).following(), Some(day(2024, 1, 1)));
    assert_eq!(day(9999, 12, 31).following(), None);
}

#[test]
fn date_seed_reads_digest_head_in_native_order() {
    // SHA-256("2024-01-01") begins 41 b6 2f b4 51 85 05 d3.
    let expected = u64::from_ne_bytes([0x41, 0xb6, 0x2f, 0xb4, 0x51, 0x85, 0x05, 0xd3]);
    assert_eq!(seed_from_date(&day(2024, 1, 1)), expected);
}

#[test]
fn date_seed_is_deterministic() {
    let d = day(2026, 10, 19);
    assert_eq!(seed_from_date(&d), seed_from_date(&d));
    let names = default_roster();
    assert_eq!(get_names(&d, &names), get_names(&d, &names));
}

#[test]
fn consecutive_days_get_distinct_seeds() {
    let mut d = day(2024, 12, 25);
    let mut seeds = Vec::new();
    for _ in 0..14 {
        seeds.push(seed_from_date(&d));
        d = d.following().unwrap();
    }
    let mut unique = seeds.clone();
    unique.sort();
    unique.dedup();
    assert_eq!(unique.len(), seeds.len());
}

#[test]
fn shuffle_is_deterministic() {
    let names = default_roster();
    for seed in [0u64, 1, 42, u64::MAX] {
        assert_eq!(shuffle_names(seed, &names), shuffle_names(seed, &names));
    }
}

#[test]
fn shuffle_is_a_permutation() {
    let names = default_roster();
    for seed in [0u64, 7, 123456789, u64::MAX] {
        let out = shuffle_names(seed, &names);
        assert_eq!(out.len(), names.len());
        assert_eq!(sorted(out), sorted(names.clone()));
    }
    let empty: Vec<String> = Vec::new();
    assert!(shuffle_names(3, &empty).is_empty());
    let one = vec!["solo".to_string()];
    assert_eq!(shuffle_names(3, &one), one);
}

#[test]
fn shuffle_with_seed_zero_fixture() {
    let out = shuffle_names(0, &default_roster());
    let expected = [
        "gak",
        "stuartwdouglas",
        "deniseli",
        "juho",
        "brad",
        "tom",
        "tlongwell",
        "alecthomas",
        "worstell",
        "safeer",
        "wesbillman",
        "jonathanj",
        "abrooks",
        "matt2e",
    ];
    assert_eq!(out, expected.iter().map(|s| s.to_string()).collect::<Vec<String>>());
}

#[test]
fn shuffle_arrangement_depends_on_length_only() {
    let names = default_roster();
    let numbers: Vec<String> = (0..14).map(|i| i.to_string()).collect();
    let a = shuffle_names(99, &names);
    let b = shuffle_names(99, &numbers);
    for i in 0..14 {
        let k: usize = b[i].parse().unwrap();
        assert_eq!(a[i], names[k]);
    }
}

#[test]
fn default_roster_has_fourteen_names() {
    let names = default_roster();
    assert_eq!(names.len(), 14);
    assert_eq!(names[0], "abrooks");
    assert_eq!(names[13], "worstell");
}

#[test]
fn hash_seed_is_little_endian_of_last_eight_bytes() {
    let h = hash_ending_in([0xDE, 0xAD, 0xBE, 0xEF, 0xCA, 0xFE, 0xBA, 0xBE]);
    assert_eq!(seed_from_hash(&h), Ok(0xBEBA_FECA_EFBE_ADDE));
    let h = hash_ending_in([0xDE, 0xAD, 0xBE, 0xEF, 0xFE, 0xCA, 0xBE, 0xBA]);
    assert_eq!(seed_from_hash(&h), Ok(0xBABE_CAFE_EFBE_ADDE));
    let h = hash_ending_in([1, 0, 0, 0, 0, 0, 0, 0]);
    assert_eq!(seed_from_hash(&h), Ok(1));
}

#[test]
fn hash_of_wrong_length_is_refused() {
    let short: Vec<u8> = vec![0xAB; 31];
    assert_eq!(seed_from_hash(&short), Err(HashError::WrongLength { bytes: short.clone() }));
    let long: Vec<u8> = vec![0xCD; 33];
    assert_eq!(seed_from_hash(&long), Err(HashError::WrongLength { bytes: long.clone() }));
    assert_eq!(check_hash_length(short.clone()), Err(HashError::WrongLength { bytes: short }));
    assert_eq!(check_hash_length(long.clone()), Err(HashError::WrongLength { bytes: long }));
    let exact: Vec<u8> = vec![1; 32];
    assert_eq!(check_hash_length(exact.clone()), Ok(exact));
}

#[test]
fn hex_decoding() {
    assert_eq!(decode_hex("00ff10Ab"), Ok(vec![0x00, 0xff, 0x10, 0xab]));
    assert_eq!(decode_hex(""), Ok(vec![]));
    assert_eq!(decode_hex("abc"), Err(HashError::MalformedHex));
    assert_eq!(decode_hex("zz"), Err(HashError::MalformedHex));
    assert_eq!(decode_hex("0g"), Err(HashError::MalformedHex));
}

#[test]
fn response_hash_takes_first_64_characters() {
    let hex: String = (0..32).map(|i| format!("{:02x}", i)).collect();
    let body = format!("{hex}\n");
    let expected: Vec<u8> = (0u8..32).collect();
    assert_eq!(hash_from_response(&body), Ok(expected.clone()));
    assert_eq!(hash_from_response(&hex), Ok(expected));
    let short = &hex[..62];
    assert!(matches!(hash_from_response(short), Err(HashError::WrongLength { bytes }) if bytes.len() == 31));
    let bad = format!("x{}", &hex[1..]);
    assert_eq!(hash_from_response(&bad), Err(HashError::MalformedHex));
}

#[test]
fn joining_names() {
    let names = vec!["a".to_string(), "bb".to_string(), "c".to_string()];
    assert_eq!(join_names(&names), "a, bb, c");
    assert_eq!(join_names(&Vec::new()), "");
    assert_eq!(join_names(&vec!["x".to_string()]), "x");
}

#[test]
fn schedule_line_format() {
    let names = vec!["b".to_string(), "a".to_string()];
    assert_eq!(schedule_line(&day(2024, 6, 1), &names), "2024-06-01Z: b, a");
}

#[test]
fn week_schedule_has_eight_days() {
    let names = default_roster();
    let today = day(2024, 12, 28);
    let lines = week_schedule(&today, &names);
    assert_eq!(lines.len(), 8);
    assert!(lines[0].starts_with("2024-12-28Z: "));
    assert!(lines[4].starts_with("2025-01-01Z: "));
    assert!(lines[7].starts_with("2025-01-04Z: "));
    let first = get_names(&today, &names);
    assert_eq!(lines[0], schedule_line(&today, &first));
}

#[test]
fn week_schedule_stops_at_last_day() {
    let names = default_roster();
    let lines = week_schedule(&day(9999, 12, 30), &names);
    assert_eq!(lines.len(), 2);
    assert!(lines[1].starts_with("9999-12-31Z: "));
}

#[test]
fn digest_seed_reads_first_eight_bytes() {
    let digest: Vec<u8> = (1u8..=32).collect();
    assert_eq!(seed_from_digest(&digest), u64::from_ne_bytes([1, 2, 3, 4, 5, 6, 7, 8]));
}
