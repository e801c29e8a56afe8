use preboot_oxide::cli::{parse, Cli};
use preboot_oxide::net::{parse_ipv4, parse_octet, Ipv4};
use preboot_oxide::text::{
    chars_of, hex_digit_char, join_hex, parse_digits, parse_u64, push_hex_padded, push_hex_upper,
    split_text,
};
use preboot_oxide::tftp::{DirHandler, DirHandlerMode};
use preboot_oxide::util::{QuotaError, QuotaMap};

#[test]
fn quota_map_starts_empty() {
    let map: QuotaMap<&str> = QuotaMap::new(3);
    assert!(map.keys().is_empty());
    assert!(map.iter().is_empty());
    assert_eq!(map.get(&1), None);
}

#[test]
fn quota_map_inserts_up_to_its_quota() {
    let mut map = QuotaMap::new(2);
    assert_eq!(map.insert(1, "a"), Ok(()));
    assert_eq!(map.insert(2, "b"), Ok(()));
    assert_eq!(map.insert(3, "c"), Err(QuotaError::QuotaReached));
    assert_eq!(map.get(&1), Some(&"a"));
    assert_eq!(map.get(&2), Some(&"b"));
    assert_eq!(map.get(&3), None);
    let mut keys = map.keys();
    keys.sort();
    assert_eq!(keys, vec![1, 2]);
}

#[test]
fn insert_on_a_full_map_leaves_it_unchanged() {
    let mut map = QuotaMap::new(1);
    assert_eq!(map.insert(1, "a"), Ok(()));
    // Not even the entry that is there is replaced.
    assert_eq!(map.insert(1, "z"), Err(QuotaError::QuotaReached));
    assert_eq!(map.insert(2, "b"), Err(QuotaError::QuotaReached));
    assert_eq!(map.keys(), vec![1]);
    assert_eq!(map.get(&1), Some(&"a"));

    let mut none: QuotaMap<u8> = QuotaMap::new(0);
    assert_eq!(none.insert(1, 1), Err(QuotaError::QuotaReached));
    assert!(none.keys().is_empty());
}

#[test]
fn quota_map_replaces_and_removes() {
    let mut map = QuotaMap::new(3);
    map.insert(1, "a").unwrap();
    map.insert(1, "b").unwrap();
    assert_eq!(map.keys(), vec![1]);
    assert_eq!(map.get(&1), Some(&"b"));
    assert_eq!(map.remove(&1), Some("b"));
    assert_eq!(map.remove(&1), None);
    assert!(map.keys().is_empty());
    // A map that has drained takes entries again.
    let mut small = QuotaMap::new(1);
    small.insert(1, 1).unwrap();
    assert!(small.insert(2, 2).is_err());
    small.remove(&1);
    assert_eq!(small.insert(2, 2), Ok(()));
}

#[test]
fn quota_map_get_mut_writes_through() {
    let mut map = QuotaMap::new(3);
    map.insert(7, 1u32).unwrap();
    map.insert(8, 2u32).unwrap();
    *map.get_mut(&7).unwrap() += 10;
    assert_eq!(map.get(&7), Some(&11));
    assert_eq!(map.get(&8), Some(&2));
    assert!(map.get_mut(&9).is_none());
    assert_eq!(map.keys().len(), 2);
}

#[test]
fn quota_map_retain_keeps_what_the_predicate_accepts() {
    let mut map = QuotaMap::new(10);
    for k in 0..6u32 {
        map.insert(k, k * 10).unwrap();
    }
    map.retain(|k: &u32, v: &u32| *k % 2 == 0 && *v < 40);
    let mut keys = map.keys();
    keys.sort();
    assert_eq!(keys, vec![0, 2]);
    assert_eq!(map.get(&2), Some(&20));
    map.retain(|_: &u32, _: &u32| false);
    assert!(map.keys().is_empty());
}

#[test]
fn quota_map_iter_gives_every_entry_once() {
    let mut map = QuotaMap::new(10);
    map.insert(3, "c").unwrap();
    map.insert(1, "a").unwrap();
    map.insert(2, "b").unwrap();
    let mut entries: Vec<(u32, &str)> = map.iter().into_iter().map(|(k, v)| (k, *v)).collect();
    entries.sort();
    assert_eq!(entries, vec![(1, "a"), (2, "b"), (3, "c")]);
}

#[test]
fn verbosity_picks_the_log_level() {
    let level = |verbosity| parse(Cli { verbosity });
    assert_eq!(level(None), Some("error".to_string()));
    assert_eq!(level(Some(0)), Some("error".to_string()));
    assert_eq!(level(Some(1)), Some("warn".to_string()));
    assert_eq!(level(Some(2)), Some("info".to_string()));
    assert_eq!(level(Some(3)), Some("debug".to_string()));
    assert_eq!(level(Some(4)), Some("trace".to_string()));
    assert_eq!(level(Some(5)), Some("trace".to_string()));
    assert_eq!(level(Some(255)), Some("trace".to_string()));
}

#[test]
fn dir_handler_modes() {
    let read = DirHandler::new("/srv".to_string(), DirHandlerMode::ReadOnly);
    assert_eq!(read.dir, "/srv");
    assert!(read.serve_rrq && !read.serve_wrq);
    let write = DirHandler::new("/srv".to_string(), DirHandlerMode::WriteOnly);
    assert!(!write.serve_rrq && write.serve_wrq);
    let both = DirHandler::new("/srv".to_string(), DirHandlerMode::ReadWrite);
    assert!(both.serve_rrq && both.serve_wrq);
    assert!(DirHandlerMode::ReadOnly.serves_reads());
    assert!(!DirHandlerMode::ReadOnly.serves_writes());
}

#[test]
fn ipv4_holds_its_octets() {
    assert_eq!(Ipv4::new(10, 0, 0, 2).bits, 0x0A00_0002);
    assert_eq!(Ipv4::new(255, 255, 255, 0).bits, 0xFFFF_FF00);
    assert_eq!(Ipv4::new(1, 2, 3, 4).octets(), (1, 2, 3, 4));
    assert_eq!(Ipv4::new(255, 255, 255, 255).octets(), (255, 255, 255, 255));
    assert_eq!(Ipv4::unspecified(), Ipv4::new(0, 0, 0, 0));
    assert_eq!(Ipv4 { bits: 0xC0A8_0109 }.octets(), (192, 168, 1, 9));
}

#[test]
fn ipv4_literals() {
    assert_eq!(parse_ipv4("1.1.1.1"), Some(Ipv4::new(1, 1, 1, 1)));
    assert_eq!(parse_ipv4("10.0.0.2"), Some(Ipv4::new(10, 0, 0, 2)));
    assert_eq!(parse_ipv4("255.255.255.255"), Some(Ipv4::new(255, 255, 255, 255)));
    assert_eq!(parse_ipv4("0.0.0.0"), Some(Ipv4::new(0, 0, 0, 0)));
    for bad in [
        "", "1", "1.2.3", "1.2.3.4.5", "1.2.3.", ".1.2.3", "1..2.3", "256.1.1.1", "1.2.3.04",
        "01.2.3.4", "1.2.3.4 ", " 1.2.3.4", "a.b.c.d", "1.2.3.-4", "+1.2.3.4", "1.2.3.0004",
        "1,2,3,4", "1.2.3.٤",
    ] {
        assert_eq!(parse_ipv4(bad), None, "{}", format!("{bad:?}"));
    }
    assert_eq!(parse_octet("0"), Some(0));
    assert_eq!(parse_octet("255"), Some(255));
    assert_eq!(parse_octet("256"), None);
    assert_eq!(parse_octet("00"), None);
    assert_eq!(parse_octet(""), None);
}

#[test]
fn unsigned_numbers() {
    assert_eq!(parse_u64("0"), Some(0));
    assert_eq!(parse_u64("100"), Some(100));
    assert_eq!(parse_u64("+7"), Some(7));
    assert_eq!(parse_u64("007"), Some(7));
    assert_eq!(parse_u64("18446744073709551615"), Some(u64::MAX));
    assert_eq!(parse_u64("18446744073709551616"), None);
    assert_eq!(parse_u64("99999999999999999999999"), None);
    for bad in ["", "+", "-1", "1 ", " 1", "1_000", "0x10", "++1", "1+", "١"] {
        assert_eq!(parse_u64(bad), None, "{}", format!("{bad:?}"));
    }
    let digits: Vec<char> = "ab12".chars().collect();
    assert_eq!(parse_digits(&digits, 2, 255), Some(12));
    assert_eq!(parse_digits(&digits, 2, 11), None);
    assert_eq!(parse_digits(&digits, 1, 255), None);
    assert_eq!(parse_digits(&digits, 4, 255), None);
}

#[test]
fn texts_are_split_at_every_separator() {
    let split = |s: &str| split_text(s, ',');
    assert_eq!(split("eth0,eth1"), vec!["eth0", "eth1"]);
    assert_eq!(split("eth0"), vec!["eth0"]);
    assert_eq!(split(""), vec![""]);
    assert_eq!(split(","), vec!["", ""]);
    assert_eq!(split("a,,b,"), vec!["a", "", "b", ""]);
    assert_eq!(split("é,ü"), vec!["é", "ü"]);
    assert_eq!(chars_of("aé€"), vec!['a', 'é', '€']);
    assert!(chars_of("").is_empty());
}

#[test]
fn numbers_in_upper_case_hexadecimal() {
    assert_eq!(hex_digit_char(0), '0');
    assert_eq!(hex_digit_char(9), '9');
    assert_eq!(hex_digit_char(10), 'A');
    assert_eq!(hex_digit_char(15), 'F');
    let upper = |n| {
        let mut s = String::from(">");
        push_hex_upper(&mut s, n);
        s
    };
    assert_eq!(upper(0), ">0");
    assert_eq!(upper(15), ">F");
    assert_eq!(upper(16), ">10");
    assert_eq!(upper(0xDEAD_BEEF), ">DEADBEEF");
    assert_eq!(upper(u64::MAX), ">FFFFFFFFFFFFFFFF");
    let padded = |n| {
        let mut s = String::new();
        push_hex_padded(&mut s, n);
        s
    };
    assert_eq!(padded(0), "00");
    assert_eq!(padded(10), "0A");
    assert_eq!(padded(255), "FF");
    assert_eq!(padded(256), "100");
    assert_eq!(join_hex(&[]), "");
    assert_eq!(join_hex(&[0]), "00");
    assert_eq!(join_hex(&[0xAA, 0x0B, 0xFF]), "AA:0B:FF");
}
