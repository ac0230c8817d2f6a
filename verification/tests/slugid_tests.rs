use slugid::random::{FailingSource, FixedBytesSource, SystemRandomSource};
use slugid::{nice, nice_from_bytes, nice_rng, v4, v4_from_bytes, v4_rng};
use std::collections::HashSet;

/* These "spread" tests check the distribution of characters in slugids; see
 * https://github.com/taskcluster/slugid/blob/master/slugid_test.js
 * for the background. */

const CHARS_ALL: &str = "ABCDEFGHIJKLMNOPQRSTUVWXYZabcdefghijklmnopqrstuvwxyz0123456789-_";
const CHARS_C: &str = "ABCDEFGHIJKLMNOPQRSTUVWXYZabcdef";
const CHARS_D: &str = "QRST";
const CHARS_E: &str = "CGKOSWaeimquy26-";
const CHARS_F: &str = "AQgw";

fn spread_test(generator: fn() -> String, expected: [&str; 22]) {
    let expected: Vec<HashSet<char>> = expected
        .iter()
        .map(|s| {
            let mut set: HashSet<char> = HashSet::new();
            for c in s.chars() {
                set.insert(c);
            }
            return set;
        })
        .collect();
    let mut got: Vec<HashSet<char>> = vec![HashSet::new(); 22];

    // call the generator 64 * 40 times, tracking the characters seen at each position.
    for _ in 0..(64 * 40) {
        let slugid = generator();
        for (i, c) in slugid.char_indices() {
            got[i].insert(c);
        }
    }

    assert_eq!(got, expected);
}

fn v4_shared() -> String {
    v4().unwrap()
}

fn v4_fresh_source() -> String {
    v4_rng(&SystemRandomSource::new()).unwrap()
}

fn nice_shared() -> String {
    nice().unwrap()
}

fn nice_fresh_source() -> String {
    nice_rng(&SystemRandomSource::new()).unwrap()
}

#[test]
fn v4_spread_test() {
    // expected character categories for each position in the 22-character slugid
    let expected = [
        CHARS_ALL, CHARS_ALL, CHARS_ALL, CHARS_ALL, CHARS_ALL, CHARS_ALL, CHARS_ALL, CHARS_ALL,
        CHARS_D, CHARS_ALL, CHARS_E, CHARS_ALL, CHARS_ALL, CHARS_ALL, CHARS_ALL, CHARS_ALL,
        CHARS_ALL, CHARS_ALL, CHARS_ALL, CHARS_ALL, CHARS_ALL, CHARS_F,
    ];

    spread_test(v4_shared, expected);
    spread_test(v4_fresh_source, expected);
}

#[test]
fn nice_spread_test() {
    // expected character categories for each position in the 22-character *nice* slugid
    let expected = [
        CHARS_C, CHARS_ALL, CHARS_ALL, CHARS_ALL, CHARS_ALL, CHARS_ALL, CHARS_ALL, CHARS_ALL,
        CHARS_D, CHARS_ALL, CHARS_E, CHARS_ALL, CHARS_ALL, CHARS_ALL, CHARS_ALL, CHARS_ALL,
        CHARS_ALL, CHARS_ALL, CHARS_ALL, CHARS_ALL, CHARS_ALL, CHARS_F,
    ];

    spread_test(nice_shared, expected);
    spread_test(nice_fresh_source, expected);
}

#[test]
fn zero_bytes_golden() {
    // all-zero random bytes: byte8 becomes 0x80, byte6 becomes 0x40, the
    // rest stay zero, and the encoding is pinned.
    let source = FixedBytesSource::new(vec![0u8; 16]);
    let s = v4_rng(&source).unwrap();
    assert_eq!(s, "AAAAAAAAQACAAAAAAAAAAA");
    assert!(s.starts_with("AAAAAAAA"));
    assert_eq!(s.as_bytes()[8], b'Q');
    assert_eq!(s.as_bytes()[10], b'C');
    // byte 0's top bit is already clear, so the nice mode agrees here
    let n = nice_rng(&source).unwrap();
    assert_eq!(n, "AAAAAAAAQACAAAAAAAAAAA");
}

#[test]
fn from_bytes_golden() {
    let bytes: Vec<u8> = (0u8..16).collect();
    assert_eq!(v4_from_bytes(bytes.clone()), "AAECAwQFRgeICQoLDA0ODw");
    assert_eq!(nice_from_bytes(bytes), "AAECAwQFRgeICQoLDA0ODw");
    assert_eq!(v4_from_bytes(vec![0xff; 16]), "________T_-__________w");
    assert_eq!(nice_from_bytes(vec![0xff; 16]), "f_______T_-__________w");
}

#[test]
fn deterministic_with_fixed_source() {
    let source = FixedBytesSource::new(vec![0xff; 16]);
    let a = v4_rng(&source).unwrap();
    let b = v4_rng(&source).unwrap();
    assert_eq!(a, b);
    let c = nice_rng(&source).unwrap();
    let d = nice_rng(&source).unwrap();
    assert_eq!(c, d);
    assert_eq!(a, "________T_-__________w");
    assert_eq!(c, "f_______T_-__________w");
    // the two modes differ only in the stamp on byte 0, which only the
    // leading character encodes
    assert_eq!(a[1..], c[1..]);
}

#[test]
fn fixed_source_repeats_bytes() {
    // a short preset is handed out cyclically
    let source = FixedBytesSource::new(vec![0u8]);
    assert_eq!(v4_rng(&source).unwrap(), "AAAAAAAAQACAAAAAAAAAAA");
}

#[test]
fn failure_is_surfaced() {
    assert!(v4_rng(&FailingSource).is_err());
    assert!(nice_rng(&FailingSource).is_err());
    // a fixed source with no preset bytes also reports failure
    let empty = FixedBytesSource::new(Vec::new());
    assert!(v4_rng(&empty).is_err());
    assert!(nice_rng(&empty).is_err());
}

#[test]
fn length_and_alphabet() {
    for _ in 0..100 {
        let s = v4().unwrap();
        assert_eq!(s.len(), 22);
        assert!(s.chars().all(|c| CHARS_ALL.contains(c)));
        let s = nice().unwrap();
        assert_eq!(s.len(), 22);
        assert!(s.chars().all(|c| CHARS_ALL.contains(c)));
    }
}

#[test]
fn fixed_positions_every_sample() {
    for _ in 0..200 {
        let s = v4().unwrap();
        let b = s.as_bytes();
        assert!(CHARS_D.as_bytes().contains(&b[8]));
        assert!(CHARS_E.as_bytes().contains(&b[10]));
        assert!(CHARS_F.as_bytes().contains(&b[21]));
    }
}

#[test]
fn nice_leading_char_every_sample() {
    for _ in 0..200 {
        let s = nice().unwrap();
        let b = s.as_bytes();
        let c = b[0];
        assert!(CHARS_C.as_bytes().contains(&c));
        assert!(c != b'-' && c != b'_' && !c.is_ascii_digit());
        assert!(!(b'g'..=b'z').contains(&c));
        // the random-mode constraints hold identically
        assert!(CHARS_D.as_bytes().contains(&b[8]));
        assert!(CHARS_E.as_bytes().contains(&b[10]));
        assert!(CHARS_F.as_bytes().contains(&b[21]));
    }
}

#[test]
fn system_source_varies() {
    // 122 bits of entropy: two equal draws mean the source or the stamps
    // are broken
    let a = v4().unwrap();
    let b = v4().unwrap();
    assert_ne!(a, b);
}
