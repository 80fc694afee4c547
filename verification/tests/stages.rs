use safehash::compress::{compress, HashState};
use safehash::digest::{finish, safe_hash};
use safehash::hex::{hex_char, to_hex};
use safehash::rol;
use safehash::schedule::expand;
use safehash::scratch::Scratch;
use safehash::text::hash_normalized;
use safehash::{calculate_hash, get_hash_string};
use std::io::ErrorKind;

#[test]
fn rol_rotates_left() {
    assert_eq!(rol(1, 0), 1);
    assert_eq!(rol(1, 1), 2);
    assert_eq!(rol(1, 31), 0x8000_0000);
    assert_eq!(rol(0x8000_0000, 1), 1);
    assert_eq!(rol(0x1234_5678, 8), 0x3456_7812);
    assert_eq!(rol(0x1234_5678, 0), 0x1234_5678);
    assert_eq!(rol(0xEFCD_AB89, 30), 0x7BF3_6AE2);
}

#[test]
fn rol_takes_the_shift_modulo_32() {
    assert_eq!(rol(1, 32), 1);
    assert_eq!(rol(1, 33), 2);
    assert_eq!(rol(0x1234_5678, 40), 0x3456_7812);
    assert_eq!(rol(0xDEAD_BEEF, u32::MAX), rol(0xDEAD_BEEF, 31));
}

#[test]
fn buffer_is_the_input_then_zeros() {
    let buf = Scratch::load(b"12345");
    let bytes = buf.as_bytes();
    assert_eq!(bytes.len(), 1024);
    assert_eq!(&bytes[..5], b"12345");
    assert!(bytes[5..].iter().all(|b| *b == 0));

    let empty = Scratch::load(b"");
    assert!(empty.as_bytes().iter().all(|b| *b == 0));

    let full = Scratch::load(&[7u8; 1024]);
    assert!(full.as_bytes().iter().all(|b| *b == 7));
}

#[test]
fn words_are_little_endian() {
    let mut buf = Scratch::load(&[1, 2, 3, 4, 5]);
    assert_eq!(buf.word(0), 0x0403_0201);
    assert_eq!(buf.word(1), 0x0000_0005);
    assert_eq!(buf.word(255), 0);

    buf.set_word(2, 0xAABB_CCDD);
    assert_eq!(&buf.as_bytes()[8..12], &[0xDD, 0xCC, 0xBB, 0xAA]);
    assert_eq!(buf.word(2), 0xAABB_CCDD);
    assert_eq!(buf.word(0), 0x0403_0201);
    assert_eq!(buf.word(1), 5);
    assert_eq!(buf.word(3), 0);

    buf.set_word(255, 0x0102_0304);
    assert_eq!(&buf.as_bytes()[1020..], &[4, 3, 2, 1]);
}

#[test]
fn expansion_rotates_one_by_the_mixed_words() {
    let mut buf = Scratch::load(b"12345");
    expand(&mut buf);
    assert_eq!(buf.word(0), 0x3433_3231);
    assert_eq!(buf.word(1), 0x35);
    assert_eq!(buf.word(16), 0x0002_0000);
    assert_eq!(buf.word(17), 0x0020_0000);
    assert_eq!(buf.word(18), 1);
    assert_eq!(buf.word(19), 1);
    assert_eq!(buf.word(20), 1);
    assert_eq!(buf.word(79), 8);
    assert_eq!(buf.word(80), 0);

    let seed: Vec<u8> = (1..=64).collect();
    let mut buf = Scratch::load(&seed);
    expand(&mut buf);
    assert_eq!(buf.word(16), 0x1000_0000);
    assert_eq!(buf.word(17), 0x0010_0000);
    assert_eq!(buf.word(18), 0x0000_1000);
    assert_eq!(buf.word(19), 0x0020_0000);
    assert_eq!(buf.word(20), 0x0200_0000);
    assert_eq!(buf.word(79), 0x200);
}

#[test]
fn expansion_overwrites_input_past_the_seed() {
    let mut buf = Scratch::load(&[0xEE; 1024]);
    expand(&mut buf);
    let bytes = buf.as_bytes();
    assert!(bytes[..64].iter().all(|b| *b == 0xEE));
    assert!(bytes[320..].iter().all(|b| *b == 0xEE));
    for t in 16..80 {
        assert_eq!(buf.word(t).count_ones(), 1);
    }
}

#[test]
fn one_round_of_each_phase() {
    let start = HashState::initial();
    assert_eq!(
        start,
        HashState {
            a: 0x67452301,
            b: 0xEFCDAB89,
            c: 0x98BADCFE,
            d: 0x10325476,
            e: 0xC3D2E1F0
        }
    );
    assert_eq!(
        start.step(0, 0),
        HashState {
            a: 0x9FB498B3,
            b: 0x67452301,
            c: 0x7BF36AE2,
            d: 0x98BADCFE,
            e: 0x10325476
        }
    );
    let small = HashState { a: 1, b: 2, c: 3, d: 4, e: 5 };
    assert_eq!(
        small.step(20, 6),
        HashState { a: 0x6ED9EBD1, b: 1, c: 0x8000_0000, d: 3, e: 4 }
    );
    assert_eq!(
        small.step(40, 6),
        HashState { a: 0x8F1BBD09, b: 1, c: 0x8000_0000, d: 3, e: 4 }
    );
    let large = HashState {
        a: 0xFFFF_FFFF,
        b: 0xFFFF_FFFE,
        c: 3,
        d: 4,
        e: 0xFFFF_FFF0,
    };
    assert_eq!(
        large.step(60, 0x8000_0000),
        HashState {
            a: 0x4A62C1BE,
            b: 0xFFFF_FFFF,
            c: 0xBFFF_FFFF,
            d: 3,
            e: 4
        }
    );
}

#[test]
fn finish_adds_the_initial_words_big_endian() {
    let zero = HashState { a: 0, b: 0, c: 0, d: 0, e: 0 };
    assert_eq!(
        finish(zero),
        vec![
            0x67, 0x45, 0x23, 0x01, 0xEF, 0xCD, 0xAB, 0x89, 0x98, 0xBA, 0xDC, 0xFE, 0x10, 0x32,
            0x54, 0x76, 0xC3, 0xD2, 0xE1, 0xF0
        ]
    );
    let wraps = HashState {
        a: 0xFFFF_FFFF,
        b: 0x1032_5477,
        c: 1,
        d: 0,
        e: 0x3C2D_1E10,
    };
    assert_eq!(
        finish(wraps),
        vec![
            0x67, 0x45, 0x23, 0x00, 0x00, 0x00, 0x00, 0x00, 0x98, 0xBA, 0xDC, 0xFF, 0x10, 0x32,
            0x54, 0x76, 0x00, 0x00, 0x00, 0x00
        ]
    );
}

#[test]
fn stages_compose_to_the_digest() {
    let mut buf = Scratch::load(b"12345");
    expand(&mut buf);
    let by_stages = finish(compress(&buf));
    assert_eq!(by_stages, safe_hash(b"12345"));
    assert_eq!(to_hex(&by_stages), "460e0af6c1828a93fe887cbe103d6ca6ab97a0e4");
}

#[test]
fn safe_hash_reads_the_first_64_bytes_only() {
    let mut long = vec![b'a'; 64];
    let base = safe_hash(&long);
    long.extend_from_slice(&[0x80; 960]);
    assert_eq!(safe_hash(&long), base);
    long[63] = b'b';
    assert_ne!(safe_hash(&long), base);

    let mut zero_filled = b"abc".to_vec();
    zero_filled.resize(64, 0);
    assert_eq!(safe_hash(&zero_filled), safe_hash(b"abc"));
    zero_filled.push(1);
    assert_eq!(safe_hash(&zero_filled), safe_hash(b"abc"));
    zero_filled[63] = 1;
    assert_ne!(safe_hash(&zero_filled), safe_hash(b"abc"));
}

#[test]
fn hex_digits_are_lowercase() {
    assert_eq!(hex_char(0), '0');
    assert_eq!(hex_char(9), '9');
    assert_eq!(hex_char(10), 'a');
    assert_eq!(hex_char(15), 'f');
    assert_eq!(to_hex(&[]), "");
    assert_eq!(to_hex(&[0x00, 0x0f, 0xa5, 0xff, 0x10]), "000fa5ff10");
}

#[test]
fn normalized_bytes_are_hashed_as_they_are() {
    assert_eq!(
        to_hex(&hash_normalized(b"abc").unwrap()),
        "7bf57a7acc1be999f975dce65522fe81ab78c8d6"
    );
    assert_eq!(
        to_hex(&hash_normalized(b"ABC").unwrap()),
        "e1685d5a33e462c8e6c0bb2166f3d47d132797b5"
    );
    assert_eq!(hash_normalized(b"").unwrap_err(), ErrorKind::InvalidData);
    assert_eq!(
        hash_normalized(&[b'a'; 1025]).unwrap_err(),
        ErrorKind::InvalidData
    );
    assert!(hash_normalized(&[b'a'; 1024]).is_ok());
    assert!(hash_normalized(&[0xff]).is_ok());
}

#[test]
fn calculate_hash_lowercases_first() {
    assert_eq!(
        calculate_hash("ABC").unwrap(),
        hash_normalized(b"abc").unwrap()
    );
    assert_eq!(
        to_hex(&calculate_hash("AbC").unwrap()),
        "7bf57a7acc1be999f975dce65522fe81ab78c8d6"
    );
    assert_eq!(
        get_hash_string("aBc").unwrap(),
        "7bf57a7acc1be999f975dce65522fe81ab78c8d6"
    );
    assert_eq!(calculate_hash("").unwrap_err(), ErrorKind::InvalidData);
}
