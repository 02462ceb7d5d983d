use partitioner::murmur3::hash128;
use partitioner::{Murmur3Partitioner, Murmur3Token, Partitioner, Token};
use std::cmp::Ordering;

fn token(key: &[u8]) -> i64 {
    Murmur3Partitioner::hash(key).inner()
}

#[test]
fn murmur3_class_name() {
    assert_eq!(Murmur3Partitioner::CLASS_NAME, "Murmur3Partitioner");
}

#[test]
fn murmur3_hash_of_empty_key() {
    assert_eq!(hash128(b""), (0, 0));
    assert_eq!(token(b""), 0);
}

#[test]
fn murmur3_hash_below_one_block() {
    assert_eq!(token(b"0123456789abcde"), -6472281833689111727);
    assert_eq!(hash128(b"0123456789abcde"), (0xa62dd5f6c0bf2351, 0x4fccf50c7c544cf0));
}

#[test]
fn murmur3_hash_of_one_block() {
    assert_eq!(token(b"0123456789abcdef"), 5467490433528156583);
    assert_eq!(hash128(b"0123456789abcdef"), (0x4be06d94cf4ad1a7, 0x87c35b5c63a708da));
}

#[test]
fn murmur3_hash_of_blocks_and_tail() {
    assert_eq!(token(b"0123456789abcdef0123456789abcdef0"), 3317058610332103995);
    assert_eq!(
        hash128(b"0123456789abcdef0123456789abcdef0"),
        (0x2e088f3b47fef53b, 0x1e388e32f1e800cf)
    );
}

#[test]
fn murmur3_hash_of_known_texts() {
    assert_eq!(hash128(b"hello"), (0xcbd8a7b341bd9b02, 0x5b1e906a48ae1d19));
    assert_eq!(
        hash128(b"The quick brown fox jumps over the lazy dog"),
        (0xe34bbc7bbc071b6c, 0x7a433ca9c49a9347)
    );
    assert_eq!(token(b"hello"), -3758069500696749310);
    assert_eq!(token(b"The quick brown fox jumps over the lazy dog"), -2068352364225029268);
    assert_eq!(token(b"a"), -8839064797231613815);
}

#[test]
fn murmur3_hash_of_short_keys() {
    assert_eq!(token(b"test"), -6017608668500074083);
    assert_eq!(token(b"xd"), 4507812186440344727);
    assert_eq!(token(b"primary_key"), -1632642444691073360);
    assert_eq!(token(b"123"), -7468325962851647638);
}

#[test]
fn murmur3_hash_reads_tail_bytes_unsigned() {
    assert_eq!(token("kremówki".as_bytes()), 5170069825885792609);
    assert_eq!(token(&[0xff; 15]), 3214754608959450708);
    assert_eq!(token(&[0x80, 0x81, 0xfe]), 7051179990323021222);
}

#[test]
fn murmur3_hash_of_every_byte_value() {
    let key: Vec<u8> = (0..=255u8).collect();
    assert_eq!(hash128(&key), (2060892794568774329, 8130694422178614302));
    let high: Vec<u8> = (200..247u8).collect();
    assert_eq!(token(&high), -8564401805286166017);
}

#[test]
fn murmur3_hash_is_deterministic() {
    let keys: [&[u8]; 4] = [b"", b"a", b"0123456789abcdef", b"0123456789abcdef0123456789abcdef0"];
    for key in keys {
        assert_eq!(Murmur3Partitioner::hash(key), Murmur3Partitioner::hash(key));
    }
}

#[test]
fn murmur3_hash_is_never_the_minimum() {
    for n in 0..2000u32 {
        let key = n.to_le_bytes();
        assert_ne!(token(&key), i64::MIN);
    }
}

#[test]
fn murmur3_parse_accepts_the_whole_domain() {
    let least = Murmur3Partitioner::parse_token("-9223372036854775808").unwrap();
    assert_eq!(least.inner(), i64::MIN);
    let most = Murmur3Partitioner::parse_token("9223372036854775807").unwrap();
    assert_eq!(most.inner(), i64::MAX);
    assert_eq!(Murmur3Partitioner::parse_token("0").unwrap().inner(), 0);
    assert_eq!(Murmur3Partitioner::parse_token("-1").unwrap().inner(), -1);
    assert_eq!(Murmur3Partitioner::parse_token("42").unwrap().inner(), 42);
}

#[test]
fn murmur3_parse_accepts_sign_and_leading_zeros() {
    assert_eq!(Murmur3Partitioner::parse_token("+17").unwrap().inner(), 17);
    assert_eq!(Murmur3Partitioner::parse_token("007").unwrap().inner(), 7);
    assert_eq!(Murmur3Partitioner::parse_token("-0").unwrap().inner(), 0);
    assert_eq!(
        Murmur3Partitioner::parse_token("-0000000000000000000009223372036854775808").unwrap().inner(),
        i64::MIN
    );
}

#[test]
fn murmur3_parse_rejects_what_is_no_number() {
    for text in ["abc", "", "-", "+", " 5", "5 ", "5x", "x5", "1.0", "--5", "+-5", "1_000", "١٢٣", "5\n"] {
        let e = Murmur3Partitioner::parse_token(text).unwrap_err();
        assert_eq!(e.text, text);
    }
}

#[test]
fn murmur3_parse_rejects_what_is_out_of_range() {
    for text in [
        "9223372036854775808",
        "-9223372036854775809",
        "170141183460469231731687303715884105727",
        "99999999999999999999999999999999999999999999999999999999999999",
        "-99999999999999999999999999999999999999999999999999999999999999",
    ] {
        let e = Murmur3Partitioner::parse_token(text).unwrap_err();
        assert_eq!(e.text, text);
    }
}

#[test]
fn murmur3_from_str_is_parse_token() {
    assert_eq!(Murmur3Token::from_str("-12"), Murmur3Partitioner::parse_token("-12"));
    assert_eq!(Murmur3Token::from_str("12x"), Murmur3Partitioner::parse_token("12x"));
    assert_eq!(Murmur3Token::from_str("-12").unwrap(), Murmur3Token::new(-12));
}

#[test]
fn murmur3_token_text() {
    assert_eq!(Murmur3Token::new(0).to_string(), "0");
    assert_eq!(Murmur3Token::new(7).to_string(), "7");
    assert_eq!(Murmur3Token::new(-7).to_string(), "-7");
    assert_eq!(Murmur3Token::new(10).to_string(), "10");
    assert_eq!(Murmur3Token::new(1000).to_string(), "1000");
    assert_eq!(Murmur3Token::new(i64::MAX).to_string(), "9223372036854775807");
    assert_eq!(Murmur3Token::new(i64::MIN).to_string(), "-9223372036854775808");
    assert_eq!(Murmur3Partitioner::hash(b"test").to_string(), "-6017608668500074083");
}

#[test]
fn murmur3_text_round_trip() {
    let mut tokens = vec![
        Murmur3Token::new(i64::MIN),
        Murmur3Token::new(i64::MIN + 1),
        Murmur3Token::new(-1),
        Murmur3Token::new(0),
        Murmur3Token::new(1),
        Murmur3Token::new(i64::MAX),
    ];
    for n in 0..200u32 {
        tokens.push(Murmur3Partitioner::hash(&n.to_be_bytes()));
    }
    for t in tokens {
        assert_eq!(Murmur3Partitioner::parse_token(&t.to_string()), Ok(t));
    }
}

#[test]
fn murmur3_tokens_are_ordered_as_integers() {
    let a = Murmur3Token::new(-5);
    let b = Murmur3Token::new(0);
    let c = Murmur3Token::new(9);
    assert_eq!(a.compare(&b), Ordering::Less);
    assert_eq!(b.compare(&c), Ordering::Less);
    assert_eq!(a.compare(&c), Ordering::Less);
    assert_eq!(c.compare(&a), Ordering::Greater);
    assert_eq!(b.compare(&b), Ordering::Equal);
    assert_eq!(Murmur3Token::new(i64::MIN).compare(&Murmur3Token::new(i64::MAX)), Ordering::Less);
    assert_eq!(Murmur3Token::new(i64::MAX).compare(&Murmur3Token::new(i64::MIN)), Ordering::Greater);
}

#[test]
fn murmur3_order_agrees_with_integer_order() {
    let values = [i64::MIN, -3, -1, 0, 1, 2, 1 << 40, i64::MAX];
    for x in values {
        for y in values {
            assert_eq!(Murmur3Token::new(x).compare(&Murmur3Token::new(y)), x.cmp(&y));
        }
    }
}
