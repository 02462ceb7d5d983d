use crate::decimal::{
    decimal_text, format_i64, lemma_parse_signed_decimal_text, parse_i64, parse_signed, within,
};
use crate::error::ParseError;
use crate::partitioner::{Partitioner, Token};
use core::cmp::Ordering;
use vstd::prelude::*;

verus! {

/// First multiplier of the block mix.
pub const C1: u64 = 0x87c3_7b91_1142_53d5;

/// Second multiplier of the block mix.
pub const C2: u64 = 0x4cf5_ad43_2745_937f;

/// `x` rotated left by `r` bits, for `0 < r < 64`.
pub open spec fn rotl(x: u64, r: u32) -> u64 {
    (x << r) | (x >> ((64 - r) as u32))
}

/// The mix that a word of the first lane goes through before it is folded in.
pub open spec fn mix_k1(k: u64) -> u64 {
    rotl(k.wrapping_mul(C1), 31).wrapping_mul(C2)
}

/// The mix that a word of the second lane goes through before it is folded in.
pub open spec fn mix_k2(k: u64) -> u64 {
    rotl(k.wrapping_mul(C2), 33).wrapping_mul(C1)
}

/// The avalanche mix that ends the hash.
pub open spec fn fmix64(k: u64) -> u64 {
    let a = (k ^ (k >> 33u32)).wrapping_mul(0xff51_afd7_ed55_8ccd);
    let b = (a ^ (a >> 33u32)).wrapping_mul(0xc4ce_b9fe_1a85_ec53);
    b ^ (b >> 33u32)
}

/// The little-endian word made of the `n` bytes of `bytes` from `start` on:
/// byte `start + i` stands at bits `8 * i` to `8 * i + 7`.
pub open spec fn le_word(bytes: Seq<u8>, start: int, n: nat) -> u64
    decreases n,
{
    if n == 0 {
        0
    } else {
        le_word(bytes, start, (n - 1) as nat) | ((bytes[start + n - 1] as u64) << ((8 * (n - 1)) as u32))
    }
}

/// Both lanes after one sixteen-byte block, given as its two words, has been
/// folded in.
pub open spec fn fold_block(h: (u64, u64), k1: u64, k2: u64) -> (u64, u64) {
    let h1 = rotl(h.0 ^ mix_k1(k1), 27).wrapping_add(h.1).wrapping_mul(5).wrapping_add(0x52dc_e729);
    let h2 = rotl(h.1 ^ mix_k2(k2), 31).wrapping_add(h1).wrapping_mul(5).wrapping_add(0x3849_5ab5);
    (h1, h2)
}

/// Both lanes after the first `n` whole blocks of `key`, from seed 0.
pub open spec fn after_blocks(key: Seq<u8>, n: nat) -> (u64, u64)
    decreases n,
{
    if n == 0 {
        (0, 0)
    } else {
        fold_block(
            after_blocks(key, (n - 1) as nat),
            le_word(key, 16 * (n - 1), 8),
            le_word(key, 16 * (n - 1) + 8, 8),
        )
    }
}

/// Both lanes after the bytes that follow the last whole block are folded in:
/// the first eight of them into the first lane, the rest into the second.
pub open spec fn fold_tail(h: (u64, u64), key: Seq<u8>) -> (u64, u64) {
    let rem = key.len() % 16;
    let start = key.len() - rem;
    let h2 = if rem > 8 {
        h.1 ^ mix_k2(le_word(key, start + 8, (rem - 8) as nat))
    } else {
        h.1
    };
    let h1 = if rem > 8 {
        h.0 ^ mix_k1(le_word(key, start, 8))
    } else if rem > 0 {
        h.0 ^ mix_k1(le_word(key, start, rem as nat))
    } else {
        h.0
    };
    (h1, h2)
}

/// The finalization: the length is folded into both lanes, the lanes are
/// added into each other, each goes through the avalanche, and they are added
/// into each other once more.
pub open spec fn finalize(h: (u64, u64), len: u64) -> (u64, u64) {
    let a = h.0 ^ len;
    let b = h.1 ^ len;
    let a = a.wrapping_add(b);
    let b = b.wrapping_add(a);
    let a = fmix64(a);
    let b = fmix64(b);
    let a = a.wrapping_add(b);
    let b = b.wrapping_add(a);
    (a, b)
}

/// The 128-bit Murmur3 hash (x64 variant, seed 0) of `key`, as its two lanes.
pub open spec fn murmur3_x64_128(key: Seq<u8>) -> (u64, u64) {
    finalize(fold_tail(after_blocks(key, key.len() / 16), key), key.len() as u64)
}

/// The integer that a 64-bit pattern stands for in two's complement.
pub open spec fn signed_of(w: u64) -> int {
    if w >= 0x8000_0000_0000_0000 {
        w - 0x1_0000_0000_0000_0000
    } else {
        w as int
    }
}

/// A raw hash value with the smallest one, which is kept for ranges that wrap
/// round the whole ring, replaced by its successor.
pub open spec fn avoid_minimum(v: int) -> int {
    if v == i64::MIN {
        v + 1
    } else {
        v
    }
}

/// The ring position of `key`: the first lane of its hash, read as a signed
/// integer, and never the smallest one.
pub open spec fn murmur3_token(key: Seq<u8>) -> int {
    avoid_minimum(signed_of(murmur3_x64_128(key).0))
}

fn rotate_left(x: u64, r: u32) -> (y: u64)
    requires
        0 < r < 64,
    ensures
        y == rotl(x, r),
{
    (x << r) | (x >> (64 - r))
}

fn scramble_k1(k: u64) -> (m: u64)
    ensures
        m == mix_k1(k),
{
    rotate_left(k.wrapping_mul(C1), 31).wrapping_mul(C2)
}

fn scramble_k2(k: u64) -> (m: u64)
    ensures
        m == mix_k2(k),
{
    rotate_left(k.wrapping_mul(C2), 33).wrapping_mul(C1)
}

fn avalanche(k: u64) -> (m: u64)
    ensures
        m == fmix64(k),
{
    let a: u64 = (k ^ (k >> 33u32)).wrapping_mul(0xff51_afd7_ed55_8ccd);
    let b: u64 = (a ^ (a >> 33u32)).wrapping_mul(0xc4ce_b9fe_1a85_ec53);
    b ^ (b >> 33u32)
}

fn read_le(key: &[u8], start: usize, n: usize) -> (w: u64)
    requires
        n <= 8,
        start + n <= key@.len(),
    ensures
        w == le_word(key@, start as int, n as nat),
{
    let len: usize = key.len();
    let mut w: u64 = 0;
    let mut i: usize = 0;
    while i < n
        invariant
            i <= n <= 8,
            start + n <= len,
            len == key@.len(),
            w == le_word(key@, start as int, i as nat),
        decreases n - i,
    {
        let shift: u32 = (8 * i) as u32;
        w = w | ((key[start + i] as u64) << shift);
        i += 1;
    }
    w
}

fn mix_block(h1: u64, h2: u64, k1: u64, k2: u64) -> (h: (u64, u64))
    ensures
        h == fold_block((h1, h2), k1, k2),
{
    let a: u64 = rotate_left(h1 ^ scramble_k1(k1), 27).wrapping_add(h2).wrapping_mul(5).wrapping_add(
        0x52dc_e729,
    );
    let b: u64 = rotate_left(h2 ^ scramble_k2(k2), 31).wrapping_add(a).wrapping_mul(5).wrapping_add(
        0x3849_5ab5,
    );
    (a, b)
}

fn mix_tail(h1: u64, h2: u64, key: &[u8]) -> (h: (u64, u64))
    ensures
        h == fold_tail((h1, h2), key@),
{
    let len: usize = key.len();
    let rem: usize = len % 16;
    let start: usize = len - rem;
    if rem > 8 {
        let b: u64 = h2 ^ scramble_k2(read_le(key, start + 8, rem - 8));
        let a: u64 = h1 ^ scramble_k1(read_le(key, start, 8));
        (a, b)
    } else if rem > 0 {
        (h1 ^ scramble_k1(read_le(key, start, rem)), h2)
    } else {
        (h1, h2)
    }
}

fn finish(h1: u64, h2: u64, len: u64) -> (h: (u64, u64))
    ensures
        h == finalize((h1, h2), len),
{
    let a: u64 = h1 ^ len;
    let b: u64 = h2 ^ len;
    let a: u64 = a.wrapping_add(b);
    let b: u64 = b.wrapping_add(a);
    let a: u64 = avalanche(a);
    let b: u64 = avalanche(b);
    let a: u64 = a.wrapping_add(b);
    let b: u64 = b.wrapping_add(a);
    (a, b)
}

/// The 128-bit Murmur3 hash (x64 variant, seed 0) of `key`.
pub fn hash128(key: &[u8]) -> (h: (u64, u64))
    ensures
        h == murmur3_x64_128(key@),
{
    let len: usize = key.len();
    let blocks: usize = len / 16;
    let mut h1: u64 = 0;
    let mut h2: u64 = 0;
    let mut i: usize = 0;
    while i < blocks
        invariant
            i <= blocks,
            len == key@.len(),
            blocks == len / 16,
            (h1, h2) == after_blocks(key@, i as nat),
        decreases blocks - i,
    {
        let k1: u64 = read_le(key, 16 * i, 8);
        let k2: u64 = read_le(key, 16 * i + 8, 8);
        let h = mix_block(h1, h2, k1, k2);
        h1 = h.0;
        h2 = h.1;
        i += 1;
    }
    let t = mix_tail(h1, h2, key);
    finish(t.0, t.1, len as u64)
}

fn to_signed(w: u64) -> (v: i64)
    ensures
        v == signed_of(w),
{
    if w >= 0x8000_0000_0000_0000 {
        ((w - 0x8000_0000_0000_0000) as i64) + i64::MIN
    } else {
        w as i64
    }
}

/// What a text stands for as a token of this family: the signed decimal
/// integer that it holds, where that fits 64 bits.
pub open spec fn murmur3_parsed(text: Seq<char>) -> Option<int> {
    within(parse_signed(text), i64::MIN as int, i64::MAX as int)
}

/// The smallest position, which no key hashes to, is still read from its
/// text: a range that the cluster reports may be bounded by it.
pub proof fn lemma_minimum_is_parsed()
    ensures
        murmur3_parsed(decimal_text(i64::MIN as int)) == Some(i64::MIN as int),
{
    lemma_parse_signed_decimal_text(i64::MIN as int);
}

/// No key hashes to the smallest position.
pub proof fn lemma_token_is_not_minimum(key: Seq<u8>)
    ensures
        i64::MIN < murmur3_token(key) <= i64::MAX,
{
}

/// A token returned by the [`Murmur3Partitioner`]: a signed 64-bit position.
#[derive(Debug, Clone, Copy, PartialEq, Eq, Structural)]
pub struct Murmur3Token {
    inner: i64,
}

impl Murmur3Token {
    /// The token at position `inner`. Every position is a token, also the
    /// smallest, which no key hashes to and which bounds a range in what the
    /// cluster reports.
    pub fn new(inner: i64) -> (t: Self)
        ensures
            t.value() == inner,
    {
        Murmur3Token { inner }
    }

    /// The position of this token.
    pub fn inner(&self) -> (v: i64)
        ensures
            v == self.value(),
    {
        self.inner
    }

    /// Reads a token from its decimal text.
    pub fn from_str(s: &str) -> (r: Result<Self, ParseError>)
        ensures
            match murmur3_parsed(s@) {
                Some(v) => r is Ok && r->Ok_0.value() == v,
                None => r is Err && r->Err_0.text@ == s@,
            },
    {
        match parse_i64(s) {
            Some(inner) => Ok(Murmur3Token { inner }),
            None => Err(ParseError { text: s.to_owned() }),
        }
    }
}

impl Token for Murmur3Token {
    closed spec fn value(&self) -> int {
        self.inner as int
    }

    fn compare(&self, other: &Self) -> (o: Ordering) {
        if self.inner < other.inner {
            Ordering::Less
        } else if self.inner == other.inner {
            Ordering::Equal
        } else {
            Ordering::Greater
        }
    }

    fn to_string(&self) -> (s: String) {
        format_i64(self.inner)
    }

    proof fn lemma_value_determines(a: Self, b: Self) {
    }
}

/// The strategy that places a key by the first lane of its Murmur3 hash.
pub struct Murmur3Partitioner {}

/// The class name of [`Murmur3Partitioner`], spelled out.
pub proof fn lemma_class_name()
    ensures
        Murmur3Partitioner::CLASS_NAME@ == "Murmur3Partitioner"@,
{
}

impl Partitioner for Murmur3Partitioner {
    const CLASS_NAME: &'static str = "Murmur3Partitioner";

    type Token = Murmur3Token;

    type ParseErr = ParseError;

    open spec fn in_domain(v: int) -> bool {
        i64::MIN <= v <= i64::MAX
    }

    open spec fn token_of(key: Seq<u8>) -> int {
        murmur3_token(key)
    }

    open spec fn parsed(text: Seq<char>) -> Option<int> {
        murmur3_parsed(text)
    }

    fn hash(partition_key: &[u8]) -> (t: Self::Token)
        ensures
            t.value() != i64::MIN,
    {
        let raw: i64 = to_signed(hash128(partition_key).0);
        if raw == i64::MIN {
            Murmur3Token { inner: raw + 1 }
        } else {
            Murmur3Token { inner: raw }
        }
    }

    fn parse_token(token: &str) -> (r: Result<Self::Token, Self::ParseErr>)
        ensures
            r is Err ==> r->Err_0.text@ == token@,
    {
        Murmur3Token::from_str(token)
    }

    proof fn lemma_parsed_in_domain(text: Seq<char>) {
    }

    proof fn lemma_text_round_trip(v: int) {
        lemma_parse_signed_decimal_text(v);
    }
}

} // verus!
