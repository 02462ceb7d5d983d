use crate::decimal::{
    at_most, format_u128, lemma_parse_unsigned_decimal_text, parse_unsigned, parse_unsigned_up_to,
};
use crate::error::ParseError;
use crate::partitioner::{Partitioner, Token};
use core::cmp::Ordering;
use vstd::prelude::*;

verus! {

/// The MD5 digest of `data`.
pub uninterp spec fn md5_digest(data: Seq<u8>) -> Seq<u8>;

/// Calls `md5::compute` on `key` and hands out the sixteen bytes of the
/// digest that it returns. The digest is taken to depend on the bytes of
/// `key` alone: it is `md5_digest` of them, of which nothing more is claimed.
#[verifier::external_body]
fn md5_of(key: &[u8]) -> (digest: [u8; 16])
    ensures
        digest@ == md5_digest(key@),
{
    md5::compute(key).0
}

/// The first position above the domain: two to the power 127.
pub open spec fn domain_end() -> int {
    0x8000_0000_0000_0000_0000_0000_0000_0000
}

/// The number that `bytes` spell in base 256, the first byte weighing most.
pub open spec fn be_value(bytes: Seq<u8>) -> nat
    decreases bytes.len(),
{
    if bytes.len() == 0 {
        0
    } else {
        be_value(bytes.drop_last()) * 256 + bytes.last() as nat
    }
}

/// The integer that a 128-bit pattern stands for in two's complement.
pub open spec fn signed_of(pattern: nat) -> int {
    if pattern >= domain_end() {
        pattern - 2 * domain_end()
    } else {
        pattern as int
    }
}

/// The distance of `v` from zero.
pub open spec fn magnitude(v: int) -> int {
    if v < 0 {
        -v
    } else {
        v
    }
}

/// The ring position that a digest of sixteen bytes stands for: the
/// magnitude of the signed big-endian integer that they spell, and zero
/// where that magnitude is the one value past the domain.
pub open spec fn random_position(digest: Seq<u8>) -> int {
    let m = magnitude(signed_of(be_value(digest)));
    if m == domain_end() {
        0
    } else {
        m
    }
}

/// What a text stands for as a token of this family: the unsigned decimal
/// integer that it holds, where that lies below two to the power 127.
pub open spec fn random_parsed(text: Seq<char>) -> Option<int> {
    match at_most(parse_unsigned(text), (domain_end() - 1) as nat) {
        Some(n) => Some(n as int),
        None => None,
    }
}

/// 256 to the power `n`.
pub open spec fn pow256(n: nat) -> nat
    decreases n,
{
    if n == 0 {
        1
    } else {
        256 * pow256((n - 1) as nat)
    }
}

proof fn lemma_pow256_grows(a: nat, b: nat)
    requires
        a <= b,
    ensures
        pow256(a) <= pow256(b),
    decreases b,
{
    if a < b {
        lemma_pow256_grows(a, (b - 1) as nat);
    }
}

/// The bytes of a run spell a number below 256 to the power of its length.
pub proof fn lemma_be_value_bound(bytes: Seq<u8>)
    ensures
        be_value(bytes) < pow256(bytes.len()),
    decreases bytes.len(),
{
    if bytes.len() > 0 {
        lemma_be_value_bound(bytes.drop_last());
    }
}

proof fn lemma_pow256_sixteen()
    ensures
        pow256(16) == 2 * domain_end(),
{
    reveal_with_fuel(pow256, 17);
}

/// A digest of sixteen bytes stands for a position of the domain.
pub proof fn lemma_random_position_in_domain(digest: Seq<u8>)
    requires
        digest.len() == 16,
    ensures
        0 <= random_position(digest) < domain_end(),
{
    lemma_be_value_bound(digest);
    lemma_pow256_sixteen();
}

fn read_be(digest: &[u8; 16]) -> (v: u128)
    ensures
        v == be_value(digest@),
{
    let mut v: u128 = 0;
    let mut i: usize = 0;
    while i < 16
        invariant
            i <= 16,
            v == be_value(digest@.take(i as int)),
        decreases 16 - i,
    {
        proof {
            let before = digest@.take(i as int);
            let after = digest@.take(i + 1);
            assert(after.drop_last() =~= before);
            lemma_be_value_bound(before);
            lemma_pow256_grows((i + 1) as nat, 16);
            lemma_pow256_sixteen();
        }
        v = v * 256 + digest[i] as u128;
        i += 1;
    }
    proof {
        assert(digest@.take(16) =~= digest@);
    }
    v
}

/// A token returned by the [`RandomPartitioner`]: a position from zero up
/// to, and not including, two to the power 127.
#[derive(Debug, Clone, Copy, PartialEq, Eq, Structural)]
pub struct RandomToken {
    inner: i128,
}

impl RandomToken {
    #[verifier::type_invariant]
    spec fn in_range(self) -> bool {
        0 <= self.inner
    }

    /// The token that an MD5 digest stands for.
    pub fn from_digest(digest: [u8; 16]) -> (t: Self)
        ensures
            t.value() == random_position(digest@),
            0 <= t.value() < domain_end(),
    {
        proof {
            lemma_random_position_in_domain(digest@);
        }
        let pattern: u128 = read_be(&digest);
        let end: u128 = 0x8000_0000_0000_0000_0000_0000_0000_0000;
        if pattern < end {
            RandomToken { inner: pattern as i128 }
        } else if pattern == end {
            RandomToken { inner: 0 }
        } else {
            RandomToken { inner: ((u128::MAX - pattern) + 1) as i128 }
        }
    }

    /// The position of this token.
    pub fn inner(&self) -> (v: i128)
        ensures
            v == self.value(),
            0 <= v < domain_end(),
    {
        proof {
            use_type_invariant(self);
        }
        self.inner
    }

    /// Reads a token from its decimal text.
    pub fn from_str(s: &str) -> (r: Result<Self, ParseError>)
        ensures
            match random_parsed(s@) {
                Some(v) => r is Ok && r->Ok_0.value() == v,
                None => r is Err && r->Err_0.text@ == s@,
            },
    {
        match parse_unsigned_up_to(s, 0x7fff_ffff_ffff_ffff_ffff_ffff_ffff_ffff) {
            Some(n) => Ok(RandomToken { inner: n as i128 }),
            None => Err(ParseError { text: s.to_owned() }),
        }
    }
}

impl Token for RandomToken {
    closed spec fn value(&self) -> int {
        self.inner as int
    }

    fn compare(&self, other: &Self) -> (o: Ordering) {
        if self.inner < other.inner {
            Ordering::Less
        } else if self.inner == other.inner {
            Ordering::Equal
        } else {
            Ordering::Greater
        }
    }

    fn to_string(&self) -> (s: String) {
        let v: i128 = self.inner();
        format_u128(v as u128)
    }

    proof fn lemma_value_determines(a: Self, b: Self) {
    }
}

/// The strategy that places a key by its MD5 digest.
pub struct RandomPartitioner {}

/// The class name of [`RandomPartitioner`], spelled out.
pub proof fn lemma_class_name()
    ensures
        RandomPartitioner::CLASS_NAME@ == "RandomPartitioner"@,
{
}

impl Partitioner for RandomPartitioner {
    const CLASS_NAME: &'static str = "RandomPartitioner";

    type Token = RandomToken;

    type ParseErr = ParseError;

    open spec fn in_domain(v: int) -> bool {
        0 <= v < domain_end()
    }

    open spec fn token_of(key: Seq<u8>) -> int {
        random_position(md5_digest(key))
    }

    open spec fn parsed(text: Seq<char>) -> Option<int> {
        random_parsed(text)
    }

    fn hash(key: &[u8]) -> (t: Self::Token) {
        RandomToken::from_digest(md5_of(key))
    }

    fn parse_token(token: &str) -> (r: Result<Self::Token, Self::ParseErr>)
        ensures
            r is Err ==> r->Err_0.text@ == token@,
    {
        RandomToken::from_str(token)
    }

    proof fn lemma_parsed_in_domain(text: Seq<char>) {
    }

    proof fn lemma_text_round_trip(v: int) {
        lemma_parse_unsigned_decimal_text(v as nat);
    }
}

} // verus!
