use crate::decimal::decimal_text;
use core::cmp::Ordering;
use vstd::prelude::*;

verus! {

/// How two ring positions stand to each other as integers.
pub open spec fn order_of(a: int, b: int) -> Ordering {
    if a < b {
        Ordering::Less
    } else if a == b {
        Ordering::Equal
    } else {
        Ordering::Greater
    }
}

/// A position on the ring of one partitioner family.
pub trait Token: Sized {
    /// The integer that this token stands for.
    spec fn value(&self) -> int;

    /// Orders two tokens as their integers are ordered.
    fn compare(&self, other: &Self) -> (o: Ordering)
        ensures
            o == order_of(self.value(), other.value()),
    ;

    /// The token in decimal, as the cluster writes it.
    fn to_string(&self) -> (s: String)
        ensures
            s@ == decimal_text(self.value()),
    ;

    /// A token is nothing but its integer: two tokens of one integer are one
    /// token.
    proof fn lemma_value_determines(a: Self, b: Self)
        requires
            a.value() == b.value(),
        ensures
            a == b,
    ;
}

/// A type that provides a partitioning algorithm.
pub trait Partitioner {
    /// The name under which the cluster reports this strategy, without its
    /// package:
    /// `org.apache.cassandra.dht.Murmur3Partitioner` -> `Murmur3Partitioner`,
    /// `org.apache.cassandra.dht.RandomPartitioner` -> `RandomPartitioner`.
    const CLASS_NAME: &'static str;

    /// The token returned by this partitioner.
    type Token: Token;

    /// What `parse_token` returns for a text that it does not accept.
    type ParseErr;

    /// The integers that are ring positions of this strategy.
    spec fn in_domain(v: int) -> bool;

    /// The ring position that this strategy gives to a routing key.
    spec fn token_of(key: Seq<u8>) -> int;

    /// The ring position that a text stands for, where it stands for one.
    spec fn parsed(text: Seq<char>) -> Option<int>;

    /// Generate a token for the routing key.
    fn hash(key: &[u8]) -> (t: Self::Token)
        ensures
            t.value() == Self::token_of(key@),
            Self::in_domain(t.value()),
    ;

    /// Parse a token as the cluster reports it.
    fn parse_token(token: &str) -> (r: Result<Self::Token, Self::ParseErr>)
        ensures
            match Self::parsed(token@) {
                Some(v) => r is Ok && r->Ok_0.value() == v,
                None => r is Err,
            },
    ;

    /// A text is accepted only for a position of the domain.
    proof fn lemma_parsed_in_domain(text: Seq<char>)
        requires
            Self::parsed(text) is Some,
        ensures
            Self::in_domain(Self::parsed(text)->Some_0),
    ;

    /// The decimal text of a position of the domain is read back as that
    /// position.
    proof fn lemma_text_round_trip(v: int)
        requires
            Self::in_domain(v),
        ensures
            Self::parsed(decimal_text(v)) == Some(v),
    ;
}

/// Hashing is a function of the key: two tokens that one strategy gave to
/// one key are one token.
pub proof fn lemma_hash_deterministic<P: Partitioner>(key: Seq<u8>, first: P::Token, second: P::Token)
    requires
        first.value() == P::token_of(key),
        second.value() == P::token_of(key),
    ensures
        first == second,
{
    P::Token::lemma_value_determines(first, second);
}

/// A token of the domain, written in decimal and read back, is the token
/// that was written.
pub proof fn lemma_token_round_trip<P: Partitioner>(t: P::Token, back: P::Token)
    requires
        P::in_domain(t.value()),
        P::parsed(decimal_text(t.value())) == Some(back.value()),
    ensures
        back == t,
{
    P::lemma_text_round_trip(t.value());
    P::Token::lemma_value_determines(back, t);
}

/// The order of tokens is the order of their integers: exactly one of less,
/// equal and greater holds of two tokens, equal only of a token and itself,
/// and greater where less holds the other way round.
pub proof fn lemma_order_is_integer_order<T: Token>(a: T, b: T)
    ensures
        order_of(a.value(), b.value()) == Ordering::Less <==> a.value() < b.value(),
        order_of(a.value(), b.value()) == Ordering::Equal <==> a == b,
        order_of(a.value(), b.value()) == Ordering::Greater <==> a.value() > b.value(),
        order_of(a.value(), b.value()) == Ordering::Greater <==> order_of(b.value(), a.value())
            == Ordering::Less,
{
    if a.value() == b.value() {
        T::lemma_value_determines(a, b);
    }
}

/// The order of tokens is transitive.
pub proof fn lemma_order_transitive<T: Token>(a: T, b: T, c: T)
    requires
        order_of(a.value(), b.value()) == Ordering::Less,
        order_of(b.value(), c.value()) == Ordering::Less,
    ensures
        order_of(a.value(), c.value()) == Ordering::Less,
{
}

} // verus!
