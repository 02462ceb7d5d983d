use crate::decimal::{chars_of, decimal_text};
use crate::error::{ParseError, UnknownPartitioner};
use crate::murmur3::{murmur3_parsed, murmur3_token, Murmur3Partitioner, Murmur3Token};
use crate::partitioner::{order_of, Partitioner, Token};
use crate::random::{md5_digest, random_parsed, random_position, RandomPartitioner, RandomToken};
use core::cmp::Ordering;
use vstd::prelude::*;

verus! {

/// The strategies of this library: the set is closed.
#[derive(Debug, Clone, Copy, PartialEq, Eq, Structural)]
pub enum Strategy {
    /// The strategy of [`Murmur3Partitioner`].
    Murmur3,
    /// The strategy of [`RandomPartitioner`].
    Random,
}

/// A token of either family.
#[derive(Debug, Clone, Copy, PartialEq, Eq, Structural)]
pub enum RingToken {
    /// A token of [`Murmur3Partitioner`].
    Murmur3(Murmur3Token),
    /// A token of [`RandomPartitioner`].
    Random(RandomToken),
}

/// Whether `text` ends with `suffix`.
pub open spec fn ends_with(text: Seq<char>, suffix: Seq<char>) -> bool {
    text.len() >= suffix.len() && text.skip(text.len() - suffix.len()) == suffix
}

/// Whether `name` names the class `class`: it is the class name itself, or
/// ends with a dot and the class name, as a name with its package does.
pub open spec fn names_class(name: Seq<char>, class: Seq<char>) -> bool {
    name == class || ends_with(name, seq!['.'] + class)
}

/// The strategy that `name` names, where it names one.
pub open spec fn resolved(name: Seq<char>) -> Option<Strategy> {
    if names_class(name, "Murmur3Partitioner"@) {
        Some(Strategy::Murmur3)
    } else if names_class(name, "RandomPartitioner"@) {
        Some(Strategy::Random)
    } else {
        None
    }
}

fn is_name_of(name: &Vec<char>, class: &Vec<char>) -> (b: bool)
    ensures
        b == names_class(name@, class@),
{
    let n: usize = name.len();
    let m: usize = class.len();
    let ghost dotted = seq!['.'] + class@;
    if n < m {
        return false;
    }
    let from: usize = n - m;
    if from > 0 && name[from - 1] != '.' {
        proof {
            assert(dotted[0] == '.');
            if ends_with(name@, dotted) {
                assert(name@.skip(n - dotted.len())[0] == dotted[0]);
            }
        }
        return false;
    }
    let mut i: usize = 0;
    while i < m
        invariant
            i <= m,
            n == name@.len(),
            m == class@.len(),
            from == n - m,
            dotted == seq!['.'] + class@,
            forall|j: int| 0 <= j < i ==> name@[from + j] == class@[j],
        decreases m - i,
    {
        if name[from + i] != class[i] {
            proof {
                if ends_with(name@, dotted) {
                    assert(name@.skip(n - dotted.len())[i + 1] == dotted[i + 1]);
                }
            }
            return false;
        }
        i += 1;
    }
    proof {
        if from == 0 {
            assert(name@ =~= class@);
        } else {
            assert(name@.skip(n - dotted.len()) =~= dotted);
        }
    }
    true
}

/// Resolves the class name that a cluster reports to one of the strategies.
/// The bare class name and the name with its package resolve alike.
pub fn resolve(name: &str) -> (r: Result<Strategy, UnknownPartitioner>)
    ensures
        match resolved(name@) {
            Some(s) => r == Ok::<Strategy, UnknownPartitioner>(s),
            None => r is Err && r->Err_0.name@ == name@,
        },
{
    proof {
        crate::murmur3::lemma_class_name();
        crate::random::lemma_class_name();
    }
    let chars = chars_of(name);
    if is_name_of(&chars, &chars_of(Murmur3Partitioner::CLASS_NAME)) {
        Ok(Strategy::Murmur3)
    } else if is_name_of(&chars, &chars_of(RandomPartitioner::CLASS_NAME)) {
        Ok(Strategy::Random)
    } else {
        Err(UnknownPartitioner { name: name.to_owned() })
    }
}

impl Strategy {
    /// The class name of the strategy, without its package.
    pub open spec fn class_name_of(self) -> Seq<char> {
        match self {
            Strategy::Murmur3 => "Murmur3Partitioner"@,
            Strategy::Random => "RandomPartitioner"@,
        }
    }

    /// The ring position that the strategy gives to a routing key.
    pub open spec fn token_of(self, key: Seq<u8>) -> int {
        match self {
            Strategy::Murmur3 => murmur3_token(key),
            Strategy::Random => random_position(md5_digest(key)),
        }
    }

    /// The ring position that a text stands for under the strategy, where it
    /// stands for one.
    pub open spec fn parsed(self, text: Seq<char>) -> Option<int> {
        match self {
            Strategy::Murmur3 => murmur3_parsed(text),
            Strategy::Random => random_parsed(text),
        }
    }

    /// The class name of the strategy, without its package.
    pub fn class_name(&self) -> (s: &'static str)
        ensures
            s@ == self.class_name_of(),
    {
        proof {
            crate::murmur3::lemma_class_name();
            crate::random::lemma_class_name();
        }
        match self {
            Strategy::Murmur3 => Murmur3Partitioner::CLASS_NAME,
            Strategy::Random => RandomPartitioner::CLASS_NAME,
        }
    }

    /// Generate a token for the routing key.
    pub fn hash(&self, key: &[u8]) -> (t: RingToken)
        ensures
            t.strategy() == *self,
            t.value() == self.token_of(key@),
    {
        match self {
            Strategy::Murmur3 => RingToken::Murmur3(Murmur3Partitioner::hash(key)),
            Strategy::Random => RingToken::Random(RandomPartitioner::hash(key)),
        }
    }

    /// Parse a token as the cluster reports it.
    pub fn parse_token(&self, token: &str) -> (r: Result<RingToken, ParseError>)
        ensures
            match self.parsed(token@) {
                Some(v) => r is Ok && r->Ok_0.strategy() == *self && r->Ok_0.value() == v,
                None => r is Err && r->Err_0.text@ == token@,
            },
    {
        match self {
            Strategy::Murmur3 => match Murmur3Partitioner::parse_token(token) {
                Ok(t) => Ok(RingToken::Murmur3(t)),
                Err(e) => Err(e),
            },
            Strategy::Random => match RandomPartitioner::parse_token(token) {
                Ok(t) => Ok(RingToken::Random(t)),
                Err(e) => Err(e),
            },
        }
    }
}

impl RingToken {
    /// The strategy whose ring the token lies on.
    pub open spec fn strategy(self) -> Strategy {
        match self {
            RingToken::Murmur3(_) => Strategy::Murmur3,
            RingToken::Random(_) => Strategy::Random,
        }
    }

    /// The integer that the token stands for.
    pub open spec fn value(self) -> int {
        match self {
            RingToken::Murmur3(t) => t.value(),
            RingToken::Random(t) => t.value(),
        }
    }

    /// The strategy whose ring the token lies on.
    pub fn family(&self) -> (s: Strategy)
        ensures
            s == self.strategy(),
    {
        match self {
            RingToken::Murmur3(_) => Strategy::Murmur3,
            RingToken::Random(_) => Strategy::Random,
        }
    }

    /// Orders two tokens of one ring as their integers are ordered. Tokens of
    /// different rings have no order.
    pub fn compare(&self, other: &Self) -> (o: Option<Ordering>)
        ensures
            self.strategy() == other.strategy() ==> o == Some(
                order_of(self.value(), other.value()),
            ),
            self.strategy() != other.strategy() ==> o is None,
    {
        match (self, other) {
            (RingToken::Murmur3(a), RingToken::Murmur3(b)) => Some(a.compare(b)),
            (RingToken::Random(a), RingToken::Random(b)) => Some(a.compare(b)),
            _ => None,
        }
    }

    /// The token in decimal, as the cluster writes it.
    pub fn to_string(&self) -> (s: String)
        ensures
            s@ == decimal_text(self.value()),
    {
        match self {
            RingToken::Murmur3(t) => t.to_string(),
            RingToken::Random(t) => t.to_string(),
        }
    }
}

} // verus!
