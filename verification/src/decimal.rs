use vstd::prelude::*;
use vstd::std_specs::iter::IteratorSpec;
use vstd::string::StringExecFns;

verus! {

/// Whether `c` is one of the ten decimal digits.
pub open spec fn is_digit(c: char) -> bool {
    '0' <= c <= '9'
}

/// The number that the digit `c` stands for.
pub open spec fn digit_value(c: char) -> nat {
    (c as u32 - '0' as u32) as nat
}

/// The digit that stands for `d`, for `d` below ten.
pub open spec fn digit_char(d: nat) -> char {
    (d + '0' as u32) as char
}

/// Whether `s` holds decimal digits only.
pub open spec fn all_digits(s: Seq<char>) -> bool {
    forall|i: int| 0 <= i < s.len() ==> is_digit(#[trigger] s[i])
}

/// The number that a run of digits stands for, the first digit weighing most.
pub open spec fn digits_value(s: Seq<char>) -> nat
    decreases s.len(),
{
    if s.len() == 0 {
        0
    } else {
        digits_value(s.drop_last()) * 10 + digit_value(s.last())
    }
}

/// What a run of characters stands for as a magnitude: the number, where the
/// run is one or more digits, and nothing otherwise.
pub open spec fn parse_magnitude(s: Seq<char>) -> Option<nat> {
    if s.len() > 0 && all_digits(s) {
        Some(digits_value(s))
    } else {
        None
    }
}

/// What `s` stands for as an unsigned decimal integer: one or more digits,
/// which a `+` may precede. Zeros may lead; a `-` may not.
pub open spec fn parse_unsigned(s: Seq<char>) -> Option<nat> {
    if s.len() > 0 && s[0] == '+' {
        parse_magnitude(s.skip(1))
    } else {
        parse_magnitude(s)
    }
}

/// What `s` stands for as a signed decimal integer: one or more digits, which
/// a `+` or a `-` may precede. Zeros may lead.
pub open spec fn parse_signed(s: Seq<char>) -> Option<int> {
    if s.len() > 0 && s[0] == '-' {
        match parse_magnitude(s.skip(1)) {
            Some(m) => Some(-(m as int)),
            None => None,
        }
    } else {
        match parse_unsigned(s) {
            Some(m) => Some(m as int),
            None => None,
        }
    }
}

/// The digits of `n`, the first weighing most, with no zero in front but for
/// zero itself, which is the one digit `0`.
pub open spec fn digits_of(n: nat) -> Seq<char>
    decreases n,
{
    if n < 10 {
        seq![digit_char(n)]
    } else {
        digits_of(n / 10).push(digit_char(n % 10))
    }
}

/// The decimal text of `v`: its digits, after a `-` where it is negative.
pub open spec fn decimal_text(v: int) -> Seq<char> {
    if v < 0 {
        seq!['-'] + digits_of((-v) as nat)
    } else {
        digits_of(v as nat)
    }
}

proof fn lemma_digit_char(d: nat)
    requires
        d < 10,
    ensures
        is_digit(digit_char(d)),
        digit_value(digit_char(d)) == d,
{
}

/// The digits of a number are digits, at least one of them, and stand for it.
pub proof fn lemma_digits_of(n: nat)
    ensures
        digits_of(n).len() > 0,
        all_digits(digits_of(n)),
        digits_value(digits_of(n)) == n,
    decreases n,
{
    if n < 10 {
        lemma_digit_char(n);
        let s = digits_of(n);
        assert(s.drop_last().len() == 0);
        assert(digits_value(s.drop_last()) == 0);
    } else {
        lemma_digits_of(n / 10);
        lemma_digit_char(n % 10);
        let s = digits_of(n);
        assert(s.drop_last() =~= digits_of(n / 10));
    }
}

/// The digits of a number have no zero in front, but for zero itself.
pub proof fn lemma_digits_of_canonical(n: nat)
    ensures
        digits_of(n)[0] == '0' <==> n == 0,
        n == 0 ==> digits_of(n) =~= seq!['0'],
    decreases n,
{
    if n >= 10 {
        lemma_digits_of_canonical(n / 10);
        lemma_digits_of(n / 10);
    }
}

/// Reading the decimal text of an integer gives the integer back.
pub proof fn lemma_parse_signed_decimal_text(v: int)
    ensures
        parse_signed(decimal_text(v)) == Some(v),
{
    if v < 0 {
        let m = (-v) as nat;
        lemma_digits_of(m);
        assert(decimal_text(v).skip(1) =~= digits_of(m));
    } else {
        lemma_digits_of(v as nat);
    }
}

/// Reading the decimal text of a natural number as an unsigned integer gives
/// the number back.
pub proof fn lemma_parse_unsigned_decimal_text(n: nat)
    ensures
        parse_unsigned(decimal_text(n as int)) == Some(n),
{
    lemma_digits_of(n);
}

/// A parsed magnitude, kept where it is at most `limit`.
pub open spec fn at_most(m: Option<nat>, limit: nat) -> Option<nat> {
    match m {
        Some(n) if n <= limit => Some(n),
        _ => None,
    }
}

/// A parsed integer, kept where it lies between `low` and `high`.
pub open spec fn within(v: Option<int>, low: int, high: int) -> Option<int> {
    match v {
        Some(n) if low <= n <= high => Some(n),
        _ => None,
    }
}

/// The characters of `text`, in order.
pub fn chars_of(text: &str) -> (chars: Vec<char>)
    ensures
        chars@ == text@,
{
    let mut chars: Vec<char> = Vec::new();
    for c in it: text.chars()
        invariant
            chars@ == it.seq().take(it.index() as int),
            it.seq() == text@,
    {
        chars.push(c);
    }
    chars
}

/// Reads the characters of `chars` from `from` on as a magnitude of at most
/// `limit`.
pub fn read_magnitude(chars: &Vec<char>, from: usize, limit: u128) -> (r: Option<u128>)
    requires
        from <= chars@.len(),
    ensures
        match at_most(parse_magnitude(chars@.skip(from as int)), limit as nat) {
            Some(n) => r == Some(n as u128),
            None => r is None,
        },
{
    let len: usize = chars.len();
    let ghost run = chars@.skip(from as int);
    let mut acc: u128 = 0;
    let mut over: bool = false;
    let mut i: usize = from;
    while i < len
        invariant
            from <= i <= len,
            len == chars@.len(),
            run == chars@.skip(from as int),
            all_digits(run.take(i - from)),
            !over ==> acc == digits_value(run.take(i - from)) && acc <= limit,
            over ==> digits_value(run.take(i - from)) > limit,
        decreases len - i,
    {
        let c: char = chars[i];
        let ghost before = run.take(i - from);
        let ghost after = run.take(i + 1 - from);
        proof {
            assert(after.drop_last() =~= before);
            assert(after.last() == c);
        }
        if c < '0' || c > '9' {
            proof {
                assert(run[i - from] == c);
                assert(!all_digits(run));
            }
            return None;
        }
        let d: u128 = (c as u32 - '0' as u32) as u128;
        if !over {
            if d > limit || acc > (limit - d) / 10 {
                over = true;
            } else {
                acc = acc * 10 + d;
            }
        }
        i += 1;
    }
    proof {
        assert(run.take(len - from) =~= run);
    }
    if over || i == from {
        None
    } else {
        Some(acc)
    }
}

/// Reads `text` as an unsigned decimal integer of at most `limit`.
pub fn parse_unsigned_up_to(text: &str, limit: u128) -> (r: Option<u128>)
    ensures
        match at_most(parse_unsigned(text@), limit as nat) {
            Some(n) => r == Some(n as u128),
            None => r is None,
        },
{
    let chars = chars_of(text);
    if chars.len() > 0 && chars[0] == '+' {
        read_magnitude(&chars, 1, limit)
    } else {
        proof {
            assert(chars@.skip(0) =~= chars@);
        }
        read_magnitude(&chars, 0, limit)
    }
}

/// Reads `text` as a signed decimal integer that fits 64 bits.
pub fn parse_i64(text: &str) -> (r: Option<i64>)
    ensures
        match within(parse_signed(text@), i64::MIN as int, i64::MAX as int) {
            Some(v) => r == Some(v as i64),
            None => r is None,
        },
{
    let chars = chars_of(text);
    if chars.len() > 0 && chars[0] == '-' {
        match read_magnitude(&chars, 1, 0x8000_0000_0000_0000) {
            Some(m) => {
                if m == 0x8000_0000_0000_0000 {
                    Some(i64::MIN)
                } else {
                    Some(-(m as i64))
                }
            },
            None => None,
        }
    } else {
        let from: usize = if chars.len() > 0 && chars[0] == '+' {
            1
        } else {
            0
        };
        proof {
            assert(chars@.skip(0) =~= chars@);
        }
        match read_magnitude(&chars, from, 0x7fff_ffff_ffff_ffff) {
            Some(m) => Some(m as i64),
            None => None,
        }
    }
}

fn digit_text(d: u8) -> (s: &'static str)
    requires
        d < 10,
    ensures
        s@ == seq![digit_char(d as nat)],
{
    proof {
        reveal_strlit("0");
        reveal_strlit("1");
        reveal_strlit("2");
        reveal_strlit("3");
        reveal_strlit("4");
        reveal_strlit("5");
        reveal_strlit("6");
        reveal_strlit("7");
        reveal_strlit("8");
        reveal_strlit("9");
    }
    let s = match d {
        0 => "0",
        1 => "1",
        2 => "2",
        3 => "3",
        4 => "4",
        5 => "5",
        6 => "6",
        7 => "7",
        8 => "8",
        _ => "9",
    };
    assert(s@ =~= seq![digit_char(d as nat)]);
    s
}

/// The characters that the digits `ds`, given last digit first, make up when
/// written first digit first.
pub open spec fn written(ds: Seq<u8>) -> Seq<char> {
    Seq::new(ds.len(), |j: int| digit_char(ds[ds.len() - 1 - j] as nat))
}

/// Appends the digits of `n` to `out`.
pub fn push_digits(out: &mut String, n: u128)
    ensures
        final(out)@ == old(out)@ + digits_of(n as nat),
{
    let mut ds: Vec<u8> = Vec::new();
    let mut rest: u128 = n;
    while rest >= 10
        invariant
            digits_of(n as nat) =~= digits_of(rest as nat) + written(ds@),
            forall|j: int| 0 <= j < ds@.len() ==> ds@[j] < 10,
        decreases rest,
    {
        let ghost before = ds@;
        ds.push((rest % 10) as u8);
        rest = rest / 10;
        proof {
            assert(written(ds@) =~= seq![digit_char(ds@.last() as nat)] + written(before));
        }
    }
    ds.push(rest as u8);
    proof {
        let before = ds@.drop_last();
        assert(written(ds@) =~= seq![digit_char(rest as nat)] + written(before));
    }
    let ghost start = out@;
    let mut i: usize = ds.len();
    while i > 0
        invariant
            i <= ds@.len(),
            forall|j: int| 0 <= j < ds@.len() ==> ds@[j] < 10,
            out@ =~= start + written(ds@).take(ds@.len() - i),
        decreases i,
    {
        i -= 1;
        out.append(digit_text(ds[i]));
        proof {
            let w = written(ds@);
            let k = ds@.len() - 1 - i;
            assert(w.take(k + 1) =~= w.take(k).push(w[k]));
        }
    }
    proof {
        assert(written(ds@).take(ds@.len() as int) =~= written(ds@));
    }
}

/// The decimal text of `n`.
pub fn format_u128(n: u128) -> (s: String)
    ensures
        s@ == decimal_text(n as int),
{
    let mut s = String::new();
    push_digits(&mut s, n);
    assert(s@ =~= digits_of(n as nat));
    s
}

/// The decimal text of `v`.
pub fn format_i64(v: i64) -> (s: String)
    ensures
        s@ == decimal_text(v as int),
{
    if v < 0 {
        proof {
            reveal_strlit("-");
        }
        let mut s = String::from_str("-");
        let m: u128 = (-(v as i128)) as u128;
        push_digits(&mut s, m);
        assert(s@ =~= seq!['-'] + digits_of(m as nat));
        s
    } else {
        format_u128(v as u128)
    }
}

} // verus!
