//! Unsigned integers in decimal notation.

use vstd::prelude::*;
use vstd::string::{StrSliceExecFns, StringExecFns};

verus! {

/// The decimal digit of a value below 10.
pub open spec fn digit_char(d: int) -> char {
    seq!['0', '1', '2', '3', '4', '5', '6', '7', '8', '9'][d]
}

/// The decimal notation of `n`: no sign, and no leading zero but for zero itself.
pub open spec fn decimal(n: nat) -> Seq<char>
    decreases n,
{
    if n < 10 {
        seq![digit_char(n as int)]
    } else {
        decimal(n / 10).push(digit_char((n % 10) as int))
    }
}

/// A decimal notation has at least one digit.
pub proof fn lemma_decimal_len(n: nat)
    ensures
        decimal(n).len() >= 1,
        n >= 10 ==> decimal(n).len() >= 2,
    decreases n,
{
    if n >= 10 {
        lemma_decimal_len(n / 10);
    }
}

/// Two numbers with one decimal notation are one number.
pub proof fn lemma_decimal_injective(a: nat, b: nat)
    requires
        decimal(a) == decimal(b),
    ensures
        a == b,
    decreases a,
{
    lemma_decimal_len(a);
    lemma_decimal_len(b);
    if a < 10 {
        assert(decimal(a)[0] == digit_char(a as int));
        assert(decimal(b)[0] == digit_char(b as int));
    } else {
        let da = decimal(a / 10);
        let db = decimal(b / 10);
        assert(decimal(a).last() == digit_char((a % 10) as int));
        assert(decimal(b).last() == digit_char((b % 10) as int));
        assert(decimal(a).drop_last() =~= da);
        assert(decimal(b).drop_last() =~= db);
        lemma_decimal_injective(a / 10, b / 10);
    }
}

/// The digit of a value below 10, as a string.
fn digit_str(d: u64) -> (s: &'static str)
    requires
        d < 10,
    ensures
        s@ == seq![digit_char(d as int)],
{
    proof {
        reveal_strlit("0");
        reveal_strlit("1");
        reveal_strlit("2");
        reveal_strlit("3");
        reveal_strlit("4");
        reveal_strlit("5");
        reveal_strlit("6");
        reveal_strlit("7");
        reveal_strlit("8");
        reveal_strlit("9");
    }
    let s = if d == 0 {
        "0"
    } else if d == 1 {
        "1"
    } else if d == 2 {
        "2"
    } else if d == 3 {
        "3"
    } else if d == 4 {
        "4"
    } else if d == 5 {
        "5"
    } else if d == 6 {
        "6"
    } else if d == 7 {
        "7"
    } else if d == 8 {
        "8"
    } else {
        "9"
    };
    assert(s@ =~= seq![digit_char(d as int)]);
    s
}

/// Writes `n` in decimal notation.
pub fn to_decimal(n: u64) -> (text: String)
    ensures
        text@ == decimal(n as nat),
    decreases n,
{
    if n < 10 {
        String::from_str(digit_str(n))
    } else {
        let mut text = to_decimal(n / 10);
        text.append(digit_str(n % 10));
        assert(text@ =~= decimal(n as nat));
        text
    }
}

/// The value of a decimal digit, or `None` for any other character.
pub open spec fn digit_of(c: char) -> Option<int> {
    if c == '0' {
        Some(0)
    } else if c == '1' {
        Some(1)
    } else if c == '2' {
        Some(2)
    } else if c == '3' {
        Some(3)
    } else if c == '4' {
        Some(4)
    } else if c == '5' {
        Some(5)
    } else if c == '6' {
        Some(6)
    } else if c == '7' {
        Some(7)
    } else if c == '8' {
        Some(8)
    } else if c == '9' {
        Some(9)
    } else {
        None
    }
}

/// The number that a text denotes in decimal notation, or `None` where it
/// denotes none: the text has to be made of digits, at least one, and must not
/// start with a zero unless it is the one digit `0`.
pub open spec fn parse_decimal(s: Seq<char>) -> Option<nat>
    decreases s.len(),
{
    if s.len() == 0 {
        None
    } else {
        match digit_of(s.last()) {
            None => None,
            Some(d) => if s.len() == 1 {
                Some(d as nat)
            } else {
                match parse_decimal(s.drop_last()) {
                    Some(p) => if p > 0 {
                        Some(p * 10 + d as nat)
                    } else {
                        None
                    },
                    None => None,
                }
            },
        }
    }
}

/// Digits and their values correspond.
pub proof fn lemma_digits(c: char, d: int)
    ensures
        0 <= d < 10 ==> digit_of(digit_char(d)) == Some(d),
        digit_of(c) == Some(d) ==> 0 <= d < 10 && c == digit_char(d),
{
}

/// The decimal notation of a number denotes that number.
pub proof fn lemma_parse_of_decimal(n: nat)
    ensures
        parse_decimal(decimal(n)) == Some(n),
    decreases n,
{
    if n < 10 {
        lemma_digits('0', n as int);
        assert(decimal(n).last() == digit_char(n as int));
    } else {
        lemma_parse_of_decimal(n / 10);
        lemma_decimal_len(n / 10);
        lemma_digits('0', (n % 10) as int);
        assert(decimal(n).last() == digit_char((n % 10) as int));
        assert(decimal(n).drop_last() =~= decimal(n / 10));
    }
}

/// A text that denotes a number is the decimal notation of that number.
pub proof fn lemma_decimal_of_parse(s: Seq<char>)
    requires
        parse_decimal(s) is Some,
    ensures
        s == decimal(parse_decimal(s).unwrap()),
    decreases s.len(),
{
    let d = digit_of(s.last()).unwrap();
    lemma_digits(s.last(), d);
    if s.len() == 1 {
        assert(s =~= seq![digit_char(d)]);
    } else {
        let p = parse_decimal(s.drop_last()).unwrap();
        lemma_decimal_of_parse(s.drop_last());
        let n = p * 10 + d as nat;
        assert(n / 10 == p && n % 10 == d);
        assert(s =~= s.drop_last().push(s.last()));
    }
}

/// Every text that starts a text that denotes a number denotes a number too,
/// and not a greater one.
pub proof fn lemma_parse_of_prefix(s: Seq<char>, i: int)
    requires
        parse_decimal(s) is Some,
        1 <= i <= s.len(),
    ensures
        parse_decimal(s.take(i)) is Some,
        parse_decimal(s.take(i)).unwrap() <= parse_decimal(s).unwrap(),
    decreases s.len() - i,
{
    if i == s.len() {
        assert(s.take(i) =~= s);
    } else {
        lemma_parse_of_prefix(s.drop_last(), i);
        assert(s.drop_last().take(i) =~= s.take(i));
    }
}

/// The value of a decimal digit.
fn digit_value(c: char) -> (res: Option<u64>)
    ensures
        match res {
            Some(d) => digit_of(c) == Some(d as int),
            None => digit_of(c) is None,
        },
{
    if c == '0' {
        Some(0)
    } else if c == '1' {
        Some(1)
    } else if c == '2' {
        Some(2)
    } else if c == '3' {
        Some(3)
    } else if c == '4' {
        Some(4)
    } else if c == '5' {
        Some(5)
    } else if c == '6' {
        Some(6)
    } else if c == '7' {
        Some(7)
    } else if c == '8' {
        Some(8)
    } else if c == '9' {
        Some(9)
    } else {
        None
    }
}

/// The number below 2^64 that a text denotes in decimal notation.
pub open spec fn parse_u64(s: Seq<char>) -> Option<u64> {
    match parse_decimal(s) {
        Some(n) => if n <= u64::MAX {
            Some(n as u64)
        } else {
            None
        },
        None => None,
    }
}

/// A text denotes a number below 2^64 exactly when it is the decimal notation
/// of that number.
pub proof fn lemma_parse_u64(s: Seq<char>, n: u64)
    ensures
        parse_u64(s) == Some(n) <==> s == decimal(n as nat),
{
    if parse_u64(s) == Some(n) {
        lemma_decimal_of_parse(s);
    }
    if s == decimal(n as nat) {
        lemma_parse_of_decimal(n as nat);
    }
}

/// Reads a number in decimal notation. The text has to be exactly what
/// [`to_decimal`] writes for the number.
pub fn from_decimal(text: &str) -> (res: Option<u64>)
    ensures
        res == parse_u64(text@),
        match res {
            Some(n) => text@ == decimal(n as nat),
            None => forall|n: u64| text@ != decimal(n as nat),
        },
{
    let len = text.unicode_len();
    if len == 0 {
        assert forall|n: u64| text@ != decimal(n as nat) by {
            lemma_decimal_len(n as nat);
        }
        return None;
    }
    let mut acc: u64 = 0;
    let mut i: usize = 0;
    while i < len
        invariant
            0 <= i <= len,
            len == text@.len(),
            i > 0 ==> parse_decimal(text@.take(i as int)) == Some(acc as nat),
        decreases len - i,
    {
        let c = text.get_char(i);
        let ghost longer = text@.take(i + 1);
        proof {
            assert(longer.last() == c);
            assert(longer.drop_last() =~= text@.take(i as int));
        }
        let stops: bool = match digit_value(c) {
            None => true,
            Some(d) => {
                if i == 0 {
                    acc = d;
                    false
                } else if acc == 0 || acc > (u64::MAX - d) / 10 {
                    true
                } else {
                    acc = acc * 10 + d;
                    false
                }
            },
        };
        if stops {
            proof {
                if parse_u64(text@) is Some {
                    lemma_parse_of_prefix(text@, i + 1);
                }
                assert forall|n: u64| text@ != decimal(n as nat) by {
                    lemma_parse_u64(text@, n);
                }
            }
            return None;
        }
        i += 1;
    }
    proof {
        assert(text@.take(len as int) =~= text@);
        lemma_decimal_of_parse(text@);
    }
    Some(acc)
}

} // verus!
