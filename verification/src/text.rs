//! Text as sequences of characters: ordering, decimal numerals, and the
//! conversions between `str` and `Vec<char>` that the rest of the crate uses.

use vstd::prelude::*;
use vstd::std_specs::iter::IteratorSpec;
use vstd::string::StringExecFns;

verus! {

/// Lexicographic order on character sequences, characters ordered by code
/// point. This is the order of `str` and of the store's keys.
pub open spec fn text_lt(a: Seq<char>, b: Seq<char>) -> bool
    decreases a.len(),
{
    if b.len() == 0 {
        false
    } else if a.len() == 0 {
        true
    } else if a[0] != b[0] {
        a[0] < b[0]
    } else {
        text_lt(a.skip(1), b.skip(1))
    }
}

/// Whether `a` is `b` or comes before it.
pub open spec fn text_le(a: Seq<char>, b: Seq<char>) -> bool {
    a == b || text_lt(a, b)
}

/// No text comes before itself.
pub proof fn lemma_text_lt_irreflexive(a: Seq<char>)
    ensures
        !text_lt(a, a),
    decreases a.len(),
{
    if a.len() > 0 {
        lemma_text_lt_irreflexive(a.skip(1));
    }
}

/// Of two texts at most one comes before the other.
pub proof fn lemma_text_lt_asymmetric(a: Seq<char>, b: Seq<char>)
    ensures
        !(text_lt(a, b) && text_lt(b, a)),
    decreases a.len(),
{
    if a.len() > 0 && b.len() > 0 && a[0] == b[0] {
        lemma_text_lt_asymmetric(a.skip(1), b.skip(1));
    }
}

/// The order is transitive.
pub proof fn lemma_text_lt_transitive(a: Seq<char>, b: Seq<char>, c: Seq<char>)
    requires
        text_lt(a, b),
        text_lt(b, c),
    ensures
        text_lt(a, c),
    decreases a.len(),
{
    if a.len() > 0 && b.len() > 0 && c.len() > 0 && a[0] == b[0] && b[0] == c[0] {
        lemma_text_lt_transitive(a.skip(1), b.skip(1), c.skip(1));
    }
}

/// Two different texts are ordered one way or the other.
pub proof fn lemma_text_lt_total(a: Seq<char>, b: Seq<char>)
    ensures
        a == b || text_lt(a, b) || text_lt(b, a),
    decreases a.len(),
{
    if a.len() > 0 && b.len() > 0 {
        if a[0] == b[0] {
            lemma_text_lt_total(a.skip(1), b.skip(1));
            if a.skip(1) == b.skip(1) {
                assert(a =~= seq![a[0]] + a.skip(1));
                assert(b =~= seq![b[0]] + b.skip(1));
            }
        }
    } else if a.len() == 0 && b.len() == 0 {
        assert(a =~= b);
    }
}

/// The characters of `s`, in order.
pub fn to_chars(s: &str) -> (v: Vec<char>)
    ensures
        v@ == s@,
{
    let mut v: Vec<char> = Vec::new();
    let mut it = s.chars();
    loop
        invariant
            v@ + it.remaining() == s@,
            it.obeys_prophetic_iter_laws(),
            it.decrease() is Some,
        decreases it.decrease()->0,
    {
        let ghost before = it.remaining();
        match it.next() {
            Some(c) => {
                assert(before == seq![c] + it.remaining());
                v.push(c);
            },
            None => {
                return v;
            },
        }
    }
}

/// Whether `a` comes strictly before `b`.
pub fn str_lt(a: &str, b: &str) -> (r: bool)
    ensures
        r == text_lt(a@, b@),
{
    let mut ia = a.chars();
    let mut ib = b.chars();
    loop
        invariant
            text_lt(a@, b@) == text_lt(ia.remaining(), ib.remaining()),
            ia.obeys_prophetic_iter_laws(),
            ib.obeys_prophetic_iter_laws(),
            ia.decrease() is Some,
            ib.decrease() is Some,
        decreases ib.decrease()->0,
    {
        let ghost ra = ia.remaining();
        let ghost rb = ib.remaining();
        match ib.next() {
            None => {
                return false;
            },
            Some(y) => {
                match ia.next() {
                    None => {
                        return true;
                    },
                    Some(x) => {
                        assert(ra.skip(1) =~= ia.remaining());
                        assert(rb.skip(1) =~= ib.remaining());
                        if x != y {
                            return x < y;
                        }
                    },
                }
            },
        }
    }
}

/// Whether `c` is one of the ten decimal digits.
pub open spec fn is_digit(c: char) -> bool {
    c == '0' || c == '1' || c == '2' || c == '3' || c == '4' || c == '5' || c == '6' || c == '7'
        || c == '8' || c == '9'
}

/// The number a decimal digit stands for.
pub open spec fn digit_value(c: char) -> nat {
    if c == '1' {
        1
    } else if c == '2' {
        2
    } else if c == '3' {
        3
    } else if c == '4' {
        4
    } else if c == '5' {
        5
    } else if c == '6' {
        6
    } else if c == '7' {
        7
    } else if c == '8' {
        8
    } else if c == '9' {
        9
    } else {
        0
    }
}

/// The digit that stands for `d`, for `d` below ten.
pub open spec fn digit_char(d: nat) -> char {
    if d == 1 {
        '1'
    } else if d == 2 {
        '2'
    } else if d == 3 {
        '3'
    } else if d == 4 {
        '4'
    } else if d == 5 {
        '5'
    } else if d == 6 {
        '6'
    } else if d == 7 {
        '7'
    } else if d == 8 {
        '8'
    } else if d == 9 {
        '9'
    } else {
        '0'
    }
}

pub open spec fn all_digits(s: Seq<char>) -> bool {
    forall|i: int| 0 <= i < s.len() ==> is_digit(#[trigger] s[i])
}

/// The number that a sequence of decimal digits denotes.
pub open spec fn decimal_value(s: Seq<char>) -> nat
    decreases s.len(),
{
    if s.len() == 0 {
        0
    } else {
        decimal_value(s.drop_last()) * 10 + digit_value(s.last())
    }
}

/// The decimal numeral of `n`, without leading zeros.
pub open spec fn decimal_text(n: nat) -> Seq<char>
    decreases n,
{
    if n < 10 {
        seq![digit_char(n)]
    } else {
        decimal_text(n / 10).push(digit_char(n % 10))
    }
}

/// What a text denotes as an unsigned number no larger than `max`: an
/// optional `+`, then at least one decimal digit and nothing else.
pub open spec fn parse_decimal(s: Seq<char>, max: nat) -> Option<nat> {
    let body = if s.len() > 0 && s[0] == '+' {
        s.skip(1)
    } else {
        s
    };
    if body.len() > 0 && all_digits(body) && decimal_value(body) <= max {
        Some(decimal_value(body))
    } else {
        None
    }
}

/// A numeral is made of digits, and denotes the number it was made from.
pub proof fn lemma_decimal_text_value(n: nat)
    ensures
        decimal_text(n).len() > 0,
        all_digits(decimal_text(n)),
        decimal_value(decimal_text(n)) == n,
    decreases n,
{
    if n < 10 {
        let t = decimal_text(n);
        assert(t.drop_last() =~= Seq::<char>::empty());
        assert(decimal_value(t.drop_last()) == 0);
    } else {
        lemma_decimal_text_value(n / 10);
        let t = decimal_text(n);
        assert(t.drop_last() =~= decimal_text(n / 10));
        assert(t.last() == digit_char(n % 10));
    }
}

/// Reading a numeral back gives the number, where it is within the limit.
pub proof fn lemma_parse_decimal_text(n: nat, max: nat)
    requires
        n <= max,
    ensures
        parse_decimal(decimal_text(n), max) == Some(n),
{
    lemma_decimal_text_value(n);
    let t = decimal_text(n);
    assert(is_digit(t[0]));
}

/// A longer digit sequence denotes at least what its beginning denotes.
pub proof fn lemma_decimal_value_prefix(s: Seq<char>, k: int)
    requires
        0 <= k <= s.len(),
    ensures
        decimal_value(s.take(k)) <= decimal_value(s),
    decreases s.len() - k,
{
    if k < s.len() {
        lemma_decimal_value_prefix(s, k + 1);
        assert(s.take(k + 1).drop_last() =~= s.take(k));
    } else {
        assert(s.take(k) =~= s);
    }
}

/// The value of `c` as a decimal digit, if it is one.
pub fn digit_of(c: char) -> (r: Option<u8>)
    ensures
        r is Some <==> is_digit(c),
        r matches Some(d) ==> d == digit_value(c) && d < 10,
{
    if c == '0' {
        Some(0)
    } else if c == '1' {
        Some(1)
    } else if c == '2' {
        Some(2)
    } else if c == '3' {
        Some(3)
    } else if c == '4' {
        Some(4)
    } else if c == '5' {
        Some(5)
    } else if c == '6' {
        Some(6)
    } else if c == '7' {
        Some(7)
    } else if c == '8' {
        Some(8)
    } else if c == '9' {
        Some(9)
    } else {
        None
    }
}

/// Reads `s` as an unsigned decimal number no larger than `max`.
pub fn parse_number(s: &Vec<char>, max: u128) -> (r: Option<u128>)
    ensures
        match parse_decimal(s@, max as nat) {
            Some(n) => r == Some(n as u128),
            None => r is None,
        },
{
    let start: usize = if s.len() > 0 && s[0] == '+' {
        1
    } else {
        0
    };
    let ghost body = if s@.len() > 0 && s@[0] == '+' {
        s@.skip(1)
    } else {
        s@
    };
    assert(body =~= s@.skip(start as int));
    if start >= s.len() {
        return None;
    }
    let mut acc: u128 = 0;
    let mut i: usize = start;
    assert(body.take(0) =~= Seq::<char>::empty());
    while i < s.len()
        invariant
            start <= i <= s.len(),
            body == s@.skip(start as int),
            body == (if s@.len() > 0 && s@[0] == '+' {
                s@.skip(1)
            } else {
                s@
            }),
            all_digits(body.take(i - start)),
            acc == decimal_value(body.take(i - start)),
            acc <= max,
        decreases s.len() - i,
    {
        let ghost next = body.take(i - start + 1);
        assert(next.drop_last() =~= body.take(i - start));
        assert(next.last() == s@[i as int]);
        let d: u8 = match digit_of(s[i]) {
            Some(d) => d,
            None => {
                assert(!is_digit(body[i - start]));
                return None;
            },
        };
        if d as u128 > max || acc > (max - d as u128) / 10 {
            proof {
                assert(decimal_value(next) > max);
                lemma_decimal_value_prefix(body, i - start + 1);
            }
            return None;
        }
        acc = acc * 10 + d as u128;
        i += 1;
    }
    assert(body.take(i - start) =~= body);
    Some(acc)
}

/// The one-character text of a digit below ten.
fn digit_text(d: u8) -> (r: &'static str)
    requires
        d < 10,
    ensures
        r@ == seq![digit_char(d as nat)],
{
    proof {
        reveal_strlit("0");
        reveal_strlit("1");
        reveal_strlit("2");
        reveal_strlit("3");
        reveal_strlit("4");
        reveal_strlit("5");
        reveal_strlit("6");
        reveal_strlit("7");
        reveal_strlit("8");
        reveal_strlit("9");
    }
    let r = if d == 0 {
        "0"
    } else if d == 1 {
        "1"
    } else if d == 2 {
        "2"
    } else if d == 3 {
        "3"
    } else if d == 4 {
        "4"
    } else if d == 5 {
        "5"
    } else if d == 6 {
        "6"
    } else if d == 7 {
        "7"
    } else if d == 8 {
        "8"
    } else {
        "9"
    };
    assert(r@ =~= seq![digit_char(d as nat)]);
    r
}

/// The number held in two limbs: `hi` counts multiples of 2^128.
pub open spec fn wide_value(hi: u64, lo: u128) -> nat {
    (hi as nat) * 0x1_0000_0000_0000_0000_0000_0000_0000_0000 + (lo as nat)
}

/// Divides a two-limb number by ten: quotient limbs and remainder.
fn wide_div10(hi: u64, lo: u128) -> (r: (u64, u128, u8))
    ensures
        wide_value(r.0, r.1) == wide_value(hi, lo) / 10,
        r.2 as nat == wide_value(hi, lo) % 10,
{
    let q_hi: u64 = hi / 10;
    let r1: u128 = (hi % 10) as u128;
    let a: u128 = lo / 0x1_0000_0000_0000_0000;
    let b: u128 = lo % 0x1_0000_0000_0000_0000;
    let t1: u128 = r1 * 0x1_0000_0000_0000_0000 + a;
    let q1: u128 = t1 / 10;
    let r2: u128 = t1 % 10;
    let t2: u128 = r2 * 0x1_0000_0000_0000_0000 + b;
    let q2: u128 = t2 / 10;
    let r3: u128 = t2 % 10;
    let q_lo: u128 = q1 * 0x1_0000_0000_0000_0000 + q2;
    assert(wide_value(hi, lo) == 10 * wide_value(q_hi, q_lo) + r3);
    (q_hi, q_lo, r3 as u8)
}

/// Nothing for zero, the numeral otherwise: what is still to be written
/// in front of the digits found so far.
spec fn lead(v: nat) -> Seq<char> {
    if v == 0 {
        Seq::empty()
    } else {
        decimal_text(v)
    }
}

/// The characters of digits that were collected lowest first.
spec fn digits_rev(d: Seq<u8>) -> Seq<char> {
    Seq::new(d.len(), |j: int| digit_char(d[d.len() - 1 - j] as nat))
}

/// The decimal numeral of a two-limb number.
pub fn wide_to_text(hi: u64, lo: u128) -> (r: String)
    ensures
        r@ == decimal_text(wide_value(hi, lo)),
{
    if hi == 0 && lo == 0 {
        proof {
            reveal_strlit("0");
            assert("0"@ =~= decimal_text(0));
        }
        return "0".to_owned();
    }
    let mut digits: Vec<u8> = Vec::new();
    let mut h: u64 = hi;
    let mut l: u128 = lo;
    assert(lead(wide_value(h, l)) + digits_rev(digits@) =~= decimal_text(wide_value(hi, lo)));
    while h != 0 || l != 0
        invariant
            decimal_text(wide_value(hi, lo)) == lead(wide_value(h, l)) + digits_rev(digits@),
            forall|k: int| 0 <= k < digits.len() ==> digits[k] < 10,
        decreases wide_value(h, l),
    {
        let ghost v = wide_value(h, l);
        let ghost before = digits@;
        let (qh, ql, d) = wide_div10(h, l);
        digits.push(d);
        proof {
            assert(lead(v) =~= lead(v / 10).push(digit_char(v % 10)));
            assert(digits_rev(digits@) =~= seq![digit_char(d as nat)] + digits_rev(before));
            assert(lead(v) + digits_rev(before) =~= lead(v / 10) + digits_rev(digits@));
        }
        h = qh;
        l = ql;
    }
    let mut out = String::new();
    let mut i: usize = digits.len();
    assert(digits_rev(digits@).take(0) =~= Seq::<char>::empty());
    while i > 0
        invariant
            i <= digits.len(),
            out@ == digits_rev(digits@).take(digits.len() - i),
            forall|k: int| 0 <= k < digits.len() ==> digits[k] < 10,
        decreases i,
    {
        i -= 1;
        out.append(digit_text(digits[i]));
        assert(out@ =~= digits_rev(digits@).take(digits.len() - i));
    }
    assert(digits_rev(digits@).take(digits.len() as int) =~= digits_rev(digits@));
    out
}

/// The decimal numeral of `n`.
pub fn number_to_text(n: u128) -> (r: String)
    ensures
        r@ == decimal_text(n as nat),
{
    wide_to_text(0, n)
}

} // verus!
