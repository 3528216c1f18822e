//! Decimal rendering of integers, as it appears inside cache keys.

use vstd::prelude::*;
use vstd::string::StringExecFns;

verus! {

/// The character that stands for one decimal digit.
pub open spec fn digit_char(d: int) -> char {
    if d == 0 {
        '0'
    } else if d == 1 {
        '1'
    } else if d == 2 {
        '2'
    } else if d == 3 {
        '3'
    } else if d == 4 {
        '4'
    } else if d == 5 {
        '5'
    } else if d == 6 {
        '6'
    } else if d == 7 {
        '7'
    } else if d == 8 {
        '8'
    } else {
        '9'
    }
}

/// The decimal digits of a natural number, most significant first, without
/// leading zeros (zero itself is the single digit `0`).
pub open spec fn nat_decimal(n: nat) -> Seq<char>
    decreases n,
{
    if n < 10 {
        seq![digit_char(n as int)]
    } else {
        nat_decimal(n / 10).push(digit_char((n % 10) as int))
    }
}

/// The decimal rendering of an integer: a minus sign for negative numbers,
/// then the digits of its magnitude.
pub open spec fn int_decimal(i: int) -> Seq<char> {
    if i < 0 {
        seq!['-'] + nat_decimal((-i) as nat)
    } else {
        nat_decimal(i as nat)
    }
}

/// The digit that a character stands for.
pub open spec fn digit_of(c: char) -> int {
    if c == '0' {
        0
    } else if c == '1' {
        1
    } else if c == '2' {
        2
    } else if c == '3' {
        3
    } else if c == '4' {
        4
    } else if c == '5' {
        5
    } else if c == '6' {
        6
    } else if c == '7' {
        7
    } else if c == '8' {
        8
    } else {
        9
    }
}

/// The number that a text of digits stands for.
pub open spec fn decimal_value(digits: Seq<char>) -> int
    decreases digits.len(),
{
    if digits.len() == 0 {
        0
    } else {
        decimal_value(digits.drop_last()) * 10 + digit_of(digits.last())
    }
}

/// Whether a character may stand in the decimal rendering of an integer.
pub open spec fn is_decimal_char(c: char) -> bool {
    c == '-' || c == '0' || c == '1' || c == '2' || c == '3' || c == '4' || c == '5' || c == '6'
        || c == '7' || c == '8' || c == '9'
}

/// The digits of a natural number are digits, there is at least one, and
/// they stand for that number.
pub proof fn lemma_nat_decimal(n: nat)
    ensures
        nat_decimal(n).len() >= 1,
        decimal_value(nat_decimal(n)) == n,
        forall|k: int|
            0 <= k < nat_decimal(n).len() ==> is_decimal_char(#[trigger] nat_decimal(n)[k])
                && nat_decimal(n)[k] != '-',
    decreases n,
{
    if n < 10 {
        let one = seq![digit_char(n as int)];
        assert(one.drop_last() =~= Seq::<char>::empty());
        assert(decimal_value(one.drop_last()) == 0);
        assert(one.last() == digit_char(n as int));
    } else {
        lemma_nat_decimal(n / 10);
        let digits = nat_decimal(n / 10).push(digit_char((n % 10) as int));
        assert(digits.drop_last() =~= nat_decimal(n / 10));
        assert(digits.last() == digit_char((n % 10) as int));
        assert forall|k: int| 0 <= k < digits.len() implies is_decimal_char(#[trigger] digits[k])
            && digits[k] != '-' by {
            if k < nat_decimal(n / 10).len() {
                assert(digits[k] == nat_decimal(n / 10)[k]);
            }
        }
    }
}

/// The rendering of an integer holds digits and at most a minus sign, and
/// no two integers are rendered alike.
pub proof fn lemma_int_decimal(a: int, b: int)
    ensures
        forall|k: int|
            0 <= k < int_decimal(a).len() ==> is_decimal_char(#[trigger] int_decimal(a)[k]),
        int_decimal(a) == int_decimal(b) ==> a == b,
{
    lemma_nat_decimal((if a < 0 { -a } else { a }) as nat);
    lemma_nat_decimal((if b < 0 { -b } else { b }) as nat);
    if a < 0 {
        let digits = nat_decimal((-a) as nat);
        assert forall|k: int| 0 <= k < int_decimal(a).len() implies is_decimal_char(
            #[trigger] int_decimal(a)[k],
        ) by {
            if k > 0 {
                assert(int_decimal(a)[k] == digits[k - 1]);
            }
        }
    }
    if int_decimal(a) == int_decimal(b) {
        if a < 0 && b < 0 {
            assert(int_decimal(a).subrange(1, int_decimal(a).len() as int) =~= nat_decimal(
                (-a) as nat,
            ));
            assert(int_decimal(b).subrange(1, int_decimal(b).len() as int) =~= nat_decimal(
                (-b) as nat,
            ));
        } else if a < 0 {
            assert(int_decimal(a)[0] == '-');
            assert(int_decimal(b)[0] == nat_decimal(b as nat)[0]);
        } else if b < 0 {
            assert(int_decimal(b)[0] == '-');
            assert(int_decimal(a)[0] == nat_decimal(a as nat)[0]);
        }
    }
}

/// Two texts that are each made of a part without colons, a colon and a
/// rest are the same text only where the parts and the rests are the same.
pub proof fn lemma_split_at_colon(a: Seq<char>, x: Seq<char>, b: Seq<char>, y: Seq<char>)
    requires
        forall|k: int| 0 <= k < a.len() ==> #[trigger] a[k] != ':',
        forall|k: int| 0 <= k < b.len() ==> #[trigger] b[k] != ':',
        a + seq![':'] + x == b + seq![':'] + y,
    ensures
        a == b,
        x == y,
{
    let left = a + seq![':'] + x;
    let right = b + seq![':'] + y;
    if a.len() < b.len() {
        assert(left[a.len() as int] == ':');
        assert(right[a.len() as int] == b[a.len() as int]);
    } else if b.len() < a.len() {
        assert(right[b.len() as int] == ':');
        assert(left[b.len() as int] == a[b.len() as int]);
    }
    assert(left.len() == right.len());
    assert forall|k: int| 0 <= k < a.len() implies a[k] == b[k] by {
        assert(left[k] == a[k]);
        assert(right[k] == b[k]);
    }
    assert(a =~= b);
    assert forall|k: int| 0 <= k < x.len() implies x[k] == y[k] by {
        assert(left[a.len() + 1 + k] == x[k]);
        assert(right[b.len() + 1 + k] == y[k]);
    }
    assert(x =~= y);
}

fn digit_str(d: u64) -> (s: &'static str)
    requires
        d < 10,
    ensures
        s@ == seq![digit_char(d as int)],
{
    proof {
        reveal_strlit("0");
        reveal_strlit("1");
        reveal_strlit("2");
        reveal_strlit("3");
        reveal_strlit("4");
        reveal_strlit("5");
        reveal_strlit("6");
        reveal_strlit("7");
        reveal_strlit("8");
        reveal_strlit("9");
    }
    let s = if d == 0 {
        "0"
    } else if d == 1 {
        "1"
    } else if d == 2 {
        "2"
    } else if d == 3 {
        "3"
    } else if d == 4 {
        "4"
    } else if d == 5 {
        "5"
    } else if d == 6 {
        "6"
    } else if d == 7 {
        "7"
    } else if d == 8 {
        "8"
    } else {
        "9"
    };
    assert(s@ =~= seq![digit_char(d as int)]);
    s
}

/// Appends the decimal digits of `n` to `out`.
pub fn push_nat_decimal(out: &mut String, n: u64)
    ensures
        final(out)@ == old(out)@ + nat_decimal(n as nat),
    decreases n,
{
    if n >= 10 {
        push_nat_decimal(out, n / 10);
    }
    let ghost before = out@;
    out.append(digit_str(n % 10));
    proof {
        if n >= 10 {
            assert(out@ =~= old(out)@ + nat_decimal((n / 10) as nat).push(
                digit_char((n % 10) as int),
            ));
        } else {
            assert(out@ =~= old(out)@ + seq![digit_char(n as int)]);
        }
    }
}

/// Appends the decimal rendering of `i` to `out`.
pub fn push_int_decimal(out: &mut String, i: i64)
    ensures
        final(out)@ == old(out)@ + int_decimal(i as int),
{
    if i < 0 {
        proof {
            reveal_strlit("-");
        }
        out.append("-");
        assert(out@ =~= old(out)@ + seq!['-']);
        // The magnitude of the smallest i64 does not fit in an i64.
        let magnitude: u64 = ((-(i + 1)) as u64) + 1;
        push_nat_decimal(out, magnitude);
        assert(out@ =~= old(out)@ + (seq!['-'] + nat_decimal((-i) as nat)));
    } else {
        push_nat_decimal(out, i as u64);
    }
}

} // verus!
