use vstd::prelude::*;

verus! {

/// The two-operand arithmetic operators.
#[derive(PartialEq, Eq, Structural, Clone, Copy, Debug)]
pub enum Arith {
    Add,
    Sub,
    Mul,
    Div,
    Rem,
    Pow,
}

/// The comparison operators.
#[derive(PartialEq, Eq, Structural, Clone, Copy, Debug)]
pub enum Compare {
    Eq,
    Ne,
    Lt,
    Gt,
    Le,
    Ge,
}

/// A string holding the characters `t`.
pub open spec fn string_of(t: Seq<char>) -> String {
    choose|s: String| s@ == t
}

/// The value that a token spells in the domain `N`.
pub open spec fn parse_of<N: Number>(t: Seq<char>) -> Option<N> {
    N::parse_spec(string_of(t))
}

/// The characters of the text of a value.
pub open spec fn text_of<N: Number>(a: N) -> Seq<char> {
    N::text_spec(a)@
}

/// The values that the engine keeps on its stack. Each operation is a
/// function of its arguments, named by a spec function of the domain.
pub trait Number: Copy + Sized {
    spec fn arith_spec(op: Arith, a: Self, b: Self) -> Self;

    spec fn compare_spec(op: Compare, a: Self, b: Self) -> bool;

    /// The value of an integer.
    spec fn int_spec(i: i32) -> Self;

    /// The value of a count.
    spec fn count_spec(n: usize) -> Self;

    /// The integer part, saturated to the range of `i32`.
    spec fn trunc_spec(a: Self) -> i32;

    fn arith(op: Arith, a: Self, b: Self) -> (r: Self)
        ensures
            r == Self::arith_spec(op, a, b),
    ;

    fn compare(op: Compare, a: Self, b: Self) -> (r: bool)
        ensures
            r == Self::compare_spec(op, a, b),
    ;

    fn from_int(i: i32) -> (r: Self)
        ensures
            r == Self::int_spec(i),
    ;

    fn from_count(n: usize) -> (r: Self)
        ensures
            r == Self::count_spec(n),
    ;

    fn trunc(a: Self) -> (r: i32)
        ensures
            r == Self::trunc_spec(a),
    ;

    /// The value that a token spells, if it spells one; it depends on the
    /// token's characters alone.
    spec fn parse_spec(t: String) -> Option<Self>;

    /// The text of a value.
    spec fn text_spec(a: Self) -> String;

    fn parse(t: &str) -> (r: Option<Self>)
        ensures
            r == Self::parse_spec(string_of(t@)),
    ;

    fn text(a: Self) -> (r: String)
        ensures
            r@ == Self::text_spec(a)@,
    ;
}

/// The character of a decimal digit.
pub open spec fn digit_char(d: int) -> char {
    if 0 <= d <= 9 {
        (d + 48) as char
    } else {
        '?'
    }
}

/// The decimal digits of a natural number, without leading zeros.
pub open spec fn digits(n: nat) -> Seq<char>
    decreases n,
{
    if n < 10 {
        seq![digit_char(n as int)]
    } else {
        digits(n / 10).push(digit_char((n % 10) as int))
    }
}

/// The decimal text of an integer, with a leading `-` when negative.
pub open spec fn decimal(v: int) -> Seq<char> {
    if v < 0 {
        seq!['-'] + digits((-v) as nat)
    } else {
        digits(v as nat)
    }
}

pub open spec fn is_digit(c: char) -> bool {
    '0' <= c <= '9'
}

/// The value of a string of decimal digits.
pub open spec fn digits_value(t: Seq<char>) -> int
    decreases t.len(),
{
    if t.len() == 0 {
        0
    } else {
        digits_value(t.drop_last()) * 10 + (t.last() as int - 48)
    }
}

/// The integer that a token spells as an optional sign and decimal digits,
/// when it lies within `i64`.
pub open spec fn integer_of(t: Seq<char>) -> Option<i64> {
    let neg = t.len() > 0 && t[0] == '-';
    let body = if t.len() > 0 && (t[0] == '-' || t[0] == '+') {
        t.drop_first()
    } else {
        t
    };
    let v = if neg {
        -digits_value(body)
    } else {
        digits_value(body)
    };
    if body.len() > 0 && (forall|i: int| 0 <= i < body.len() ==> is_digit(#[trigger] body[i]))
        && i64::MIN <= v <= i64::MAX {
        Some(v as i64)
    } else {
        None
    }
}

/// Relies on `<i64 as FromStr>::from_str`: an optional `+` or `-` followed by
/// decimal digits, in range.
#[verifier::external_body]
fn parse_i64(t: &str) -> (r: Option<i64>)
    ensures
        r == integer_of(t@),
{
    t.parse::<i64>().ok()
}

/// Relies on `<i64 as ToString>::to_string`: the decimal text of the value.
#[verifier::external_body]
fn i64_text(v: i64) -> (r: String)
    ensures
        r@ == decimal(v as int),
{
    v.to_string()
}

/// `a` raised to `e`, multiplying with wrap-around.
pub open spec fn wrapping_pow(a: i64, e: nat) -> i64
    decreases e,
{
    if e == 0 {
        1
    } else {
        wrapping_pow(a, (e - 1) as nat).wrapping_mul(a)
    }
}

/// Integer arithmetic on `i64`: sums, differences and products wrap around;
/// a quotient or remainder that does not exist (a zero divisor, or the one
/// overflowing quotient) is zero; a negative power is zero.
impl Number for i64 {
    open spec fn arith_spec(op: Arith, a: i64, b: i64) -> i64 {
        match op {
            Arith::Add => a.wrapping_add(b),
            Arith::Sub => a.wrapping_sub(b),
            Arith::Mul => a.wrapping_mul(b),
            Arith::Div => match a.checked_div(b) {
                Some(q) => q,
                None => 0,
            },
            Arith::Rem => match a.checked_rem(b) {
                Some(q) => q,
                None => 0,
            },
            Arith::Pow => if b < 0 {
                0
            } else {
                wrapping_pow(a, b as nat)
            },
        }
    }

    open spec fn compare_spec(op: Compare, a: i64, b: i64) -> bool {
        match op {
            Compare::Eq => a == b,
            Compare::Ne => a != b,
            Compare::Lt => a < b,
            Compare::Gt => a > b,
            Compare::Le => a <= b,
            Compare::Ge => a >= b,
        }
    }

    open spec fn parse_spec(t: String) -> Option<i64> {
        integer_of(t@)
    }

    open spec fn text_spec(a: i64) -> String {
        string_of(decimal(a as int))
    }

    open spec fn int_spec(i: i32) -> i64 {
        i as i64
    }

    open spec fn count_spec(n: usize) -> i64 {
        if n <= i64::MAX {
            n as i64
        } else {
            i64::MAX
        }
    }

    open spec fn trunc_spec(a: i64) -> i32 {
        if a < i32::MIN {
            i32::MIN
        } else if a > i32::MAX {
            i32::MAX
        } else {
            a as i32
        }
    }

    fn arith(op: Arith, a: i64, b: i64) -> (r: i64) {
        match op {
            Arith::Add => a.wrapping_add(b),
            Arith::Sub => a.wrapping_sub(b),
            Arith::Mul => a.wrapping_mul(b),
            Arith::Div => match a.checked_div(b) {
                Some(q) => q,
                None => 0,
            },
            Arith::Rem => match a.checked_rem(b) {
                Some(q) => q,
                None => 0,
            },
            Arith::Pow => {
                if b < 0 {
                    0
                } else {
                    let mut acc: i64 = 1;
                    let mut k: i64 = 0;
                    while k < b
                        invariant
                            0 <= k <= b,
                            acc == wrapping_pow(a, k as nat),
                        decreases b - k,
                    {
                        acc = acc.wrapping_mul(a);
                        k += 1;
                    }
                    acc
                }
            },
        }
    }

    fn compare(op: Compare, a: i64, b: i64) -> (r: bool) {
        match op {
            Compare::Eq => a == b,
            Compare::Ne => a != b,
            Compare::Lt => a < b,
            Compare::Gt => a > b,
            Compare::Le => a <= b,
            Compare::Ge => a >= b,
        }
    }

    fn from_int(i: i32) -> (r: i64) {
        i as i64
    }

    fn from_count(n: usize) -> (r: i64) {
        if n as u128 <= i64::MAX as u128 {
            n as i64
        } else {
            i64::MAX
        }
    }

    fn trunc(a: i64) -> (r: i32) {
        if a < i32::MIN as i64 {
            i32::MIN
        } else if a > i32::MAX as i64 {
            i32::MAX
        } else {
            a as i32
        }
    }

    fn parse(t: &str) -> (r: Option<i64>) {
        let owned = t.to_owned();
        assert(owned@ == t@);
        parse_i64(t)
    }

    fn text(a: i64) -> (r: String) {
        let r = i64_text(a);
        assert(r@ == decimal(a as int));
        r
    }
}

} // verus!
