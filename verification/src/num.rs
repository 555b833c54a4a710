use vstd::prelude::*;

verus! {

/// The character of a decimal digit.
pub open spec fn digit_char(d: int) -> char {
    if d == 0 {
        '0'
    } else if d == 1 {
        '1'
    } else if d == 2 {
        '2'
    } else if d == 3 {
        '3'
    } else if d == 4 {
        '4'
    } else if d == 5 {
        '5'
    } else if d == 6 {
        '6'
    } else if d == 7 {
        '7'
    } else if d == 8 {
        '8'
    } else {
        '9'
    }
}

/// The decimal digits of `n`, without leading zeros (`"0"` for zero).
pub open spec fn decimal(n: nat) -> Seq<char>
    decreases n,
{
    if n < 10 {
        seq![digit_char(n as int)]
    } else {
        decimal(n / 10).push(digit_char((n % 10) as int))
    }
}

/// `n` in decimal, padded with zeros to at least two digits (`{:02}`).
pub open spec fn two_digits(n: nat) -> Seq<char> {
    if n < 10 {
        seq!['0'] + decimal(n)
    } else {
        decimal(n)
    }
}

pub fn digit(d: u64) -> (c: char)
    requires
        d < 10,
    ensures
        c == digit_char(d as int),
{
    if d == 0 {
        '0'
    } else if d == 1 {
        '1'
    } else if d == 2 {
        '2'
    } else if d == 3 {
        '3'
    } else if d == 4 {
        '4'
    } else if d == 5 {
        '5'
    } else if d == 6 {
        '6'
    } else if d == 7 {
        '7'
    } else if d == 8 {
        '8'
    } else {
        '9'
    }
}

/// The decimal digits of `n`.
pub fn decimal_chars(n: u64) -> (r: Vec<char>)
    ensures
        r@ == decimal(n as nat),
    decreases n,
{
    if n < 10 {
        let mut v: Vec<char> = Vec::new();
        v.push(digit(n));
        assert(v@ =~= decimal(n as nat));
        v
    } else {
        let mut v = decimal_chars(n / 10);
        v.push(digit(n % 10));
        v
    }
}

/// `n` with at least two digits.
pub fn two_digit_chars(n: u64) -> (r: Vec<char>)
    ensures
        r@ == two_digits(n as nat),
{
    if n < 10 {
        let mut v: Vec<char> = Vec::new();
        v.push('0');
        let d = decimal_chars(n);
        crate::text::extend(&mut v, &d);
        assert(v@ =~= two_digits(n as nat));
        v
    } else {
        decimal_chars(n)
    }
}

pub open spec fn is_digit(c: char) -> bool {
    '0' <= c && c <= '9'
}

/// The value of a string of decimal digits.
pub open spec fn digits_value(s: Seq<char>) -> nat
    decreases s.len(),
{
    if s.len() == 0 {
        0
    } else {
        digits_value(s.drop_last()) * 10 + ((s.last() as int - '0' as int) as nat)
    }
}

/// The digits part of an unsigned number: the text without one leading `'+'`.
pub open spec fn unsigned_digits(s: Seq<char>) -> Seq<char> {
    if s.len() > 0 && s[0] == '+' {
        s.drop_first()
    } else {
        s
    }
}

/// What `str::parse` gives for an unsigned integer type whose largest value is
/// `max`: an optional `'+'`, then at least one ASCII digit, and a value up to `max`.
pub open spec fn parse_unsigned_spec(s: Seq<char>, max: nat) -> Option<nat> {
    let d = unsigned_digits(s);
    if d.len() > 0 && (forall|i: int| 0 <= i < d.len() ==> is_digit(#[trigger] d[i]))
        && digits_value(d) <= max {
        Some(digits_value(d))
    } else {
        None
    }
}

proof fn lemma_capped_step(a: nat, d: nat, m: nat)
    requires
        d < 10,
        m >= 1,
    ensures
        (if (if a < m { a } else { m }) * 10 + d < m {
            (if a < m { a } else { m }) * 10 + d
        } else {
            m
        }) == (if a * 10 + d < m {
            a * 10 + d
        } else {
            m
        }),
{
    if a >= m {
        assert(m * 10 + d >= m) by (nonlinear_arith)
            requires
                m >= 1,
        ;
        assert(a * 10 + d >= m) by (nonlinear_arith)
            requires
                a >= m,
                m >= 1,
        ;
    }
}

/// Parses an unsigned decimal number no larger than `max` (see `parse_unsigned_spec`).
pub fn parse_unsigned(s: &str, max: u32) -> (r: Option<u32>)
    ensures
        match r {
            Some(v) => parse_unsigned_spec(s@, max as nat) == Some(v as nat),
            None => parse_unsigned_spec(s@, max as nat) is None,
        },
{
    let c = crate::text::to_chars(s);
    let start: usize = if c.len() > 0 && c[0] == '+' {
        1
    } else {
        0
    };
    let ghost d = unsigned_digits(s@);
    assert(d =~= c@.skip(start as int));
    if start >= c.len() {
        return None;
    }
    let cap: u64 = max as u64 + 1;
    let mut v: u64 = 0;
    let mut i: usize = start;
    assert(c@.subrange(start as int, start as int) =~= Seq::<char>::empty());
    while i < c.len()
        invariant
            start <= i <= c.len(),
            d == c@.skip(start as int),
            d == unsigned_digits(s@),
            cap == max + 1,
            cap <= 0x1_0000_0000,
            v == (if digits_value(c@.subrange(start as int, i as int)) < cap {
                digits_value(c@.subrange(start as int, i as int))
            } else {
                cap as nat
            }),
            forall|j: int| start <= j < i ==> is_digit(#[trigger] c@[j]),
        decreases c.len() - i,
    {
        let ch = c[i];
        if !('0' <= ch && ch <= '9') {
            assert(d[i - start] == ch);
            assert(!is_digit(d[i - start]));
            assert(unsigned_digits(s@) == d);
            assert(!(forall|j: int| 0 <= j < d.len() ==> is_digit(#[trigger] d[j])));
            assert(parse_unsigned_spec(s@, max as nat) is None);
            return None;
        }
        let dv: u64 = (ch as u64) - ('0' as u64);
        let ghost prev = c@.subrange(start as int, i as int);
        let next = v * 10 + dv;
        proof {
            assert(c@.subrange(start as int, i + 1).drop_last() =~= prev);
            lemma_capped_step(digits_value(prev), dv as nat, cap as nat);
        }
        v = if next < cap {
            next
        } else {
            cap
        };
        i = i + 1;
    }
    assert(c@.subrange(start as int, c.len() as int) =~= d);
    assert forall|j: int| 0 <= j < d.len() implies is_digit(#[trigger] d[j]) by {
        assert(d[j] == c@[start + j]);
    }
    if v < cap {
        Some(v as u32)
    } else {
        None
    }
}

/// What `str::parse::<bool>` gives: `true` and `false`, exactly.
pub open spec fn parse_bool_spec(s: Seq<char>) -> Option<bool> {
    if s == "true"@ {
        Some(true)
    } else if s == "false"@ {
        Some(false)
    } else {
        None
    }
}

pub fn parse_bool(s: &str) -> (r: Option<bool>)
    ensures
        r == parse_bool_spec(s@),
{
    let c = crate::text::to_chars(s);
    let t = crate::text::to_chars("true");
    let f = crate::text::to_chars("false");
    if crate::text::chars_eq(&c, &t) {
        Some(true)
    } else if crate::text::chars_eq(&c, &f) {
        Some(false)
    } else {
        None
    }
}

} // verus!

verus! {

/// Division rounded toward zero, as Rust's `/` on signed integers.
pub open spec fn tdiv(a: int, b: int) -> int {
    if a >= 0 {
        a / b
    } else {
        -((-a) / b)
    }
}

/// The remainder of `tdiv`, as Rust's `%` on signed integers.
pub open spec fn trem(a: int, b: int) -> int {
    a - b * tdiv(a, b)
}

/// `x` in decimal with a leading `-` when negative.
pub open spec fn signed_decimal(x: int) -> Seq<char> {
    if x < 0 {
        seq!['-'] + decimal((-x) as nat)
    } else {
        decimal(x as nat)
    }
}

pub fn signed_decimal_chars(x: i64) -> (r: Vec<char>)
    requires
        x > i64::MIN,
    ensures
        r@ == signed_decimal(x as int),
{
    if x < 0 {
        let mut v: Vec<char> = Vec::new();
        v.push('-');
        let d = decimal_chars((-x) as u64);
        crate::text::extend(&mut v, &d);
        assert(v@ =~= signed_decimal(x as int));
        v
    } else {
        decimal_chars(x as u64)
    }
}

} // verus!
