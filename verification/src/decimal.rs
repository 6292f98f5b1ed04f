//! Decimal text for integers, as Rust's `Display` writes it and as
//! `str::parse` reads it: used to build exchange queries and to read
//! integer settings and leverage values.

use vstd::prelude::*;

verus! {

/// The ASCII character of a decimal digit.
pub open spec fn digit_char(d: nat) -> char {
    if d == 0 {
        '0'
    } else if d == 1 {
        '1'
    } else if d == 2 {
        '2'
    } else if d == 3 {
        '3'
    } else if d == 4 {
        '4'
    } else if d == 5 {
        '5'
    } else if d == 6 {
        '6'
    } else if d == 7 {
        '7'
    } else if d == 8 {
        '8'
    } else {
        '9'
    }
}

/// Whether `c` is one of the ASCII digits `0`..=`9`.
pub open spec fn is_digit(c: char) -> bool {
    48 <= (c as u32) && (c as u32) <= 57
}

/// The value of an ASCII digit.
pub open spec fn digit_value(c: char) -> nat {
    ((c as u32) - 48) as nat
}

/// Every character of `ds` is an ASCII digit.
pub open spec fn all_digits(ds: Seq<char>) -> bool {
    forall|i: int| 0 <= i < ds.len() ==> is_digit(#[trigger] ds[i])
}

/// The number that a string of decimal digits denotes.
pub open spec fn digits_value(ds: Seq<char>) -> nat
    decreases ds.len(),
{
    if ds.len() == 0 {
        0
    } else {
        digits_value(ds.drop_last()) * 10 + digit_value(ds.last())
    }
}

/// The shortest decimal text of `n`, without sign or leading zeros.
pub open spec fn decimal(n: nat) -> Seq<char>
    decreases n,
{
    if n < 10 {
        seq![digit_char(n)]
    } else {
        decimal(n / 10).push(digit_char(n % 10))
    }
}

/// The decimal text of a signed integer: a `-` before the digits when negative.
pub open spec fn decimal_signed(n: int) -> Seq<char> {
    if n < 0 {
        seq!['-'] + decimal((-n) as nat)
    } else {
        decimal(n as nat)
    }
}

/// What an unsigned integer parse reads from `s`: an optional leading `+`,
/// then one or more ASCII digits and nothing else; `None` for any other text.
pub open spec fn unsigned_value(s: Seq<char>) -> Option<nat> {
    let ds = if s.len() > 0 && s[0] == '+' {
        s.drop_first()
    } else {
        s
    };
    if ds.len() > 0 && all_digits(ds) {
        Some(digits_value(ds))
    } else {
        None
    }
}

/// What parsing `s` as an unsigned integer no larger than `max` yields.
pub open spec fn bounded_value(s: Seq<char>, max: nat) -> Option<nat> {
    match unsigned_value(s) {
        Some(v) => if v <= max {
            Some(v)
        } else {
            None
        },
        None => None,
    }
}

proof fn lemma_digit_char(d: nat)
    requires
        d < 10,
    ensures
        is_digit(digit_char(d)),
        digit_value(digit_char(d)) == d,
{
}

/// The decimal text of `n` is made of digits only and denotes `n`.
pub proof fn lemma_decimal_denotes(n: nat)
    ensures
        decimal(n).len() > 0,
        all_digits(decimal(n)),
        digits_value(decimal(n)) == n,
        decimal(n)[0] != '+',
        decimal(n)[0] != '-',
    decreases n,
{
    if n < 10 {
        lemma_digit_char(n);
        assert(decimal(n).drop_last() =~= Seq::<char>::empty());
        assert(digits_value(Seq::<char>::empty()) == 0);
    } else {
        lemma_decimal_denotes(n / 10);
        lemma_digit_char(n % 10);
        let s = decimal(n);
        assert(s.drop_last() =~= decimal(n / 10));
        assert forall|i: int| 0 <= i < s.len() implies is_digit(#[trigger] s[i]) by {
            if i < s.len() - 1 {
                assert(s[i] == decimal(n / 10)[i]);
            }
        }
        assert(s[0] == decimal(n / 10)[0]);
        assert(digits_value(s) == digits_value(s.drop_last()) * 10 + digit_value(s.last()));
        assert(s.last() == digit_char(n % 10));
        assert((n / 10) * 10 + n % 10 == n) by (nonlinear_arith);
    }
}

/// Reading back the decimal text of a number gives the number: the parse
/// undoes the formatting.
pub proof fn lemma_parse_undoes_format(n: nat)
    ensures
        unsigned_value(decimal(n)) == Some(n),
{
    lemma_decimal_denotes(n);
}

/// A bounded parse accepts only a nonempty run of ASCII digits, with at most
/// a leading `+`, and never yields a value above the bound; any such text
/// whose value fits is accepted with that value; and the decimal text of
/// every number within the bound is read back as that number.
pub proof fn lemma_bounded_parse_accepts_exactly_digits(s: Seq<char>, max: nat, n: nat)
    ensures
        bounded_value(s, max) is Some ==> s.len() > 0 && !(s.len() == 1 && s[0] == '+')
            && bounded_value(s, max)->0 <= max && forall|i: int|
            0 <= i < s.len() ==> (i == 0 && s[0] == '+') || (48 <= (#[trigger] s[i]) as u32
                && (s[i] as u32) <= 57),
        s.len() > 0 && (forall|i: int| 0 <= i < s.len() ==> 48 <= (#[trigger] s[i]) as u32 && (
        s[i] as u32) <= 57) && digits_value(s) <= max ==> bounded_value(s, max) == Some(
            digits_value(s),
        ),
        n <= max ==> bounded_value(decimal(n), max) == Some(n),
{
    lemma_decimal_denotes(n);
    if bounded_value(s, max) is Some {
        if s[0] == '+' {
            let ds = s.drop_first();
            assert forall|i: int| 0 <= i < s.len() implies (i == 0 && s[0] == '+') || (48 <= (
            #[trigger] s[i]) as u32 && (s[i] as u32) <= 57) by {
                if i > 0 {
                    assert(s[i] == ds[i - 1]);
                }
            }
        }
    }
    if s.len() > 0 && (forall|i: int| 0 <= i < s.len() ==> 48 <= (#[trigger] s[i]) as u32 && (
    s[i] as u32) <= 57) {
        assert(s[0] != '+') by {
            assert(48 <= (s[0] as u32));
        }
        assert(all_digits(s));
    }
}

/// The one-character text of a decimal digit.
fn digit_str(d: u64) -> (r: &'static str)
    requires
        d < 10,
    ensures
        r@ == seq![digit_char(d as nat)],
{
    if d == 0 {
        proof { reveal_strlit("0"); }
        "0"
    } else if d == 1 {
        proof { reveal_strlit("1"); }
        "1"
    } else if d == 2 {
        proof { reveal_strlit("2"); }
        "2"
    } else if d == 3 {
        proof { reveal_strlit("3"); }
        "3"
    } else if d == 4 {
        proof { reveal_strlit("4"); }
        "4"
    } else if d == 5 {
        proof { reveal_strlit("5"); }
        "5"
    } else if d == 6 {
        proof { reveal_strlit("6"); }
        "6"
    } else if d == 7 {
        proof { reveal_strlit("7"); }
        "7"
    } else if d == 8 {
        proof { reveal_strlit("8"); }
        "8"
    } else {
        proof { reveal_strlit("9"); }
        "9"
    }
}

/// Appends the decimal text of `n` to `out`.
pub fn push_decimal(out: &mut String, n: u64)
    ensures
        final(out)@ == old(out)@ + decimal(n as nat),
    decreases n,
{
    if n < 10 {
        out.append(digit_str(n));
    } else {
        push_decimal(out, n / 10);
        out.append(digit_str(n % 10));
        assert(decimal(n as nat) == decimal((n / 10) as nat).push(digit_char((n % 10) as nat)));
        assert(final(out)@ =~= old(out)@ + decimal(n as nat)) by {
            assert(old(out)@ + decimal((n / 10) as nat) + seq![digit_char((n % 10) as nat)]
                =~= old(out)@ + decimal(n as nat));
        }
    }
}

/// Appends the decimal text of a signed `n`, with `-` when negative.
pub fn push_decimal_signed(out: &mut String, n: i64)
    ensures
        final(out)@ == old(out)@ + decimal_signed(n as int),
{
    if n < 0 {
        proof { reveal_strlit("-"); }
        out.append("-");
        let m: u64 = (-(n as i128)) as u64;
        push_decimal(out, m);
        assert(final(out)@ =~= old(out)@ + decimal_signed(n as int));
    } else {
        push_decimal(out, n as u64);
    }
}

/// The decimal text of `n`, as `n.to_string()` gives it.
pub fn format_u64(n: u64) -> (r: String)
    ensures
        r@ == decimal(n as nat),
{
    let mut s = String::new();
    push_decimal(&mut s, n);
    assert(s@ =~= decimal(n as nat));
    s
}

/// The decimal text of a signed `n`, as `n.to_string()` gives it.
pub fn format_i64(n: i64) -> (r: String)
    ensures
        r@ == decimal_signed(n as int),
{
    let mut s = String::new();
    push_decimal_signed(&mut s, n);
    assert(s@ =~= decimal_signed(n as int));
    s
}

/// Parses `s` as an unsigned decimal no larger than `max`: an optional `+`,
/// then digits only. `None` for empty text, any other character, or a value
/// above `max`.
pub fn parse_bounded(s: &str, max: u64) -> (r: Option<u64>)
    ensures
        r matches Some(v) ==> bounded_value(s@, max as nat) == Some(v as nat),
        r is None ==> bounded_value(s@, max as nat) is None,
{
    let n = s.unicode_len();
    let mut start: usize = 0;
    if n > 0 && s.get_char(0) == '+' {
        start = 1;
    }
    let ghost ds: Seq<char> = s@.subrange(start as int, n as int);
    assert(ds =~= (if s@.len() > 0 && s@[0] == '+' { s@.drop_first() } else { s@ }));
    if start >= n {
        return None;
    }
    let mut acc: u64 = 0;
    let mut over = false;
    let mut i: usize = start;
    while i < n
        invariant
            n == s@.len(),
            start <= i <= n,
            ds == s@.subrange(start as int, n as int),
            ds == (if s@.len() > 0 && s@[0] == '+' { s@.drop_first() } else { s@ }),
            all_digits(s@.subrange(start as int, i as int)),
            !over ==> acc as nat == digits_value(s@.subrange(start as int, i as int)),
            !over ==> acc <= max,
            over ==> digits_value(s@.subrange(start as int, i as int)) > max,
        decreases n - i,
    {
        let c = s.get_char(i);
        let code = c as u32;
        if code < 48 || code > 57 {
            assert(!is_digit(ds[i - start]));
            return None;
        }
        let d: u64 = (code - 48) as u64;
        let ghost prev = s@.subrange(start as int, i as int);
        let ghost next = s@.subrange(start as int, i + 1);
        assert(next.drop_last() =~= prev);
        assert(next.last() == c);
        assert(digits_value(next) == digits_value(prev) * 10 + d);
        assert forall|j: int| 0 <= j < next.len() implies is_digit(#[trigger] next[j]) by {
            if j < prev.len() {
                assert(next[j] == prev[j]);
            }
        }
        if !over {
            if d > max || acc > (max - d) / 10 {
                over = true;
                assert(acc * 10 + d > max) by (nonlinear_arith)
                    requires
                        d > max || acc > (max - d) / 10,
                ;
            } else {
                assert(acc * 10 + d <= max) by (nonlinear_arith)
                    requires
                        acc <= (max - d) / 10,
                        d <= max,
                ;
                acc = acc * 10 + d;
            }
        }
        i += 1;
    }
    assert(s@.subrange(start as int, n as int) == ds);
    if over {
        None
    } else {
        Some(acc)
    }
}

/// `s.parse::<u32>()`, as an `Option`.
pub fn parse_u32(s: &str) -> (r: Option<u32>)
    ensures
        r matches Some(v) ==> bounded_value(s@, u32::MAX as nat) == Some(v as nat),
        r is None ==> bounded_value(s@, u32::MAX as nat) is None,
{
    match parse_bounded(s, u32::MAX as u64) {
        Some(v) => Some(v as u32),
        None => None,
    }
}

/// `s.parse::<usize>()`, as an `Option`.
pub fn parse_usize(s: &str) -> (r: Option<usize>)
    ensures
        r matches Some(v) ==> bounded_value(s@, usize::MAX as nat) == Some(v as nat),
        r is None ==> bounded_value(s@, usize::MAX as nat) is None,
{
    match parse_bounded(s, usize::MAX as u64) {
        Some(v) => Some(v as usize),
        None => None,
    }
}

} // verus!
