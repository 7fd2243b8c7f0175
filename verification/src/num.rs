//! Decimal numbers as text: formatting (`to_string`, `{:02}`) and parsing
//! (`from_str`) of integers, over characters.
use vstd::prelude::*;

verus! {

pub open spec fn digit_char(d: nat) -> char {
    (48 + d) as char
}

pub open spec fn is_digit_char(c: char) -> bool {
    48 <= c as u32 <= 57
}

/// The decimal digits of `n`, most significant first, without leading zeros.
pub open spec fn decimal(n: nat) -> Seq<char>
    decreases n,
{
    if n < 10 {
        seq![digit_char(n)]
    } else {
        decimal(n / 10).push(digit_char(n % 10))
    }
}

/// What `to_string` gives for the integer `n`.
pub open spec fn int_text(n: int) -> Seq<char> {
    if n < 0 {
        seq!['-'] + decimal((-n) as nat)
    } else {
        decimal(n as nat)
    }
}

/// What `format!("{:02}", n)` gives: zero-padded to two characters.
pub open spec fn pad2(n: int) -> Seq<char> {
    if 0 <= n < 10 {
        seq!['0'] + decimal(n as nat)
    } else {
        int_text(n)
    }
}

fn digit(d: u64) -> (c: char)
    requires
        d < 10,
    ensures
        c == digit_char(d as nat),
{
    let b: u8 = (48 + d) as u8;
    b as char
}

/// The decimal digits of `n`.
pub fn decimal_chars(n: u64) -> (r: Vec<char>)
    ensures
        r@ == decimal(n as nat),
    decreases n,
{
    if n < 10 {
        let mut v: Vec<char> = Vec::new();
        v.push(digit(n));
        assert(v@ =~= seq![digit_char(n as nat)]);
        v
    } else {
        let mut v = decimal_chars(n / 10);
        v.push(digit(n % 10));
        v
    }
}

/// `n.to_string()`.
pub fn i64_text(n: i64) -> (r: Vec<char>)
    ensures
        r@ == int_text(n as int),
{
    if n < 0 {
        let m: u64 = ((-(n + 1)) as u64) + 1;
        let d = decimal_chars(m);
        let mut v: Vec<char> = Vec::new();
        v.push('-');
        let mut k: usize = 0;
        while k < d.len()
            invariant
                k <= d.len(),
                v@ == seq!['-'] + d@.take(k as int),
            decreases d.len() - k,
        {
            v.push(d[k]);
            k = k + 1;
            assert(v@ =~= seq!['-'] + d@.take(k as int));
        }
        assert(d@.take(k as int) =~= d@);
        v
    } else {
        decimal_chars(n as u64)
    }
}

/// `format!("{:02}", n)`.
pub fn i64_pad2(n: i64) -> (r: Vec<char>)
    ensures
        r@ == pad2(n as int),
{
    if 0 <= n && n < 10 {
        let d = decimal_chars(n as u64);
        let mut v: Vec<char> = Vec::new();
        v.push('0');
        v.push(d[0]);
        assert(v@ =~= seq!['0'] + decimal(n as nat));
        v
    } else {
        i64_text(n)
    }
}

pub open spec fn all_digit_chars(s: Seq<char>) -> bool {
    forall|k: int| 0 <= k < s.len() ==> is_digit_char(#[trigger] s[k])
}

/// The value of a run of decimal digit characters.
pub open spec fn digits_val(s: Seq<char>) -> nat
    decreases s.len(),
{
    if s.len() == 0 {
        0
    } else {
        digits_val(s.drop_last()) * 10 + (s.last() as u32 - 48) as nat
    }
}

/// What `from_str` of an unsigned integer type whose largest value is `max`
/// gives: an optional `+`, at least one ASCII digit, and a value up to `max`.
pub open spec fn parse_unsigned(s: Seq<char>, max: nat) -> Option<nat> {
    let d = if s.len() > 0 && s[0] == '+' { s.drop_first() } else { s };
    if d.len() > 0 && all_digit_chars(d) && digits_val(d) <= max {
        Some(digits_val(d))
    } else {
        None
    }
}

/// What `i64::from_str` gives: an optional sign, at least one ASCII digit,
/// and a value within the range of `i64`.
pub open spec fn parse_i64_spec(s: Seq<char>) -> Option<int> {
    if s.len() > 0 && s[0] == '-' {
        let d = s.drop_first();
        if d.len() > 0 && all_digit_chars(d) && digits_val(d) <= 0x8000_0000_0000_0000 {
            Some(-(digits_val(d) as int))
        } else {
            None
        }
    } else {
        match parse_unsigned(s, 0x7fff_ffff_ffff_ffff) {
            Some(v) => Some(v as int),
            None => None,
        }
    }
}

proof fn lemma_digits_val_push(s: Seq<char>, c: char)
    ensures
        digits_val(s.push(c)) == digits_val(s) * 10 + (c as u32 - 48) as nat,
{
    assert(s.push(c).drop_last() =~= s);
}

proof fn lemma_digits_val_grows(s: Seq<char>, k: int)
    requires
        0 <= k <= s.len(),
        all_digit_chars(s),
    ensures
        digits_val(s.take(k)) <= digits_val(s),
    decreases s.len() - k,
{
    if k < s.len() {
        lemma_digits_val_grows(s, k + 1);
        assert(s.take(k + 1).drop_last() =~= s.take(k));
        assert(digits_val(s.take(k)) <= digits_val(s.take(k)) * 10) by (nonlinear_arith);
    } else {
        assert(s.take(k) =~= s);
    }
}

proof fn lemma_digit_char(d: nat)
    requires
        d < 10,
    ensures
        digit_char(d) as u32 == 48 + d,
        is_digit_char(digit_char(d)),
{
    let x: int = 48 + d as int;
    assert(0 <= x < 0xD800);
    assert((x as char) as u32 == x);
}

proof fn lemma_decimal_digits(n: nat)
    ensures
        decimal(n).len() > 0,
        all_digit_chars(decimal(n)),
        digits_val(decimal(n)) == n,
    decreases n,
{
    if n < 10 {
        lemma_digit_char(n);
        assert(decimal(n) == seq![digit_char(n)]);
        assert(decimal(n).drop_last() =~= Seq::<char>::empty());
        assert(decimal(n).last() == digit_char(n));
        assert(digits_val(Seq::<char>::empty()) == 0);
        assert(digits_val(decimal(n)) == digits_val(decimal(n).drop_last()) * 10 + (decimal(n).last() as u32 - 48) as nat);
    } else {
        lemma_digit_char(n % 10);
        lemma_decimal_digits(n / 10);
        lemma_digits_val_push(decimal(n / 10), digit_char(n % 10));
        assert((n / 10) * 10 + n % 10 == n) by (nonlinear_arith);
        assert forall|k: int| 0 <= k < decimal(n).len() implies is_digit_char(#[trigger] decimal(n)[k]) by {
            if k < decimal(n).len() - 1 {
                assert(decimal(n)[k] == decimal(n / 10)[k]);
            }
        }
    }
}

/// Every character `to_string` gives for an integer is a digit or `-`.
pub proof fn lemma_int_text_chars(n: int)
    ensures
        forall|k: int| 0 <= k < int_text(n).len() ==> is_digit_char(#[trigger] int_text(n)[k]) || int_text(n)[k] == '-',
        int_text(n).len() > 0,
{
    if n < 0 {
        lemma_decimal_digits((-n) as nat);
        assert forall|k: int| 0 <= k < int_text(n).len() implies is_digit_char(#[trigger] int_text(n)[k]) || int_text(n)[k]
            == '-' by {
            if k > 0 {
                assert(int_text(n)[k] == decimal((-n) as nat)[k - 1]);
            }
        }
    } else {
        lemma_decimal_digits(n as nat);
    }
}

/// Reading back the digits of a number gives the number: `from_str` undoes
/// `to_string` for every value the type holds.
pub proof fn law_decimal_round_trip(n: nat, max: nat)
    requires
        n <= max,
    ensures
        parse_unsigned(decimal(n), max) == Some(n),
{
    lemma_decimal_digits(n);
    assert(is_digit_char(decimal(n)[0]));
}

/// `i64::from_str` undoes `i64::to_string`.
pub proof fn law_i64_round_trip(n: i64)
    ensures
        parse_i64_spec(int_text(n as int)) == Some(n as int),
{
    if n < 0 {
        lemma_decimal_digits((-n) as nat);
        assert(int_text(n as int).drop_first() =~= decimal((-n) as nat));
    } else {
        lemma_decimal_digits(n as nat);
        assert(is_digit_char(decimal(n as nat)[0]));
        law_decimal_round_trip(n as nat, 0x7fff_ffff_ffff_ffff);
    }
}

/// The episode format gives two digits below 100, and reading them back
/// gives the episode.
pub proof fn law_episode_format(e: u32)
    ensures
        e < 100 ==> pad2(e as int).len() == 2,
        all_digit_chars(pad2(e as int)),
        parse_unsigned(pad2(e as int), u32::MAX as nat) == Some(e as nat),
{
    lemma_decimal_digits(e as nat);
    if e < 10 {
        lemma_digit_char(e as nat);
        let p = pad2(e as int);
        assert(decimal(e as nat) == seq![digit_char(e as nat)]);
        assert(p =~= seq!['0', digit_char(e as nat)]);
        assert(p.len() == 2);
        assert(p[0] == '0');
        assert forall|k: int| 0 <= k < p.len() implies is_digit_char(#[trigger] p[k]) by {
            if k == 1 {
                assert(p[1] == decimal(e as nat)[0]);
            }
        }
        assert(p.drop_last() =~= seq!['0']);
        assert(seq!['0'].drop_last() =~= Seq::<char>::empty());
        lemma_digits_val_push(seq!['0'], p[1]);
        assert(p =~= seq!['0'].push(p[1]));
        assert(seq!['0'].last() == '0');
        assert(digits_val(seq!['0']) == digits_val(seq!['0'].drop_last()) * 10 + ('0' as u32 - 48) as nat);
        assert(digits_val(seq!['0']) == 0);
        assert(digits_val(p) == e);
    } else {
        assert(e >= 10 && e < 100 ==> decimal(e as nat).len() == 2) by {
            if e < 100 {
                assert(decimal((e / 10) as nat).len() == 1);
            }
        }
        law_decimal_round_trip(e as nat, u32::MAX as nat);
    }
}

/// Reads the digits `s[start..]` as a number no larger than `max`.
fn digits_upto(s: &[char], start: usize, max: u64) -> (r: Option<u64>)
    requires
        start <= s.len(),
    ensures
        ({
            let d = s@.subrange(start as int, s.len() as int);
            match r {
                Some(v) => d.len() > 0 && all_digit_chars(d) && digits_val(d) == v && v <= max,
                None => !(d.len() > 0 && all_digit_chars(d) && digits_val(d) <= max),
            }
        }),
{
    let ghost d = s@.subrange(start as int, s.len() as int);
    if start >= s.len() {
        return None;
    }
    let mut v: u128 = 0;
    let mut k: usize = start;
    while k < s.len()
        invariant
            start <= k <= s.len(),
            d == s@.subrange(start as int, s.len() as int),
            d.len() > 0,
            all_digit_chars(d.take(k - start)),
            v == digits_val(d.take(k - start)),
            v <= max,
        decreases s.len() - k,
    {
        let c = s[k];
        assert(d[k - start] == c);
        let u = c as u32;
        if u < 48 || u > 57 {
            assert(!is_digit_char(d[k - start]));
            assert(!all_digit_chars(d));
            return None;
        }
        proof {
            assert(d.take(k - start + 1) =~= d.take(k - start).push(c));
            lemma_digits_val_push(d.take(k - start), c);
            assert(v * 10 <= max as u128 * 10) by (nonlinear_arith)
                requires
                    v <= max,
            ;
        }
        v = v * 10 + (u - 48) as u128;
        k = k + 1;
        if v > max as u128 {
            proof {
                if all_digit_chars(d) {
                    lemma_digits_val_grows(d, k - start);
                }
            }
            return None;
        }
    }
    assert(d.take(k - start) =~= d);
    Some(v as u64)
}

/// `u64::from_str` with the largest accepted value lowered to `max`.
pub fn parse_unsigned_chars(s: &[char], max: u64) -> (r: Option<u64>)
    ensures
        opt_u64_int(r) == match parse_unsigned(s@, max as nat) {
            Some(v) => Some(v as int),
            None => None,
        },
{
    let start: usize = if s.len() > 0 && s[0] == '+' { 1 } else { 0 };
    assert((if s@.len() > 0 && s@[0] == '+' { s@.drop_first() } else { s@ }) =~= s@.subrange(
        start as int,
        s@.len() as int,
    ));
    digits_upto(s, start, max)
}

pub open spec fn opt_u64_int(r: Option<u64>) -> Option<int> {
    match r {
        Some(x) => Some(x as int),
        None => None,
    }
}

pub open spec fn opt_i64_int(r: Option<i64>) -> Option<int> {
    match r {
        Some(x) => Some(x as int),
        None => None,
    }
}

/// `i64::from_str`.
pub fn parse_i64_chars(s: &[char]) -> (r: Option<i64>)
    ensures
        opt_i64_int(r) == parse_i64_spec(s@),
{
    if s.len() > 0 && s[0] == '-' {
        assert(s@.drop_first() =~= s@.subrange(1, s@.len() as int));
        match digits_upto(s, 1, 0x8000_0000_0000_0000u64) {
            Some(v) => {
                if v == 0x8000_0000_0000_0000u64 {
                    Some(i64::MIN)
                } else {
                    Some(-(v as i64))
                }
            },
            None => None,
        }
    } else {
        match parse_unsigned_chars(s, 0x7fff_ffff_ffff_ffffu64) {
            Some(v) => Some(v as i64),
            None => None,
        }
    }
}

/// `i64::from_str` of a string.
pub fn parse_i64_str(s: &str) -> (r: Option<i64>)
    ensures
        opt_i64_int(r) == parse_i64_spec(s@),
{
    let v = crate::text::chars_of(s);
    parse_i64_chars(v.as_slice())
}

} // verus!
