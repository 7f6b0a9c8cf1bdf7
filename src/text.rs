//! Character-level helpers for the textual id forms: decimal numbers and
//! colon-separated fields.
use vstd::prelude::*;

verus! {

/// Relies on `str::chars` collected into a `Vec`: the characters of `s`.
#[verifier::external_body]
pub(crate) fn chars_of(s: &str) -> (r: Vec<char>)
    ensures
        r@ == s@,
{
    s.chars().collect()
}

/// Relies on collecting characters into a `String`: the string of `v`.
#[verifier::external_body]
pub(crate) fn string_from(v: &Vec<char>) -> (r: String)
    ensures
        r@ == v@,
{
    v.iter().collect()
}

/// A character with the Unicode White_Space property.
pub open spec fn is_white_space(c: char) -> bool {
    let u = c as u32;
    (9 <= u && u <= 13) || u == 0x20 || u == 0x85 || u == 0xA0 || u == 0x1680 || (0x2000 <= u && u <= 0x200A)
        || u == 0x2028 || u == 0x2029 || u == 0x202F || u == 0x205F || u == 0x3000
}

/// First index at or after `i` that is not white space (or the length).
pub open spec fn skip_ws(s: Seq<char>, i: int) -> int
    decreases s.len() - i,
{
    if 0 <= i < s.len() && is_white_space(s[i]) {
        skip_ws(s, i + 1)
    } else {
        i
    }
}

/// Moves `j` back over white space, not below `lo`.
pub open spec fn back_ws(s: Seq<char>, lo: int, j: int) -> int
    decreases j - lo,
{
    if lo < j && j <= s.len() && is_white_space(s[j - 1]) {
        back_ws(s, lo, j - 1)
    } else {
        j
    }
}

/// `s` without leading and trailing white space.
pub open spec fn trim_ws(s: Seq<char>) -> Seq<char> {
    let a = skip_ws(s, 0);
    s.subrange(a, back_ws(s, a, s.len() as int))
}

fn white(c: char) -> (r: bool)
    ensures
        r == is_white_space(c),
{
    let u = c as u32;
    (9 <= u && u <= 13) || u == 0x20 || u == 0x85 || u == 0xA0 || u == 0x1680 || (0x2000 <= u && u <= 0x200A)
        || u == 0x2028 || u == 0x2029 || u == 0x202F || u == 0x205F || u == 0x3000
}

/// A copy of `s` without leading and trailing white space.
pub fn trim_chars(s: &Vec<char>) -> (r: Vec<char>)
    ensures
        r@ == trim_ws(s@),
{
    let n = s.len();
    let mut a: usize = 0;
    while a < n && white(s[a])
        invariant
            a <= n == s@.len(),
            skip_ws(s@, a as int) == skip_ws(s@, 0),
        decreases n - a,
    {
        a = a + 1;
    }
    let mut b: usize = n;
    while b > a && white(s[b - 1])
        invariant
            a <= b <= n == s@.len(),
            a == skip_ws(s@, 0),
            back_ws(s@, a as int, b as int) == back_ws(s@, a as int, n as int),
        decreases b - a,
    {
        b = b - 1;
    }
    let mut out: Vec<char> = Vec::new();
    let mut i: usize = a;
    while i < b
        invariant
            a <= i <= b <= n == s@.len(),
            out@ == s@.subrange(a as int, i as int),
        decreases b - i,
    {
        out.push(s[i]);
        i = i + 1;
        assert(out@ =~= s@.subrange(a as int, i as int));
    }
    out
}

/// An ASCII decimal digit.
pub open spec fn is_digit(c: char) -> bool {
    '0' <= c && c <= '9'
}

/// The digit character for `d < 10`.
pub open spec fn digit_char(d: nat) -> char {
    ((d + 48) as u8) as char
}

/// The value of the digit character `c`.
pub open spec fn digit_of(c: char) -> nat {
    (c as nat - 48) as nat
}

/// The decimal digits of `n`, without leading zeros ("0" for zero).
pub open spec fn decimal(n: nat) -> Seq<char>
    decreases n,
{
    if n < 10 {
        seq![digit_char(n)]
    } else {
        decimal(n / 10).push(digit_char(n % 10))
    }
}

/// Appends the decimal digits of `n`.
pub fn push_decimal(v: &mut Vec<char>, n: u32)
    ensures
        final(v)@ == old(v)@ + decimal(n as nat),
    decreases n,
{
    if n >= 10 {
        push_decimal(v, n / 10);
    }
    let d = (n % 10) as u8;
    v.push((d + 48) as char);
    proof {
        assert(((d + 48) as u8) as char == digit_char((n % 10) as nat));
        if n >= 10 {
            assert(v@ =~= old(v)@ + decimal(n as nat));
        } else {
            assert(v@ =~= old(v)@ + decimal(n as nat));
        }
    }
}

/// Appends the decimal digits of `n`.
pub fn push_decimal_u64(v: &mut Vec<char>, n: u64)
    ensures
        final(v)@ == old(v)@ + decimal(n as nat),
    decreases n,
{
    if n >= 10 {
        push_decimal_u64(v, n / 10);
    }
    let d = (n % 10) as u8;
    v.push((d + 48) as char);
    proof {
        assert(((d + 48) as u8) as char == digit_char((n % 10) as nat));
        assert(v@ =~= old(v)@ + decimal(n as nat));
    }
}

/// Appends the characters of `s`.
pub fn push_chars(v: &mut Vec<char>, s: &Vec<char>)
    ensures
        final(v)@ == old(v)@ + s@,
{
    let mut i: usize = 0;
    while i < s.len()
        invariant
            i <= s@.len(),
            v@ == old(v)@ + s@.subrange(0, i as int),
        decreases s@.len() - i,
    {
        v.push(s[i]);
        i = i + 1;
        assert(v@ =~= old(v)@ + s@.subrange(0, i as int));
    }
    assert(s@.subrange(0, s@.len() as int) =~= s@);
}

/// The number that the digits `s` spell.
pub open spec fn digits_val(s: Seq<char>) -> nat
    decreases s.len(),
{
    if s.len() == 0 {
        0
    } else {
        digits_val(s.drop_last()) * 10 + digit_of(s.last())
    }
}

/// Every character is a digit.
pub open spec fn all_digits(s: Seq<char>) -> bool {
    forall|i: int| 0 <= i < s.len() ==> is_digit(#[trigger] s[i])
}

/// An unsigned decimal number no larger than `max`, with an optional
/// leading `+`, as Rust's integer parsing reads it.
pub open spec fn parse_nat(s: Seq<char>, max: nat) -> Option<nat> {
    let t = if s.len() > 0 && s[0] == '+' { s.drop_first() } else { s };
    if t.len() > 0 && all_digits(t) && digits_val(t) <= max {
        Some(digits_val(t))
    } else {
        None
    }
}

proof fn lemma_digits_grow(s: Seq<char>, i: int)
    requires
        0 <= i <= s.len(),
        all_digits(s),
    ensures
        digits_val(s.subrange(0, i)) <= digits_val(s),
    decreases s.len() - i,
{
    if i < s.len() {
        lemma_digits_grow(s, i + 1);
        assert(s.subrange(0, i + 1).drop_last() =~= s.subrange(0, i));
    } else {
        assert(s.subrange(0, i) =~= s);
    }
}

/// Parses `s[from..to]` as `parse_nat` does.
pub fn parse_nat_range(s: &Vec<char>, from: usize, to: usize, max: u64) -> (r: Option<u64>)
    requires
        from <= to <= s@.len(),
    ensures
        match parse_nat(s@.subrange(from as int, to as int), max as nat) {
            Some(n) => r == Some(n as u64),
            None => r is None,
        },
{
    let ghost whole = s@.subrange(from as int, to as int);
    let mut start = from;
    if from < to && s[from] == '+' {
        start = from + 1;
        assert(whole.len() > 0 && whole[0] == '+');
        assert(whole.drop_first() =~= s@.subrange(start as int, to as int));
    } else {
        assert(whole =~= s@.subrange(start as int, to as int));
        assert(!(whole.len() > 0 && whole[0] == '+'));
    }
    let ghost t = s@.subrange(start as int, to as int);
    if start == to {
        assert(t.len() == 0);
        return None;
    }
    let mut acc: u64 = 0;
    let mut i: usize = start;
    while i < to
        invariant
            start <= i <= to <= s@.len(),
            t == s@.subrange(start as int, to as int),
            whole == s@.subrange(from as int, to as int),
            t == (if whole.len() > 0 && whole[0] == '+' { whole.drop_first() } else { whole }),
            acc as nat == digits_val(s@.subrange(start as int, i as int)),
            acc <= max,
            forall|k: int| start <= k < i ==> is_digit(s@[k]),
        decreases to - i,
    {
        let c = s[i];
        if !('0' <= c && c <= '9') {
            assert(!is_digit(t[i - start]));
            assert(!all_digits(t));
            return None;
        }
        let d = (c as u32 - 48) as u128;
        assert(s@.subrange(start as int, i + 1).drop_last() =~= s@.subrange(start as int, i as int));
        let next: u128 = acc as u128 * 10 + d;
        assert(digits_val(s@.subrange(start as int, i + 1)) == next);
        if next > max as u128 {
            proof {
                assert forall|k: int| 0 <= k < i + 1 - start implies is_digit(#[trigger] s@.subrange(start as int, i + 1)[k]) by {
                    assert(s@.subrange(start as int, i + 1)[k] == s@[start + k]);
                }
                if all_digits(t) {
                    lemma_digits_grow(t, i + 1 - start);
                    assert(t.subrange(0, i + 1 - start) =~= s@.subrange(start as int, i + 1));
                    assert(digits_val(t) > max);
                }
            }
            return None;
        }
        acc = next as u64;
        i = i + 1;
    }
    proof {
        assert(s@.subrange(start as int, i as int) =~= t);
        assert forall|k: int| 0 <= k < t.len() implies is_digit(#[trigger] t[k]) by {
            assert(t[k] == s@[start + k]);
        }
    }
    Some(acc)
}

/// A signed decimal number in the `i32` range, with an optional leading
/// `+` or `-`, as Rust's integer parsing reads it.
pub open spec fn parse_i32(s: Seq<char>) -> Option<int> {
    if s.len() > 0 && s[0] == '-' {
        let t = s.drop_first();
        if t.len() > 0 && all_digits(t) && digits_val(t) <= 2147483648 {
            Some(-(digits_val(t) as int))
        } else {
            None
        }
    } else {
        match parse_nat(s, 2147483647) {
            Some(n) => Some(n as int),
            None => None,
        }
    }
}

/// Parses `s[from..to]` as `parse_i32` does.
pub fn parse_i32_range(s: &Vec<char>, from: usize, to: usize) -> (r: Option<i32>)
    requires
        from <= to <= s@.len(),
    ensures
        match parse_i32(s@.subrange(from as int, to as int)) {
            Some(n) => r == Some(n as i32),
            None => r is None,
        },
{
    let ghost whole = s@.subrange(from as int, to as int);
    if from < to && s[from] == '-' {
        assert(whole.drop_first() =~= s@.subrange(from + 1, to as int));
        if from + 1 < to && s[from + 1] == '+' {
            assert(!is_digit(whole.drop_first()[0]));
            return None;
        }
        let ghost t = s@.subrange(from + 1, to as int);
        match parse_nat_range(s, from + 1, to, 2147483648) {
            Some(n) => {
                proof {
                    assert(!(t.len() > 0 && t[0] == '+'));
                }
                Some((0 - n as i64) as i32)
            },
            None => {
                proof {
                    assert(!(t.len() > 0 && t[0] == '+'));
                }
                None
            },
        }
    } else {
        match parse_nat_range(s, from, to, 2147483647) {
            Some(n) => Some(n as i32),
            None => None,
        }
    }
}

/// Index of the first `:` at or after `i`, or -1.
pub open spec fn colon_from(s: Seq<char>, i: int) -> int
    decreases s.len() - i,
{
    if i < 0 || i >= s.len() {
        -1
    } else if s[i] == ':' {
        i
    } else {
        colon_from(s, i + 1)
    }
}

/// The `:`-separated fields of `s[start..end]`, as `(from, to)` ranges.
pub open spec fn fields_from(s: Seq<char>, start: int, end: int) -> Seq<(int, int)>
    decreases end - start,
{
    let k = colon_from(s.subrange(0, end), start);
    if start > end || k < start || k >= end {
        seq![(start, end)]
    } else {
        seq![(start, k)] + fields_from(s, k + 1, end)
    }
}

/// The field ranges of `s[start..end]`, split at every `:`.
pub fn split_fields(s: &Vec<char>, start: usize, end: usize) -> (r: Vec<(usize, usize)>)
    requires
        start <= end <= s@.len(),
    ensures
        r@.len() == fields_from(s@, start as int, end as int).len(),
        forall|k: int| 0 <= k < r@.len() ==> (#[trigger] r@[k]).0 as int == fields_from(s@, start as int, end as int)[k].0
            && r@[k].1 as int == fields_from(s@, start as int, end as int)[k].1
            && r@[k].0 <= r@[k].1 <= end,
{
    let ghost pre = s@.subrange(0, end as int);
    let mut out: Vec<(usize, usize)> = Vec::new();
    let mut from = start;
    let mut i = start;
    while i < end
        invariant
            start <= from <= i <= end <= s@.len(),
            pre == s@.subrange(0, end as int),
            colon_from(pre, from as int) == colon_from(pre, i as int),
            forall|k: int| 0 <= k < out@.len() ==> (#[trigger] out@[k]).0 <= out@[k].1 <= end,
            ({
                let want = fields_from(s@, start as int, end as int);
                let got = out@.map_values(|p: (usize, usize)| (p.0 as int, p.1 as int));
                got + fields_from(s@, from as int, end as int) == want
            }),
        decreases end - i,
    {
        if s[i] == ':' {
            let ghost old_out = out@;
            proof {
                assert(pre[i as int] == ':');
                assert(colon_from(pre, i as int) == i);
            }
            out.push((from, i));
            proof {
                let f = |p: (usize, usize)| (p.0 as int, p.1 as int);
                assert(out@.map_values(f) =~= old_out.map_values(f).push((from as int, i as int)));
                assert(fields_from(s@, from as int, end as int) == seq![(from as int, i as int)] + fields_from(s@, i + 1, end as int));
                assert(old_out.map_values(f).push((from as int, i as int)) + fields_from(s@, i + 1, end as int)
                    =~= old_out.map_values(f) + fields_from(s@, from as int, end as int));
            }
            from = i + 1;
        } else {
            assert(pre[i as int] != ':');
        }
        i = i + 1;
    }
    let ghost old_out = out@;
    proof {
        assert(colon_from(pre, i as int) == -1);
        assert(fields_from(s@, from as int, end as int) == seq![(from as int, end as int)]);
    }
    out.push((from, end));
    proof {
        let f = |p: (usize, usize)| (p.0 as int, p.1 as int);
        assert(out@.map_values(f) =~= old_out.map_values(f).push((from as int, end as int)));
        let want = fields_from(s@, start as int, end as int);
        assert(out@.map_values(f) =~= want);
        assert forall|k: int| 0 <= k < out@.len() implies (#[trigger] out@[k]).0 as int == want[k].0 && out@[k].1 as int == want[k].1 by {
            assert(out@.map_values(f)[k] == f(out@[k]));
        }
    }
    out
}

} // verus!
