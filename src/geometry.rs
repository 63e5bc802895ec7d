use vstd::prelude::*;
use vstd::string::StringSliceAdditionalSpecFns;

verus! {

pub open spec fn is_digit(c: u8) -> bool {
    48 <= c <= 57
}

/// The value of a run of decimal digits.
pub open spec fn digits_value(s: Seq<u8>) -> int
    decreases s.len(),
{
    if s.len() == 0 {
        0
    } else {
        digits_value(s.drop_last()) * 10 + (s.last() - 48)
    }
}

pub open spec fn all_digits(s: Seq<u8>) -> bool {
    forall|i: int| 0 <= i < s.len() ==> is_digit(#[trigger] s[i])
}

/// The length of a leading `+` or `-` sign.
pub open spec fn sign_len(s: Seq<u8>) -> int {
    if s.len() > 0 && (s[0] == 45u8 || s[0] == 43u8) { 1 } else { 0 }
}

/// A decimal `i32` with an optional `+` or `-` sign, as Rust's integer parsing
/// reads it.
pub open spec fn parse_i32_spec(s: Seq<u8>) -> Option<i32> {
    let digits = s.skip(sign_len(s));
    let v = if sign_len(s) == 1 && s[0] == 45u8 { -digits_value(digits) } else { digits_value(digits) };
    if digits.len() > 0 && all_digits(digits) && i32::MIN <= v <= i32::MAX {
        Some(v as i32)
    } else {
        None
    }
}

pub open spec fn count_byte(s: Seq<u8>, c: u8) -> nat
    decreases s.len(),
{
    if s.len() == 0 {
        0
    } else {
        (if s[0] == c { 1nat } else { 0nat }) + count_byte(s.drop_first(), c)
    }
}

/// The position of the first `c` in `s`, or its length when there is none.
pub open spec fn first_index(s: Seq<u8>, c: u8) -> int
    decreases s.len(),
{
    if s.len() == 0 {
        0
    } else if s[0] == c {
        0
    } else {
        1 + first_index(s.drop_first(), c)
    }
}

pub const GEOMETRY_FORM_ERROR: &'static str = "must be of form 'width'x'height'";
pub const GEOMETRY_INT_ERROR: &'static str = "at least one argument wasn't an integer";

/// A geometry `WIDTHxHEIGHT`: exactly one `x`, with an `i32` on each side.
pub open spec fn geometry_spec(s: Seq<u8>) -> Result<(i32, i32), Seq<char>> {
    if count_byte(s, 120u8) != 1 {
        Err(GEOMETRY_FORM_ERROR@)
    } else {
        let k = first_index(s, 120u8);
        match (parse_i32_spec(s.take(k)), parse_i32_spec(s.skip(k + 1))) {
            (Some(w), Some(h)) => Ok((w, h)),
            _ => Err(GEOMETRY_INT_ERROR@),
        }
    }
}

proof fn lemma_first_index_bound(s: Seq<u8>, c: u8)
    ensures
        0 <= first_index(s, c) <= s.len(),
        count_byte(s, c) > 0 ==> first_index(s, c) < s.len(),
    decreases s.len(),
{
    if s.len() > 0 {
        lemma_first_index_bound(s.drop_first(), c);
    }
}

proof fn lemma_digits_grow(s: Seq<u8>, n: int)
    requires
        0 <= n <= s.len(),
        forall|i: int| 0 <= i < s.len() ==> is_digit(#[trigger] s[i]),
    ensures
        digits_value(s) >= digits_value(s.take(n)),
        digits_value(s.take(n)) >= 0,
    decreases s.len(),
{
    if s.len() == 0 {
        assert(s.take(n) =~= s);
    } else if n == s.len() {
        assert(s.take(n) =~= s);
        lemma_digits_grow(s.drop_last(), n - 1);
        assert(s.drop_last().take(n - 1) =~= s.drop_last());
    } else {
        lemma_digits_grow(s.drop_last(), n);
        assert(s.drop_last().take(n) =~= s.take(n));
        lemma_digits_grow(s.drop_last(), s.len() - 1);
        assert(s.drop_last().take(s.len() - 1) =~= s.drop_last());
    }
}

fn parse_i32(b: &[u8], lo: usize, hi: usize) -> (r: Option<i32>)
    requires
        lo <= hi <= b@.len(),
    ensures
        r == parse_i32_spec(b@.subrange(lo as int, hi as int)),
{
    let ghost s = b@.subrange(lo as int, hi as int);
    let mut start = lo;
    let mut neg = false;
    if lo < hi && (b[lo] == 45u8 || b[lo] == 43u8) {
        neg = b[lo] == 45u8;
        start = lo + 1;
    }
    let ghost digits = b@.subrange(start as int, hi as int);
    assert(digits =~= s.skip(sign_len(s)));
    if start == hi {
        return None;
    }
    let mut acc: i64 = 0;
    let mut i = start;
    assert(b@.subrange(start as int, start as int) =~= Seq::<u8>::empty());
    while i < hi
        invariant
            lo <= start <= i <= hi <= b@.len(),
            digits == b@.subrange(start as int, hi as int),
            s == b@.subrange(lo as int, hi as int),
            digits == s.skip(sign_len(s)),
            neg == (sign_len(s) == 1 && s[0] == 45u8),
            forall|j: int| start <= j < i ==> is_digit(#[trigger] b@[j]),
            acc == digits_value(b@.subrange(start as int, i as int)),
            0 <= acc <= 2147483648,
        decreases hi - i,
    {
        let c = b[i];
        if !(48u8 <= c && c <= 57u8) {
            assert(digits[i - start] == b@[i as int]);
            assert(!all_digits(digits));
            return None;
        }
        let ghost pre = b@.subrange(start as int, i as int);
        let ghost next = b@.subrange(start as int, i + 1);
        assert(next.drop_last() =~= pre);
        assert(next.last() == c);
        acc = acc * 10 + (c - 48u8) as i64;
        i = i + 1;
        assert(acc == digits_value(b@.subrange(start as int, i as int)));
        if acc > 2147483648 {
            proof {
                if all_digits(digits) {
                    lemma_digits_grow(digits, i - start);
                    assert(digits.take(i - start) =~= b@.subrange(start as int, i as int));
                }
            }
            return None;
        }
    }
    assert(b@.subrange(start as int, i as int) =~= digits);
    assert(all_digits(digits));
    let v: i64 = if neg { -acc } else { acc };
    if v > 2147483647 {
        return None;
    }
    Some(v as i32)
}


/// Reads a window geometry written `WIDTHxHEIGHT`.
pub fn parse_geometry(input: &str) -> (r: Result<(i32, i32), String>)
    ensures
        match r {
            Ok(p) => geometry_spec(input.spec_bytes()) == Ok::<(i32, i32), Seq<char>>(p),
            Err(m) => geometry_spec(input.spec_bytes()) == Err::<(i32, i32), Seq<char>>(m@),
        },
{
    let b = input.as_bytes();
    let ghost s = b@;
    let n = b.len();
    let mut count: usize = 0;
    let mut first: usize = n;
    let mut found = false;
    let mut i: usize = 0;
    assert(s.skip(0) =~= s);
    while i < n
        invariant
            n == s.len(),
            s == b@,
            i <= n,
            count <= i,
            count + count_byte(s.skip(i as int), 120u8) == count_byte(s, 120u8),
            found ==> first < i && first_index(s, 120u8) == first,
            !found ==> first_index(s, 120u8) == i + first_index(s.skip(i as int), 120u8),
            found == (count > 0),
        decreases n - i,
    {
        assert(s.skip(i as int).drop_first() =~= s.skip(i + 1));
        if b[i] == 120u8 {
            if !found {
                first = i;
                found = true;
            }
            count = count + 1;
        }
        i = i + 1;
    }
    if count != 1 {
        return Err(GEOMETRY_FORM_ERROR.to_owned());
    }
    proof { lemma_first_index_bound(s, 120u8); }
    let k = first;
    assert(b@.subrange(0, k as int) =~= s.take(k as int));
    assert(b@.subrange(k + 1, n as int) =~= s.skip(k + 1));
    match (parse_i32(b, 0, k), parse_i32(b, k + 1, n)) {
        (Some(w), Some(h)) => Ok((w, h)),
        _ => Err(GEOMETRY_INT_ERROR.to_owned()),
    }
}

} // verus!
